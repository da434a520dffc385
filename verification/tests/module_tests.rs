use wasmito::error::Error;
use wasmito::module::Module;

const ODD_WAT: &str = r#"
        (module
            (import "even" "even" (func $even (param i32) (result i32)))
            (export "odd" (func $odd))
            (func $odd (param $0 i32) (result i32)
                local.get $0
                i32.eqz
                if
                i32.const 0
                return
                end
                local.get $0
                i32.const 1
                i32.sub
                call $even))
        "#;

#[test]
fn test_move_semantics() {
    let module = Module::from_wat(None, ODD_WAT).unwrap();

    let file = "./<input>.wat";

    let location = module.addr2line(50).unwrap();
    assert_eq!(location.column(), Some(17));
    assert_eq!(location.file(), Some(file.into()));
    assert_eq!(location.line(), Some(7));

    let bytes = module.bytes();
    assert_eq!(bytes.len(), 397);

    let files = module.files().unwrap();
    assert_eq!(files, vec![String::from(file)]);
}

#[test]
fn fast_addresses_work() {
    const WAT: &str = r#"
          (module
            (import "even" "even" (func $even (param i32) (result i32)))
            (export "odd" (func $odd))
            (func $odd (param $0 i32) (result i32)
              local.get $0
              i32.eqz
              if
              i32.const 0
              return
              end
              local.get $0
              i32.const 1
              i32.sub
              call $even))
        "#;

    let mapped_module = Module::from_wat(None, WAT).unwrap();
    let mapping = mapped_module.mappings();
    println!("{mapping:?}");
}

#[test]
fn mappings_lie_in_the_code_section() {
    let module = Module::from_wat(None, ODD_WAT).unwrap();
    let mappings = module.mappings().unwrap();
    assert!(!mappings.is_empty());
    let location = module.addr2line(50).unwrap();
    // The mapping that covers byte 50 names the same source position.
    let covering = mappings
        .iter()
        .find(|m| m.address() <= 50 && 50 < m.address() + m.range_size())
        .unwrap();
    assert_eq!(covering.line(), location.line());
    assert_eq!(covering.column(), location.column());
    assert_eq!(covering.file(), location.file());
    let bytes = module.bytes();
    let (start, size) = wasmparser::Parser::new(0)
        .parse_all(bytes)
        .find_map(|p| match p.unwrap() {
            wasmparser::Payload::CodeSectionStart { unchecked_range, size, .. } => {
                Some((unchecked_range.start, u64::from(size)))
            }
            _ => None,
        })
        .unwrap();
    for m in &mappings {
        assert_eq!(m.file(), Some(String::from("./<input>.wat")));
        assert!(start <= m.address() && m.address() < start + size);
    }
}

#[test]
fn lookups_repeat() {
    let module = Module::from_wat(None, ODD_WAT).unwrap();
    let first = module.addr2line(50).unwrap();
    let second = module.addr2line(50).unwrap();
    assert_eq!(first.line(), second.line());
    assert_eq!(first.column(), second.column());
    assert_eq!(first.file(), second.file());
    assert_eq!(module.mappings().unwrap().len(), module.mappings().unwrap().len());
}

#[test]
fn path_names_the_source_file() {
    let module = Module::from_wat(Some("odd.wat"), ODD_WAT).unwrap();
    let files = module.files().unwrap();
    assert_eq!(files.len(), 1);
    assert!(files[0].ends_with("odd.wat"));
}

#[test]
fn malformed_text_is_refused() {
    assert!(Module::from_wat(None, "(module (func $f (result i32) i32.add").is_err());
}

#[test]
fn bytes_round_trip() {
    let module = Module::new(vec![0, 0x61, 0x73, 0x6d, 1, 0, 0, 0]);
    assert_eq!(module.bytes(), &[0, 0x61, 0x73, 0x6d, 1, 0, 0, 0]);
}

#[test]
fn garbage_is_not_a_binary() {
    let module = Module::new(vec![1, 2, 3]);
    assert!(matches!(module.addr2line(0), Err(Error::Wasmparser(_))));
    assert!(matches!(module.mappings(), Err(Error::Wasmparser(_))));
    assert!(matches!(module.files(), Err(Error::Wasmparser(_))));
}

#[test]
fn module_without_code_has_no_code_section() {
    let module = Module::from_wat(None, "(module (memory 1))").unwrap();
    assert!(matches!(module.mappings(), Err(Error::NoCodeSection)));
}

#[test]
fn address_outside_every_module() {
    let module = Module::from_wat(None, ODD_WAT).unwrap();
    assert!(matches!(module.addr2line(100_000), Err(Error::ContextCreation2(_))));
}

#[test]
fn address_before_the_code() {
    let module = Module::from_wat(None, ODD_WAT).unwrap();
    assert!(matches!(module.addr2line(3), Err(Error::ContextCreation2(_))));
}

#[test]
fn module_without_debug_information() {
    let module = Module::new(wasmito_plain_module());
    match module.addr2line(0x20) {
        Err(Error::FindTextOffset2(_)) | Err(Error::ContextCreation2(_)) => {}
        _ => panic!("no location expected"),
    }
}

/// A module with one function and no custom sections.
fn wasmito_plain_module() -> Vec<u8> {
    vec![
        0x00, 0x61, 0x73, 0x6d, 0x01, 0x00, 0x00, 0x00, // preamble
        0x01, 0x04, 0x01, 0x60, 0x00, 0x00, // type section: () -> ()
        0x03, 0x02, 0x01, 0x00, // function section
        0x0a, 0x04, 0x01, 0x02, 0x00, 0x0b, // code section
    ]
}

#[test]
fn errors_repeat_with_the_same_text() {
    let module = Module::from_wat(None, ODD_WAT).unwrap();
    let first = module.addr2line(100_000);
    let second = module.addr2line(100_000);
    match (first, second) {
        (Err(Error::ContextCreation2(a)), Err(Error::ContextCreation2(b))) => {
            assert_eq!(a, b);
            assert_eq!(a, wasmito::module::ADDRESS_CONTEXT_SITE);
        }
        _ => panic!("both lookups should find no module"),
    }
    let garbage = Module::new(vec![1, 2, 3]);
    match (garbage.mappings(), garbage.files()) {
        (Err(Error::Wasmparser(a)), Err(Error::Wasmparser(b))) => assert_eq!(a, b),
        _ => panic!("both should fail to read the binary"),
    }
}

#[test]
fn malformed_text_reports_the_parser_error() {
    let text = "(module (func $f (result i32) i32.add";
    let expected = {
        let mut parser = wat::Parser::new();
        parser.generate_dwarf(wat::GenerateDwarf::Full);
        format!("{:?}", parser.parse_str(None, text).unwrap_err())
    };
    match Module::from_wat(None, text) {
        Err(wasmito::error::WatParseError(reason)) => assert_eq!(reason, expected),
        Ok(_) => panic!("the text is malformed"),
    }
}
