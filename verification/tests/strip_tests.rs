use regex::RegexSet;
use wasmito::module::Module;
use wasmito::payload::{Payload, PayloadKind};
use wasmito::strip::{Config, Error};

/// The names of the custom sections of a binary, nested ones included.
fn custom_sections(bytes: &[u8]) -> Vec<String> {
    let mut names = Vec::new();
    for payload in wasmparser::Parser::new(0).parse_all(bytes) {
        if let wasmparser::Payload::CustomSection(c) = payload.unwrap() {
            names.push(c.name().to_string());
        }
    }
    names
}

/// The ids and contents of the sections that are not custom sections.
fn other_sections(bytes: &[u8]) -> Vec<(u8, Vec<u8>)> {
    let mut sections = Vec::new();
    for payload in wasmparser::Parser::new(0).parse_all(bytes) {
        let payload = payload.unwrap();
        if let wasmparser::Payload::CustomSection(_) = payload {
            continue;
        }
        if let Some((id, range)) = payload.as_section() {
            sections.push((id, bytes[range.start as usize..range.end as usize].to_vec()));
        }
    }
    sections
}

const WAT: &str = r#"
    (module
      (func $add (param $a i32) (param $b i32) (result i32)
        local.get $a
        local.get $b
        i32.add)
      (export "add" (func $add))
      (@custom "producers" "x")
      (@custom "dylink.0" "y")
      (@custom "component-type:world" "z"))
"#;

fn debug_module() -> Vec<u8> {
    Module::from_wat(None, WAT).unwrap().bytes().to_vec()
}

/// A module with one function and no custom sections.
fn plain_module() -> Vec<u8> {
    vec![
        0x00, 0x61, 0x73, 0x6d, 0x01, 0x00, 0x00, 0x00, // preamble
        0x01, 0x04, 0x01, 0x60, 0x00, 0x00, // type section: () -> ()
        0x03, 0x02, 0x01, 0x00, // function section
        0x0a, 0x04, 0x01, 0x02, 0x00, 0x0b, // code section
    ]
}

#[test]
fn strip_all_removes_every_custom_section() {
    let input = debug_module();
    assert!(!custom_sections(&input).is_empty());
    let out = Config::new(true, vec![]).strip(input.clone()).unwrap();
    assert!(custom_sections(&out).is_empty());
    assert_eq!(other_sections(&out), other_sections(&input));
}

#[test]
fn default_keeps_what_tools_need() {
    let input = debug_module();
    let names = custom_sections(&input);
    assert!(names.iter().any(|n| n.starts_with(".debug_")));
    let out = Config::new(false, vec![]).strip(input.clone()).unwrap();
    let kept = custom_sections(&out);
    let expected: Vec<String> = names
        .into_iter()
        .filter(|n| n == "name" || n == "dylink.0" || n.starts_with("component-type:"))
        .collect();
    assert_eq!(kept, expected);
    assert!(kept.contains(&String::from("name")));
    assert!(kept.contains(&String::from("dylink.0")));
    assert!(kept.contains(&String::from("component-type:world")));
    assert_eq!(other_sections(&out), other_sections(&input));
}

#[test]
fn patterns_select_what_goes() {
    let input = debug_module();
    let names = custom_sections(&input);
    let out = Config::new(false, vec![String::from("^\\.debug_"), String::from("^producers$")])
        .strip(input)
        .unwrap();
    let expected: Vec<String> = names
        .into_iter()
        .filter(|n| !n.starts_with(".debug_") && n != "producers")
        .collect();
    assert_eq!(custom_sections(&out), expected);
}

#[test]
fn all_overrides_patterns() {
    let input = debug_module();
    let a = Config::new(true, vec![String::from("^name$")]).strip(input.clone()).unwrap();
    let b = Config::new(true, vec![]).strip(input).unwrap();
    assert_eq!(a, b);
}

#[test]
fn plain_module_is_unchanged() {
    let input = plain_module();
    assert_eq!(Config::new(true, vec![]).strip(input.clone()).unwrap(), input);
    assert_eq!(Config::new(false, vec![]).strip(input.clone()).unwrap(), input);
}

#[test]
fn stripping_twice_changes_nothing_more() {
    let config = Config::new(false, vec![]);
    let once = config.strip(debug_module()).unwrap();
    let twice = config.strip(once.clone()).unwrap();
    assert_eq!(once, twice);
}

#[test]
fn bad_pattern_is_refused() {
    let res = Config::new(false, vec![String::from("(")]).strip(plain_module());
    assert!(matches!(res, Err(Error::RegexFailed(_))));
    let res = Config::new(true, vec![String::from("(")]).strip(vec![1, 2, 3]);
    assert!(matches!(res, Err(Error::RegexFailed(_))));
}

#[test]
fn garbage_is_refused() {
    let res = Config::new(true, vec![]).strip(vec![1, 2, 3]);
    assert!(matches!(res, Err(Error::ParsePayloadRead(_))));
    let mut truncated = plain_module();
    truncated.pop();
    let res = Config::new(true, vec![]).strip(truncated);
    assert!(matches!(res, Err(Error::ParsePayloadRead(_))));
}

#[test]
fn nested_modules_are_rebuilt() {
    let input = wat::parse_str(
        r#"(component
             (core module $m
               (func (export "f"))
               (@custom "producers" "x"))
             (@custom "outer" "y"))"#,
    )
    .unwrap();
    let names = custom_sections(&input);
    assert!(names.contains(&String::from("producers")));
    assert!(names.contains(&String::from("outer")));
    let out = Config::new(true, vec![]).strip(input.clone()).unwrap();
    assert!(out.starts_with(&[0x00, 0x61, 0x73, 0x6d, 0x0d, 0x00, 0x01, 0x00]));
    assert!(custom_sections(&out).is_empty());
    assert!(wasmparser::Validator::new().validate_all(&out).is_ok());
    let kept = Config::new(false, vec![String::from("^outer$")]).strip(input).unwrap();
    let expected: Vec<String> = names.into_iter().filter(|n| n != "outer").collect();
    assert_eq!(custom_sections(&kept), expected);
}

#[test]
fn payloads_are_copied_or_dropped() {
    // preamble, then a custom section "name" with contents [7], then a type section.
    let input: Vec<u8> = vec![
        0x00, 0x61, 0x73, 0x6d, 0x01, 0x00, 0x00, 0x00, //
        0x00, 0x06, 0x04, b'n', b'a', b'm', b'e', 0x07, //
        0x01, 0x01, 0x00,
    ];
    let payloads = vec![
        Payload { kind: PayloadKind::ModuleHeader, section: None },
        Payload { kind: PayloadKind::Custom(String::from("name")), section: Some((0, 10, 16)) },
        Payload { kind: PayloadKind::Other, section: Some((1, 18, 19)) },
        Payload { kind: PayloadKind::Finish, section: None },
    ];
    let none = RegexSet::new(Vec::<String>::new()).unwrap();
    let kept = Config::new(false, vec![]).strip_payloads(&none, &input, &payloads).unwrap();
    assert_eq!(kept, input);
    let dropped = Config::new(true, vec![]).strip_payloads(&none, &input, &payloads).unwrap();
    assert_eq!(dropped, vec![0x00, 0x61, 0x73, 0x6d, 0x01, 0x00, 0x00, 0x00, 0x01, 0x01, 0x00]);
    let set = RegexSet::new(["^na"]).unwrap();
    let by_pattern = Config::new(false, vec![String::from("^na")]).strip_payloads(&set, &input, &payloads).unwrap();
    assert_eq!(by_pattern, dropped);
}

#[test]
fn nested_output_is_wrapped_as_a_section() {
    let input: Vec<u8> = vec![0x01, 0x02, 0x03];
    let payloads = vec![
        Payload { kind: PayloadKind::ComponentHeader, section: None },
        Payload { kind: PayloadKind::Nested, section: None },
        Payload { kind: PayloadKind::ModuleHeader, section: None },
        Payload { kind: PayloadKind::Other, section: Some((5, 0, 3)) },
        Payload { kind: PayloadKind::Finish, section: None },
        Payload { kind: PayloadKind::Finish, section: None },
    ];
    let none = RegexSet::new(Vec::<String>::new()).unwrap();
    let out = Config::new(true, vec![]).strip_payloads(&none, &input, &payloads).unwrap();
    let mut expected = vec![0x00, 0x61, 0x73, 0x6d, 0x0d, 0x00, 0x01, 0x00];
    // a core module section (id 1) of 13 bytes: preamble, then section 5 of 3 bytes
    expected.extend_from_slice(&[0x01, 13, 0x00, 0x61, 0x73, 0x6d, 0x01, 0x00, 0x00, 0x00, 0x05, 0x03, 0x01, 0x02, 0x03]);
    assert_eq!(out, expected);
}

#[test]
fn section_outside_the_input_is_refused() {
    let input: Vec<u8> = vec![0x01, 0x02];
    let payloads = vec![
        Payload { kind: PayloadKind::ModuleHeader, section: None },
        Payload { kind: PayloadKind::Other, section: Some((1, 0, 3)) },
    ];
    let none = RegexSet::new(Vec::<String>::new()).unwrap();
    assert!(Config::new(true, vec![]).strip_payloads(&none, &input, &payloads).is_none());
}

#[test]
fn long_section_lengths_take_several_bytes() {
    let data = vec![0xaa_u8; 300];
    let payloads = vec![Payload { kind: PayloadKind::Other, section: Some((11, 0, 300)) }];
    let none = RegexSet::new(Vec::<String>::new()).unwrap();
    let out = Config::new(true, vec![]).strip_payloads(&none, &data, &payloads).unwrap();
    assert_eq!(&out[..3], &[11, 0xac, 0x02]);
    assert_eq!(out.len(), 303);
}

#[test]
fn nested_component_is_wrapped_as_a_component_section() {
    let input: Vec<u8> = vec![];
    let payloads = vec![
        Payload { kind: PayloadKind::ComponentHeader, section: None },
        Payload { kind: PayloadKind::Nested, section: None },
        Payload { kind: PayloadKind::ComponentHeader, section: None },
        Payload { kind: PayloadKind::Finish, section: None },
        Payload { kind: PayloadKind::Finish, section: None },
    ];
    let none = RegexSet::new(Vec::<String>::new()).unwrap();
    let out = Config::new(false, vec![]).strip_payloads(&none, &input, &payloads).unwrap();
    let preamble = [0x00, 0x61, 0x73, 0x6d, 0x0d, 0x00, 0x01, 0x00];
    let mut expected = preamble.to_vec();
    expected.extend_from_slice(&[0x04, 0x08]);
    expected.extend_from_slice(&preamble);
    assert_eq!(out, expected);
}

#[test]
fn payloads_after_the_end_are_ignored() {
    let input: Vec<u8> = vec![0x01, 0x02];
    let payloads = vec![
        Payload { kind: PayloadKind::ModuleHeader, section: None },
        Payload { kind: PayloadKind::Finish, section: None },
        Payload { kind: PayloadKind::Other, section: Some((1, 0, 2)) },
    ];
    let none = RegexSet::new(Vec::<String>::new()).unwrap();
    let out = Config::new(false, vec![]).strip_payloads(&none, &input, &payloads).unwrap();
    assert_eq!(out, vec![0x00, 0x61, 0x73, 0x6d, 0x01, 0x00, 0x00, 0x00]);
}

#[test]
fn removed_section_leaves_no_trace() {
    let input: Vec<u8> = vec![0x05, 0x06, 0x07, 0x08];
    let with_custom = vec![
        Payload { kind: PayloadKind::ModuleHeader, section: None },
        Payload { kind: PayloadKind::Other, section: Some((1, 0, 1)) },
        Payload { kind: PayloadKind::Custom(String::from(".debug_info")), section: Some((0, 1, 3)) },
        Payload { kind: PayloadKind::Other, section: Some((2, 3, 4)) },
        Payload { kind: PayloadKind::Finish, section: None },
    ];
    let without_custom = vec![
        Payload { kind: PayloadKind::ModuleHeader, section: None },
        Payload { kind: PayloadKind::Other, section: Some((1, 0, 1)) },
        Payload { kind: PayloadKind::Other, section: Some((2, 3, 4)) },
        Payload { kind: PayloadKind::Finish, section: None },
    ];
    let none = RegexSet::new(Vec::<String>::new()).unwrap();
    let config = Config::new(false, vec![]);
    let a = config.strip_payloads(&none, &input, &with_custom).unwrap();
    let b = config.strip_payloads(&none, &input, &without_custom).unwrap();
    assert_eq!(a, b);
    assert_eq!(a, vec![0x00, 0x61, 0x73, 0x6d, 0x01, 0x00, 0x00, 0x00, 0x01, 0x01, 0x05, 0x02, 0x01, 0x08]);
}

#[test]
fn which_custom_sections_go() {
    let none = RegexSet::new(Vec::<String>::new()).unwrap();
    let default = Config::new(false, vec![]);
    assert!(!default.strips_section(&none, &String::from("name")));
    assert!(!default.strips_section(&none, &String::from("dylink.0")));
    assert!(!default.strips_section(&none, &String::from("component-type:world")));
    assert!(default.strips_section(&none, &String::from("component-type")));
    assert!(default.strips_section(&none, &String::from(".debug_info")));
    assert!(default.strips_section(&none, &String::from("names")));
    let all = Config::new(true, vec![String::from("^x$")]);
    assert!(all.strips_section(&none, &String::from("name")));
    let set = RegexSet::new(["^x$"]).unwrap();
    let selective = Config::new(false, vec![String::from("^x$")]);
    assert!(selective.strips_section(&set, &String::from("x")));
    assert!(!selective.strips_section(&set, &String::from(".debug_info")));
    assert!(!selective.strips_section(&set, &String::from("xy")));
}

#[test]
fn errors_carry_the_outside_texts() {
    let res = Config::new(false, vec![String::from("(")]).strip(plain_module());
    let expected = RegexSet::new(["("]).unwrap_err().to_string();
    assert!(matches!(res, Err(Error::RegexFailed(text)) if text == expected));
    let garbage = vec![1, 2, 3];
    let message = wasmparser::Parser::new(0)
        .parse_all(&garbage)
        .find_map(|p| p.err())
        .unwrap()
        .message()
        .to_string();
    let res = Config::new(true, vec![]).strip(garbage);
    assert!(matches!(res, Err(Error::ParsePayloadRead(text)) if text == message));
}
