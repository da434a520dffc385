//! Removing custom sections from WebAssembly modules and components.
//!
//! A binary is read as a stream of payloads (see `payload`); every section
//! is copied to the output as it stands, except the custom sections that the
//! configuration selects, and nested modules and components are rebuilt from
//! their own stripped payloads.
use vstd::prelude::*;
use regex::RegexSet;

use crate::encode::{
    leb128, append_raw_section, component_header, component_preamble, component_section_id,
    core_module_preamble, core_module_section_id, encode_bytes, encoded_section, module_header,
};
use crate::patterns::{
    compile_set, pattern_matcher, regex_error_text, regex_set_failure, set_matcher, set_matches,
    texts,
};
use crate::payload::{
    read_payloads, reader_error_message, wasm_payload_stream, Payload, PayloadKind,
};
use crate::text::{has_prefix, same_text};

verus! {

/// Why stripping failed.
#[derive(Debug, Clone)]
pub enum Error {
    /// A pattern of the configuration is not a valid regular expression.
    RegexFailed(String),
    /// The input is not a well-formed WebAssembly binary.
    ParsePayloadRead(String),
}

/// Which custom sections to remove.
pub struct Config {
    /// Remove all custom sections, regardless of name.
    all: bool,
    /// Remove the custom sections whose name one of these patterns matches.
    to_delete: Vec<String>,
}

/// Whether a custom section called `name` is removed. With `all`, every one
/// is; else, where deletion patterns were given (`selective`), those whose
/// name the patterns match (`matcher`); else all but the `name` section, the
/// `component-type:` sections and the `dylink.0` section.
pub open spec fn strips_custom_section(
    all: bool,
    selective: bool,
    matcher: spec_fn(Seq<char>) -> bool,
    name: Seq<char>,
) -> bool {
    if all {
        true
    } else if selective {
        matcher(name)
    } else {
        !(name == "name"@ || "component-type:"@.is_prefix_of(name) || name == "dylink.0"@)
    }
}

/// The state of a stripping pass: still reading, with the output of the
/// innermost open module or component and the outputs of those around it;
/// done, with the final output; or refused, where the encoder would refuse
/// a length above `u32::MAX` or a section lies outside the input.
pub enum StripRun {
    Running(Seq<u8>, Seq<Seq<u8>>),
    Finished(Seq<u8>),
    Refused,
}

/// The output after `p`'s section is handled: a custom section that is
/// stripped leaves it as it is; any other section is appended as it stands
/// in the input.
pub open spec fn with_section(
    all: bool,
    selective: bool,
    matcher: spec_fn(Seq<char>) -> bool,
    input: Seq<u8>,
    out: Seq<u8>,
    p: Payload,
) -> Option<Seq<u8>> {
    if p.kind matches PayloadKind::Custom(name) && strips_custom_section(
        all,
        selective,
        matcher,
        name@,
    ) {
        Some(out)
    } else {
        match p.section {
            None => Some(out),
            Some((id, start, end)) => if start <= end && end <= input.len() && end - start
                <= u32::MAX {
                Some(out + encoded_section(id, input.subrange(start as int, end as int)))
            } else {
                None
            },
        }
    }
}

/// `with_section` on a running pass.
pub open spec fn continue_run(
    all: bool,
    selective: bool,
    matcher: spec_fn(Seq<char>) -> bool,
    input: Seq<u8>,
    out: Seq<u8>,
    stack: Seq<Seq<u8>>,
    p: Payload,
) -> StripRun {
    match with_section(all, selective, matcher, input, out, p) {
        Some(next) => StripRun::Running(next, stack),
        None => StripRun::Refused,
    }
}

/// One payload of a stripping pass. A preamble is written out; a nested
/// module or component opens a fresh output; the end of a nested one wraps
/// its output as a module or component section of the enclosing output; the
/// end of the outermost one finishes the pass.
pub open spec fn strip_step(
    all: bool,
    selective: bool,
    matcher: spec_fn(Seq<char>) -> bool,
    input: Seq<u8>,
    run: StripRun,
    p: Payload,
) -> StripRun {
    match run {
        StripRun::Running(out, stack) => match p.kind {
            PayloadKind::Nested => StripRun::Running(Seq::empty(), stack.push(out)),
            PayloadKind::Finish => if stack.len() == 0 {
                StripRun::Finished(out)
            } else if out.len() > u32::MAX {
                StripRun::Refused
            } else {
                let id: u8 = if component_preamble().is_prefix_of(out) {
                    4
                } else {
                    1
                };
                continue_run(
                    all,
                    selective,
                    matcher,
                    input,
                    stack.last() + encoded_section(id, out),
                    stack.drop_last(),
                    p,
                )
            },
            PayloadKind::ModuleHeader => continue_run(
                all,
                selective,
                matcher,
                input,
                out + core_module_preamble(),
                stack,
                p,
            ),
            PayloadKind::ComponentHeader => continue_run(
                all,
                selective,
                matcher,
                input,
                out + component_preamble(),
                stack,
                p,
            ),
            _ => continue_run(all, selective, matcher, input, out, stack, p),
        },
        _ => run,
    }
}

/// A stripping pass over the payloads, in order.
pub open spec fn strip_run(
    all: bool,
    selective: bool,
    matcher: spec_fn(Seq<char>) -> bool,
    input: Seq<u8>,
    payloads: Seq<Payload>,
) -> StripRun
    decreases payloads.len(),
{
    if payloads.len() == 0 {
        StripRun::Running(Seq::empty(), Seq::empty())
    } else {
        strip_step(
            all,
            selective,
            matcher,
            input,
            strip_run(all, selective, matcher, input, payloads.drop_last()),
            payloads.last(),
        )
    }
}

/// The output of a stripping pass, if it was not refused.
pub open spec fn stripped(
    all: bool,
    selective: bool,
    matcher: spec_fn(Seq<char>) -> bool,
    input: Seq<u8>,
    payloads: Seq<Payload>,
) -> Option<Seq<u8>> {
    match strip_run(all, selective, matcher, input, payloads) {
        StripRun::Running(out, _) => Some(out),
        StripRun::Finished(out) => Some(out),
        StripRun::Refused => None,
    }
}

/// What stripping `input` with a configuration comes to: the patterns do
/// not compile (with the error's text); the input is not well-formed (with
/// the reader's message); the stripped output; or a pass that the encoder
/// would refuse.
pub enum StripOutcome {
    BadPatterns(Seq<char>),
    Malformed(Seq<char>),
    Stripped(Seq<u8>),
    Unencodable,
}

/// The outcome of stripping `input`, where `all` and the deletion patterns
/// `to_delete` make up the configuration.
pub open spec fn strip_outcome(all: bool, to_delete: Seq<Seq<char>>, input: Seq<u8>) -> StripOutcome {
    match regex_set_failure(to_delete) {
        Some(text) => StripOutcome::BadPatterns(text),
        None => match wasm_payload_stream(input).1 {
            Some((message, _)) => StripOutcome::Malformed(message),
            None => match stripped(
                all,
                to_delete.len() > 0,
                pattern_matcher(to_delete),
                input,
                wasm_payload_stream(input).0,
            ) {
                Some(out) => StripOutcome::Stripped(out),
                None => StripOutcome::Unencodable,
            },
        },
    }
}

/// The message of the error that a pass the encoder would refuse gives.
pub open spec fn unencodable_message() -> Seq<char> {
    "a section or nested module is too large to encode"@
}

/// The contents of each buffer, in order.
pub open spec fn buffers(stack: Seq<Vec<u8>>) -> Seq<Seq<u8>> {
    stack.map_values(|b: Vec<u8>| b@)
}

/// A finished or refused pass stays as it is.
proof fn lemma_run_settled(
    all: bool,
    selective: bool,
    matcher: spec_fn(Seq<char>) -> bool,
    input: Seq<u8>,
    payloads: Seq<Payload>,
    k: int,
)
    requires
        0 <= k <= payloads.len(),
        !(strip_run(all, selective, matcher, input, payloads.take(k)) is Running),
    ensures
        strip_run(all, selective, matcher, input, payloads) == strip_run(
            all,
            selective,
            matcher,
            input,
            payloads.take(k),
        ),
    decreases payloads.len() - k,
{
    if k < payloads.len() {
        assert(payloads.take(k + 1).drop_last() =~= payloads.take(k));
        lemma_run_settled(all, selective, matcher, input, payloads, k + 1);
    } else {
        assert(payloads.take(k) =~= payloads);
    }
}

/// With `all`, every custom section is removed, whatever its name and
/// whatever the patterns.
pub proof fn law_all_strips_every_custom_section(
    selective: bool,
    matcher: spec_fn(Seq<char>) -> bool,
    name: Seq<char>,
)
    ensures
        strips_custom_section(true, selective, matcher, name),
{
}

/// Without `all` and without patterns, the `name` section, the `dylink.0`
/// section and every `component-type:` section are kept, and every other
/// custom section is removed.
pub proof fn law_default_keeps_what_tools_need(matcher: spec_fn(Seq<char>) -> bool, name: Seq<char>)
    ensures
        strips_custom_section(false, false, matcher, name) <==> !(name == "name"@
            || name == "dylink.0"@ || "component-type:"@.is_prefix_of(name)),
{
}

/// Where patterns were given and `all` is off, a custom section is removed
/// exactly when the patterns match its name.
pub proof fn law_patterns_decide(matcher: spec_fn(Seq<char>) -> bool, name: Seq<char>)
    ensures
        strips_custom_section(false, true, matcher, name) == matcher(name),
{
}

/// With `all`, the deletion patterns make no difference to a stripping pass.
pub proof fn law_all_ignores_patterns(
    selective1: bool,
    matcher1: spec_fn(Seq<char>) -> bool,
    selective2: bool,
    matcher2: spec_fn(Seq<char>) -> bool,
    input: Seq<u8>,
    payloads: Seq<Payload>,
)
    ensures
        strip_run(true, selective1, matcher1, input, payloads) == strip_run(
            true,
            selective2,
            matcher2,
            input,
            payloads,
        ),
        stripped(true, selective1, matcher1, input, payloads) == stripped(
            true,
            selective2,
            matcher2,
            input,
            payloads,
        ),
    decreases payloads.len(),
{
    if payloads.len() > 0 {
        law_all_ignores_patterns(
            selective1,
            matcher1,
            selective2,
            matcher2,
            input,
            payloads.drop_last(),
        );
        let p = payloads.last();
        assert forall|out: Seq<u8>| with_section(true, selective1, matcher1, input, out, p)
            == #[trigger] with_section(true, selective2, matcher2, input, out, p) by {}
    }
}

/// A custom section that the configuration removes leaves a pass as it was.
proof fn lemma_removed_section_is_skipped(
    all: bool,
    selective: bool,
    matcher: spec_fn(Seq<char>) -> bool,
    input: Seq<u8>,
    run: StripRun,
    p: Payload,
)
    requires
        p.kind matches PayloadKind::Custom(name) && strips_custom_section(
            all,
            selective,
            matcher,
            name@,
        ),
    ensures
        strip_step(all, selective, matcher, input, run, p) == run,
{
}

/// A custom section that the configuration removes leaves no trace: the
/// pass over the stream without it is the same.
pub proof fn law_removed_section_leaves_no_trace(
    all: bool,
    selective: bool,
    matcher: spec_fn(Seq<char>) -> bool,
    input: Seq<u8>,
    payloads: Seq<Payload>,
    k: int,
)
    requires
        0 <= k < payloads.len(),
        payloads[k].kind matches PayloadKind::Custom(name) && strips_custom_section(
            all,
            selective,
            matcher,
            name@,
        ),
    ensures
        strip_run(all, selective, matcher, input, payloads) == strip_run(
            all,
            selective,
            matcher,
            input,
            payloads.remove(k),
        ),
    decreases payloads.len(),
{
    let rest = payloads.drop_last();
    if k == payloads.len() - 1 {
        assert(payloads.remove(k) =~= rest);
        lemma_removed_section_is_skipped(
            all,
            selective,
            matcher,
            input,
            strip_run(all, selective, matcher, input, rest),
            payloads.last(),
        );
    } else {
        assert(rest[k] == payloads[k]);
        law_removed_section_leaves_no_trace(all, selective, matcher, input, rest, k);
        let shorter = payloads.remove(k);
        assert(shorter.drop_last() =~= rest.remove(k));
        assert(shorter.last() == payloads.last());
    }
}

/// With `all`, two configurations whose patterns both compile strip any
/// binary alike.
pub proof fn law_strip_all_ignores_patterns(
    to_delete1: Seq<Seq<char>>,
    to_delete2: Seq<Seq<char>>,
    input: Seq<u8>,
)
    requires
        regex_set_failure(to_delete1) is None,
        regex_set_failure(to_delete2) is None,
    ensures
        strip_outcome(true, to_delete1, input) == strip_outcome(true, to_delete2, input),
{
    law_all_ignores_patterns(
        to_delete1.len() > 0,
        pattern_matcher(to_delete1),
        to_delete2.len() > 0,
        pattern_matcher(to_delete2),
        input,
        wasm_payload_stream(input).0,
    );
}

/// The output of a pass that ended with every nested module or component
/// closed.
pub open spec fn settled_output(run: StripRun) -> Option<Seq<u8>> {
    match run {
        StripRun::Running(out, stack) => if stack.len() == 0 {
            Some(out)
        } else {
            None
        },
        StripRun::Finished(out) => Some(out),
        StripRun::Refused => None,
    }
}

/// The outermost output of a pass: the bottom of the stack of open outputs.
pub open spec fn outermost_output(run: StripRun) -> Option<Seq<u8>> {
    match run {
        StripRun::Running(out, stack) => if stack.len() == 0 {
            Some(out)
        } else {
            Some(stack[0])
        },
        StripRun::Finished(out) => Some(out),
        StripRun::Refused => None,
    }
}

proof fn lemma_with_section_extends(
    all: bool,
    selective: bool,
    matcher: spec_fn(Seq<char>) -> bool,
    input: Seq<u8>,
    out: Seq<u8>,
    p: Payload,
)
    ensures
        with_section(all, selective, matcher, input, out, p) matches Some(next) ==> out.is_prefix_of(next),
{
    if let Some(next) = with_section(all, selective, matcher, input, out, p) {
        if let Some((id, start, end)) = p.section {
            assert(out =~= next.subrange(0, out.len() as int));
        } else {
            assert(out =~= next.subrange(0, out.len() as int));
        }
    }
}

proof fn lemma_prefix_trans(a: Seq<u8>, b: Seq<u8>, c: Seq<u8>)
    requires
        a.is_prefix_of(b),
        b.is_prefix_of(c),
    ensures
        a.is_prefix_of(c),
{
    assert forall|i: int| 0 <= i < a.len() implies a[i] == c[i] by {
        assert(a[i] == b.subrange(0, a.len() as int)[i]);
        assert(b[i] == c.subrange(0, b.len() as int)[i]);
    }
    assert(a =~= c.subrange(0, a.len() as int));
}

/// Once the outermost output starts with `preamble`, every later step keeps it so.
proof fn lemma_outermost_kept(
    all: bool,
    selective: bool,
    matcher: spec_fn(Seq<char>) -> bool,
    input: Seq<u8>,
    run: StripRun,
    p: Payload,
    preamble: Seq<u8>,
)
    requires
        outermost_output(run) matches Some(o) && preamble.is_prefix_of(o),
    ensures
        outermost_output(strip_step(all, selective, matcher, input, run, p)) matches Some(o)
            ==> preamble.is_prefix_of(o),
{
    let next = strip_step(all, selective, matcher, input, run, p);
    if let StripRun::Running(out, stack) = run {
        match p.kind {
            PayloadKind::Nested => {
                if stack.len() > 0 {
                    assert(stack.push(out)[0] == stack[0]);
                }
            },
            PayloadKind::Finish => {
                if stack.len() > 0 && out.len() <= u32::MAX {
                    let id: u8 = if component_preamble().is_prefix_of(out) {
                        4
                    } else {
                        1
                    };
                    let parent = stack.last() + encoded_section(id, out);
                    lemma_with_section_extends(all, selective, matcher, input, parent, p);
                    if stack.len() == 1 {
                        assert(stack.last().is_prefix_of(parent)) by {
                            assert(stack.last() =~= parent.subrange(0, stack.last().len() as int));
                        }
                        if let Some(n) = with_section(all, selective, matcher, input, parent, p) {
                            lemma_prefix_trans(stack.last(), parent, n);
                            lemma_prefix_trans(preamble, stack.last(), n);
                        }
                    } else {
                        assert(stack.drop_last()[0] == stack[0]);
                    }
                }
            },
            PayloadKind::ModuleHeader => {
                let grown = out + core_module_preamble();
                lemma_with_section_extends(all, selective, matcher, input, grown, p);
                if stack.len() == 0 {
                    assert(out =~= grown.subrange(0, out.len() as int));
                    if let Some(n) = with_section(all, selective, matcher, input, grown, p) {
                        lemma_prefix_trans(out, grown, n);
                        lemma_prefix_trans(preamble, out, n);
                    }
                }
            },
            PayloadKind::ComponentHeader => {
                let grown = out + component_preamble();
                lemma_with_section_extends(all, selective, matcher, input, grown, p);
                if stack.len() == 0 {
                    assert(out =~= grown.subrange(0, out.len() as int));
                    if let Some(n) = with_section(all, selective, matcher, input, grown, p) {
                        lemma_prefix_trans(out, grown, n);
                        lemma_prefix_trans(preamble, out, n);
                    }
                }
            },
            _ => {
                lemma_with_section_extends(all, selective, matcher, input, out, p);
                if stack.len() == 0 {
                    if let Some(n) = with_section(all, selective, matcher, input, out, p) {
                        lemma_prefix_trans(preamble, out, n);
                    }
                }
            },
        }
    }
}

proof fn lemma_outermost_starts(
    all: bool,
    selective: bool,
    matcher: spec_fn(Seq<char>) -> bool,
    input: Seq<u8>,
    payloads: Seq<Payload>,
    preamble: Seq<u8>,
)
    requires
        payloads.len() > 0,
        payloads[0].kind is ModuleHeader ==> preamble == core_module_preamble(),
        payloads[0].kind is ComponentHeader ==> preamble == component_preamble(),
        payloads[0].kind is ModuleHeader || payloads[0].kind is ComponentHeader,
    ensures
        outermost_output(strip_run(all, selective, matcher, input, payloads)) matches Some(o)
            ==> preamble.is_prefix_of(o),
    decreases payloads.len(),
{
    if payloads.len() == 1 {
        let p = payloads[0];
        assert(payloads.drop_last() =~= Seq::<Payload>::empty());
        assert(payloads.last() == p);
        let grown = Seq::<u8>::empty() + preamble;
        assert(grown =~= preamble);
        lemma_with_section_extends(all, selective, matcher, input, grown, p);
        assert(preamble.is_prefix_of(preamble)) by {
            assert(preamble =~= preamble.subrange(0, preamble.len() as int));
        }
    } else {
        let rest = payloads.drop_last();
        assert(rest[0] == payloads[0]);
        lemma_outermost_starts(all, selective, matcher, input, rest, preamble);
        let before = strip_run(all, selective, matcher, input, rest);
        if before is Refused {
        } else {
            lemma_outermost_kept(all, selective, matcher, input, before, payloads.last(), preamble);
        }
    }
}

/// A pass over a stream that starts with the preamble of a module (or of a
/// component) and closes every nested one gives an output that starts with
/// that preamble.
pub proof fn law_output_starts_with_preamble(
    all: bool,
    selective: bool,
    matcher: spec_fn(Seq<char>) -> bool,
    input: Seq<u8>,
    payloads: Seq<Payload>,
)
    requires
        payloads.len() > 0,
    ensures
        payloads[0].kind is ModuleHeader ==> (settled_output(
            strip_run(all, selective, matcher, input, payloads),
        ) matches Some(out) ==> core_module_preamble().is_prefix_of(out)),
        payloads[0].kind is ComponentHeader ==> (settled_output(
            strip_run(all, selective, matcher, input, payloads),
        ) matches Some(out) ==> component_preamble().is_prefix_of(out)),
{
    if payloads[0].kind is ModuleHeader {
        lemma_outermost_starts(all, selective, matcher, input, payloads, core_module_preamble());
    }
    if payloads[0].kind is ComponentHeader {
        lemma_outermost_starts(all, selective, matcher, input, payloads, component_preamble());
    }
}

/// Whether `needle` stands somewhere in `hay`, as consecutive bytes.
pub open spec fn occurs_in(needle: Seq<u8>, hay: Seq<u8>) -> bool {
    exists|i: int|
        0 <= i && i + needle.len() <= hay.len() && #[trigger] hay.subrange(i, i + needle.len())
            == needle
}

proof fn lemma_occurs_in_extension(needle: Seq<u8>, hay: Seq<u8>, longer: Seq<u8>)
    requires
        occurs_in(needle, hay),
        hay.is_prefix_of(longer),
    ensures
        occurs_in(needle, longer),
{
    let i = choose|i: int|
        0 <= i && i + needle.len() <= hay.len() && #[trigger] hay.subrange(i, i + needle.len())
            == needle;
    assert(longer.subrange(i, i + needle.len()) =~= hay.subrange(i, i + needle.len()));
}

proof fn lemma_occurs_in_suffix(needle: Seq<u8>, front: Seq<u8>, hay: Seq<u8>)
    requires
        occurs_in(needle, hay),
    ensures
        occurs_in(needle, front + hay),
{
    let i = choose|i: int|
        0 <= i && i + needle.len() <= hay.len() && #[trigger] hay.subrange(i, i + needle.len())
            == needle;
    let j = i + front.len();
    assert((front + hay).subrange(j, j + needle.len()) =~= hay.subrange(i, i + needle.len()));
}

/// The outputs of a pass that are still being written, outermost first:
/// the enclosing outputs, then the current one.
pub open spec fn open_outputs(run: StripRun) -> Seq<Seq<u8>> {
    match run {
        StripRun::Running(out, stack) => stack.push(out),
        StripRun::Finished(out) => seq![out],
        StripRun::Refused => Seq::empty(),
    }
}

/// Whether `bytes` stand in one of the outputs of a pass.
pub open spec fn holds_bytes(run: StripRun, bytes: Seq<u8>) -> bool {
    exists|j: int| 0 <= j < open_outputs(run).len() && occurs_in(bytes, #[trigger] open_outputs(run)[j])
}

/// Bytes that stand in an output of a pass stay there through every step
/// that the pass does not refuse.
proof fn lemma_bytes_stay(
    all: bool,
    selective: bool,
    matcher: spec_fn(Seq<char>) -> bool,
    input: Seq<u8>,
    run: StripRun,
    p: Payload,
    bytes: Seq<u8>,
)
    requires
        holds_bytes(run, bytes),
    ensures
        strip_step(all, selective, matcher, input, run, p) is Refused || holds_bytes(
            strip_step(all, selective, matcher, input, run, p),
            bytes,
        ),
{
    let next = strip_step(all, selective, matcher, input, run, p);
    let j = choose|j: int| 0 <= j < open_outputs(run).len() && occurs_in(bytes, #[trigger] open_outputs(run)[j]);
    if let StripRun::Running(out, stack) = run {
        let chain = stack.push(out);
        match p.kind {
            PayloadKind::Nested => {
                assert(open_outputs(next)[j] == chain[j]);
            },
            PayloadKind::Finish => {
                if stack.len() == 0 {
                    assert(open_outputs(next)[0] == out);
                } else if out.len() <= u32::MAX {
                    let id: u8 = if component_preamble().is_prefix_of(out) {
                        4
                    } else {
                        1
                    };
                    let parent = stack.last() + encoded_section(id, out);
                    lemma_with_section_extends(all, selective, matcher, input, parent, p);
                    if let Some(grown) = with_section(all, selective, matcher, input, parent, p) {
                        let last = stack.len() - 1;
                        if j < last {
                            assert(open_outputs(next)[j] == stack[j]);
                        } else {
                            if j == last {
                                assert(stack.last().is_prefix_of(parent)) by {
                                    assert(stack.last() =~= parent.subrange(0, stack.last().len() as int));
                                }
                                lemma_occurs_in_extension(bytes, stack.last(), parent);
                            } else {
                                lemma_occurs_in_suffix(bytes, seq![id] + leb128(out.len()), out);
                                assert(encoded_section(id, out) =~= (seq![id] + leb128(out.len())) + out);
                                lemma_occurs_in_suffix(bytes, stack.last(), encoded_section(id, out));
                            }
                            lemma_occurs_in_extension(bytes, parent, grown);
                            assert(open_outputs(next)[last] == grown);
                        }
                    }
                }
            },
            _ => {
                let grown = match p.kind {
                    PayloadKind::ModuleHeader => out + core_module_preamble(),
                    PayloadKind::ComponentHeader => out + component_preamble(),
                    _ => out,
                };
                assert(out.is_prefix_of(grown)) by {
                    assert(out =~= grown.subrange(0, out.len() as int));
                }
                lemma_with_section_extends(all, selective, matcher, input, grown, p);
                if let Some(n) = with_section(all, selective, matcher, input, grown, p) {
                    if j < stack.len() {
                        assert(open_outputs(next)[j] == stack[j]);
                    } else {
                        lemma_prefix_trans(out, grown, n);
                        lemma_occurs_in_extension(bytes, out, n);
                        assert(open_outputs(next)[j] == n);
                    }
                }
            },
        }
    }
}

/// The run over one more payload.
proof fn lemma_run_push(
    all: bool,
    selective: bool,
    matcher: spec_fn(Seq<char>) -> bool,
    input: Seq<u8>,
    payloads: Seq<Payload>,
    m: int,
)
    requires
        0 <= m < payloads.len(),
    ensures
        strip_run(all, selective, matcher, input, payloads.take(m + 1)) == strip_step(
            all,
            selective,
            matcher,
            input,
            strip_run(all, selective, matcher, input, payloads.take(m)),
            payloads[m],
        ),
{
    assert(payloads.take(m + 1).drop_last() =~= payloads.take(m));
    assert(payloads.take(m + 1).last() == payloads[m]);
}

proof fn lemma_bytes_stay_to(
    all: bool,
    selective: bool,
    matcher: spec_fn(Seq<char>) -> bool,
    input: Seq<u8>,
    payloads: Seq<Payload>,
    bytes: Seq<u8>,
    from: int,
    to: int,
)
    requires
        0 <= from <= to <= payloads.len(),
        holds_bytes(strip_run(all, selective, matcher, input, payloads.take(from)), bytes),
    ensures
        strip_run(all, selective, matcher, input, payloads.take(to)) is Refused || holds_bytes(
            strip_run(all, selective, matcher, input, payloads.take(to)),
            bytes,
        ),
    decreases to - from,
{
    if from < to {
        lemma_run_push(all, selective, matcher, input, payloads, from);
        lemma_bytes_stay(
            all,
            selective,
            matcher,
            input,
            strip_run(all, selective, matcher, input, payloads.take(from)),
            payloads[from],
            bytes,
        );
        if strip_run(all, selective, matcher, input, payloads.take(from + 1)) is Refused {
            assert(payloads.take(to).take(from + 1) =~= payloads.take(from + 1));
            lemma_run_settled(
                all,
                selective,
                matcher,
                input,
                payloads.take(to),
                from + 1,
            );
            assert(payloads.take(to).take(to) =~= payloads.take(to));
        } else {
            lemma_bytes_stay_to(all, selective, matcher, input, payloads, bytes, from + 1, to);
        }
    }
}

/// A custom section that the configuration keeps is copied to the output,
/// as it stands in the input, at whatever depth of nesting it stands: where
/// the pass reaches it and ends with every nested module or component
/// closed, the output holds the section's encoding.
pub proof fn law_kept_section_is_copied(
    all: bool,
    selective: bool,
    matcher: spec_fn(Seq<char>) -> bool,
    input: Seq<u8>,
    payloads: Seq<Payload>,
    k: int,
)
    requires
        0 <= k < payloads.len(),
        strip_run(all, selective, matcher, input, payloads.take(k)) is Running,
        payloads[k].kind matches PayloadKind::Custom(name) && !strips_custom_section(
            all,
            selective,
            matcher,
            name@,
        ),
        payloads[k].section is Some,
    ensures
        settled_output(strip_run(all, selective, matcher, input, payloads)) matches Some(out)
            ==> occurs_in(
            encoded_section(
                payloads[k].section.unwrap().0,
                input.subrange(
                    payloads[k].section.unwrap().1 as int,
                    payloads[k].section.unwrap().2 as int,
                ),
            ),
            out,
        ),
{
    let (id, start, end) = payloads[k].section.unwrap();
    let bytes = encoded_section(id, input.subrange(start as int, end as int));
    let before = strip_run(all, selective, matcher, input, payloads.take(k));
    lemma_run_push(all, selective, matcher, input, payloads, k);
    let after = strip_run(all, selective, matcher, input, payloads.take(k + 1));
    if let StripRun::Running(out, stack) = before {
        if let StripRun::Running(grown, _) = after {
            assert(grown == out + bytes);
            assert(grown.subrange(out.len() as int, (out.len() + bytes.len()) as int) =~= bytes);
            assert(occurs_in(bytes, grown));
            assert(open_outputs(after)[stack.len() as int] == grown);
            lemma_bytes_stay_to(all, selective, matcher, input, payloads, bytes, k + 1, payloads.len() as int);
        } else {
            lemma_run_settled(all, selective, matcher, input, payloads, k + 1);
        }
    }
    assert(payloads.take(payloads.len() as int) =~= payloads);
    let last = strip_run(all, selective, matcher, input, payloads);
    if let Some(o) = settled_output(last) {
        if holds_bytes(last, bytes) {
            let j = choose|j: int| 0 <= j < open_outputs(last).len() && occurs_in(bytes, #[trigger] open_outputs(last)[j]);
            assert(open_outputs(last)[j] == o);
        }
    }
}

impl Config {
    /// Whether every custom section is removed.
    pub closed spec fn strips_all(&self) -> bool {
        self.all
    }

    /// The patterns that select the custom sections to remove.
    pub closed spec fn deletion_patterns(&self) -> Seq<String> {
        self.to_delete@
    }

    /// A configuration that removes every custom section where `all` holds,
    /// else those whose name one of `to_delete` matches, or, where
    /// `to_delete` is empty, all but the ones a toolchain still needs.
    pub fn new(all: bool, to_delete: Vec<String>) -> (res: Self)
        ensures
            res.strips_all() == all,
            res.deletion_patterns() == to_delete@,
    {
        Config { all, to_delete }
    }

    /// Whether this configuration removes the custom section called `name`,
    /// where `set` decides which names the deletion patterns match.
    pub fn strips_section(&self, set: &RegexSet, name: &String) -> (res: bool)
        ensures
            res == strips_custom_section(
                self.strips_all(),
                self.deletion_patterns().len() > 0,
                set_matcher(*set),
                name@,
            ),
    {
        if self.all {
            return true;
        }
        if self.to_delete.len() > 0 {
            return set_matches(set, name.as_str());
        }
        let n = name.as_str();
        !(same_text(n, "name") || has_prefix(n, "component-type:") || same_text(n, "dylink.0"))
    }

    /// Appends `p`'s section to `output` unless it is a custom section that
    /// this configuration removes; `false` where the section does not lie
    /// within `input` or is too long to encode.
    fn copy_section(&self, set: &RegexSet, input: &[u8], output: &mut Vec<u8>, p: &Payload) -> (ok: bool)
        ensures
            with_section(
                self.strips_all(),
                self.deletion_patterns().len() > 0,
                set_matcher(*set),
                input@,
                old(output)@,
                *p,
            ) == if ok {
                Some(final(output)@)
            } else {
                None::<Seq<u8>>
            },
    {
        if let PayloadKind::Custom(name) = &p.kind {
            if self.strips_section(set, name) {
                return true;
            }
        }
        match p.section {
            None => true,
            Some((id, start, end)) => {
                if start <= end && end <= input.len() as u64 && end - start <= u32::MAX as u64 {
                    append_raw_section(output, id, &input[start as usize..end as usize]);
                    true
                } else {
                    false
                }
            },
        }
    }

    /// Strips the payloads that `wasmparser` read from `input`: the result is
    /// the output of the stripping pass, or `None` where the pass is refused.
    pub fn strip_payloads(&self, set: &RegexSet, input: &[u8], payloads: &Vec<Payload>) -> (res:
        Option<Vec<u8>>)
        ensures
            res matches Some(out) ==> stripped(
                self.strips_all(),
                self.deletion_patterns().len() > 0,
                set_matcher(*set),
                input@,
                payloads@,
            ) == Some(out@),
            res is None ==> stripped(
                self.strips_all(),
                self.deletion_patterns().len() > 0,
                set_matcher(*set),
                input@,
                payloads@,
            ) is None,
    {
        let ghost all = self.strips_all();
        let ghost selective = self.deletion_patterns().len() > 0;
        let ghost matcher = set_matcher(*set);
        let mut output: Vec<u8> = Vec::new();
        let mut stack: Vec<Vec<u8>> = Vec::new();
        let mut i: usize = 0;
        assert(payloads@.take(0) =~= Seq::<Payload>::empty());
        assert(buffers(stack@) =~= Seq::<Seq<u8>>::empty());
        while i < payloads.len()
            invariant
                i <= payloads.len(),
                all == self.strips_all(),
                selective == (self.deletion_patterns().len() > 0),
                matcher == set_matcher(*set),
                strip_run(all, selective, matcher, input@, payloads@.take(i as int))
                    == StripRun::Running(output@, buffers(stack@)),
            decreases payloads.len() - i,
        {
            let p = &payloads[i];
            assert(payloads@.take(i + 1).drop_last() =~= payloads@.take(i as int));
            assert(payloads@.take(i + 1).last() == payloads@[i as int]);
            let ghost before = output@;
            let ghost before_stack = buffers(stack@);
            match &p.kind {
                PayloadKind::Nested => {
                    let parent = output;
                    output = Vec::new();
                    stack.push(parent);
                    assert(buffers(stack@) =~= before_stack.push(before));
                    i = i + 1;
                    continue;
                },
                PayloadKind::Finish => {
                    match stack.pop() {
                        None => {
                            proof {
                                lemma_run_settled(all, selective, matcher, input@, payloads@, i + 1);
                            }
                            return Some(output);
                        },
                        Some(mut parent) => {
                            assert(buffers(stack@) =~= before_stack.drop_last());
                            if output.len() > u32::MAX as usize {
                                proof {
                                    lemma_run_settled(all, selective, matcher, input@, payloads@, i + 1);
                                }
                                return None;
                            }
                            let preamble = component_header();
                            let id = if output.len() >= 8 && output[0] == preamble[0]
                                && output[1] == preamble[1] && output[2] == preamble[2]
                                && output[3] == preamble[3] && output[4] == preamble[4]
                                && output[5] == preamble[5] && output[6] == preamble[6]
                                && output[7] == preamble[7] {
                                assert(component_preamble() =~= output@.subrange(0, 8));
                                component_section_id()
                            } else {
                                assert(!component_preamble().is_prefix_of(output@));
                                core_module_section_id()
                            };
                            parent.push(id);
                            encode_bytes(&mut parent, output.as_slice());
                            assert(parent@ =~= before_stack.last() + encoded_section(id, before));
                            output = parent;
                        },
                    }
                },
                PayloadKind::ModuleHeader => {
                    let mut preamble = module_header();
                    output.append(&mut preamble);
                },
                PayloadKind::ComponentHeader => {
                    let mut preamble = component_header();
                    output.append(&mut preamble);
                },
                _ => {},
            }
            if !self.copy_section(set, input, &mut output, p) {
                proof {
                    lemma_run_settled(all, selective, matcher, input@, payloads@, i + 1);
                }
                return None;
            }
            i = i + 1;
        }
        assert(payloads@.take(i as int) =~= payloads@);
        Some(output)
    }

    /// Removes the custom sections that this configuration selects from the
    /// module or component `module`.
    pub fn strip(&self, module: Vec<u8>) -> (res: Result<Vec<u8>, Error>)
        ensures
            match strip_outcome(self.strips_all(), texts(self.deletion_patterns()), module@) {
                StripOutcome::BadPatterns(text) => res matches Err(Error::RegexFailed(s)) && s@
                    == text,
                StripOutcome::Malformed(message) => res matches Err(Error::ParsePayloadRead(s)) && s@
                    == message,
                StripOutcome::Stripped(out) => res matches Ok(o) && o@ == out,
                StripOutcome::Unencodable => res matches Err(Error::ParsePayloadRead(s)) && s@
                    == unencodable_message(),
            },
    {
        let set = match compile_set(&self.to_delete) {
            Ok(set) => set,
            Err(e) => return Err(Error::RegexFailed(regex_error_text(&e))),
        };
        assert(set_matcher(set) =~= pattern_matcher(texts(self.to_delete@)));
        let (payloads, failure) = read_payloads(module.as_slice());
        if let Some(e) = failure {
            return Err(Error::ParsePayloadRead(reader_error_message(&e)));
        }
        match self.strip_payloads(&set, module.as_slice(), &payloads) {
            Some(out) => Ok(out),
            None => {
                let message = String::from_str("a section or nested module is too large to encode");
                Err(Error::ParsePayloadRead(message))
            },
        }
    }
}

} // verus!
