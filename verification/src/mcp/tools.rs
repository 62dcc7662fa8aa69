//! The tool calls a front end sees go by: which of them change the machine,
//! and how much of a request or an answer is kept.

use vstd::prelude::*;

use crate::text::same_text;

verus! {

/// Whether a text is one of a list.
pub open spec fn listed(names: Seq<&str>, name: Seq<char>) -> bool {
    exists|i: int| 0 <= i < names.len() && (#[trigger] names[i])@ == name
}

/// The tools that change the machine.
pub const MUTATION_TOOLS: [&'static str; 41] = [
    "load_firmware",
    "cpu_run",
    "cpu_pause",
    "cpu_step",
    "cpu_step_over",
    "cpu_run_to",
    "cpu_reset",
    "write_register",
    "write_memory",
    "write_mmio",
    "read_mmio",
    "set_breakpoint",
    "remove_breakpoint",
    "set_watchpoint",
    "remove_watchpoint",
    "inject_peripheral_event",
    "send_uart_input",
    "write_flash",
    "load_flash_from_file",
    "dump_flash_to_file",
    "add_symbol",
    "add_comment",
    "set_mmio_override",
    "remove_mmio_override",
    "schedule_event",
    "cancel_event",
    "set_mmio_watchpoint",
    "remove_mmio_watchpoint",
    "load_scenario",
    "clear_scenario",
    "set_mmio_history_size",
    "clear_mmio_history",
    "reset_coverage",
    "set_profiling",
    "save_snapshot",
    "restore_snapshot",
    "delete_snapshot",
    "load_symbols_file",
    "olt_enable",
    "olt_set_config",
    "olt_inject_frame",
];

/// Whether a tool changes the machine.
pub fn is_mutation_tool(name: &str) -> (r: bool)
    ensures
        r == listed(MUTATION_TOOLS@, name@),
{
    for i in 0..41usize
        invariant
            forall|k: int| 0 <= k < i ==> (#[trigger] MUTATION_TOOLS@[k])@ != name@,
    {
        if same_text(MUTATION_TOOLS[i], name) {
            assert(MUTATION_TOOLS@[i as int]@ == name@);
            return true;
        }
    }
    false
}

/// The bytes of a text that are kept of it.
pub const SUMMARY_MAX: usize = 240;

/// Whether a text can be cut after so many bytes: a character ends there.
pub open spec fn cuttable(s: Seq<char>, max: int) -> bool {
    let bytes = vstd::utf8::encode_utf8(s);
    bytes.len() > max ==> vstd::utf8::is_char_boundary(bytes, max)
}

/// A text of at most so many bytes; an ellipsis stands for what is cut off.
pub open spec fn shortened(s: Seq<char>, max: int) -> Seq<char> {
    let bytes = vstd::utf8::encode_utf8(s);
    if bytes.len() <= max {
        s
    } else {
        vstd::utf8::decode_utf8(bytes.take(max)).push('\u{2026}')
    }
}

/// Cut a text to so many bytes.
pub fn truncate(s: &str, max: usize) -> (r: String)
    requires
        cuttable(s@, max as int),
    ensures
        r@ == shortened(s@, max as int),
{
    let bytes = s.as_bytes();
    if bytes.len() <= max {
        s.to_owned()
    } else {
        let (front, _) = s.split_at(max);
        let mut out = front.to_owned();
        proof {
            vstd::utf8::encode_utf8_decode_utf8(front@);
            assert(vstd::utf8::encode_utf8(front@) =~= vstd::utf8::encode_utf8(s@).take(
                max as int,
            ));
        }
        out.push('\u{2026}');
        out
    }
}

/// What is kept of an answer: its structured part, or else its first text, or
/// else whether it failed.
pub open spec fn summary(
    structured: Option<Seq<char>>,
    first_text: Option<Seq<char>>,
    is_error: Option<bool>,
) -> Seq<char> {
    match structured {
        Some(v) => shortened(v, SUMMARY_MAX as int),
        None => match first_text {
            Some(t) => shortened(t, SUMMARY_MAX as int),
            None => if is_error == Some(true) {
                "error"@
            } else {
                "ok"@
            },
        },
    }
}

/// A slice that may be missing, as values.
pub open spec fn opt_str(t: Option<&str>) -> Option<Seq<char>> {
    match t {
        Some(s) => Some(s@),
        None => None,
    }
}

pub fn summarise_result(
    structured: Option<&str>,
    first_text: Option<&str>,
    is_error: Option<bool>,
) -> (r: String)
    requires
        structured matches Some(v) ==> cuttable(v@, SUMMARY_MAX as int),
        structured is None ==> (first_text matches Some(t) ==> cuttable(t@, SUMMARY_MAX as int)),
    ensures
        r@ == summary(opt_str(structured), opt_str(first_text), is_error),
{
    if let Some(v) = structured {
        return truncate(v, SUMMARY_MAX);
    }
    if let Some(t) = first_text {
        return truncate(t, SUMMARY_MAX);
    }
    if let Some(true) = is_error {
        String::from_str("error")
    } else {
        String::from_str("ok")
    }
}

/// What is kept of a request.
pub fn summarise_request(arguments: Option<&str>) -> (r: String)
    requires
        arguments matches Some(a) ==> cuttable(a@, SUMMARY_MAX as int),
    ensures
        r@ == (match arguments {
            Some(a) => shortened(a@, SUMMARY_MAX as int),
            None => Seq::empty(),
        }),
{
    match arguments {
        Some(a) => truncate(a, SUMMARY_MAX),
        None => {
            let s = String::new();
            assert(s@ =~= Seq::empty());
            s
        },
    }
}

/// Which way a call goes.
#[derive(Clone, Copy, Debug, PartialEq, Eq, Structural)]
pub enum Direction {
    Request,
    Response,
}

/// One line of the activity log.
#[derive(Clone, Debug)]
pub struct ActivityEntry {
    pub direction: Direction,
    pub tool: String,
    pub params: String,
    pub result: String,
    pub is_mutation: bool,
}

/// Note a request: one call more is on its way.
pub fn push_log_request(in_flight: u32, tool: &str, params: &str, is_mutation: bool) -> (r: (
    u32,
    ActivityEntry,
))
    ensures
        r.0 == (if in_flight < u32::MAX {
            in_flight + 1
        } else {
            u32::MAX as int
        }),
        r.1.direction == Direction::Request,
        r.1.tool@ == tool@,
        r.1.params@ == params@,
        r.1.result@.len() == 0,
        r.1.is_mutation == is_mutation,
{
    (
        in_flight.saturating_add(1),
        ActivityEntry {
            direction: Direction::Request,
            tool: tool.to_owned(),
            params: params.to_owned(),
            result: String::new(),
            is_mutation,
        },
    )
}

/// Note an answer: one call less is on its way.
pub fn push_log_response(in_flight: u32, tool: &str, result: &str, is_mutation: bool) -> (r: (
    u32,
    ActivityEntry,
))
    ensures
        r.0 == (if in_flight > 0 {
            in_flight - 1
        } else {
            0int
        }),
        r.1.direction == Direction::Response,
        r.1.tool@ == tool@,
        r.1.params@.len() == 0,
        r.1.result@ == result@,
        r.1.is_mutation == is_mutation,
{
    (
        in_flight.saturating_sub(1),
        ActivityEntry {
            direction: Direction::Response,
            tool: tool.to_owned(),
            params: String::new(),
            result: result.to_owned(),
            is_mutation,
        },
    )
}

/// Text of no more than 240 bytes is kept whole, the structured answer before
/// the text, and an answer with neither says whether it failed.
pub proof fn law_summaries_keep_short_answers(
    structured: Option<Seq<char>>,
    text: Option<Seq<char>>,
    is_error: Option<bool>,
)
    ensures
        structured matches Some(v) ==> (vstd::utf8::encode_utf8(v).len() <= 240 ==> summary(
            structured,
            text,
            is_error,
        ) == v),
        structured is None ==> (text matches Some(t) ==> (vstd::utf8::encode_utf8(t).len() <= 240
            ==> summary(structured, text, is_error) == t)),
        structured is None && text is None && is_error == Some(true) ==> summary(
            structured,
            text,
            is_error,
        ) == "error"@,
        structured is None && text is None && is_error != Some(true) ==> summary(
            structured,
            text,
            is_error,
        ) == "ok"@,
        structured matches Some(v) ==> (vstd::utf8::encode_utf8(v).len() > 240 ==> summary(
            structured,
            text,
            is_error,
        ) == shortened(v, 240) && summary(structured, text, is_error).last() == '\u{2026}'),
{
}

} // verus!
