//! The text of the live dashboard's panels. Drawing them on a terminal
//! is left to the caller.

use vstd::prelude::*;
use vstd::string::StringSliceAdditionalSpecFns;
use crate::engine::summary::{bytes_text, duration_text, format_bytes, format_duration};
use crate::engine::types::CapabilityReport;
use crate::text::{digits, fixed, join_lines, join_with_newlines, push_digits, push_fixed, views};
use crate::ui::{MonitorSnapshot, UiContext};

verus! {

/// How the dashboard starts: headless (drawn into memory, for tests),
/// failing at start with a message, or failing after some draws.
#[derive(Debug, Clone, Default)]
pub struct InitOptions {
    pub headless: bool,
    pub fail_on_start: Option<String>,
    pub fail_after_draws: Option<usize>,
}

/// The header line: backend and the level of each facet.
pub open spec fn header_text(c: CapabilityReport) -> Seq<char> {
    "backend: "@ + c.backend.name() + "  backend_state: "@ + c.backend_state.name() + "  cpu: "@
        + c.cpu.name() + "  memory: "@ + c.memory.name() + "  interactive: "@ + c.interactive.name()
}

pub fn header_line(c: &CapabilityReport) -> (r: String)
    ensures
        r@ == header_text(*c),
{
    let mut s = "backend: ".to_owned();
    s.append(c.backend.as_str());
    s.append("  backend_state: ");
    s.append(c.backend_state.as_str());
    s.append("  cpu: ");
    s.append(c.cpu.as_str());
    s.append("  memory: ");
    s.append(c.memory.as_str());
    s.append("  interactive: ");
    s.append(c.interactive.as_str());
    s
}

/// The warnings panel: one warning per line, or `No warnings`.
pub open spec fn warnings_text(warnings: Seq<Seq<char>>) -> Seq<char> {
    if warnings.len() == 0 { "No warnings"@ } else { join_lines(warnings) }
}

pub fn warnings_body(warnings: &Vec<String>) -> (r: String)
    ensures
        r@ == warnings_text(views(warnings@)),
{
    if warnings.len() == 0 {
        "No warnings".to_owned()
    } else {
        join_with_newlines(warnings)
    }
}

/// Rows of the warnings panel: three with no warnings, else one per
/// warning up to four, plus two for the border.
pub fn warning_height(warnings: &Vec<String>) -> (r: u16)
    ensures
        r == if warnings@.len() == 0 { 3 } else if warnings@.len() < 4 { warnings@.len() + 2 } else { 6 },
{
    if warnings.len() == 0 {
        3
    } else if warnings.len() < 4 {
        (warnings.len() + 2) as u16
    } else {
        6
    }
}

pub open spec fn or_na(value: Option<Seq<char>>) -> Seq<char> {
    match value {
        Some(v) => v,
        None => "n/a"@,
    }
}

/// The metrics panel, one row per line.
pub open spec fn metrics_lines(ctx: UiContext, s: MonitorSnapshot) -> Seq<Seq<char>> {
    seq![
        "command: "@ + ctx.command@,
        "backend: "@ + ctx.capabilities.backend.name(),
        "elapsed: "@ + duration_text(s.elapsed_nanos as nat),
        "cpu: "@ + or_na(match s.cpu_milli_percent { Some(c) => Some(fixed(c as nat, 1000, 1) + "%"@), None => None }),
        "memory: "@ + or_na(match s.memory_bytes { Some(b) => Some(bytes_text(b as nat)), None => None }),
        "peak_memory: "@ + or_na(match s.peak_memory_bytes { Some(b) => Some(bytes_text(b as nat)), None => None }),
        "child_count: "@ + or_na(match s.child_count { Some(n) => Some(digits(n as nat)), None => None }),
        "status: "@ + s.run_status@,
    ]
}

fn labelled(label: &str, value: &str) -> (r: String)
    ensures
        r@ == label@ + value@,
{
    let mut s = label.to_owned();
    s.append(value);
    s
}

pub fn metrics_body(ctx: &UiContext, s: &MonitorSnapshot) -> (r: String)
    ensures
        r@ == join_lines(metrics_lines(*ctx, *s)),
{
    let mut rows: Vec<String> = Vec::new();
    rows.push(labelled("command: ", ctx.command.as_str()));
    rows.push(labelled("backend: ", ctx.capabilities.backend.as_str()));
    let elapsed = format_duration(s.elapsed_nanos);
    rows.push(labelled("elapsed: ", elapsed.as_str()));
    let cpu = match s.cpu_milli_percent {
        Some(c) => {
            let mut t = String::new();
            push_fixed(&mut t, c as u128, 1000, 1);
            t.append("%");
            t
        },
        None => "n/a".to_owned(),
    };
    rows.push(labelled("cpu: ", cpu.as_str()));
    let memory = match s.memory_bytes { Some(b) => format_bytes(b), None => "n/a".to_owned() };
    rows.push(labelled("memory: ", memory.as_str()));
    let peak = match s.peak_memory_bytes { Some(b) => format_bytes(b), None => "n/a".to_owned() };
    rows.push(labelled("peak_memory: ", peak.as_str()));
    let children = match s.child_count {
        Some(n) => {
            let mut t = String::new();
            push_digits(&mut t, n as u128);
            t
        },
        None => "n/a".to_owned(),
    };
    rows.push(labelled("child_count: ", children.as_str()));
    rows.push(labelled("status: ", s.run_status.as_str()));
    assert(views(rows@) =~= metrics_lines(*ctx, *s));
    join_with_newlines(&rows)
}

/// The most output the dashboard keeps, in bytes (64 KiB).
pub const MAX_OUTPUT_BYTES: usize = 65_536;

/// Where the kept tail of `bytes` starts: the first character boundary
/// at or after `bytes.len() - MAX_OUTPUT_BYTES`, so the tail is the
/// longest suffix of at most 64 KiB that starts on a character boundary.
pub open spec fn tail_cut(bytes: Seq<u8>, cut: int) -> bool {
    &&& bytes.len() - MAX_OUTPUT_BYTES <= cut <= bytes.len()
    &&& vstd::utf8::is_char_boundary(bytes, cut)
    &&& forall|k: int| bytes.len() - MAX_OUTPUT_BYTES <= k < cut ==> !vstd::utf8::is_char_boundary(bytes, k)
}

/// Keeps the last 64 KiB of the dashboard's output, cut at the first
/// character boundary inside that window.
pub fn trim_output(output: &mut String)
    ensures
        vstd::utf8::encode_utf8(old(output)@).len() <= MAX_OUTPUT_BYTES ==> final(output)@ == old(output)@,
        vstd::utf8::encode_utf8(old(output)@).len() > MAX_OUTPUT_BYTES ==> exists|cut: int|
            tail_cut(vstd::utf8::encode_utf8(old(output)@), cut)
            && #[trigger] vstd::utf8::encode_utf8(final(output)@) == vstd::utf8::encode_utf8(old(output)@).skip(cut),
        final(output)@ == old(output)@.skip(old(output)@.len() - final(output)@.len()),
{
    broadcast use vstd::utf8::encode_utf8_valid_utf8, vstd::utf8::encode_utf8_decode_utf8, vstd::utf8::is_char_boundary_start_end_of_seq;
    let text = output.as_str();
    let ghost bytes = vstd::utf8::encode_utf8(old(output)@);
    assert(text.spec_bytes() == bytes);
    let len = text.as_bytes().len();
    if len > MAX_OUTPUT_BYTES {
        let start = len - MAX_OUTPUT_BYTES;
        let mut cut = start;
        assert(vstd::utf8::valid_utf8(bytes));
        assert(vstd::utf8::is_char_boundary(bytes, len as int));
        while !text.is_char_boundary(cut)
            invariant
                start <= cut <= len,
                len == bytes.len(),
                start == len - MAX_OUTPUT_BYTES,
                text.spec_bytes() == bytes,
                vstd::utf8::is_char_boundary(bytes, len as int),
                forall|k: int| start <= k < cut ==> !vstd::utf8::is_char_boundary(bytes, k),
            decreases len - cut,
        {
            cut = cut + 1;
        }
        let (head, rest) = text.split_at(cut);
        let tail = rest.to_owned();
        assert(rest.spec_bytes() == vstd::utf8::encode_utf8(tail@));
        assert(bytes.skip(cut as int) =~= rest.spec_bytes());
        proof {
            assert(tail_cut(bytes, cut as int));
            vstd::utf8::decode_utf8_split(bytes, cut as int);
            assert(bytes.subrange(cut as int, bytes.len() as int) =~= rest.spec_bytes());
            assert(vstd::utf8::decode_utf8(rest.spec_bytes()) == tail@);
            assert(vstd::utf8::decode_utf8(bytes) == old(output)@);
            let pre = vstd::utf8::decode_utf8(bytes.subrange(0, cut as int));
            assert(old(output)@ =~= pre + tail@);
            assert(old(output)@.skip(old(output)@.len() - tail@.len()) =~= tail@);
        }
        *output = tail;
    } else {
        assert(old(output)@.skip(0) =~= old(output)@);
    }
}

} // verus!
