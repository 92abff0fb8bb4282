//! The end-of-run summary card: exit, elapsed, memory and cpu rows in a
//! box, preceded by a capability context block when something was not
//! enforced or when warnings were raised.

use vstd::prelude::*;

use crate::engine::types::{CapabilityLevel, CapabilityReport, ExitStatus, RunOutcome, SummarySample};
use crate::text::{
    digits, fixed, int_digits, join_lines, join_with_newlines, pad_right, push_digits, push_fixed,
    push_int, push_padded, push_repeat, repeat, views, round_half_even, zero_pad, pow10,
};

verus! {

pub const KIB: u64 = 1024;
pub const MIB: u64 = 1048576;
pub const GIB: u64 = 1073741824;

/// Human units for a byte count: one decimal for KiB, MiB and GiB,
/// plain bytes below 1 KiB.
pub open spec fn bytes_text(bytes: nat) -> Seq<char> {
    if bytes >= GIB {
        fixed(bytes, GIB as nat, 1) + " GiB"@
    } else if bytes >= MIB {
        fixed(bytes, MIB as nat, 1) + " MiB"@
    } else if bytes >= KIB {
        fixed(bytes, KIB as nat, 1) + " KiB"@
    } else {
        digits(bytes) + " B"@
    }
}

fn push_bytes(s: &mut String, bytes: u64)
    ensures
        final(s)@ == old(s)@ + bytes_text(bytes as nat),
{
    if bytes >= GIB {
        push_fixed(s, bytes as u128, GIB as u128, 1);
        s.append(" GiB");
    } else if bytes >= MIB {
        push_fixed(s, bytes as u128, MIB as u128, 1);
        s.append(" MiB");
    } else if bytes >= KIB {
        push_fixed(s, bytes as u128, KIB as u128, 1);
        s.append(" KiB");
    } else {
        push_digits(s, bytes as u128);
        s.append(" B");
    }
    assert(s@ =~= old(s)@ + bytes_text(bytes as nat));
}

/// A byte count in human units, e.g. `1.5 MiB` or `512 B`.
pub fn format_bytes(bytes: u64) -> (r: String)
    ensures
        r@ == bytes_text(bytes as nat),
{
    let mut s = String::new();
    push_bytes(&mut s, bytes);
    assert(s@ =~= bytes_text(bytes as nat));
    s
}

/// `max <peak>`, followed by the peak as a percentage of the memory
/// limit when one is set and non-zero, else of the host total when that
/// is known and non-zero.
pub open spec fn memory_text(peak: nat, limit: Option<u64>, system_total: Option<u64>) -> Seq<char> {
    let head = "max "@ + bytes_text(peak);
    if limit is Some && limit.unwrap() > 0 {
        head + " ("@ + fixed(peak * 100, limit.unwrap() as nat, 1) + "% of "@ + bytes_text(
            limit.unwrap() as nat,
        ) + ")"@
    } else if system_total is Some && system_total.unwrap() > 0 {
        head + " ("@ + fixed(peak * 100, system_total.unwrap() as nat, 1) + "% of "@ + bytes_text(
            system_total.unwrap() as nat,
        ) + ")"@
    } else {
        head
    }
}

fn push_percent_of(s: &mut String, peak: u64, denominator: u64)
    requires
        denominator > 0,
    ensures
        final(s)@ == old(s)@ + " ("@ + fixed((peak * 100) as nat, denominator as nat, 1) + "% of "@
            + bytes_text(denominator as nat) + ")"@,
{
    s.append(" (");
    push_fixed(s, peak as u128 * 100, denominator as u128, 1);
    s.append("% of ");
    push_bytes(s, denominator);
    s.append(")");
    assert(s@ =~= old(s)@ + " ("@ + fixed((peak * 100) as nat, denominator as nat, 1) + "% of "@
        + bytes_text(denominator as nat) + ")"@);
}

/// The memory row's value.
pub fn format_memory(peak: u64, limit: Option<u64>, system_total: Option<u64>) -> (r: String)
    ensures
        r@ == memory_text(peak as nat, limit, system_total),
{
    let mut s = String::new();
    s.append("max ");
    push_bytes(&mut s, peak);
    let ghost head = s@;
    match limit {
        Some(limit_bytes) if limit_bytes > 0 => {
            push_percent_of(&mut s, peak, limit_bytes);
        },
        _ => match system_total {
            Some(total) if total > 0 => {
                push_percent_of(&mut s, peak, total);
            },
            _ => {},
        },
    }
    assert(s@ =~= memory_text(peak as nat, limit, system_total));
    s
}

/// Total CPU use over the samples, in thousandths of a percent.
pub open spec fn cpu_sum(samples: Seq<SummarySample>) -> nat
    decreases samples.len(),
{
    if samples.len() == 0 {
        0
    } else {
        cpu_sum(samples.drop_last()) + samples.last().cpu_milli_percent as nat
    }
}

/// Highest CPU use among the samples (0 for none).
pub open spec fn cpu_max(samples: Seq<SummarySample>) -> nat
    decreases samples.len(),
{
    if samples.len() == 0 {
        0
    } else {
        let rest = cpu_max(samples.drop_last());
        if samples.last().cpu_milli_percent > rest { samples.last().cpu_milli_percent as nat } else { rest }
    }
}

proof fn lemma_cpu_sum_bound(samples: Seq<SummarySample>)
    ensures
        cpu_sum(samples) <= samples.len() * 0xffff_ffff_ffff_ffff,
        cpu_max(samples) <= 0xffff_ffff_ffff_ffff,
    decreases samples.len(),
{
    if samples.len() > 0 {
        lemma_cpu_sum_bound(samples.drop_last());
        assert((samples.len() - 1) * 0xffff_ffff_ffff_ffff + 0xffff_ffff_ffff_ffff == samples.len() * 0xffff_ffff_ffff_ffff) by (nonlinear_arith);
    }
}

/// Average and peak CPU use of a run: the average is `sum / count`, in
/// thousandths of a percent.
#[derive(Debug, Clone, Copy, PartialEq, Eq, Structural)]
pub struct CpuStats {
    pub sum_milli: u128,
    pub count: u64,
    pub max_milli: u64,
}

/// The statistics of the samples, `None` when there are none.
pub fn cpu_stats(samples: &Vec<SummarySample>) -> (r: Option<CpuStats>)
    ensures
        samples@.len() == 0 ==> r is None,
        samples@.len() > 0 ==> (r matches Some(st) && st.sum_milli == cpu_sum(samples@)
            && st.count == samples@.len() && st.max_milli == cpu_max(samples@)),
{
    if samples.len() == 0 {
        return None;
    }
    let mut sum: u128 = 0;
    let mut max: u64 = 0;
    let mut i: usize = 0;
    while i < samples.len()
        invariant
            i <= samples@.len(),
            sum == cpu_sum(samples@.take(i as int)),
            max == cpu_max(samples@.take(i as int)),
        decreases samples@.len() - i,
    {
        let c = samples[i].cpu_milli_percent;
        proof {
            assert(samples@.take(i + 1).drop_last() =~= samples@.take(i as int));
            lemma_cpu_sum_bound(samples@.take(i as int));
            assert(i * 0xffff_ffff_ffff_ffff + 0xffff_ffff_ffff_ffff <= 0xffff_ffff_ffff_ffff_ffff_ffff_ffff_ffffu128) by (nonlinear_arith)
                requires i <= 0xffff_ffff_ffff_ffffu64;
        }
        sum = sum + c as u128;
        if c > max {
            max = c;
        }
        i = i + 1;
    }
    assert(samples@.take(samples@.len() as int) =~= samples@);
    Some(CpuStats { sum_milli: sum, count: samples.len() as u64, max_milli: max })
}

/// `n / d` and `(n * c) / (d * c)` round alike.
proof fn lemma_round_scaled(n: nat, d: nat, c: nat)
    requires
        d > 0,
        c > 0,
    ensures
        round_half_even(n * c, d * c) == round_half_even(n, d),
{
    let q = n / d;
    let r = n % d;
    assert(n == d * q + r && 0 <= r < d) by (nonlinear_arith) requires d > 0, q == n / d, r == n % d;
    assert(n * c == (d * c) * q + r * c) by (nonlinear_arith) requires n == d * q + r;
    assert(0 <= r * c < d * c) by (nonlinear_arith) requires 0 <= r < d, c > 0;
    vstd::arithmetic::div_mod::lemma_fundamental_div_mod_converse((n * c) as int, (d * c) as int, q as int, (r * c) as int);
    assert(2 * (r * c) > d * c <==> 2 * r > d) by (nonlinear_arith) requires c > 0;
    assert(2 * (r * c) == d * c <==> 2 * r == d) by (nonlinear_arith) requires c > 0;
}

/// Appends `q / 100` with the two digits of `q % 100`.
fn push_hundredths(s: &mut String, q: u128)
    ensures
        final(s)@ == old(s)@ + digits((q / 100) as nat) + "."@ + zero_pad(digits((q % 100) as nat), 2),
{
    push_digits(s, q / 100);
    s.append(".");
    let frac = q % 100;
    if frac < 10 {
        s.append("0");
        push_digits(s, frac);
        proof {
            reveal_strlit("0");
        }
        assert(zero_pad(digits(frac as nat), 2) =~= seq!['0'] + digits(frac as nat));
    } else {
        push_digits(s, frac);
        assert(digits(frac as nat) =~= digits((frac / 10) as nat).push(crate::text::digit_char((frac % 10) as nat)));
    }
    assert(final(s)@ =~= old(s)@ + digits((q / 100) as nat) + "."@ + zero_pad(digits((q % 100) as nat), 2));
}

/// Appends the average `sum / count` thousandths of a percent as cores
/// (`fixed(sum, count * 100000, 2)`), without forming `sum * 100`.
fn push_average_cores(s: &mut String, sum: u128, count: u64)
    requires
        count > 0,
    ensures
        final(s)@ == old(s)@ + fixed(sum as nat, (count * 100000) as nat, 2),
{
    let d: u128 = (count as u128) * 1000;
    let q0 = sum / d;
    let r = sum % d;
    assert(r < d);
    assert(d <= 0xffff_ffff_ffff_ffff * 1000);
    assert(q0 <= sum / 1000) by (nonlinear_arith) requires d >= 1000, q0 == sum / d;
    let q = if 2 * r > d || (2 * r == d && q0 % 2 == 1) { q0 + 1 } else { q0 };
    proof {
        assert(q == round_half_even(sum as nat, d as nat));
        lemma_round_scaled(sum as nat, d as nat, 100);
        assert(pow10(2) == 100) by {
            reveal_with_fuel(pow10, 3);
        }
        assert((d * 100) as nat == count * 100000);
    }
    push_hundredths(s, q);
}

/// `avg <cores>c, max <cores>c`, then the peak as a percent of the CPU
/// cap (when one above zero was set) or of the host's cores.
pub open spec fn cpu_stats_text(st: CpuStats, limit: Option<u32>, host: Option<u32>) -> Seq<char> {
    let head = "avg "@ + fixed(st.sum_milli as nat, (st.count * 100000) as nat, 2) + "c, max "@
        + fixed(st.max_milli as nat, 100000, 2) + "c"@;
    if limit matches Some(l) && l > 0 {
        head + " ("@ + fixed(st.max_milli as nat, (10 * limit.unwrap()) as nat, 1) + "% of "@
            + fixed(limit.unwrap() as nat, 100, 2) + "c)"@
    } else if host matches Some(h) && h > 0 {
        head + " ("@ + fixed(st.max_milli as nat, (1000 * host.unwrap()) as nat, 1) + "% of "@
            + digits(host.unwrap() as nat) + "c)"@
    } else {
        head
    }
}

/// The value of the `cpu` row.
pub fn format_cpu_stats(stats: CpuStats, cpu_limit_centi_cores: Option<u32>, host_logical_cores: Option<u32>) -> (r: String)
    requires
        stats.count > 0,
    ensures
        r@ == cpu_stats_text(stats, cpu_limit_centi_cores, host_logical_cores),
{
    let mut s = "avg ".to_owned();
    push_average_cores(&mut s, stats.sum_milli, stats.count);
    s.append("c, max ");
    push_fixed(&mut s, stats.max_milli as u128, 100000, 2);
    s.append("c");
    match cpu_limit_centi_cores {
        Some(l) if l > 0 => {
            s.append(" (");
            push_fixed(&mut s, stats.max_milli as u128, 10 * (l as u128), 1);
            s.append("% of ");
            push_fixed(&mut s, l as u128, 100, 2);
            s.append("c)");
            return s;
        },
        _ => {},
    }
    match host_logical_cores {
        Some(h) if h > 0 => {
            s.append(" (");
            push_fixed(&mut s, stats.max_milli as u128, 1000 * (h as u128), 1);
            s.append("% of ");
            push_digits(&mut s, h as u128);
            s.append("c)");
        },
        _ => {},
    }
    s
}

proof fn lemma_average_cores_len(sum: nat, count: nat)
    requires
        count > 0,
        sum <= count * 0xffff_ffff_ffff_ffff,
    ensures
        fixed(sum, count * 100000, 2).len() <= 30,
{
    let d = count * 1000;
    lemma_round_scaled(sum, d, 100);
    assert(pow10(2) == 100) by {
        reveal_with_fuel(pow10, 3);
    }
    let q = round_half_even(sum, d);
    assert(sum / d <= 0xffff_ffff_ffff_ffffnat / 1000) by (nonlinear_arith)
        requires sum <= count * 0xffff_ffff_ffff_ffff, d == count * 1000, count > 0;
    assert(q <= sum / d + 1);
    assert(q / 100 < pow10(20)) by {
        reveal_with_fuel(pow10, 21);
    }
    crate::text::lemma_digits_bound(q / 100, 20);
    assert(q % 100 < pow10(2));
    crate::text::lemma_digits_bound(q % 100, 2);
    reveal_strlit(".");
}

proof fn lemma_cpu_row_len(samples: Seq<SummarySample>, limit: Option<u32>, host: Option<u32>)
    requires
        samples.len() <= 0xffff_ffff_ffff_ffff,
    ensures
        cpu_row_value(samples, limit, host) matches Some(t) ==> t.len() <= 300,
{
    if samples.len() > 0 {
        reveal_strlit("avg ");
        reveal_strlit("c, max ");
        reveal_strlit("c");
        reveal_strlit(" (");
        reveal_strlit("% of ");
        reveal_strlit("c)");
        lemma_cpu_sum_bound(samples);
        assert(samples.len() * 0xffff_ffff_ffff_ffff <= 0xffff_ffff_ffff_ffff * 0xffff_ffff_ffff_ffff) by (nonlinear_arith)
            requires samples.len() <= 0xffff_ffff_ffff_ffff;
        assert((cpu_sum(samples) as u128) as nat == cpu_sum(samples));
        assert((samples.len() as u64) as nat == samples.len());
        lemma_average_cores_len(cpu_sum(samples), samples.len());
        let m = cpu_max(samples);
        lemma_u64_below_pow10_30(m);
        crate::text::lemma_fixed_len(m, 100000, 2);
        if let Some(l) = limit {
            if l > 0 {
                crate::text::lemma_fixed_len(m, (10 * l) as nat, 1);
            }
            lemma_u64_below_pow10_30(l as nat);
            crate::text::lemma_fixed_len(l as nat, 100, 2);
        }
        if let Some(h) = host {
            if h > 0 {
                crate::text::lemma_fixed_len(m, (1000 * h) as nat, 1);
            }
            reveal_with_fuel(pow10, 11);
            crate::text::lemma_digits_bound(h as nat, 10);
        }
    }
}

/// The `cpu` row's value for the samples of a run, `None` without samples.
pub open spec fn cpu_row_value(samples: Seq<SummarySample>, limit: Option<u32>, host: Option<u32>) -> Option<Seq<char>> {
    if samples.len() == 0 {
        None
    } else {
        Some(cpu_stats_text(CpuStats {
            sum_milli: cpu_sum(samples) as u128,
            count: samples.len() as u64,
            max_milli: cpu_max(samples) as u64,
        }, limit, host))
    }
}

pub const NANOS_PER_SEC: u64 = 1_000_000_000;

/// A run time in the unit people use for it: integer milliseconds below
/// one second, seconds with three decimals below a minute, minutes and
/// seconds with one decimal below an hour, and whole hours, minutes and
/// seconds beyond.
pub open spec fn duration_text(nanos: nat) -> Seq<char> {
    let secs = nanos / (NANOS_PER_SEC as nat);
    if secs < 1 {
        digits(nanos / 1_000_000) + "ms"@
    } else if secs < 60 {
        fixed(nanos, NANOS_PER_SEC as nat, 3) + "s"@
    } else if secs < 3600 {
        let minutes = secs / 60;
        digits(minutes) + "m "@ + fixed(
            (nanos - minutes * 60 * NANOS_PER_SEC) as nat,
            NANOS_PER_SEC as nat,
            1,
        ) + "s"@
    } else {
        let hours = secs / 3600;
        let after_hours = (nanos - hours * 3600 * NANOS_PER_SEC) as nat;
        let minutes = after_hours / (60 * NANOS_PER_SEC) as nat;
        digits(hours) + "h "@ + digits(minutes) + "m "@ + fixed(
            (after_hours - minutes * 60 * NANOS_PER_SEC) as nat,
            NANOS_PER_SEC as nat,
            0,
        ) + "s"@
    }
}

/// A run time given in nanoseconds, e.g. `29ms`, `3.260s`, `2m 5.0s`
/// or `1h 2m 5s`. Fractional seconds are rounded on the exact
/// nanosecond count, ties to even: `1.0635s` reads `1.064s`, which a
/// binary floating-point rendering of the same value may write as
/// `1.063s`.
pub fn format_duration(nanos: u64) -> (r: String)
    ensures
        r@ == duration_text(nanos as nat),
{
    let mut s = String::new();
    let secs = nanos / NANOS_PER_SEC;
    if secs < 1 {
        push_digits(&mut s, (nanos / 1_000_000) as u128);
        s.append("ms");
    } else if secs < 60 {
        push_fixed(&mut s, nanos as u128, NANOS_PER_SEC as u128, 3);
        s.append("s");
    } else if secs < 3600 {
        let minutes = secs / 60;
        push_digits(&mut s, minutes as u128);
        s.append("m ");
        push_fixed(&mut s, (nanos - minutes * 60 * NANOS_PER_SEC) as u128, NANOS_PER_SEC as u128, 1);
        s.append("s");
    } else {
        let hours = secs / 3600;
        let after_hours = nanos - hours * 3600 * NANOS_PER_SEC;
        let minutes = after_hours / (60 * NANOS_PER_SEC);
        assert(minutes * 60 * NANOS_PER_SEC <= after_hours) by (nonlinear_arith)
            requires minutes == after_hours / 60_000_000_000u64;
        push_digits(&mut s, hours as u128);
        s.append("h ");
        push_digits(&mut s, minutes as u128);
        s.append("m ");
        push_fixed(
            &mut s,
            (after_hours - minutes * 60 * NANOS_PER_SEC) as u128,
            NANOS_PER_SEC as u128,
            0,
        );
        s.append("s");
    }
    assert(s@ =~= duration_text(nanos as nat));
    s
}

/// The canonical name of the signals most likely to end a wrapped
/// command.
pub open spec fn signal_name_spec(signal: int) -> Option<Seq<char>> {
    if signal == 1 {
        Some("SIGHUP"@)
    } else if signal == 2 {
        Some("SIGINT"@)
    } else if signal == 3 {
        Some("SIGQUIT"@)
    } else if signal == 6 {
        Some("SIGABRT"@)
    } else if signal == 9 {
        Some("SIGKILL"@)
    } else if signal == 11 {
        Some("SIGSEGV"@)
    } else if signal == 13 {
        Some("SIGPIPE"@)
    } else if signal == 15 {
        Some("SIGTERM"@)
    } else {
        None
    }
}

pub fn signal_name(signal: i32) -> (r: Option<&'static str>)
    ensures
        r is Some <==> signal_name_spec(signal as int) is Some,
        r is Some ==> r.unwrap()@ == signal_name_spec(signal as int).unwrap(),
{
    match signal {
        1 => Some("SIGHUP"),
        2 => Some("SIGINT"),
        3 => Some("SIGQUIT"),
        6 => Some("SIGABRT"),
        9 => Some("SIGKILL"),
        11 => Some("SIGSEGV"),
        13 => Some("SIGPIPE"),
        15 => Some("SIGTERM"),
        _ => None,
    }
}

/// The English verb for the signals of `signal_name_spec`.
pub open spec fn signal_verb_spec(signal: int) -> Seq<char> {
    if signal == 1 {
        "hangup"@
    } else if signal == 2 {
        "interrupted"@
    } else if signal == 3 {
        "quit"@
    } else if signal == 6 {
        "aborted"@
    } else if signal == 9 {
        "killed"@
    } else if signal == 11 {
        "segfaulted"@
    } else if signal == 13 {
        "pipe-broken"@
    } else {
        "terminated"@
    }
}

pub fn signal_verb(signal: i32) -> (r: &'static str)
    ensures
        r@ == signal_verb_spec(signal as int),
{
    match signal {
        1 => "hangup",
        2 => "interrupted",
        3 => "quit",
        6 => "aborted",
        9 => "killed",
        11 => "segfaulted",
        13 => "pipe-broken",
        _ => "terminated",
    }
}

/// The exit row's value: success, a failure code, a shell-style
/// `128 + N` signal code, or the signal that killed the process.
pub open spec fn exit_text(status: ExitStatus) -> Seq<char> {
    match status {
        ExitStatus::Exited(code) => if code == 0 {
            "0 (success)"@
        } else if 129 <= code <= 159 {
            let signal = code - 128;
            if signal_name_spec(signal) is Some {
                int_digits(code as int) + " ("@ + signal_verb_spec(signal) + " by "@
                    + signal_name_spec(signal).unwrap() + ")"@
            } else {
                int_digits(code as int) + " (failure, signal "@ + int_digits(signal) + ")"@
            }
        } else {
            int_digits(code as int) + " (failure)"@
        },
        ExitStatus::Signaled(signal) => if signal_name_spec(signal as int) is Some {
            "signal "@ + int_digits(signal as int) + " ("@ + signal_name_spec(signal as int).unwrap()
                + ")"@
        } else {
            "signal "@ + int_digits(signal as int)
        },
    }
}

pub fn format_exit_status(status: ExitStatus) -> (r: String)
    ensures
        r@ == exit_text(status),
{
    let mut s = String::new();
    match status {
        ExitStatus::Exited(code) => {
            if code == 0 {
                s.append("0 (success)");
            } else if 129 <= code && code <= 159 {
                let signal = code - 128;
                match signal_name(signal) {
                    Some(name) => {
                        push_int(&mut s, code as i64);
                        s.append(" (");
                        s.append(signal_verb(signal));
                        s.append(" by ");
                        s.append(name);
                        s.append(")");
                    },
                    None => {
                        push_int(&mut s, code as i64);
                        s.append(" (failure, signal ");
                        push_int(&mut s, signal as i64);
                        s.append(")");
                    },
                }
            } else {
                push_int(&mut s, code as i64);
                s.append(" (failure)");
            }
        },
        ExitStatus::Signaled(signal) => {
            s.append("signal ");
            push_int(&mut s, signal as i64);
            match signal_name(signal) {
                Some(name) => {
                    s.append(" (");
                    s.append(name);
                    s.append(")");
                },
                None => {},
            }
        },
    }
    assert(s@ =~= exit_text(status));
    s
}


/// Width of the label column of the card body (`elapsed`).
pub const LABEL_WIDTH: usize = 7;
/// Width of the label column of the context block (`interactive`).
pub const CONTEXT_LABEL_WIDTH: usize = 11;
/// Minimum inner width of the card.
pub const MIN_INNER_WIDTH: usize = 38;
/// Header label plus three rule columns on each side.
pub const HEADER_BREATHING: usize = 22;

/// A card body row: indent, padded label, two spaces, value.
pub open spec fn row_text(label: Seq<char>, value: Seq<char>) -> Seq<char> {
    "  "@ + pad_right(label, LABEL_WIDTH as nat) + "  "@ + value
}

/// A context row: indent, padded label, two spaces, value.
pub open spec fn context_row_text(label: Seq<char>, value: Seq<char>) -> Seq<char> {
    "  "@ + pad_right(label, CONTEXT_LABEL_WIDTH as nat) + "  "@ + value
}

/// The backend context row, which carries the level as a `[tag]`.
pub open spec fn backend_row_text(value: Seq<char>, level: CapabilityLevel) -> Seq<char> {
    context_row_text("backend"@, value) + "  ["@ + level.name() + "]"@
}

pub open spec fn warning_row_text(warning: Seq<char>) -> Seq<char> {
    "  "@ + "warning: "@ + warning
}

pub fn build_row(label: &str, value: &str) -> (r: String)
    ensures
        r@ == row_text(label@, value@),
{
    let mut s = String::new();
    s.append("  ");
    push_padded(&mut s, label, LABEL_WIDTH);
    s.append("  ");
    s.append(value);
    assert(s@ =~= row_text(label@, value@));
    s
}

pub fn build_context_row(label: &str, value: &str) -> (r: String)
    ensures
        r@ == context_row_text(label@, value@),
{
    let mut s = String::new();
    s.append("  ");
    push_padded(&mut s, label, CONTEXT_LABEL_WIDTH);
    s.append("  ");
    s.append(value);
    assert(s@ =~= context_row_text(label@, value@));
    s
}

pub fn build_backend_row(value: &str, level: CapabilityLevel) -> (r: String)
    ensures
        r@ == backend_row_text(value@, level),
{
    let mut s = build_context_row("backend", value);
    s.append("  [");
    s.append(level.as_str());
    s.append("]");
    assert(s@ =~= backend_row_text(value@, level));
    s
}

pub open spec fn is_enforced_spec(level: CapabilityLevel) -> bool {
    level == CapabilityLevel::Enforced
}

pub fn is_enforced(level: CapabilityLevel) -> (r: bool)
    ensures
        r == is_enforced_spec(level),
{
    level == CapabilityLevel::Enforced
}

pub fn capability_value(level: CapabilityLevel) -> (r: &'static str)
    ensures
        r@ == level.name(),
{
    level.as_str()
}

/// Whether some facet of the report is not enforced.
pub open spec fn is_degraded(c: CapabilityReport) -> bool {
    !is_enforced_spec(c.backend_state) || !is_enforced_spec(c.cpu) || !is_enforced_spec(c.memory)
        || !is_enforced_spec(c.interactive)
}

/// The context block: empty when every facet is enforced and there are
/// no warnings; otherwise the backend row, the three facet rows and one
/// row per warning.
pub open spec fn context_rows_spec(c: CapabilityReport, warnings: Seq<Seq<char>>) -> Seq<Seq<char>> {
    if !is_degraded(c) && warnings.len() == 0 {
        Seq::empty()
    } else {
        seq![
            backend_row_text(c.backend.name(), c.backend_state),
            context_row_text("cpu"@, c.cpu.name()),
            context_row_text("memory"@, c.memory.name()),
            context_row_text("interactive"@, c.interactive.name()),
        ] + warnings.map_values(|w: Seq<char>| warning_row_text(w))
    }
}

pub fn build_context_rows(capabilities: &CapabilityReport, warnings: &Vec<String>) -> (r: Vec<String>)
    ensures
        views(r@) == context_rows_spec(*capabilities, views(warnings@)),
{
    let mut rows: Vec<String> = Vec::new();
    let any_degraded = !is_enforced(capabilities.backend_state) || !is_enforced(capabilities.cpu)
        || !is_enforced(capabilities.memory) || !is_enforced(capabilities.interactive);
    if !any_degraded && warnings.len() == 0 {
        assert(views(rows@) =~= context_rows_spec(*capabilities, views(warnings@)));
        return rows;
    }
    rows.push(build_backend_row(capabilities.backend.as_str(), capabilities.backend_state));
    rows.push(build_context_row("cpu", capability_value(capabilities.cpu)));
    rows.push(build_context_row("memory", capability_value(capabilities.memory)));
    rows.push(build_context_row("interactive", capability_value(capabilities.interactive)));
    let ghost fixed_rows = views(rows@);
    let mut i: usize = 0;
    while i < warnings.len()
        invariant
            i <= warnings.len(),
            fixed_rows.len() == 4,
            views(rows@) =~= fixed_rows + views(warnings@).take(i as int).map_values(
                |w: Seq<char>| warning_row_text(w),
            ),
        decreases warnings.len() - i,
    {
        let mut row = String::new();
        row.append("  ");
        row.append("warning: ");
        row.append(warnings[i].as_str());
        let ghost before = rows@;
        assert(row@ =~= warning_row_text(warnings@[i as int]@));
        rows.push(row);
        proof {
            assert(views(rows@) =~= views(before).push(row@));
            assert(views(warnings@).take(i + 1) =~= views(warnings@).take(i as int).push(
                warnings@[i as int]@,
            ));
        }
        i = i + 1;
    }
    assert(views(warnings@).take(warnings.len() as int) =~= views(warnings@));
    rows
}

/// The card's top rule with the label centred; the right side takes the
/// extra column when the rule space is odd.
pub open spec fn header_text(inner_width: nat) -> Seq<char> {
    let total = if inner_width >= 16 { (inner_width - 16) as nat } else { 0nat };
    let left = total / 2;
    let right = (total - left) as nat;
    "┌"@ + repeat('─', left) + " scaler summary "@ + repeat('─', right) + "┐"@
}

pub open spec fn footer_text(inner_width: nat) -> Seq<char> {
    "└"@ + repeat('─', inner_width) + "┘"@
}

pub open spec fn divider_text(outer_width: nat) -> Seq<char> {
    "── scaler "@ + repeat('─', if outer_width >= 10 { (outer_width - 10) as nat } else { 0nat })
}

pub fn render_header(inner_width: usize) -> (r: String)
    ensures
        r@ == header_text(inner_width as nat),
{
    let label = " scaler summary ";
    proof {
        reveal_strlit(" scaler summary ");
    }
    let label_cols = label.unicode_len();
    let total_rule_cols = if inner_width >= label_cols { inner_width - label_cols } else { 0 };
    let left_rule_cols = total_rule_cols / 2;
    let right_rule_cols = total_rule_cols - left_rule_cols;
    let mut s = String::new();
    s.append("┌");
    push_repeat(&mut s, '─', left_rule_cols);
    s.append(label);
    push_repeat(&mut s, '─', right_rule_cols);
    s.append("┐");
    assert(s@ =~= header_text(inner_width as nat));
    s
}

pub fn render_footer(inner_width: usize) -> (r: String)
    ensures
        r@ == footer_text(inner_width as nat),
{
    let mut s = String::new();
    s.append("└");
    push_repeat(&mut s, '─', inner_width);
    s.append("┘");
    assert(s@ =~= footer_text(inner_width as nat));
    s
}

/// The body rows: exit and elapsed always, memory when the peak is
/// known, cpu when a cpu summary is present.
pub open spec fn body_rows_spec(o: RunOutcome) -> Seq<Seq<char>> {
    let base = seq![
        row_text("exit"@, exit_text(o.exit_status)),
        row_text("elapsed"@, duration_text(o.elapsed_nanos as nat)),
    ];
    let with_memory = if o.peak_memory is Some {
        base.push(
            row_text(
                "memory"@,
                memory_text(o.peak_memory.unwrap() as nat, o.mem_limit_bytes, o.system_memory_bytes),
            ),
        )
    } else {
        base
    };
    match cpu_row_value(o.samples@, o.cpu_limit_centi_cores, o.host_logical_cores) {
        Some(cpu) => with_memory.push(row_text("cpu"@, cpu)),
        None => with_memory,
    }
}

/// The length of the longest line, 0 for no lines.
pub open spec fn max_len(rows: Seq<Seq<char>>) -> nat
    decreases rows.len(),
{
    if rows.len() == 0 {
        0
    } else {
        let rest = max_len(rows.drop_last());
        if rows.last().len() > rest {
            rows.last().len()
        } else {
            rest
        }
    }
}

pub open spec fn max3(a: nat, b: nat, c: nat) -> nat {
    let ab = if a > b { a } else { b };
    if ab > c { ab } else { c }
}

/// The card's inner width: the longest body or context row, but at
/// least the header label with breathing room and at least the minimum.
pub open spec fn inner_width_spec(o: RunOutcome) -> nat {
    max3(
        max_len(body_rows_spec(o) + context_rows_spec(o.capabilities, views(o.warnings@))),
        HEADER_BREATHING as nat,
        MIN_INNER_WIDTH as nat,
    )
}

/// The lines of the rendered summary.
pub open spec fn card_lines(o: RunOutcome) -> Seq<Seq<char>> {
    let inner = inner_width_spec(o);
    let outer = inner + 2;
    let context = context_rows_spec(o.capabilities, views(o.warnings@));
    let top = if context.len() == 0 {
        Seq::empty()
    } else {
        seq![divider_text(outer)] + context.map_values(|r: Seq<char>| pad_right(r, outer))
    };
    top + seq![header_text(inner)] + body_rows_spec(o).map_values(
        |r: Seq<char>| "│"@ + pad_right(r, inner) + "│"@,
    ) + seq![footer_text(inner)]
}

/// The card can be measured in machine words: the sample count fits a
/// `u64`, and every warning is short enough that its row, borders
/// included, still has a length that fits a `usize`.
pub open spec fn outcome_fits(o: RunOutcome) -> bool {
    &&& o.samples@.len() <= 0xffff_ffff_ffff_ffff
    &&& forall|i: int| 0 <= i < o.warnings@.len() ==> #[trigger] o.warnings@[i]@.len() <= usize::MAX - 64
}


proof fn lemma_int_digits_len(i: int)
    requires
        -0x8000_0000 <= i <= 0x7fff_ffff,
    ensures
        int_digits(i).len() <= 11,
{
    reveal_with_fuel(crate::text::pow10, 11);
    reveal_strlit("-");
    if i < 0 {
        crate::text::lemma_digits_bound((-i) as nat, 10);
    } else {
        crate::text::lemma_digits_bound(i as nat, 10);
    }
}

proof fn lemma_signal_texts_len(signal: int)
    ensures
        signal_name_spec(signal) is Some ==> signal_name_spec(signal).unwrap().len() <= 7,
        signal_verb_spec(signal).len() <= 11,
{
    reveal_strlit("SIGHUP");
    reveal_strlit("SIGINT");
    reveal_strlit("SIGQUIT");
    reveal_strlit("SIGABRT");
    reveal_strlit("SIGKILL");
    reveal_strlit("SIGSEGV");
    reveal_strlit("SIGPIPE");
    reveal_strlit("SIGTERM");
    reveal_strlit("hangup");
    reveal_strlit("interrupted");
    reveal_strlit("quit");
    reveal_strlit("aborted");
    reveal_strlit("killed");
    reveal_strlit("segfaulted");
    reveal_strlit("pipe-broken");
    reveal_strlit("terminated");
}

proof fn lemma_exit_text_len(status: ExitStatus)
    ensures
        exit_text(status).len() <= 100,
{
    reveal_strlit("0 (success)");
    reveal_strlit(" (");
    reveal_strlit(" by ");
    reveal_strlit(")");
    reveal_strlit(" (failure, signal ");
    reveal_strlit(" (failure)");
    reveal_strlit("signal ");
    match status {
        ExitStatus::Exited(code) => {
            lemma_int_digits_len(code as int);
            if 129 <= code <= 159 {
                lemma_int_digits_len(code - 128);
            }
            lemma_signal_texts_len(code - 128);
        },
        ExitStatus::Signaled(signal) => {
            lemma_int_digits_len(signal as int);
            lemma_signal_texts_len(signal as int);
        },
    }
}

proof fn lemma_u64_below_pow10_30(n: nat)
    requires
        n <= 0xffff_ffff_ffff_ffff * 100,
    ensures
        n < crate::text::pow10(30),
{
    reveal_with_fuel(crate::text::pow10, 31);
}

proof fn lemma_bytes_text_len(bytes: nat)
    requires
        bytes <= 0xffff_ffff_ffff_ffff,
    ensures
        bytes_text(bytes).len() <= 60,
{
    reveal_strlit(" GiB");
    reveal_strlit(" MiB");
    reveal_strlit(" KiB");
    reveal_strlit(" B");
    lemma_u64_below_pow10_30(bytes);
    crate::text::lemma_fixed_len(bytes, GIB as nat, 1);
    crate::text::lemma_fixed_len(bytes, MIB as nat, 1);
    crate::text::lemma_fixed_len(bytes, KIB as nat, 1);
    if bytes < KIB {
        reveal_with_fuel(crate::text::pow10, 5);
        crate::text::lemma_digits_bound(bytes, 4);
    }
}

proof fn lemma_memory_text_len(peak: nat, limit: Option<u64>, system_total: Option<u64>)
    requires
        peak <= 0xffff_ffff_ffff_ffff,
    ensures
        memory_text(peak, limit, system_total).len() <= 250,
{
    reveal_strlit("max ");
    reveal_strlit(" (");
    reveal_strlit("% of ");
    reveal_strlit(")");
    lemma_bytes_text_len(peak);
    lemma_u64_below_pow10_30(peak * 100);
    if limit is Some {
        lemma_bytes_text_len(limit.unwrap() as nat);
        if limit.unwrap() > 0 {
            crate::text::lemma_fixed_len(peak * 100, limit.unwrap() as nat, 1);
        }
    }
    if system_total is Some {
        lemma_bytes_text_len(system_total.unwrap() as nat);
        if system_total.unwrap() > 0 {
            crate::text::lemma_fixed_len(peak * 100, system_total.unwrap() as nat, 1);
        }
    }
}

proof fn lemma_duration_text_len(nanos: nat)
    requires
        nanos <= 0xffff_ffff_ffff_ffff,
    ensures
        duration_text(nanos).len() <= 200,
{
    reveal_strlit("ms");
    reveal_strlit("s");
    reveal_strlit("m ");
    reveal_strlit("h ");
    reveal_with_fuel(crate::text::pow10, 31);
    let secs = nanos / (NANOS_PER_SEC as nat);
    crate::text::lemma_digits_bound(nanos / 1_000_000, 30);
    crate::text::lemma_fixed_len(nanos, NANOS_PER_SEC as nat, 3);
    crate::text::lemma_digits_bound(secs / 60, 30);
    crate::text::lemma_digits_bound(secs / 3600, 30);
    if secs >= 60 && secs < 3600 {
        let minutes = secs / 60;
        assert(minutes * 60 * NANOS_PER_SEC <= nanos) by (nonlinear_arith)
            requires minutes == nanos / 1_000_000_000 / 60;
        crate::text::lemma_fixed_len((nanos - minutes * 60 * NANOS_PER_SEC) as nat, NANOS_PER_SEC as nat, 1);
    }
    if secs >= 3600 {
        let hours = secs / 3600;
        assert(hours * 3600 * NANOS_PER_SEC <= nanos) by (nonlinear_arith)
            requires hours == nanos / 1_000_000_000 / 3600;
        let after_hours = (nanos - hours * 3600 * NANOS_PER_SEC) as nat;
        let minutes = after_hours / (60 * NANOS_PER_SEC) as nat;
        assert(minutes * 60 * NANOS_PER_SEC <= after_hours) by (nonlinear_arith)
            requires minutes == after_hours / 60_000_000_000;
        crate::text::lemma_digits_bound(minutes, 30);
        crate::text::lemma_fixed_len((after_hours - minutes * 60 * NANOS_PER_SEC) as nat, NANOS_PER_SEC as nat, 0);
    }
}


pub proof fn lemma_max_len_is_max(rows: Seq<Seq<char>>)
    ensures
        forall|i: int| 0 <= i < rows.len() ==> #[trigger] rows[i].len() <= max_len(rows),
    decreases rows.len(),
{
    if rows.len() > 0 {
        lemma_max_len_is_max(rows.drop_last());
        assert forall|i: int| 0 <= i < rows.len() implies #[trigger] rows[i].len() <= max_len(rows) by {
            if i < rows.len() - 1 {
                assert(rows[i] == rows.drop_last()[i]);
            }
        }
    }
}

pub proof fn lemma_max_len_bound(rows: Seq<Seq<char>>, bound: nat)
    requires
        forall|i: int| 0 <= i < rows.len() ==> #[trigger] rows[i].len() <= bound,
    ensures
        max_len(rows) <= bound,
    decreases rows.len(),
{
    if rows.len() > 0 {
        assert forall|i: int| 0 <= i < rows.drop_last().len() implies #[trigger] rows.drop_last()[i].len() <= bound by {
            assert(rows.drop_last()[i] == rows[i]);
        }
        lemma_max_len_bound(rows.drop_last(), bound);
    }
}

proof fn lemma_rows_bounded(o: RunOutcome)
    requires
        outcome_fits(o),
    ensures
        forall|i: int|
            0 <= i < (body_rows_spec(o) + context_rows_spec(o.capabilities, views(o.warnings@))).len()
                ==> #[trigger] (body_rows_spec(o) + context_rows_spec(o.capabilities, views(o.warnings@)))[i].len()
                <= usize::MAX - 16,
{
    reveal_strlit("  ");
    reveal_strlit("exit");
    reveal_strlit("elapsed");
    reveal_strlit("memory");
    reveal_strlit("cpu");
    reveal_strlit("backend");
    reveal_strlit("interactive");
    reveal_strlit("  [");
    reveal_strlit("]");
    reveal_strlit("warning: ");
    reveal_strlit("linux_systemd");
    reveal_strlit("macos_taskpolicy");
    reveal_strlit("plain_fallback");
    reveal_strlit("unsupported");
    reveal_strlit("enforced");
    reveal_strlit("best_effort");
    reveal_strlit("unavailable");
    lemma_exit_text_len(o.exit_status);
    lemma_duration_text_len(o.elapsed_nanos as nat);
    lemma_cpu_row_len(o.samples@, o.cpu_limit_centi_cores, o.host_logical_cores);
    if o.peak_memory is Some {
        lemma_memory_text_len(o.peak_memory.unwrap() as nat, o.mem_limit_bytes, o.system_memory_bytes);
    }
    let rows = body_rows_spec(o) + context_rows_spec(o.capabilities, views(o.warnings@));
    let body = body_rows_spec(o);
    let ctx = context_rows_spec(o.capabilities, views(o.warnings@));
    assert forall|i: int| 0 <= i < rows.len() implies #[trigger] rows[i].len() <= usize::MAX - 16 by {
        if i < body.len() {
            assert(rows[i] == body[i]);
        } else {
            let j = i - body.len();
            assert(rows[i] == ctx[j]);
            if j >= 4 {
                let w = o.warnings@[j - 4]@;
                assert(views(o.warnings@)[j - 4] == w);
                assert(o.warnings@[j - 4]@.len() <= usize::MAX - 64);
            }
        }
    }
}

/// The summary card: the context block (when present), then the boxed
/// body rows.
pub fn render(outcome: &RunOutcome) -> (r: String)
    requires
        outcome_fits(*outcome),
    ensures
        r@ == join_lines(card_lines(*outcome)),
{
    let mut body: Vec<String> = Vec::new();
    let exit = format_exit_status(outcome.exit_status);
    body.push(build_row("exit", exit.as_str()));
    let elapsed = format_duration(outcome.elapsed_nanos);
    body.push(build_row("elapsed", elapsed.as_str()));
    match outcome.peak_memory {
        Some(peak) => {
            let memory = format_memory(peak, outcome.mem_limit_bytes, outcome.system_memory_bytes);
            body.push(build_row("memory", memory.as_str()));
        },
        None => {},
    }
    match cpu_stats(&outcome.samples) {
        Some(stats) => {
            proof {
                lemma_cpu_sum_bound(outcome.samples@);
            }
            let cpu = format_cpu_stats(stats, outcome.cpu_limit_centi_cores, outcome.host_logical_cores);
            body.push(build_row("cpu", cpu.as_str()));
        },
        None => {},
    }
    assert(views(body@) =~= body_rows_spec(*outcome));
    let context_rows = build_context_rows(&outcome.capabilities, &outcome.warnings);
    let ghost all = views(body@) + views(context_rows@);
    proof {
        lemma_rows_bounded(*outcome);
    }
    let mut longest: usize = 0;
    let mut i: usize = 0;
    while i < body.len()
        invariant
            i <= body.len(),
            all == views(body@) + views(context_rows@),
            longest == max_len(all.take(i as int)),
            forall|k: int| 0 <= k < all.len() ==> #[trigger] all[k].len() <= usize::MAX - 16,
        decreases body.len() - i,
    {
        let len = body[i].unicode_len();
        assert(all.take(i + 1).drop_last() =~= all.take(i as int));
        assert(all[i as int] == body@[i as int]@);
        if len > longest {
            longest = len;
        }
        i = i + 1;
    }
    let mut j: usize = 0;
    while j < context_rows.len()
        invariant
            j <= context_rows.len(),
            i == body.len(),
            all == views(body@) + views(context_rows@),
            longest == max_len(all.take(i + j)),
            forall|k: int| 0 <= k < all.len() ==> #[trigger] all[k].len() <= usize::MAX - 16,
        decreases context_rows.len() - j,
    {
        let len = context_rows[j].unicode_len();
        assert(all.take(i + j + 1).drop_last() =~= all.take(i + j));
        assert(all[i + j] == context_rows@[j as int]@);
        if len > longest {
            longest = len;
        }
        j = j + 1;
    }
    assert(all.take(i + j) =~= all);
    proof {
        lemma_max_len_bound(all, (usize::MAX - 16) as nat);
    }
    let mut inner_width = longest;
    if HEADER_BREATHING > inner_width {
        inner_width = HEADER_BREATHING;
    }
    if MIN_INNER_WIDTH > inner_width {
        inner_width = MIN_INNER_WIDTH;
    }
    assert(inner_width == inner_width_spec(*outcome));
    let outer_width = inner_width + 2;
    let ghost expected = card_lines(*outcome);
    let ghost ctx = views(context_rows@);
    let ghost top_len: int = if ctx.len() == 0 { 0int } else { ctx.len() as int + 1 };
    let mut lines: Vec<String> = Vec::new();
    if context_rows.len() > 0 {
        let mut divider = String::new();
        divider.append("── scaler ");
        let label_cols = "── scaler ".unicode_len();
        proof {
            reveal_strlit("── scaler ");
        }
        let rule_cols = if outer_width >= label_cols { outer_width - label_cols } else { 0 };
        push_repeat(&mut divider, '─', rule_cols);
        assert(divider@ =~= divider_text(outer_width as nat));
        lines.push(divider);
        assert(views(lines@) =~= expected.take(1));
        let mut k: usize = 0;
        while k < context_rows.len()
            invariant
                k <= context_rows.len(),
                ctx == views(context_rows@),
                ctx.len() > 0,
                expected == card_lines(*outcome),
                outer_width == inner_width_spec(*outcome) + 2,
                context_rows_spec(outcome.capabilities, views(outcome.warnings@)) == ctx,
                views(lines@) =~= expected.take(k + 1),
            decreases context_rows.len() - k,
        {
            let mut row = String::new();
            push_padded(&mut row, context_rows[k].as_str(), outer_width);
            assert(row@ =~= pad_right(context_rows@[k as int]@, outer_width as nat));
            assert(expected[k + 1] == row@);
            let ghost before = lines@;
            lines.push(row);
            assert(views(lines@) =~= views(before).push(expected[k + 1]));
            assert(views(lines@) =~= expected.take(k + 2));
            k = k + 1;
        }
    }
    assert(views(lines@) =~= expected.take(top_len));
    let header = render_header(inner_width);
    assert(expected[top_len] == header@);
    let ghost before = lines@;
    lines.push(header);
    assert(views(lines@) =~= views(before).push(expected[top_len]));
    assert(views(lines@) =~= expected.take(top_len + 1));
    let mut b: usize = 0;
    while b < body.len()
        invariant
            b <= body.len(),
            expected == card_lines(*outcome),
            views(body@) == body_rows_spec(*outcome),
            inner_width == inner_width_spec(*outcome),
            top_len == (if ctx.len() == 0 { 0int } else { ctx.len() as int + 1 }),
            ctx == context_rows_spec(outcome.capabilities, views(outcome.warnings@)),
            views(lines@) =~= expected.take(top_len + 1 + b),
        decreases body.len() - b,
    {
        let mut row = String::new();
        row.append("│");
        push_padded(&mut row, body[b].as_str(), inner_width);
        row.append("│");
        assert(row@ =~= "│"@ + pad_right(body@[b as int]@, inner_width as nat) + "│"@);
        assert(expected[top_len + 1 + b] == row@);
        let ghost before = lines@;
        lines.push(row);
        assert(views(lines@) =~= views(before).push(expected[top_len + 1 + b]));
        assert(views(lines@) =~= expected.take(top_len + 1 + b + 1));
        b = b + 1;
    }
    let footer = render_footer(inner_width);
    assert(expected[top_len + 1 + b] == footer@);
    let ghost before = lines@;
    lines.push(footer);
    assert(views(lines@) =~= views(before).push(expected[top_len + 1 + b]));
    assert(expected.len() == top_len + 1 + b + 1);
    assert(views(lines@) =~= expected);
    join_with_newlines(&lines)
}


/// Every line of the summary (divider, context rows, header, body rows
/// and footer) has the same width: the card's inner width plus the two
/// border columns.
pub proof fn lemma_card_lines_share_width(o: RunOutcome)
    ensures
        forall|i: int|
            0 <= i < card_lines(o).len() ==> #[trigger] card_lines(o)[i].len() == inner_width_spec(o)
                + 2,
{
    reveal_strlit("── scaler ");
    reveal_strlit("┌");
    reveal_strlit("┐");
    reveal_strlit(" scaler summary ");
    reveal_strlit("└");
    reveal_strlit("┘");
    reveal_strlit("│");
    let inner = inner_width_spec(o);
    let outer = inner + 2;
    let body = body_rows_spec(o);
    let ctx = context_rows_spec(o.capabilities, views(o.warnings@));
    let all = body + ctx;
    lemma_max_len_is_max(all);
    let lines = card_lines(o);
    let top: Seq<Seq<char>> = if ctx.len() == 0 {
        Seq::empty()
    } else {
        seq![divider_text(outer)] + ctx.map_values(|r: Seq<char>| pad_right(r, outer))
    };
    assert forall|i: int| 0 <= i < lines.len() implies #[trigger] lines[i].len() == inner + 2 by {
        if i < top.len() {
            if i == 0 {
                assert(lines[i] == divider_text(outer));
            } else {
                assert(lines[i] == pad_right(ctx[i - 1], outer));
                assert(all[body.len() + i - 1] == ctx[i - 1]);
            }
        } else if i == top.len() {
            assert(lines[i] == header_text(inner));
        } else if i < top.len() + 1 + body.len() {
            let j = i - top.len() - 1;
            assert(lines[i] == "│"@ + pad_right(body[j], inner) + "│"@);
            assert(all[j] == body[j]);
        } else {
            assert(lines[i] == footer_text(inner));
        }
    }
}


/// `Duration::from_secs`. Nothing is stated of the value.
#[verifier::external_body]
fn duration_from_secs(secs: u64) -> std::time::Duration {
    std::time::Duration::from_secs(secs)
}

/// `SystemTime::UNIX_EPOCH.checked_add(d)`: the instant `d` after the
/// epoch, or `None` where the platform's time type cannot hold it.
/// Nothing is stated of the value.
#[verifier::external_body]
fn epoch_checked_add(d: std::time::Duration) -> Option<std::time::SystemTime> {
    std::time::SystemTime::UNIX_EPOCH.checked_add(d)
}

/// The instant `secs` seconds after the epoch, for the fixture's sample
/// times; the clock's reading where that instant cannot be held, which
/// does not happen for the few seconds the fixture uses.
fn fixture_instant(secs: u64) -> std::time::SystemTime {
    match epoch_checked_add(duration_from_secs(secs)) {
        Some(t) => t,
        None => crate::engine::output::now(),
    }
}

impl RunOutcome {
    /// A successful three-second run with a 4 MiB peak, two CPU samples
    /// (12.5 % and 25 % of a core) and a fully enforced backend.
    pub fn fixture_for_test() -> (r: Self)
        ensures
            r.exit_status == ExitStatus::Exited(0),
            r.elapsed_nanos == 3_000_000_000,
            r.peak_memory == Some(4_194_304u64),
            r.mem_limit_bytes.is_none(),
            r.system_memory_bytes.is_none(),
            r.samples@.len() == 2,
            r.samples@[0].cpu_milli_percent == 12_500,
            r.samples@[0].memory_bytes == 2_097_152,
            r.samples@[1].cpu_milli_percent == 25_000,
            r.samples@[1].memory_bytes == 4_194_304,
            r.cpu_limit_centi_cores.is_none(),
            r.host_logical_cores.is_none(),
            r.capabilities.backend_state == CapabilityLevel::Enforced,
            r.capabilities.cpu == CapabilityLevel::Enforced,
            r.capabilities.memory == CapabilityLevel::Enforced,
            r.capabilities.interactive == CapabilityLevel::Enforced,
            r.capabilities.warnings@.len() == 0,
            r.warnings@.len() == 0,
            r.total_cpu_nanos.is_none(),
    {
        let mut samples: Vec<SummarySample> = Vec::new();
        samples.push(SummarySample { captured_at: fixture_instant(0), cpu_milli_percent: 12_500, memory_bytes: 2_097_152 });
        samples.push(SummarySample { captured_at: fixture_instant(1), cpu_milli_percent: 25_000, memory_bytes: 4_194_304 });
        RunOutcome {
            exit_status: ExitStatus::Exited(0),
            elapsed_nanos: 3_000_000_000,
            peak_memory: Some(4_194_304),
            mem_limit_bytes: None,
            system_memory_bytes: None,
            samples,
            cpu_limit_centi_cores: None,
            host_logical_cores: None,
            capabilities: CapabilityReport::fully_enforced_for_test(),
            warnings: Vec::new(),
            total_cpu_nanos: None,
        }
    }
}

} // verus!
