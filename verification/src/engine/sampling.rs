//! Process-tree sampling: the `ps -e -o pid=,ppid=,rss=,%cpu=` table is
//! parsed into rows, and the rows of the root process and all of its
//! descendants are added up.

use vstd::prelude::*;
use std::collections::HashSet;
use crate::text::{
    all_digits, chars_of, digits_value, is_digit, lemma_digits_value_prefix, parse_bounded_spec,
    parse_unsigned, split_lines, split_words, text_lines, views, words,
};

verus! {

/// One line of the `ps` table. CPU use is in thousandths of a percent.
#[derive(Debug, Clone, Copy, PartialEq, Eq, Structural)]
pub struct PsRow {
    pub pid: u32,
    pub ppid: u32,
    pub rss_kib: u64,
    pub cpu_milli_percent: u64,
}

/// Totals over a process tree.
#[derive(Debug, Clone, Copy, PartialEq, Eq, Structural)]
pub struct AggregatedMetrics {
    pub rss_bytes: u64,
    pub cpu_milli_percent: u64,
    pub process_count: u32,
}

impl Default for AggregatedMetrics {
    fn default() -> (r: Self)
        ensures
            r.rss_bytes == 0,
            r.cpu_milli_percent == 0,
            r.process_count == 0,
    {
        AggregatedMetrics { rss_bytes: 0, cpu_milli_percent: 0, process_count: 0 }
    }
}

/// The first three fractional digits as thousandths; further digits are
/// dropped.
pub open spec fn frac_thousandths(f: Seq<char>) -> nat {
    if f.len() >= 3 {
        digits_value(f.take(3))
    } else if f.len() == 2 {
        digits_value(f) * 10
    } else if f.len() == 1 {
        digits_value(f) * 100
    } else {
        0
    }
}

pub const MAX_WHOLE_PERCENT: u64 = 18446744073709550;

/// A `%cpu` field in thousandths of a percent: an optional `+`, digits,
/// and an optional `.` with more digits (at least one digit in all).
pub open spec fn cpu_field_spec(s: Seq<char>) -> Option<u64> {
    let body = if s.len() > 0 && s[0] == '+' { s.drop_first() } else { s };
    let whole = crate::text::segment_before(body, '.');
    let frac = crate::text::segment_after(body, '.');
    let frac_digits = match frac { Some(f) => f, None => Seq::empty() };
    if all_digits(whole) && all_digits(frac_digits) && (whole.len() > 0 || frac_digits.len() > 0)
        && digits_value(whole) <= MAX_WHOLE_PERCENT {
        Some((digits_value(whole) * 1000 + frac_thousandths(frac_digits)) as u64)
    } else {
        None
    }
}

/// The value of `chars[from..to]` when it is all digits and at most `max`.
fn parse_digit_run(chars: &Vec<char>, from: usize, to: usize, max: u64) -> (r: Option<u64>)
    requires
        from <= to <= chars@.len(),
    ensures
        ({
            let s = chars@.subrange(from as int, to as int);
            if all_digits(s) && digits_value(s) <= max { r == Some(digits_value(s) as u64) } else { r is None }
        }),
{
    let ghost s = chars@.subrange(from as int, to as int);
    let mut value: u64 = 0;
    let mut i = from;
    while i < to
        invariant
            from <= i <= to,
            to <= chars@.len(),
            s == chars@.subrange(from as int, to as int),
            all_digits(s.take(i - from)),
            value as nat == digits_value(s.take(i - from)),
            value <= max,
        decreases to - i,
    {
        let c = chars[i];
        assert(s[i - from] == c);
        if !('0' <= c && c <= '9') {
            assert(!all_digits(s));
            return None;
        }
        let d = (c as u32 - 48) as u64;
        assert(s.take(i - from + 1).drop_last() =~= s.take(i - from));
        assert forall|k: int| 0 <= k < (i - from + 1) implies is_digit(#[trigger] s.take(i - from + 1)[k]) by {
            if k < i - from {
                assert(s.take(i - from + 1)[k] == s.take(i - from)[k]);
            }
        }
        if d > max || value > (max - d) / 10 {
            proof {
                assert(digits_value(s.take(i - from + 1)) > max) by (nonlinear_arith)
                    requires
                        d > max || value > (max - d) / 10,
                        digits_value(s.take(i - from + 1)) == value * 10 + d,
                        d <= 9;
                if all_digits(s) {
                    lemma_digits_value_prefix(s, i - from + 1, s.len() as int);
                    assert(s.take(s.len() as int) =~= s);
                }
            }
            return None;
        }
        proof {
            assert(value * 10 + d <= max) by (nonlinear_arith)
                requires value <= (max - d) / 10, d <= 9, d <= max;
        }
        value = value * 10 + d;
        i = i + 1;
    }
    assert(s.take(to - from) =~= s);
    Some(value)
}

pub proof fn lemma_digits_value_below(s: Seq<char>)
    requires
        all_digits(s),
    ensures
        digits_value(s) < crate::text::pow10(s.len()),
    decreases s.len(),
{
    if s.len() > 0 {
        let t = s.drop_last();
        assert(all_digits(t)) by {
            assert forall|k: int| 0 <= k < t.len() implies is_digit(#[trigger] t[k]) by {
                assert(t[k] == s[k]);
            }
        }
        lemma_digits_value_below(t);
        assert(is_digit(s.last()));
    }
}

/// Whether `chars[from..to]` is all decimal digits.
fn all_digit_run(chars: &Vec<char>, from: usize, to: usize) -> (r: bool)
    requires
        from <= to <= chars@.len(),
    ensures
        r == all_digits(chars@.subrange(from as int, to as int)),
{
    let ghost s = chars@.subrange(from as int, to as int);
    let mut i = from;
    while i < to
        invariant
            from <= i <= to,
            to <= chars@.len(),
            s == chars@.subrange(from as int, to as int),
            forall|k: int| 0 <= k < i - from ==> is_digit(#[trigger] s[k]),
        decreases to - i,
    {
        let c = chars[i];
        assert(s[i - from] == c);
        if !('0' <= c && c <= '9') {
            return false;
        }
        i = i + 1;
    }
    true
}

/// The thousandths written by the digits `chars[from..to]`, when they
/// are all digits.
fn parse_fraction(chars: &Vec<char>, from: usize, to: usize) -> (r: Option<u64>)
    requires
        from <= to <= chars@.len(),
    ensures
        ({
            let f = chars@.subrange(from as int, to as int);
            if all_digits(f) { r == Some(frac_thousandths(f) as u64) && frac_thousandths(f) <= 999 } else { r is None }
        }),
{
    let ghost frac = chars@.subrange(from as int, to as int);
    if !all_digit_run(chars, from, to) {
        return None;
    }
    let len = to - from;
    let take = if len >= 3 { 3 } else { len };
    let ghost head = chars@.subrange(from as int, from + take);
    assert(head =~= frac.take(take as int));
    assert forall|k: int| 0 <= k < head.len() implies is_digit(#[trigger] head[k]) by {
        assert(head[k] == frac[k]);
    }
    proof {
        lemma_digits_value_below(head);
        crate::text::lemma_pow10_mono(take as nat, 3);
        assert(crate::text::pow10(3) == 1000) by {
            reveal_with_fuel(crate::text::pow10, 4);
        }
        assert(crate::text::pow10(2) == 100) by {
            reveal_with_fuel(crate::text::pow10, 3);
        }
        assert(crate::text::pow10(1) == 10) by {
            reveal_with_fuel(crate::text::pow10, 2);
        }
        if len < 3 {
            assert(head =~= frac);
        }
    }
    match parse_digit_run(chars, from, from + take, 999) {
        Some(v) => {
            if len >= 3 {
                Some(v)
            } else if len == 2 {
                Some(v * 10)
            } else if len == 1 {
                Some(v * 100)
            } else {
                Some(0)
            }
        },
        None => {
            assert(false);
            None
        },
    }
}

/// Reads a `%cpu` field in thousandths of a percent.
pub fn parse_cpu_field(s: &str) -> (r: Option<u64>)
    ensures
        r == cpu_field_spec(s@),
{
    let chars = chars_of(s);
    let n = chars.len();
    let start: usize = if n > 0 && chars[0] == '+' { 1 } else { 0 };
    let ghost body = if s@.len() > 0 && s@[0] == '+' { s@.drop_first() } else { s@ };
    assert(body =~= chars@.subrange(start as int, n as int));
    let mut dot = start;
    while dot < n && chars[dot] != '.'
        invariant
            start <= dot <= n,
            n == chars@.len(),
            forall|k: int| start <= k < dot ==> chars@[k] != '.',
        decreases n - dot,
    {
        dot = dot + 1;
    }
    proof {
        crate::text::lemma_segments(body, '.', dot - start);
        assert(body.take(dot - start) =~= chars@.subrange(start as int, dot as int));
        if dot < n {
            assert(body.skip(dot - start + 1) =~= chars@.subrange(dot + 1, n as int));
        }
    }
    let whole = match parse_digit_run(&chars, start, dot, MAX_WHOLE_PERCENT) {
        Some(w) => w,
        None => return None,
    };
    let frac_start = if dot < n { dot + 1 } else { n };
    assert(dot == n ==> chars@.subrange(frac_start as int, n as int) =~= Seq::<char>::empty());
    let frac_value = match parse_fraction(&chars, frac_start, n) {
        Some(v) => v,
        None => return None,
    };
    let frac_len = n - frac_start;
    if dot == start && frac_len == 0 {
        return None;
    }
    Some(whole * 1000 + frac_value)
}


/// The row described by the words of one line: pid, ppid, RSS in KiB and
/// `%cpu`; extra words are ignored.
pub open spec fn row_of(w: Seq<Seq<char>>) -> Option<PsRow> {
    if w.len() < 4 {
        None
    } else {
        match (parse_bounded_spec(w[0], u32::MAX as nat), parse_bounded_spec(w[1], u32::MAX as nat),
            parse_bounded_spec(w[2], u64::MAX as nat), cpu_field_spec(w[3])) {
            (Some(pid), Some(ppid), Some(rss), Some(cpu)) => Some(PsRow {
                pid: pid as u32,
                ppid: ppid as u32,
                rss_kib: rss as u64,
                cpu_milli_percent: cpu,
            }),
            _ => None,
        }
    }
}

/// The rows of the lines that parse, in order; other lines are skipped.
pub open spec fn rows_of(lines: Seq<Seq<char>>) -> Seq<PsRow>
    decreases lines.len(),
{
    if lines.len() == 0 {
        Seq::empty()
    } else {
        rows_of(lines.drop_last()) + match row_of(words(lines.last())) {
            Some(r) => seq![r],
            None => Seq::empty(),
        }
    }
}

fn parse_row(line: &str) -> (r: Option<PsRow>)
    ensures
        r == row_of(words(line@)),
{
    let w = split_words(line);
    if w.len() < 4 {
        return None;
    }
    assert(views(w@)[0] == w@[0]@ && views(w@)[1] == w@[1]@ && views(w@)[2] == w@[2]@ && views(w@)[3] == w@[3]@);
    let pid = match parse_unsigned(w[0].as_str(), 0xffff_ffff) { Some(v) => v as u32, None => return None };
    let ppid = match parse_unsigned(w[1].as_str(), 0xffff_ffff) { Some(v) => v as u32, None => return None };
    let rss = match parse_unsigned(w[2].as_str(), 0xffff_ffff_ffff_ffff) { Some(v) => v as u64, None => return None };
    let cpu = match parse_cpu_field(w[3].as_str()) { Some(v) => v, None => return None };
    Some(PsRow { pid, ppid, rss_kib: rss, cpu_milli_percent: cpu })
}

/// Parses the output of `ps -e -o pid=,ppid=,rss=,%cpu=`.
pub fn parse_ps_table(input: &str) -> (r: Vec<PsRow>)
    ensures
        r@ == rows_of(text_lines(input@)),
{
    let lines = split_lines(input);
    let ghost ls = views(lines@);
    let mut rows: Vec<PsRow> = Vec::new();
    let mut i: usize = 0;
    while i < lines.len()
        invariant
            i <= lines@.len(),
            ls == views(lines@),
            ls == text_lines(input@),
            rows@ == rows_of(ls.take(i as int)),
        decreases lines@.len() - i,
    {
        let ghost t = ls.take(i + 1);
        assert(t.drop_last() =~= ls.take(i as int));
        assert(t.last() == lines@[i as int]@);
        let ghost before = rows@;
        match parse_row(lines[i].as_str()) {
            Some(row) => rows.push(row),
            None => {},
        }
        assert(rows@ =~= rows_of(t));
        i = i + 1;
    }
    assert(ls.take(lines@.len() as int) =~= ls);
    rows
}

/// The pids of the rows whose parent is in `s`.
pub open spec fn children_of(rows: Seq<PsRow>, s: Set<u32>) -> Set<u32> {
    Set::new(|q: u32| exists|i: int| 0 <= i < rows.len() && s.contains(rows[i].ppid) && rows[i].pid == q)
}

/// The pids at most `k` generations below `root`.
pub open spec fn reach(rows: Seq<PsRow>, root: u32, k: nat) -> Set<u32>
    decreases k,
{
    if k == 0 {
        set![root]
    } else {
        reach(rows, root, (k - 1) as nat).union(children_of(rows, reach(rows, root, (k - 1) as nat)))
    }
}

/// `q` is `root` or one of its descendants according to the table.
pub open spec fn descends(rows: Seq<PsRow>, root: u32, q: u32) -> bool {
    exists|k: nat| #[trigger] reach(rows, root, k).contains(q)
}

/// Sum of RSS in bytes over the first `n` rows of the tree.
pub open spec fn rss_upto(rows: Seq<PsRow>, root: u32, n: int) -> nat
    decreases n,
{
    if n <= 0 {
        0
    } else {
        rss_upto(rows, root, n - 1) + if descends(rows, root, rows[n - 1].pid) { (rows[n - 1].rss_kib * 1024) as nat } else { 0 }
    }
}

/// Sum of CPU use over the first `n` rows of the tree.
pub open spec fn cpu_upto(rows: Seq<PsRow>, root: u32, n: int) -> nat
    decreases n,
{
    if n <= 0 {
        0
    } else {
        cpu_upto(rows, root, n - 1) + if descends(rows, root, rows[n - 1].pid) { rows[n - 1].cpu_milli_percent as nat } else { 0 }
    }
}

/// Number of rows of the tree among the first `n`.
pub open spec fn count_upto(rows: Seq<PsRow>, root: u32, n: int) -> nat
    decreases n,
{
    if n <= 0 {
        0
    } else {
        count_upto(rows, root, n - 1) + if descends(rows, root, rows[n - 1].pid) { 1nat } else { 0 }
    }
}

pub open spec fn saturate(x: nat) -> u64 {
    if x > u64::MAX { u64::MAX } else { x as u64 }
}

pub open spec fn root_listed(rows: Seq<PsRow>, root: u32) -> bool {
    exists|i: int| 0 <= i < rows.len() && rows[i].pid == root
}

/// Rows whose pid is not in `s`, among the first `n`.
pub open spec fn outside_upto(rows: Seq<PsRow>, s: Set<u32>, n: int) -> nat
    decreases n,
{
    if n <= 0 {
        0
    } else {
        outside_upto(rows, s, n - 1) + if s.contains(rows[n - 1].pid) { 0nat } else { 1 }
    }
}

proof fn lemma_outside_shrinks(rows: Seq<PsRow>, s: Set<u32>, t: Set<u32>, n: int, j: int)
    requires
        s.subset_of(t),
        0 <= j < n <= rows.len(),
        !s.contains(rows[j].pid),
        t.contains(rows[j].pid),
    ensures
        outside_upto(rows, t, n) < outside_upto(rows, s, n),
    decreases n,
{
    lemma_outside_mono(rows, s, t, n - 1);
    if j < n - 1 {
        lemma_outside_shrinks(rows, s, t, n - 1, j);
    }
}

proof fn lemma_outside_mono(rows: Seq<PsRow>, s: Set<u32>, t: Set<u32>, n: int)
    requires
        s.subset_of(t),
    ensures
        outside_upto(rows, t, n) <= outside_upto(rows, s, n),
    decreases n,
{
    if n > 0 {
        lemma_outside_mono(rows, s, t, n - 1);
    }
}

proof fn lemma_reach_mono(rows: Seq<PsRow>, root: u32, a: nat, b: nat)
    requires
        a <= b,
    ensures
        reach(rows, root, a).subset_of(reach(rows, root, b)),
    decreases b,
{
    if a < b {
        lemma_reach_mono(rows, root, a, (b - 1) as nat);
    }
}

/// A set holding `root` and closed under the child relation holds every
/// descendant.
proof fn lemma_closed_holds_reach(rows: Seq<PsRow>, root: u32, s: Set<u32>, k: nat)
    requires
        s.contains(root),
        forall|i: int| 0 <= i < rows.len() && s.contains(#[trigger] rows[i].ppid) ==> s.contains(rows[i].pid),
    ensures
        reach(rows, root, k).subset_of(s),
    decreases k,
{
    if k > 0 {
        lemma_closed_holds_reach(rows, root, s, (k - 1) as nat);
        let prev = reach(rows, root, (k - 1) as nat);
        assert forall|q: u32| children_of(rows, prev).contains(q) implies s.contains(q) by {
            let i = choose|i: int| 0 <= i < rows.len() && prev.contains(rows[i].ppid) && rows[i].pid == q;
            assert(s.contains(rows[i].ppid));
        }
    }
}

/// The pids of `root` and all its descendants, as a set.
fn descendant_pids(rows: &Vec<PsRow>, root: u32) -> (r: HashSet<u32>)
    ensures
        forall|q: u32| r@.contains(q) <==> descends(rows@, root, q),
{
    broadcast use vstd::std_specs::hash::group_hash_axioms;
    let mut included: HashSet<u32> = HashSet::new();
    included.insert(root);
    assert(reach(rows@, root, 0).contains(root));
    let n = rows.len();
    let mut changed = true;
    while changed
        invariant
            n == rows@.len(),
            included@.contains(root),
            forall|q: u32| included@.contains(q) ==> descends(rows@, root, q),
            !changed ==> forall|i: int| 0 <= i < n && included@.contains(#[trigger] rows@[i].ppid) ==> included@.contains(rows@[i].pid),
        decreases outside_upto(rows@, included@, n as int), (if changed { 1int } else { 0int }),
    {
        let ghost start = included@;
        let mut grew = false;
        let mut i: usize = 0;
        while i < n
            invariant
                i <= n,
                n == rows@.len(),
                included@.contains(root),
                start.subset_of(included@),
                forall|q: u32| included@.contains(q) ==> descends(rows@, root, q),
                !grew ==> included@ == start,
                !grew ==> forall|j: int| 0 <= j < i && included@.contains(#[trigger] rows@[j].ppid) ==> included@.contains(rows@[j].pid),
                grew ==> outside_upto(rows@, included@, n as int) < outside_upto(rows@, start, n as int),
            decreases n - i,
        {
            let row = rows[i];
            if !included.contains(&row.pid) && included.contains(&row.ppid) {
                let ghost before = included@;
                proof {
                    let k = choose|k: nat| #[trigger] reach(rows@, root, k).contains(row.ppid);
                    assert(children_of(rows@, reach(rows@, root, k)).contains(row.pid));
                    assert(reach(rows@, root, k + 1).contains(row.pid));
                }
                included.insert(row.pid);
                proof {
                    if grew {
                        lemma_outside_mono(rows@, before, included@, n as int);
                    } else {
                        lemma_outside_shrinks(rows@, start, included@, n as int, i as int);
                    }
                }
                grew = true;
            }
            i = i + 1;
        }
        changed = grew;
    }
    proof {
        assert forall|q: u32| descends(rows@, root, q) implies included@.contains(q) by {
            let k = choose|k: nat| #[trigger] reach(rows@, root, k).contains(q);
            lemma_closed_holds_reach(rows@, root, included@, k);
        }
    }
    included
}

/// Adds up RSS, CPU and process count over `root` and its descendants.
/// A root that is not in the table gives zeros rather than totals of
/// orphans. RSS and CPU sums stop at the largest `u64`.
pub fn aggregate_descendants(rows: &Vec<PsRow>, root_pid: u32) -> (r: AggregatedMetrics)
    requires
        rows@.len() <= u32::MAX,
        forall|i: int| 0 <= i < rows@.len() ==> #[trigger] rows@[i].rss_kib <= u64::MAX / 1024,
    ensures
        !root_listed(rows@, root_pid) ==> r.rss_bytes == 0 && r.cpu_milli_percent == 0 && r.process_count == 0,
        root_listed(rows@, root_pid) ==> {
            &&& r.rss_bytes == saturate(rss_upto(rows@, root_pid, rows@.len() as int))
            &&& r.cpu_milli_percent == saturate(cpu_upto(rows@, root_pid, rows@.len() as int))
            &&& r.process_count as nat == count_upto(rows@, root_pid, rows@.len() as int)
        },
{
    broadcast use vstd::std_specs::hash::group_hash_axioms;
    let n = rows.len();
    let mut found = false;
    let mut k: usize = 0;
    while k < n
        invariant
            k <= n,
            n == rows@.len(),
            found == exists|i: int| 0 <= i < k && rows@[i].pid == root_pid,
        decreases n - k,
    {
        if rows[k].pid == root_pid {
            found = true;
        }
        k = k + 1;
    }
    if !found {
        return AggregatedMetrics::default();
    }
    let included = descendant_pids(rows, root_pid);
    let mut rss: u64 = 0;
    let mut cpu: u64 = 0;
    let mut count: u32 = 0;
    let mut i: usize = 0;
    while i < n
        invariant
            i <= n,
            n == rows@.len(),
            n <= u32::MAX,
            forall|q: u32| included@.contains(q) <==> descends(rows@, root_pid, q),
            forall|j: int| 0 <= j < rows@.len() ==> #[trigger] rows@[j].rss_kib <= u64::MAX / 1024,
            rss == saturate(rss_upto(rows@, root_pid, i as int)),
            cpu == saturate(cpu_upto(rows@, root_pid, i as int)),
            count as nat == count_upto(rows@, root_pid, i as int),
            count <= i,
        decreases n - i,
    {
        let row = rows[i];
        if included.contains(&row.pid) {
            assert(row.rss_kib <= u64::MAX / 1024);
            let bytes = row.rss_kib * 1024;
            rss = rss.saturating_add(bytes);
            cpu = cpu.saturating_add(row.cpu_milli_percent);
            count = count + 1;
        }
        i = i + 1;
    }
    AggregatedMetrics { rss_bytes: rss, cpu_milli_percent: cpu, process_count: count }
}

} // verus!
