//! The decisions of the run loop: how the child's I/O is wired, which
//! command line starts it, when Ctrl-C escalates to SIGTERM and SIGKILL,
//! and how the peak memory is tracked. The loop itself (spawning,
//! polling, sleeping) is driven by the caller.

use vstd::prelude::*;
use crate::engine::argv::{PlanError, argv_view, shell_tokens_ok, target_args};
use crate::engine::types::{
    CapabilityReport, ExitStatus, InteractiveMode, IoMode, LaunchPlan, Platform, RunOutcome, Sample, ShellKind,
    Signal, SummarySample,
};
use crate::text::{digits, join_sep, push_digits, views};

verus! {

/// Default period between two samples of the child, in milliseconds.
pub const SAMPLE_INTERVAL_MILLIS: u64 = 500;

/// The loop never sleeps longer than this between control checks.
pub const CONTROL_INTERVAL_CAP_MILLIS: u64 = 10;

/// The period of control checks for a given sample period.
pub fn control_interval_millis(sample_interval: u64) -> (r: u64)
    ensures
        r == if sample_interval < CONTROL_INTERVAL_CAP_MILLIS { sample_interval } else { CONTROL_INTERVAL_CAP_MILLIS },
{
    if sample_interval < CONTROL_INTERVAL_CAP_MILLIS { sample_interval } else { CONTROL_INTERVAL_CAP_MILLIS }
}

/// How long after Ctrl-C the child gets SIGTERM and then SIGKILL, in
/// milliseconds.
#[derive(Debug, Clone, Copy, PartialEq, Eq, Structural)]
pub struct InterruptPlan {
    sigterm_after: u64,
    sigkill_after: u64,
}

impl Default for InterruptPlan {
    /// SIGTERM two seconds after the interrupt, SIGKILL after five.
    fn default() -> (r: Self)
        ensures
            r.sigterm_spec() == 2000,
            r.sigkill_spec() == 5000,
    {
        InterruptPlan { sigterm_after: 2000, sigkill_after: 5000 }
    }
}

impl InterruptPlan {
    pub closed spec fn sigterm_spec(self) -> u64 {
        self.sigterm_after
    }

    pub closed spec fn sigkill_spec(self) -> u64 {
        self.sigkill_after
    }

    pub fn new(sigterm_after: u64, sigkill_after: u64) -> (r: Self)
        ensures
            r.sigterm_spec() == sigterm_after,
            r.sigkill_spec() == sigkill_after,
    {
        InterruptPlan { sigterm_after, sigkill_after }
    }

    /// Milliseconds from the interrupt to SIGTERM.
    pub fn sigterm_after(self) -> (r: u64)
        ensures
            r == self.sigterm_spec(),
    {
        self.sigterm_after
    }

    /// Milliseconds from the interrupt to SIGKILL.
    pub fn sigkill_after(self) -> (r: u64)
        ensures
            r == self.sigkill_spec(),
    {
        self.sigkill_after
    }
}

/// Where the Ctrl-C escalation stands: when the interrupt was forwarded
/// (in the loop's millisecond clock) and which later signals went out.
#[derive(Debug, Clone, Copy, PartialEq, Eq, Structural)]
pub struct InterruptEscalation {
    pub interrupted_at: Option<u64>,
    pub sent_sigterm: bool,
    pub sent_sigkill: bool,
}

/// The signals sent so far, in the order they were sent.
pub open spec fn sent_signals(e: InterruptEscalation) -> Seq<Signal> {
    (if e.interrupted_at is Some { seq![Signal::Interrupt] } else { Seq::empty() })
        + (if e.sent_sigterm { seq![Signal::Terminate] } else { Seq::empty() })
        + (if e.sent_sigkill { seq![Signal::Kill] } else { Seq::empty() })
}

/// Later signals only follow the interrupt, and SIGKILL only follows
/// SIGTERM.
pub open spec fn escalation_wf(e: InterruptEscalation) -> bool {
    &&& e.sent_sigterm ==> e.interrupted_at is Some
    &&& e.sent_sigkill ==> e.sent_sigterm
}

/// SIGTERM comes no later than SIGKILL.
pub open spec fn plan_ordered(plan: InterruptPlan) -> bool {
    plan.sigterm_spec() <= plan.sigkill_spec()
}

pub open spec fn elapsed_since(start: u64, now: u64) -> nat {
    if now >= start { (now - start) as nat } else { 0 }
}

/// One tick of the escalation at time `now`: forward a new interrupt,
/// then send SIGTERM and SIGKILL once their delay has passed.
pub open spec fn escalation_step(e: InterruptEscalation, plan: InterruptPlan, now: u64, interrupt_requested: bool) -> InterruptEscalation {
    let started = if e.interrupted_at is None && interrupt_requested { Some(now) } else { e.interrupted_at };
    match started {
        Some(t) => {
            let elapsed = elapsed_since(t, now);
            InterruptEscalation {
                interrupted_at: started,
                sent_sigterm: e.sent_sigterm || elapsed >= plan.sigterm_spec(),
                sent_sigkill: e.sent_sigkill || elapsed >= plan.sigkill_spec(),
            }
        },
        None => e,
    }
}

/// The signals one tick sends, in order: the interrupt when a request is
/// taken, then SIGTERM and SIGKILL each when not yet sent and its delay
/// since the interrupt has passed. This holds for every plan.
pub open spec fn step_signals(e: InterruptEscalation, plan: InterruptPlan, now: u64, interrupt_requested: bool) -> Seq<Signal> {
    let fresh = e.interrupted_at is None && interrupt_requested;
    let started = if fresh { Some(now) } else { e.interrupted_at };
    (if fresh { seq![Signal::Interrupt] } else { Seq::empty() })
        + match started {
            Some(t) => {
                let elapsed = elapsed_since(t, now);
                (if !e.sent_sigterm && elapsed >= plan.sigterm_spec() { seq![Signal::Terminate] } else { Seq::empty() })
                    + (if !e.sent_sigkill && elapsed >= plan.sigkill_spec() { seq![Signal::Kill] } else { Seq::empty() })
            },
            None => Seq::empty(),
        }
}

impl InterruptEscalation {
    /// Nothing sent yet.
    pub fn new() -> (r: Self)
        ensures
            r.interrupted_at is None,
            !r.sent_sigterm,
            !r.sent_sigkill,
    {
        InterruptEscalation { interrupted_at: None, sent_sigterm: false, sent_sigkill: false }
    }

    /// Whether a pending interrupt request would be taken now: only until
    /// the first one has been forwarded.
    pub fn awaiting_interrupt(&self) -> (r: bool)
        ensures
            r == self.interrupted_at is None,
    {
        self.interrupted_at.is_none()
    }

    /// Advances the escalation to `now` and returns the signals to send,
    /// in order.
    pub fn step(&mut self, plan: &InterruptPlan, now: u64, interrupt_requested: bool) -> (r: Vec<Signal>)
        ensures
            *final(self) == escalation_step(*old(self), *plan, now, interrupt_requested),
            r@ == step_signals(*old(self), *plan, now, interrupt_requested),
            sent_signals(*old(self)) + r@ == sent_signals(*final(self)) || !escalation_wf(*old(self)) || !plan_ordered(*plan),
            escalation_wf(*old(self)) && plan_ordered(*plan) ==> escalation_wf(*final(self)),
    {
        let mut out: Vec<Signal> = Vec::new();
        if self.interrupted_at.is_none() && interrupt_requested {
            out.push(Signal::Interrupt);
            self.interrupted_at = Some(now);
        }
        if let Some(t) = self.interrupted_at {
            let elapsed = if now >= t { now - t } else { 0 };
            if !self.sent_sigterm && elapsed >= plan.sigterm_after {
                out.push(Signal::Terminate);
                self.sent_sigterm = true;
            }
            if !self.sent_sigkill && elapsed >= plan.sigkill_after {
                out.push(Signal::Kill);
                self.sent_sigkill = true;
            }
        }
        proof {
            let o = *old(self);
            assert(out@ =~= step_signals(o, *plan, now, interrupt_requested));
            if escalation_wf(o) && plan_ordered(*plan) {
                assert(sent_signals(o) + out@ =~= sent_signals(*self));
            }
        }
        out
    }
}

/// Ctrl-C handling as a whole: starting from nothing sent, every run of
/// ticks (whatever the times and requests) has sent the interrupt,
/// SIGTERM and SIGKILL at most once each and in that order, provided
/// SIGTERM's delay does not exceed SIGKILL's.
pub proof fn lemma_escalation_order(e: InterruptEscalation)
    requires
        escalation_wf(e),
    ensures
        sent_signals(e) == seq![Signal::Interrupt, Signal::Terminate, Signal::Kill].take(sent_signals(e).len() as int),
        sent_signals(e).len() <= 3,
{
    assert(sent_signals(e) =~= seq![Signal::Interrupt, Signal::Terminate, Signal::Kill].take(sent_signals(e).len() as int));
}

/// A tick keeps the escalation well formed and never withdraws a signal:
/// what was sent before is a prefix of what has been sent after.
pub proof fn lemma_escalation_step_extends(e: InterruptEscalation, plan: InterruptPlan, now: u64, requested: bool)
    requires
        escalation_wf(e),
        plan_ordered(plan),
    ensures
        escalation_wf(escalation_step(e, plan, now, requested)),
        sent_signals(escalation_step(e, plan, now, requested)).take(sent_signals(e).len() as int) == sent_signals(e),
        escalation_step(e, plan, now, requested).sent_sigterm && !e.sent_sigterm ==>
            elapsed_since(escalation_step(e, plan, now, requested).interrupted_at.unwrap(), now) >= plan.sigterm_spec(),
        escalation_step(e, plan, now, requested).sent_sigkill && !e.sent_sigkill ==>
            elapsed_since(escalation_step(e, plan, now, requested).interrupted_at.unwrap(), now) >= plan.sigkill_spec(),
{
    let n = escalation_step(e, plan, now, requested);
    assert(sent_signals(n).take(sent_signals(e).len() as int) =~= sent_signals(e));
}

/// The peak after a sample: the sample's own peak when it reports one,
/// else its current memory, combined with the peak so far.
pub open spec fn peak_after(current: Option<u64>, sample_peak: Option<u64>, sample_memory: u64) -> Option<u64> {
    let observed = match sample_peak { Some(p) => p, None => sample_memory };
    Some(match current {
        Some(peak) => if peak >= observed { peak } else { observed },
        None => observed,
    })
}

/// Folds one sample into the running peak memory.
pub fn update_peak_memory(current: Option<u64>, sample_peak: Option<u64>, sample_memory: u64) -> (r: Option<u64>)
    ensures
        r == peak_after(current, sample_peak, sample_memory),
        r matches Some(p) && (current matches Some(c) ==> p >= c),
{
    let observed = match sample_peak { Some(p) => p, None => sample_memory };
    Some(match current {
        Some(peak) => if peak >= observed { peak } else { observed },
        None => observed,
    })
}

/// The peak never goes down: whatever samples arrive, the tracked peak
/// is at least every value observed so far.
pub proof fn lemma_peak_monotone(current: Option<u64>, sample_peak: Option<u64>, sample_memory: u64)
    ensures
        peak_after(current, sample_peak, sample_memory) matches Some(p) && (current matches Some(c) ==> p >= c)
            && p >= (match sample_peak { Some(x) => x, None => sample_memory }),
{
}

pub open spec fn preferred_io_spec(mode: InteractiveMode) -> IoMode {
    match mode {
        InteractiveMode::Always => IoMode::Pty,
        _ => IoMode::Pipes,
    }
}

/// A pseudo-terminal only when asked for outright.
pub fn preferred_io_mode(mode: InteractiveMode) -> (r: IoMode)
    ensures
        r == preferred_io_spec(mode),
{
    match mode {
        InteractiveMode::Always => IoMode::Pty,
        _ => IoMode::Pipes,
    }
}

/// Which of stdin, stdout and stderr are terminals.
#[derive(Debug, Clone, Copy, PartialEq, Eq, Structural)]
pub struct TerminalState {
    pub stdin: bool,
    pub stdout: bool,
    pub stderr: bool,
}

impl TerminalState {
    pub open spec fn all_spec(self) -> bool {
        self.stdin && self.stdout && self.stderr
    }

    pub fn all_terminals(self) -> (r: bool)
        ensures
            r == self.all_spec(),
    {
        self.stdin && self.stdout && self.stderr
    }
}

/// A pseudo-terminal can be had where the `script` utility is on the
/// path; every platform uses it.
pub fn pty_path_available(platform: Platform, script_on_path: bool) -> (r: bool)
    ensures
        r == script_on_path,
{
    match platform {
        Platform::Linux | Platform::Macos | Platform::Unsupported => script_on_path,
    }
}

/// How a run is carried out: the plan as launched (its interactive mode
/// pinned to the I/O mode chosen), the I/O mode, whether the live
/// dashboard runs, and whether the compact layout is used.
#[derive(Debug, Clone)]
pub struct SelectedExecution {
    pub plan: LaunchPlan,
    pub io_mode: IoMode,
    pub use_tui: bool,
    pub compact: bool,
}

/// Why a run cannot start as asked.
#[derive(Debug, Clone, Copy, PartialEq, Eq, Structural)]
pub enum SelectionError {
    PtyUnavailable,
}

impl SelectionError {
    pub fn message(&self) -> (r: &'static str)
        ensures
            r@ == "interactive=always requires PTY support before launch"@,
    {
        "interactive=always requires PTY support before launch"
    }
}

/// The first check of a run, made before the backend is asked for its
/// capabilities or anything is launched: a plan with no command is
/// refused.
pub fn check_command(plan: &LaunchPlan) -> (r: Result<(), PlanError>)
    ensures
        plan.argv@.len() == 0 <==> r == Err::<(), PlanError>(PlanError::EmptyArgv),
        plan.argv@.len() > 0 <==> r is Ok,
{
    if plan.argv.len() == 0 {
        Err(PlanError::EmptyArgv)
    } else {
        Ok(())
    }
}

pub open spec fn chosen_io(mode: InteractiveMode, all_terminals: bool, pty_available: bool) -> IoMode {
    match mode {
        InteractiveMode::Always => IoMode::Pty,
        InteractiveMode::Never => IoMode::Pipes,
        InteractiveMode::Auto => if all_terminals && pty_available { IoMode::Pty } else { IoMode::Pipes },
    }
}

/// Decides, before anything is launched, how a run is carried out:
/// `always` needs a pseudo-terminal, `auto` takes one when every stdio
/// stream is a terminal, and the dashboard runs only when asked for on
/// a terminal.
pub fn select_execution(plan: &LaunchPlan, terminal: TerminalState, pty_available: bool) -> (r: Result<SelectedExecution, SelectionError>)
    ensures
        plan.resource_spec.interactive == InteractiveMode::Always && !pty_available
            ==> r matches Err(SelectionError::PtyUnavailable),
        !(plan.resource_spec.interactive == InteractiveMode::Always && !pty_available) ==> (r matches Ok(sel) && {
            let io = chosen_io(plan.resource_spec.interactive, terminal.all_spec(), pty_available);
            &&& sel.io_mode == io
            &&& sel.plan.argv@ == plan.argv@
            &&& sel.plan.platform == plan.platform
            &&& sel.plan.resource_spec.cpu == plan.resource_spec.cpu
            &&& sel.plan.resource_spec.mem == plan.resource_spec.mem
            &&& sel.plan.resource_spec.shell == plan.resource_spec.shell
            &&& sel.plan.resource_spec.monitor == plan.resource_spec.monitor
            &&& sel.plan.resource_spec.interactive == (if io == IoMode::Pty { InteractiveMode::Always } else { InteractiveMode::Never })
            &&& sel.use_tui == (plan.resource_spec.monitor && terminal.all_spec())
            &&& sel.compact == (io == IoMode::Pty)
        }),
{
    let all = terminal.all_terminals();
    let io_mode = match plan.resource_spec.interactive {
        InteractiveMode::Always => {
            if !pty_available {
                return Err(SelectionError::PtyUnavailable);
            }
            IoMode::Pty
        },
        InteractiveMode::Never => IoMode::Pipes,
        InteractiveMode::Auto => if all && pty_available { IoMode::Pty } else { IoMode::Pipes },
    };
    let mut spec = plan.resource_spec;
    spec.interactive = if io_mode == IoMode::Pty {
        InteractiveMode::Always
    } else {
        InteractiveMode::Never
    };
    let argv = plan.argv.clone();
    assert(argv@ =~= plan.argv@);
    let selected = LaunchPlan { argv, resource_spec: spec, platform: plan.platform };
    Ok(SelectedExecution {
        plan: selected,
        io_mode,
        use_tui: plan.resource_spec.monitor && all,
        compact: io_mode == IoMode::Pty,
    })
}

pub open spec fn is_plain_char(c: char) -> bool {
    ('a' <= c && c <= 'z') || ('A' <= c && c <= 'Z') || ('0' <= c && c <= '9')
        || c == '/' || c == '.' || c == '_' || c == '-'
}

/// `s` with every `'` replaced by `'"'"'`.
pub open spec fn escape_quotes(s: Seq<char>) -> Seq<char>
    decreases s.len(),
{
    if s.len() == 0 {
        s
    } else {
        escape_quotes(s.drop_last()) + (if s.last() == '\'' { "'\"'\"'"@ } else { seq![s.last()] })
    }
}

/// A word as a POSIX shell reads it back: unchanged when it holds only
/// ASCII letters, digits and `/._-`, else single-quoted.
pub open spec fn shell_escaped(s: Seq<char>) -> Seq<char> {
    if forall|i: int| 0 <= i < s.len() ==> is_plain_char(#[trigger] s[i]) {
        s
    } else {
        "'"@ + escape_quotes(s) + "'"@
    }
}

/// A character a POSIX shell takes literally outside quotes wherever it
/// stands in a word: ASCII letters, digits and `/ . _ -`.
pub open spec fn shell_inert(c: char) -> bool {
    ('a' <= c && c <= 'z') || ('A' <= c && c <= 'Z') || ('0' <= c && c <= '9')
        || c == '/' || c == '.' || c == '_' || c == '-'
}

/// One character of a word as a POSIX shell reads it, in quoting state
/// `mode` (0 outside quotes, 1 inside `'…'`, 2 inside `"…"`) with `acc`
/// read so far. `None` where the shell would expand, glob or split
/// instead of taking the character as it is.
pub open spec fn sh_step(mode: nat, acc: Seq<char>, c: char) -> Option<(nat, Seq<char>)> {
    if mode == 1 {
        if c == '\'' { Some((0, acc)) } else { Some((1, acc.push(c))) }
    } else if mode == 2 {
        if c == '"' {
            Some((0, acc))
        } else if c == '$' || c == '`' || c == '\\' {
            None
        } else {
            Some((2, acc.push(c)))
        }
    } else if c == '\'' {
        Some((1, acc))
    } else if c == '"' {
        Some((2, acc))
    } else if shell_inert(c) {
        Some((0, acc.push(c)))
    } else {
        None
    }
}

/// The shell's reading of `t` from state `mode` with `acc` read so far.
pub open spec fn sh_run(mode: nat, acc: Seq<char>, t: Seq<char>) -> Option<(nat, Seq<char>)>
    decreases t.len(),
{
    if t.len() == 0 {
        Some((mode, acc))
    } else {
        match sh_step(mode, acc, t[0]) {
            Some((m, a)) => sh_run(m, a, t.drop_first()),
            None => None,
        }
    }
}

/// The single word a POSIX shell reads from `t`, where it reads it
/// literally and every quote is closed.
pub open spec fn shell_word_value(t: Seq<char>) -> Option<Seq<char>> {
    match sh_run(0, Seq::empty(), t) {
        Some((m, a)) => if m == 0 { Some(a) } else { None },
        None => None,
    }
}

proof fn lemma_sh_run_concat(mode: nat, acc: Seq<char>, a: Seq<char>, b: Seq<char>)
    ensures
        sh_run(mode, acc, a + b) == (match sh_run(mode, acc, a) {
            Some((m, x)) => sh_run(m, x, b),
            None => None,
        }),
    decreases a.len(),
{
    if a.len() == 0 {
        assert(a + b =~= b);
    } else {
        assert((a + b)[0] == a[0]);
        assert((a + b).drop_first() =~= a.drop_first() + b);
        match sh_step(mode, acc, a[0]) {
            Some((m, x)) => lemma_sh_run_concat(m, x, a.drop_first(), b),
            None => {},
        }
    }
}

proof fn lemma_sh_run_one(mode: nat, acc: Seq<char>, c: char)
    ensures
        sh_run(mode, acc, seq![c]) == sh_step(mode, acc, c),
{
    reveal_with_fuel(sh_run, 2);
    assert(seq![c].drop_first() =~= Seq::<char>::empty());
    assert(seq![c][0] == c);
}

proof fn lemma_escape_quotes_read(s: Seq<char>, acc: Seq<char>)
    ensures
        sh_run(1, acc, escape_quotes(s)) == Some((1nat, acc + s)),
    decreases s.len(),
{
    if s.len() == 0 {
        assert(acc + s =~= acc);
    } else {
        let front = s.drop_last();
        let c = s.last();
        lemma_escape_quotes_read(front, acc);
        let piece: Seq<char> = if c == '\'' { "'\"'\"'"@ } else { seq![c] };
        lemma_sh_run_concat(1, acc, escape_quotes(front), piece);
        let mid = acc + front;
        if c == '\'' {
            reveal_strlit("'\"'\"'");
            assert(piece =~= seq!['\''] + (seq!['"'] + (seq!['\''] + (seq!['"'] + seq!['\'']))));
            lemma_sh_run_concat(1, mid, seq!['\''], seq!['"'] + (seq!['\''] + (seq!['"'] + seq!['\''])));
            lemma_sh_run_one(1, mid, '\'');
            lemma_sh_run_concat(0, mid, seq!['"'], seq!['\''] + (seq!['"'] + seq!['\'']));
            lemma_sh_run_one(0, mid, '"');
            lemma_sh_run_concat(2, mid, seq!['\''], seq!['"'] + seq!['\'']);
            lemma_sh_run_one(2, mid, '\'');
            lemma_sh_run_concat(2, mid.push('\''), seq!['"'], seq!['\'']);
            lemma_sh_run_one(2, mid.push('\''), '"');
            lemma_sh_run_one(0, mid.push('\''), '\'');
        } else {
            lemma_sh_run_one(1, mid, c);
        }
        assert(mid.push(c) =~= acc + s);
    }
}

proof fn lemma_inert_read(s: Seq<char>, acc: Seq<char>)
    requires
        forall|i: int| 0 <= i < s.len() ==> shell_inert(#[trigger] s[i]),
    ensures
        sh_run(0, acc, s) == Some((0nat, acc + s)),
    decreases s.len(),
{
    if s.len() == 0 {
        assert(acc + s =~= acc);
    } else {
        let front = s.drop_last();
        let c = s.last();
        assert forall|i: int| 0 <= i < front.len() implies shell_inert(#[trigger] front[i]) by {
            assert(front[i] == s[i]);
        }
        lemma_inert_read(front, acc);
        assert(s =~= front + seq![c]);
        lemma_sh_run_concat(0, acc, front, seq![c]);
        assert(shell_inert(s[s.len() - 1]));
        lemma_sh_run_one(0, acc + front, c);
        assert((acc + front).push(c) =~= acc + s);
    }
}

/// A POSIX shell reads every escaped word back as exactly that word:
/// nothing in it is globbed, expanded or split. A word holding anything
/// but ASCII letters, digits and `/ . _ -` comes out single-quoted.
pub proof fn lemma_shell_escaped_reads_back(s: Seq<char>)
    ensures
        shell_word_value(shell_escaped(s)) == Some(s),
        (exists|i: int| 0 <= i < s.len() && !shell_inert(#[trigger] s[i])) ==> {
            let t = shell_escaped(s);
            t.len() >= 2 && t[0] == '\'' && t[t.len() - 1] == '\''
        },
{
    if forall|i: int| 0 <= i < s.len() ==> is_plain_char(#[trigger] s[i]) {
        assert forall|i: int| 0 <= i < s.len() implies shell_inert(#[trigger] s[i]) by {
            assert(is_plain_char(s[i]));
        }
        lemma_inert_read(s, Seq::empty());
        assert(Seq::<char>::empty() + s =~= s);
    } else {
        reveal_strlit("'");
        let e = escape_quotes(s);
        let t = "'"@ + e + "'"@;
        assert("'"@ =~= seq!['\'']);
        lemma_sh_run_concat(0, Seq::empty(), seq!['\''] + e, seq!['\'']);
        lemma_sh_run_concat(0, Seq::empty(), seq!['\''], e);
        lemma_sh_run_one(0, Seq::empty(), '\'');
        lemma_escape_quotes_read(s, Seq::empty());
        lemma_sh_run_one(1, Seq::<char>::empty() + s, '\'');
        assert(Seq::<char>::empty() + s =~= s);
        assert(t[0] == '\'');
        assert(t[t.len() - 1] == '\'');
    }
}

pub fn shell_escape(value: &str) -> (r: String)
    ensures
        r@ == shell_escaped(value@),
        shell_word_value(r@) == Some(value@),
{
    proof {
        lemma_shell_escaped_reads_back(value@);
    }
    let chars = crate::text::chars_of(value);
    let n = chars.len();
    let mut plain = true;
    let mut i: usize = 0;
    while i < n
        invariant
            i <= n,
            n == chars@.len(),
            chars@ == value@,
            plain == forall|k: int| 0 <= k < i ==> is_plain_char(#[trigger] value@[k]),
        decreases n - i,
    {
        let c = chars[i];
        let ok = ('a' <= c && c <= 'z') || ('A' <= c && c <= 'Z') || ('0' <= c && c <= '9')
            || c == '/' || c == '.' || c == '_' || c == '-';
        if !ok {
            assert(!is_plain_char(value@[i as int]));
        }
        plain = plain && ok;
        i = i + 1;
    }
    if plain {
        return value.to_owned();
    }
    let mut out = "'".to_owned();
    let mut j: usize = 0;
    while j < n
        invariant
            j <= n,
            n == chars@.len(),
            chars@ == value@,
            out@ == "'"@ + escape_quotes(value@.take(j as int)),
        decreases n - j,
    {
        let c = chars[j];
        assert(value@.take(j + 1).drop_last() =~= value@.take(j as int));
        if c == '\'' {
            out.append("'\"'\"'");
        } else {
            crate::text::push_char(&mut out, c);
        }
        assert(out@ =~= "'"@ + escape_quotes(value@.take(j + 1)));
        j = j + 1;
    }
    assert(value@.take(n as int) =~= value@);
    out.append("'");
    out
}

/// The target command as one shell command line.
pub open spec fn launch_target_text(plan: LaunchPlan) -> Seq<char> {
    match plan.resource_spec.shell {
        Some(shell) => shell.program() + " -lc "@ + shell_escaped(plan.argv@[0]@),
        None => join_sep(views(plan.argv@).map_values(|a: Seq<char>| shell_escaped(a)), " "@),
    }
}

pub open spec fn launch_target_result(plan: LaunchPlan) -> Result<Seq<char>, PlanError> {
    match plan.resource_spec.shell {
        Some(_) => if plan.argv@.len() != 1 { Err(PlanError::ShellTokenCount) } else { Ok(launch_target_text(plan)) },
        None => if plan.argv@.len() == 0 { Err(PlanError::EmptyArgv) } else { Ok(launch_target_text(plan)) },
    }
}

pub open spec fn string_result_view(r: Result<String, PlanError>) -> Result<Seq<char>, PlanError> {
    match r {
        Ok(s) => Ok(s@),
        Err(e) => Err(e),
    }
}

/// The target command rendered as a single shell command line.
pub fn render_launch_target_command(plan: &LaunchPlan) -> (r: Result<String, PlanError>)
    ensures
        string_result_view(r) == launch_target_result(*plan),
{
    if let Some(shell) = plan.resource_spec.shell {
        if plan.argv.len() != 1 {
            return Err(PlanError::ShellTokenCount);
        }
        let mut s = shell.program_name().to_owned();
        s.append(" -lc ");
        let escaped = shell_escape(plan.argv[0].as_str());
        s.append(escaped.as_str());
        return Ok(s);
    }
    if plan.argv.len() == 0 {
        return Err(PlanError::EmptyArgv);
    }
    let ghost esc = views(plan.argv@).map_values(|a: Seq<char>| shell_escaped(a));
    let mut parts: Vec<String> = Vec::new();
    let mut i: usize = 0;
    while i < plan.argv.len()
        invariant
            i <= plan.argv@.len(),
            esc == views(plan.argv@).map_values(|a: Seq<char>| shell_escaped(a)),
            views(parts@) =~= esc.take(i as int),
        decreases plan.argv@.len() - i,
    {
        let ghost before = parts@;
        parts.push(shell_escape(plan.argv[i].as_str()));
        assert(views(parts@) =~= views(before).push(esc[i as int]));
        i = i + 1;
    }
    assert(esc.take(plan.argv@.len() as int) =~= esc);
    Ok(crate::text::join_strings(&parts, " "))
}

/// The command as shown to the user: the shell command line, or the
/// arguments joined by spaces when it cannot be rendered.
pub fn display_command(plan: &LaunchPlan) -> (r: String)
    ensures
        r@ == match launch_target_result(*plan) {
            Ok(t) => t,
            Err(_) => join_sep(views(plan.argv@), " "@),
        },
{
    match render_launch_target_command(plan) {
        Ok(s) => s,
        Err(_) => crate::text::join_strings(&plan.argv, " "),
    }
}

/// The command line that starts the target under a pseudo-terminal via
/// `script`: util-linux takes the command as one `-c` string, BSD
/// `script` takes it as trailing arguments.
pub open spec fn pty_argv(plan: LaunchPlan) -> Seq<Seq<char>> {
    match plan.platform {
        Platform::Linux => seq!["script"@, "-q"@, "-e"@, "-c"@, launch_target_text(plan), "/dev/null"@],
        _ => seq!["script"@, "-q"@, "/dev/null"@] + target_args(plan),
    }
}

/// The command line of the plain fallback: the target itself, or under
/// `script` for a pseudo-terminal.
pub open spec fn local_argv(plan: LaunchPlan, io_mode: IoMode) -> Seq<Seq<char>> {
    if io_mode == IoMode::Pty { pty_argv(plan) } else { target_args(plan) }
}

pub open spec fn local_argv_result(plan: LaunchPlan, io_mode: IoMode) -> Result<Seq<Seq<char>>, PlanError> {
    if plan.argv@.len() == 0 {
        Err(PlanError::EmptyArgv)
    } else if !shell_tokens_ok(plan) {
        Err(PlanError::ShellTokenCount)
    } else {
        Ok(local_argv(plan, io_mode))
    }
}

/// Builds the plain fallback's command line (program first).
pub fn build_local_command(plan: &LaunchPlan, io_mode: IoMode) -> (r: Result<Vec<String>, PlanError>)
    ensures
        argv_view(r) == local_argv_result(*plan, io_mode),
{
    if plan.argv.len() == 0 {
        return Err(PlanError::EmptyArgv);
    }
    if plan.resource_spec.shell.is_some() && plan.argv.len() != 1 {
        return Err(PlanError::ShellTokenCount);
    }
    let mut argv: Vec<String> = Vec::new();
    if io_mode == IoMode::Pty {
        argv.push("script".to_owned());
        argv.push("-q".to_owned());
        match plan.platform {
            Platform::Linux => {
                argv.push("-e".to_owned());
                argv.push("-c".to_owned());
                let target = match render_launch_target_command(plan) {
                    Ok(t) => t,
                    Err(e) => return Err(e),
                };
                argv.push(target);
                argv.push("/dev/null".to_owned());
                assert(views(argv@) =~= pty_argv(*plan));
            },
            _ => {
                argv.push("/dev/null".to_owned());
                let ghost head = views(argv@);
                assert(head =~= seq!["script"@, "-q"@, "/dev/null"@]);
                crate::engine::argv::push_target_args(&mut argv, plan);
                assert(views(argv@) =~= pty_argv(*plan));
            },
        }
    } else {
        crate::engine::argv::push_target_args(&mut argv, plan);
        assert(views(argv@) =~= Seq::<Seq<char>>::empty() + target_args(*plan));
    }
    Ok(argv)
}

/// The plain fallback's command line for `plan` in its preferred I/O
/// mode.
pub fn plain_fallback_command_preview_for_test(plan: &LaunchPlan) -> (r: Result<Vec<String>, PlanError>)
    ensures
        argv_view(r) == local_argv_result(*plan, preferred_io_spec(plan.resource_spec.interactive)),
{
    let io_mode = preferred_io_mode(plan.resource_spec.interactive);
    build_local_command(plan, io_mode)
}

pub open spec fn kill_flag(signal: Signal) -> Seq<char> {
    match signal {
        Signal::Interrupt => "-INT"@,
        Signal::Terminate => "-TERM"@,
        Signal::Kill => "-KILL"@,
    }
}

/// The arguments of `kill` that send `signal` to the process group led
/// by `root_pid`.
pub fn process_group_kill_args(root_pid: u32, signal: Signal) -> (r: Vec<String>)
    ensures
        views(r@) == seq![kill_flag(signal), "--"@, "-"@ + digits(root_pid as nat)],
{
    let mut args: Vec<String> = Vec::new();
    let flag = match signal {
        Signal::Interrupt => "-INT",
        Signal::Terminate => "-TERM",
        Signal::Kill => "-KILL",
    };
    args.push(flag.to_owned());
    args.push("--".to_owned());
    let mut group = "-".to_owned();
    push_digits(&mut group, root_pid as u128);
    args.push(group);
    assert(views(args@) =~= seq![kill_flag(signal), "--"@, "-"@ + digits(root_pid as nat)]);
    args
}


pub open spec fn is_one_of(e: Seq<char>, interesting: Seq<&'static str>) -> bool {
    exists|j: int| 0 <= j < interesting.len() && interesting[j]@ == e
}

/// The events of `events` that are among `interesting`, in order.
pub open spec fn events_matching_spec(events: Seq<&'static str>, interesting: Seq<&'static str>) -> Seq<&'static str>
    decreases events.len(),
{
    if events.len() == 0 {
        Seq::empty()
    } else {
        events_matching_spec(events.drop_last(), interesting) + if is_one_of(events.last()@, interesting) {
            seq![events.last()]
        } else {
            Seq::empty()
        }
    }
}

/// Keeps the recorded events that are among `interesting`.
pub fn events_matching(events: &Vec<&'static str>, interesting: &Vec<&'static str>) -> (r: Vec<&'static str>)
    ensures
        r@ == events_matching_spec(events@, interesting@),
{
    let mut out: Vec<&'static str> = Vec::new();
    let mut i: usize = 0;
    while i < events.len()
        invariant
            i <= events@.len(),
            out@ == events_matching_spec(events@.take(i as int), interesting@),
        decreases events@.len() - i,
    {
        let e = events[i];
        let mut hit = false;
        let mut j: usize = 0;
        while j < interesting.len()
            invariant
                j <= interesting@.len(),
                hit == exists|k: int| 0 <= k < j && interesting@[k]@ == e@,
            decreases interesting@.len() - j,
        {
            if crate::text::str_eq(interesting[j], e) {
                hit = true;
            }
            j = j + 1;
        }
        assert(events@.take(i + 1).drop_last() =~= events@.take(i as int));
        if hit {
            out.push(e);
        }
        i = i + 1;
    }
    assert(events@.take(events@.len() as int) =~= events@);
    out
}


/// The state the run loop carries between ticks: the Ctrl-C escalation,
/// the peak memory, the samples kept for the summary and when the next
/// sample is due (in the loop's millisecond clock).
#[derive(Debug)]
pub struct LoopState {
    pub escalation: InterruptEscalation,
    pub peak_memory: Option<u64>,
    pub samples: Vec<SummarySample>,
    pub next_sample_due: u64,
}

impl LoopState {
    /// The outcome of a finished run: how the child ended and how long it
    /// ran, the peak and samples this state gathered, the limits the plan
    /// asked for, the host's memory and cores, and the capability report
    /// and warnings the run was shown with. The child's total CPU time is
    /// not measured in the foreground.
    pub fn into_outcome(
        self,
        plan: &LaunchPlan,
        exit_status: ExitStatus,
        elapsed_nanos: u64,
        system_memory_bytes: Option<u64>,
        host_logical_cores: Option<u32>,
        capabilities: CapabilityReport,
        warnings: Vec<String>,
    ) -> (r: RunOutcome)
        ensures
            r.exit_status == exit_status,
            r.elapsed_nanos == elapsed_nanos,
            r.peak_memory == self.peak_memory,
            r.samples@ == self.samples@,
            r.mem_limit_bytes == (match plan.resource_spec.mem { Some(m) => Some(m.spec_bytes()), None => None }),
            r.cpu_limit_centi_cores == (match plan.resource_spec.cpu { Some(c) => Some(c.spec_centi_cores()), None => None }),
            r.system_memory_bytes == system_memory_bytes,
            r.host_logical_cores == host_logical_cores,
            r.capabilities == capabilities,
            r.warnings@ == warnings@,
            r.total_cpu_nanos.is_none(),
    {
        let mem_limit_bytes = match plan.resource_spec.mem { Some(m) => Some(m.bytes()), None => None };
        let cpu_limit_centi_cores = match plan.resource_spec.cpu { Some(c) => Some(c.centi_cores()), None => None };
        RunOutcome {
            exit_status,
            elapsed_nanos,
            peak_memory: self.peak_memory,
            mem_limit_bytes,
            system_memory_bytes,
            samples: self.samples,
            cpu_limit_centi_cores,
            host_logical_cores,
            capabilities,
            warnings,
            total_cpu_nanos: None,
        }
    }

    /// Nothing sent, nothing sampled, first sample due at once.
    pub fn new(now: u64) -> (r: Self)
        ensures
            r.escalation.interrupted_at is None,
            !r.escalation.sent_sigterm,
            !r.escalation.sent_sigkill,
            r.peak_memory is None,
            r.samples@.len() == 0,
            r.next_sample_due == now,
    {
        LoopState {
            escalation: InterruptEscalation::new(),
            peak_memory: None,
            samples: Vec::new(),
            next_sample_due: now,
        }
    }

    /// The signals to send on this tick (see [`InterruptEscalation::step`]).
    pub fn signals_due(&mut self, plan: &InterruptPlan, now: u64, interrupt_requested: bool) -> (r: Vec<Signal>)
        ensures
            final(self).escalation == escalation_step(old(self).escalation, *plan, now, interrupt_requested),
            r@ == step_signals(old(self).escalation, *plan, now, interrupt_requested),
            escalation_wf(old(self).escalation) && plan_ordered(*plan) ==>
                sent_signals(old(self).escalation) + r@ == sent_signals(final(self).escalation),
            final(self).peak_memory == old(self).peak_memory,
            final(self).samples@ == old(self).samples@,
            final(self).next_sample_due == old(self).next_sample_due,
    {
        self.escalation.step(plan, now, interrupt_requested)
    }

    /// Whether a sample should be taken now.
    pub fn sample_due(&self, now: u64) -> (r: bool)
        ensures
            r == (now >= self.next_sample_due),
    {
        now >= self.next_sample_due
    }

    /// Folds a sample taken at `now` into the state; the next one is due
    /// `interval` milliseconds later.
    pub fn record_sample(&mut self, sample: &Sample, now: u64, interval: u64)
        requires
            now + interval <= u64::MAX,
        ensures
            final(self).peak_memory == peak_after(old(self).peak_memory, sample.peak_memory_bytes, sample.memory_bytes),
            final(self).samples@.len() == old(self).samples@.len() + 1,
            final(self).samples@.drop_last() == old(self).samples@,
            final(self).samples@.last().captured_at == sample.captured_at,
            final(self).samples@.last().cpu_milli_percent == sample.cpu_milli_percent,
            final(self).samples@.last().memory_bytes == sample.memory_bytes,
            final(self).next_sample_due == now + interval,
            final(self).escalation == old(self).escalation,
    {
        self.peak_memory = update_peak_memory(self.peak_memory, sample.peak_memory_bytes, sample.memory_bytes);
        self.samples.push(SummarySample {
            captured_at: sample.captured_at,
            cpu_milli_percent: sample.cpu_milli_percent,
            memory_bytes: sample.memory_bytes,
        });
        self.next_sample_due = now + interval;
    }

    /// A sample could not be taken at `now`; try again after `interval`.
    pub fn sample_failed(&mut self, now: u64, interval: u64)
        requires
            now + interval <= u64::MAX,
        ensures
            final(self).next_sample_due == now + interval,
            final(self).peak_memory == old(self).peak_memory,
            final(self).samples@ == old(self).samples@,
            final(self).escalation == old(self).escalation,
    {
        self.next_sample_due = now + interval;
    }
}

/// The events a UI session records when it starts: with the dashboard
/// asked for on a terminal, whether it came up (and in compact form);
/// whenever the plain renderer streams instead, that the monitor is
/// unavailable, then the plain renderer.
pub open spec fn ui_start_events_spec(use_tui: bool, tui_started: bool, compact: bool) -> Seq<Seq<char>> {
    if use_tui && tui_started {
        seq!["tui_renderer_active"@] + if compact { seq!["compact_interactive_mode"@] } else { Seq::empty() }
    } else {
        seq!["monitor_unavailable"@, "plain_renderer_active"@]
    }
}

pub fn ui_start_events(use_tui: bool, tui_started: bool, compact: bool) -> (r: Vec<&'static str>)
    ensures
        r@.map_values(|e: &'static str| e@) == ui_start_events_spec(use_tui, tui_started, compact),
{
    let mut events: Vec<&'static str> = Vec::new();
    if use_tui && tui_started {
        events.push("tui_renderer_active");
        if compact {
            events.push("compact_interactive_mode");
        }
    } else {
        events.push("monitor_unavailable");
        events.push("plain_renderer_active");
    }
    assert(events@.map_values(|e: &'static str| e@) =~= ui_start_events_spec(use_tui, tui_started, compact));
    events
}

} // verus!
