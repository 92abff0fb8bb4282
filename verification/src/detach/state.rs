//! State directory layout and the records kept for each detached run.
//!
//! Layout under `$XDG_STATE_HOME/scaler/runs/<id>/`: `meta.json` (written
//! at start), `result.json` (written at the end), `stdout.log` and
//! `stderr.log`.

use vstd::prelude::*;
use crate::detach::id::{RunId, is_run_id};
use crate::text::{str_eq, views};
use crate::text::order::{is_sorted, lemma_sort_texts_sorted_permutation, sort_texts, sorted_texts, text_le};

verus! {

/// `base` joined with the relative component `part`, as `Path::join`
/// does: a `/` is added unless `base` is empty or already ends in one.
pub open spec fn join_path(base: Seq<char>, part: Seq<char>) -> Seq<char> {
    if base.len() == 0 || base.last() == '/' { base + part } else { base + "/"@ + part }
}

pub fn join(base: &str, part: &str) -> (r: String)
    ensures
        r@ == join_path(base@, part@),
{
    let n = base.unicode_len();
    let mut s = base.to_owned();
    if n > 0 && base.get_char(n - 1) != '/' {
        s.append("/");
    }
    s.append(part);
    s
}

/// Where the state of detached runs lives.
#[derive(Debug, Clone)]
pub struct StateRoot {
    base: String,
}

/// Why no state root could be chosen.
#[derive(Debug, Clone, Copy, PartialEq, Eq, Structural)]
pub enum StateRootError {
    NoHome,
}

impl StateRootError {
    pub fn message(&self) -> (r: &'static str)
        ensures
            r@ == "neither XDG_STATE_HOME nor HOME set"@,
    {
        "neither XDG_STATE_HOME nor HOME set"
    }
}

pub open spec fn runs_dir_spec(base: Seq<char>) -> Seq<char> {
    join_path(join_path(base, "scaler"@), "runs"@)
}

pub open spec fn run_dir_spec(base: Seq<char>, id: Seq<char>) -> Seq<char> {
    join_path(runs_dir_spec(base), id)
}

impl StateRoot {
    pub closed spec fn base_view(&self) -> Seq<char> {
        self.base@
    }

    /// The state root from the values of `XDG_STATE_HOME` and `HOME`: a
    /// non-empty `XDG_STATE_HOME`, else `$HOME/.local/state`.
    pub fn from_env(xdg_state_home: Option<String>, home: Option<String>) -> (r: Result<StateRoot, StateRootError>)
        ensures
            match xdg_state_home {
                Some(x) if x@.len() > 0 => r matches Ok(root) && root.base_view() == x@,
                _ => match home {
                    Some(h) => r matches Ok(root) && root.base_view() == join_path(join_path(h@, ".local"@), "state"@),
                    None => r == Err::<StateRoot, StateRootError>(StateRootError::NoHome),
                },
            },
    {
        match xdg_state_home {
            Some(x) if x.as_str().unicode_len() > 0 => Ok(StateRoot { base: x }),
            _ => match home {
                Some(h) => {
                    let local = join(h.as_str(), ".local");
                    Ok(StateRoot { base: join(local.as_str(), "state") })
                },
                None => Err(StateRootError::NoHome),
            },
        }
    }

    pub fn with_base(base: String) -> (r: StateRoot)
        ensures
            r.base_view() == base@,
    {
        StateRoot { base }
    }

    pub fn base(&self) -> (r: &str)
        ensures
            r@ == self.base_view(),
    {
        self.base.as_str()
    }

    /// `<base>/scaler/runs`.
    pub fn runs_dir(&self) -> (r: String)
        ensures
            r@ == runs_dir_spec(self.base_view()),
    {
        let scaler = join(self.base.as_str(), "scaler");
        join(scaler.as_str(), "runs")
    }

    /// `<base>/scaler/runs/<id>`.
    pub fn run_dir(&self, id: &RunId) -> (r: String)
        ensures
            r@ == run_dir_spec(self.base_view(), id@),
    {
        let runs = self.runs_dir();
        join(runs.as_str(), id.as_str())
    }

    pub fn meta_path(&self, id: &RunId) -> (r: String)
        ensures
            r@ == join_path(run_dir_spec(self.base_view(), id@), "meta.json"@),
    {
        join(self.run_dir(id).as_str(), "meta.json")
    }

    pub fn result_path(&self, id: &RunId) -> (r: String)
        ensures
            r@ == join_path(run_dir_spec(self.base_view(), id@), "result.json"@),
    {
        join(self.run_dir(id).as_str(), "result.json")
    }

    pub fn stdout_log_path(&self, id: &RunId) -> (r: String)
        ensures
            r@ == join_path(run_dir_spec(self.base_view(), id@), "stdout.log"@),
    {
        join(self.run_dir(id).as_str(), "stdout.log")
    }

    pub fn stderr_log_path(&self, id: &RunId) -> (r: String)
        ensures
            r@ == join_path(run_dir_spec(self.base_view(), id@), "stderr.log"@),
    {
        join(self.run_dir(id).as_str(), "stderr.log")
    }
}

/// Static facts about a run, written when it starts.
#[derive(Debug, Clone)]
pub struct Meta {
    pub version: u32,
    pub id: String,
    pub started: String,
    pub command: Vec<String>,
    pub cwd: String,
    pub cpu_limit_centi_cores: Option<u32>,
    pub mem_limit_bytes: Option<u64>,
    pub platform: String,
    pub backend: String,
    pub backend_state: String,
    pub pid: Option<u32>,
    pub unit_name: Option<String>,
    pub scaler_exe: String,
    pub scaler_version: String,
    pub stdout_log: String,
    pub stderr_log: String,
}

#[derive(Debug, Clone, Copy, PartialEq, Eq, Structural)]
pub enum RunState {
    Exited,
    Killed,
    LaunchFailed,
}

impl RunState {
    pub open spec fn name(self) -> Seq<char> {
        match self {
            RunState::Exited => "exited"@,
            RunState::Killed => "killed"@,
            RunState::LaunchFailed => "launch_failed"@,
        }
    }

    /// The name used in `result.json`.
    pub fn as_str(self) -> (r: &'static str)
        ensures
            r@ == self.name(),
    {
        match self {
            RunState::Exited => "exited",
            RunState::Killed => "killed",
            RunState::LaunchFailed => "launch_failed",
        }
    }
}

/// How a run ended, written when it ends.
#[derive(Debug, Clone)]
pub struct RunResult {
    pub version: u32,
    pub id: String,
    pub ended: String,
    pub state: RunState,
    pub exit_code: Option<i32>,
    pub signal: Option<String>,
    pub cpu_total_nanos: Option<u128>,
    pub memory_peak_bytes: Option<u64>,
    pub launch_error: Option<String>,
}

/// The names in `names` that are run ids, in the order given.
pub open spec fn run_id_names(names: Seq<Seq<char>>) -> Seq<Seq<char>>
    decreases names.len(),
{
    if names.len() == 0 {
        Seq::empty()
    } else if is_run_id(names.last()) {
        run_id_names(names.drop_last()).push(names.last())
    } else {
        run_id_names(names.drop_last())
    }
}

pub open spec fn id_views(ids: Seq<RunId>) -> Seq<Seq<char>> {
    ids.map_values(|id: RunId| id@)
}

/// Every name kept is one of the names given.
proof fn lemma_run_id_names_subset(names: Seq<Seq<char>>)
    ensures
        forall|k: int| 0 <= k < run_id_names(names).len() ==> names.contains(#[trigger] run_id_names(names)[k]),
        names.no_duplicates() ==> run_id_names(names).no_duplicates(),
    decreases names.len(),
{
    if names.len() > 0 {
        let rest = names.drop_last();
        lemma_run_id_names_subset(rest);
        let kept = run_id_names(rest);
        assert forall|k: int| 0 <= k < kept.len() implies names.contains(#[trigger] kept[k]) by {
            let m = choose|m: int| 0 <= m < rest.len() && rest[m] == kept[k];
            assert(names[m] == kept[k]);
        }
        if is_run_id(names.last()) {
            let r = kept.push(names.last());
            assert(names[names.len() - 1] == names.last());
            if names.no_duplicates() {
                assert(rest.no_duplicates());
                assert(!kept.contains(names.last())) by {
                    if kept.contains(names.last()) {
                        let k = choose|k: int| 0 <= k < kept.len() && kept[k] == names.last();
                        let m = choose|m: int| 0 <= m < rest.len() && rest[m] == kept[k];
                        assert(names[m] == names[names.len() - 1]);
                    }
                }
                assert forall|i: int, j: int| 0 <= i < r.len() && 0 <= j < r.len() && i != j implies r[i] != r[j] by {
                    if i < kept.len() && j < kept.len() {
                    } else if i < kept.len() {
                        assert(kept.contains(r[i]));
                    } else {
                        assert(kept.contains(r[j]));
                    }
                }
            }
        }
    }
}

/// A sorted sequence without repeats is strictly increasing.
proof fn lemma_sorted_distinct_strict(s: Seq<Seq<char>>)
    requires
        is_sorted(s),
        s.no_duplicates(),
    ensures
        forall|i: int, j: int| 0 <= i < j < s.len() ==> text_le(#[trigger] s[i], #[trigger] s[j]) && s[i] != s[j],
{
}

/// When the directory entries are distinct, the selected ids come out
/// strictly newest first: each is larger than every one after it.
pub proof fn lemma_selected_ids_strictly_descending(names: Seq<Seq<char>>)
    requires
        names.no_duplicates(),
    ensures
        forall|i: int, j: int| 0 <= i < j < sort_texts(run_id_names(names)).reverse().len() ==>
            text_le(#[trigger] sort_texts(run_id_names(names)).reverse()[j], #[trigger] sort_texts(run_id_names(names)).reverse()[i])
            && sort_texts(run_id_names(names)).reverse()[i] != sort_texts(run_id_names(names)).reverse()[j],
{
    let kept = run_id_names(names);
    let sorted = sort_texts(kept);
    lemma_run_id_names_subset(names);
    lemma_sort_texts_sorted_permutation(kept);
    kept.lemma_multiset_has_no_duplicates();
    assert forall|x: Seq<char>| sorted.to_multiset().contains(x) implies sorted.to_multiset().count(x) == 1 by {
        assert(kept.to_multiset().contains(x));
    }
    sorted.lemma_multiset_has_no_duplicates_conv();
    lemma_sorted_distinct_strict(sorted);
    let rev = sorted.reverse();
    assert forall|i: int, j: int| 0 <= i < j < rev.len() implies
        text_le(#[trigger] rev[j], #[trigger] rev[i]) && rev[i] != rev[j] by {
        let a = sorted.len() - 1 - j;
        let b = sorted.len() - 1 - i;
        assert(rev[j] == sorted[a]);
        assert(rev[i] == sorted[b]);
        assert(0 <= a < b < sorted.len());
        assert(text_le(sorted[a], sorted[b]) && sorted[a] != sorted[b]);
    }
}

/// Picks the run ids out of the entries of the runs directory, newest
/// (largest) first; when the entries are distinct, strictly so.
pub fn select_run_ids(names: &Vec<String>) -> (r: Vec<RunId>)
    ensures
        id_views(r@) == sort_texts(run_id_names(views(names@))).reverse(),
        views(names@).no_duplicates() ==> forall|i: int, j: int| 0 <= i < j < r@.len() ==>
            text_le(#[trigger] r@[j]@, #[trigger] r@[i]@) && r@[i]@ != r@[j]@,
{
    let mut valid: Vec<String> = Vec::new();
    let mut i: usize = 0;
    while i < names.len()
        invariant
            i <= names@.len(),
            views(valid@) == run_id_names(views(names@).take(i as int)),
            forall|k: int| 0 <= k < valid@.len() ==> is_run_id(#[trigger] valid@[k]@),
        decreases names@.len() - i,
    {
        let ghost before = valid@;
        let ghost taken = views(names@).take(i + 1);
        assert(taken.drop_last() =~= views(names@).take(i as int));
        assert(taken.last() == names@[i as int]@);
        match RunId::parse(names[i].as_str()) {
            Some(_) => {
                valid.push(names[i].clone());
                assert(views(valid@) =~= views(before).push(names@[i as int]@));
            },
            None => {},
        }
        i = i + 1;
    }
    assert(views(names@).take(names@.len() as int) =~= views(names@));
    let sorted = sorted_texts(&valid);
    proof {
        crate::text::order::lemma_sort_texts_sorted_permutation(views(valid@));
    }
    let mut out: Vec<RunId> = Vec::new();
    let mut j: usize = sorted.len();
    while j > 0
        invariant
            j <= sorted@.len(),
            views(sorted@) == sort_texts(views(valid@)),
            sort_texts(views(valid@)).to_multiset() == views(valid@).to_multiset(),
            forall|k: int| 0 <= k < valid@.len() ==> is_run_id(#[trigger] valid@[k]@),
            id_views(out@) == views(sorted@).reverse().take(sorted@.len() - j),
        decreases j,
    {
        let ghost before = out@;
        proof {
            broadcast use vstd::seq_lib::group_to_multiset_ensures;
            let w = views(sorted@)[j - 1];
            assert(views(sorted@).contains(w));
            assert(views(sorted@).to_multiset().count(w) > 0);
            assert(views(valid@).to_multiset().count(w) > 0);
            assert(views(valid@).contains(w));
            let m = choose|m: int| 0 <= m < views(valid@).len() && views(valid@)[m] == w;
            assert(is_run_id(valid@[m]@));
        }
        match RunId::parse(sorted[j - 1].as_str()) {
            Some(id) => {
                out.push(id);
            },
            None => {
                assert(false);
            },
        }
        assert(views(sorted@).reverse().take(sorted@.len() - j + 1) =~= views(sorted@).reverse().take(sorted@.len() - j).push(views(sorted@)[j - 1]));
        assert(id_views(out@) =~= id_views(before).push(views(sorted@)[j - 1]));
        j = j - 1;
    }
    assert(views(sorted@).reverse().take(sorted@.len() as int) =~= views(sorted@).reverse());
    proof {
        if views(names@).no_duplicates() {
            lemma_selected_ids_strictly_descending(views(names@));
            assert forall|i: int, j: int| 0 <= i < j < out@.len() implies
                text_le(#[trigger] out@[j]@, #[trigger] out@[i]@) && out@[i]@ != out@[j]@ by {
                assert(id_views(out@)[i] == out@[i]@);
                assert(id_views(out@)[j] == out@[j]@);
            }
        }
    }
    out
}

} // verus!
