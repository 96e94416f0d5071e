use vstd::prelude::*;
use vstd::string::StringExecFns;

verus! {

/// Why a pipeline could not be started.
#[derive(Debug)]
pub enum PipelineError {
    /// The pipeline is already running.
    AlreadyRunning(String),
    /// No pipeline has this id.
    NotFound(String),
    /// The pipeline failed to start, with the reason.
    StartFailed(String, String),
}

/// A pipeline whose lifecycle an orchestrator drives. Implemented by users.
///
/// An implementation keeps its id for its whole life, reports through
/// `is_running` the state it is in, runs after a `start` that succeeded, and
/// does not run after `stop`. A `start` may fail, and nothing is asked of
/// what it returns.
///
/// The three spec functions name the id, the running state and the outcome
/// of the latest `start`. Every implementation must define all three to say
/// what it does; the default bodies are there only so that implementations
/// outside verified code compile. The orchestrator holds pipelines as trait
/// objects, for which Verus uses none of the defaults.
pub trait PipelineLifecycle: Send {
    /// The id under which the pipeline is known.
    closed spec fn spec_id(&self) -> Seq<char> {
        Seq::empty()
    }

    /// Whether the pipeline runs.
    closed spec fn spec_running(&self) -> bool {
        false
    }

    /// What the latest `start` returned; `None` before any.
    closed spec fn last_start(&self) -> Option<Result<(), PipelineError>> {
        None
    }

    fn pipeline_id(&self) -> (r: &str)
        ensures
            r@ == self.spec_id(),
    ;

    fn start(&mut self) -> (r: Result<(), PipelineError>)
        ensures
            final(self).spec_id() == old(self).spec_id(),
            r is Ok ==> final(self).spec_running(),
            final(self).last_start() == Some(r),
    ;

    fn stop(&mut self)
        ensures
            final(self).spec_id() == old(self).spec_id(),
            !final(self).spec_running(),
            final(self).last_start() == old(self).last_start(),
    ;

    fn is_running(&self) -> (r: bool)
        ensures
            r == self.spec_running(),
    ;
}

/// The ids as character sequences.
pub open spec fn id_views(ids: Seq<String>) -> Seq<Seq<char>> {
    ids.map_values(|s: String| s@)
}

/// `after` is `before` with `id` appended when it was missing, and `before`
/// itself when it was present.
pub open spec fn appended_once(before: Seq<Seq<char>>, id: Seq<char>, after: Seq<Seq<char>>) -> bool {
    &&& after.contains(id)
    &&& before.contains(id) ==> after == before
    &&& !before.contains(id) ==> {
        &&& after.len() == before.len() + 1
        &&& after[before.len() as int] == id
        &&& forall|j: int| 0 <= j < before.len() ==> #[trigger] after[j] == before[j]
    }
}

/// `after` is `before` with `id` put in front when it was missing, and
/// `before` itself when it was present.
pub open spec fn prepended_once(before: Seq<Seq<char>>, id: Seq<char>, after: Seq<Seq<char>>) -> bool {
    &&& after.contains(id)
    &&& before.contains(id) ==> after == before
    &&& !before.contains(id) ==> {
        &&& after.len() == before.len() + 1
        &&& after[0] == id
        &&& forall|j: int| 0 <= j < before.len() ==> #[trigger] after[j + 1] == before[j]
    }
}

/// The order list after registering `id`: unchanged when present, else with `id` appended.
spec fn with_appended(order: Seq<Seq<char>>, id: Seq<char>) -> Seq<Seq<char>> {
    if order.contains(id) { order } else { order.push(id) }
}

/// The order list after registering `id`: unchanged when present, else with `id` in front.
spec fn with_prepended(order: Seq<Seq<char>>, id: Seq<char>) -> Seq<Seq<char>> {
    if order.contains(id) { order } else { seq![id] + order }
}

proof fn lemma_added_once(before: Seq<Seq<char>>, id: Seq<char>)
    ensures
        appended_once(before, id, with_appended(before, id)),
        prepended_once(before, id, with_prepended(before, id)),
{
    if !before.contains(id) {
        assert(with_appended(before, id)[before.len() as int] == id);
        assert(with_prepended(before, id)[0] == id);
        assert forall|j: int| 0 <= j < before.len() implies #[trigger] with_prepended(before, id)[j + 1] == before[j] by {}
    }
}

/// The index of the first entry of `v` equal to `key`, if any.
fn position(v: &Vec<String>, key: &String) -> (r: Option<usize>)
    ensures
        match r {
            Some(i) => i < v@.len() && v@[i as int]@ == key@ && forall|j: int| 0 <= j < i ==> v@[j]@ != key@,
            None => !id_views(v@).contains(key@),
        },
{
    let mut i: usize = 0;
    while i < v.len()
        invariant
            i <= v@.len(),
            forall|j: int| 0 <= j < i ==> v@[j]@ != key@,
        decreases v@.len() - i,
    {
        if v[i] == *key {
            return Some(i);
        }
        i = i + 1;
    }
    proof {
        if id_views(v@).contains(key@) {
            let k = choose|k: int| 0 <= k < id_views(v@).len() && id_views(v@)[k] == key@;
            assert(v@[k]@ == key@);
        }
    }
    None
}

fn clone_ids(v: &Vec<String>) -> (r: Vec<String>)
    ensures
        id_views(r@) == id_views(v@),
{
    let mut r: Vec<String> = Vec::new();
    let mut i: usize = 0;
    while i < v.len()
        invariant
            i <= v@.len(),
            r@.len() == i,
            forall|j: int| 0 <= j < i ==> #[trigger] r@[j]@ == v@[j]@,
        decreases v@.len() - i,
    {
        r.push(v[i].clone());
        i = i + 1;
    }
    assert(id_views(r@) =~= id_views(v@));
    r
}

fn owned_ids(order: &Vec<&str>) -> (r: Vec<String>)
    ensures
        id_views(r@) == order@.map_values(|s: &str| s@),
{
    let mut r: Vec<String> = Vec::new();
    let mut i: usize = 0;
    while i < order.len()
        invariant
            i <= order@.len(),
            r@.len() == i,
            forall|j: int| 0 <= j < i ==> #[trigger] r@[j]@ == order@[j]@,
        decreases order@.len() - i,
    {
        r.push(String::from_str(order[i]));
        i = i + 1;
    }
    assert(id_views(r@) =~= order@.map_values(|s: &str| s@));
    r
}

/// How many entries of `s` are `true`.
pub open spec fn count_true(s: Seq<bool>) -> nat
    decreases s.len(),
{
    if s.len() == 0 {
        0
    } else {
        count_true(s.drop_last()) + if s.last() { 1nat } else { 0nat }
    }
}

/// The running states `after` of the pipelines registered under `ids`, once
/// those whose id `order` lists have been brought up from the states
/// `before`: a listed pipeline runs, an unlisted one is as it was.
pub open spec fn started_along(ids: Seq<Seq<char>>, before: Seq<bool>, order: Seq<Seq<char>>, after: Seq<bool>) -> bool {
    &&& after.len() == before.len()
    &&& forall|j: int| 0 <= j < before.len() ==> #[trigger] after[j] == (order.contains(ids[j]) || before[j])
}

/// The running states `after`, once the pipelines whose id `order` lists
/// have been brought down from the states `before`: a listed pipeline does
/// not run, an unlisted one is as it was.
pub open spec fn stopped_along(ids: Seq<Seq<char>>, before: Seq<bool>, order: Seq<Seq<char>>, after: Seq<bool>) -> bool {
    &&& after.len() == before.len()
    &&& forall|j: int| 0 <= j < before.len() ==> #[trigger] after[j] == (!order.contains(ids[j]) && before[j])
}

/// A startup walk along `order` that failed at its `k`-th id: that id is
/// registered, listed for the first time there, and its pipeline did not
/// run, so its `start` was tried; the pipelines listed before it were
/// brought up, and the others are as they were.
pub open spec fn failed_at(ids: Seq<Seq<char>>, before: Seq<bool>, order: Seq<Seq<char>>, k: int, after: Seq<bool>) -> bool {
    &&& 0 <= k < order.len()
    &&& ids.contains(order[k])
    &&& !order.take(k).contains(order[k])
    &&& after.len() == before.len()
    &&& forall|j: int| 0 <= j < before.len() ==>
        if #[trigger] ids[j] == order[k] {
            !before[j]
        } else {
            after[j] == (order.take(k).contains(ids[j]) || before[j])
        }
}

/// The start outcomes `after` of the pipelines registered under `ids`, once
/// a startup walk along `order` went through: each listed pipeline that did
/// not run was started and returned `Ok`, and every other outcome is as it was.
pub open spec fn outcomes_along(
    ids: Seq<Seq<char>>,
    running: Seq<bool>,
    order: Seq<Seq<char>>,
    before: Seq<Option<Result<(), PipelineError>>>,
    after: Seq<Option<Result<(), PipelineError>>>,
) -> bool {
    &&& after.len() == before.len()
    &&& forall|j: int| 0 <= j < before.len() ==> #[trigger] after[j] == if order.contains(ids[j]) && !running[j] {
        Some(Ok::<(), PipelineError>(()))
    } else {
        before[j]
    }
}

/// The start outcomes `after`, once a startup walk along `order` failed at
/// its `k`-th id with the error `r`: the pipeline under that id returned `r`,
/// each pipeline listed before it that did not run was started and returned
/// `Ok`, and every other outcome is as it was.
pub open spec fn outcomes_failed_at(
    ids: Seq<Seq<char>>,
    running: Seq<bool>,
    order: Seq<Seq<char>>,
    k: int,
    before: Seq<Option<Result<(), PipelineError>>>,
    after: Seq<Option<Result<(), PipelineError>>>,
    r: Result<(), PipelineError>,
) -> bool {
    &&& after.len() == before.len()
    &&& forall|j: int| 0 <= j < before.len() ==> #[trigger] after[j] == if ids[j] == order[k] {
        Some(r)
    } else if order.take(k).contains(ids[j]) && !running[j] {
        Some(Ok::<(), PipelineError>(()))
    } else {
        before[j]
    }
}

/// After a startup walk that did not fail, every registered pipeline whose id
/// the order lists runs, and every other pipeline is as it was.
pub proof fn law_startup_brings_up_listed(ids: Seq<Seq<char>>, before: Seq<bool>, order: Seq<Seq<char>>, after: Seq<bool>)
    requires
        started_along(ids, before, order, after),
    ensures
        forall|j: int| 0 <= j < before.len() && order.contains(#[trigger] ids[j]) ==> after[j],
        forall|j: int| 0 <= j < before.len() && !order.contains(#[trigger] ids[j]) ==> after[j] == before[j],
{
    assert forall|j: int| 0 <= j < before.len() && order.contains(#[trigger] ids[j]) implies after[j] by {
        assert(after[j] == (order.contains(ids[j]) || before[j]));
    }
    assert forall|j: int| 0 <= j < before.len() && !order.contains(#[trigger] ids[j]) implies after[j] == before[j] by {
        assert(after[j] == (order.contains(ids[j]) || before[j]));
    }
}

/// After a shutdown walk, no registered pipeline whose id the order lists
/// runs; when the order lists every registered id, none runs at all.
pub proof fn law_shutdown_brings_down_listed(ids: Seq<Seq<char>>, before: Seq<bool>, order: Seq<Seq<char>>, after: Seq<bool>)
    requires
        stopped_along(ids, before, order, after),
    ensures
        forall|j: int| 0 <= j < before.len() && order.contains(#[trigger] ids[j]) ==> !after[j],
        (forall|j: int| 0 <= j < before.len() ==> order.contains(#[trigger] ids[j])) ==> !after.contains(true),
{
    assert forall|j: int| 0 <= j < before.len() && order.contains(#[trigger] ids[j]) implies !after[j] by {
        assert(after[j] == (!order.contains(ids[j]) && before[j]));
    }
    if forall|j: int| 0 <= j < before.len() ==> order.contains(#[trigger] ids[j]) {
        if after.contains(true) {
            let k = choose|k: int| 0 <= k < after.len() && #[trigger] after[k] == true;
            assert(order.contains(ids[k]));
            assert(after[k] == (!order.contains(ids[k]) && before[k]));
        }
    }
}

/// Whether the pipeline registered under `id` (among `ids`) runs.
pub open spec fn runs_under(ids: Seq<Seq<char>>, running: Seq<bool>, id: Seq<char>) -> bool {
    exists|j: int| 0 <= j < ids.len() && #[trigger] ids[j] == id && running[j]
}

/// The ids whose `stop` a shutdown walk along `order` calls, in call order,
/// given the pipelines registered under `ids` and whether each runs: an id
/// is stopped where it is first listed, if its pipeline runs.
pub open spec fn stop_calls(ids: Seq<Seq<char>>, running: Seq<bool>, order: Seq<Seq<char>>) -> Seq<Seq<char>>
    decreases order.len(),
{
    if order.len() == 0 {
        Seq::empty()
    } else {
        let earlier = stop_calls(ids, running, order.drop_last());
        let id = order.last();
        if runs_under(ids, running, id) && !order.drop_last().contains(id) {
            earlier.push(id)
        } else {
            earlier
        }
    }
}

/// `x` is listed in `order` before `y` is listed for the first time.
pub open spec fn listed_before(order: Seq<Seq<char>>, x: Seq<char>, y: Seq<char>) -> bool {
    exists|i: int| 0 <= i < order.len() && #[trigger] order[i] == x && !order.take(i + 1).contains(y)
}

/// A shutdown walk stops each running registered pipeline listed in the
/// order, and only those, each once, and in the order in which they are
/// first listed.
pub proof fn law_shutdown_calls_follow_order(ids: Seq<Seq<char>>, running: Seq<bool>, order: Seq<Seq<char>>)
    ensures
        forall|x: Seq<char>| #[trigger] stop_calls(ids, running, order).contains(x) <==> (order.contains(x) && runs_under(ids, running, x)),
        stop_calls(ids, running, order).no_duplicates(),
        forall|a: int, b: int| 0 <= a < b < stop_calls(ids, running, order).len() ==>
            listed_before(order, #[trigger] stop_calls(ids, running, order)[a], #[trigger] stop_calls(ids, running, order)[b]),
    decreases order.len(),
{
    let t = stop_calls(ids, running, order);
    if order.len() == 0 {
        assert(t.len() == 0);
    } else {
        let o2 = order.drop_last();
        let x = order.last();
        law_shutdown_calls_follow_order(ids, running, o2);
        let p = stop_calls(ids, running, o2);
        assert forall|y: Seq<char>| #[trigger] order.contains(y) <==> (o2.contains(y) || y == x) by {
            if order.contains(y) {
                let i = choose|i: int| 0 <= i < order.len() && order[i] == y;
                if i < o2.len() {
                    assert(o2[i] == y);
                }
            }
            if o2.contains(y) {
                let i = choose|i: int| 0 <= i < o2.len() && o2[i] == y;
                assert(order[i] == y);
            }
            if y == x {
                assert(order[order.len() - 1] == y);
            }
        }
        assert forall|u: Seq<char>, v: Seq<char>| listed_before(o2, u, v) implies #[trigger] listed_before(order, u, v) by {
            let i = choose|i: int| 0 <= i < o2.len() && #[trigger] o2[i] == u && !o2.take(i + 1).contains(v);
            assert(order.take(i + 1) =~= o2.take(i + 1));
            assert(order[i] == u);
        }
        if runs_under(ids, running, x) && !o2.contains(x) {
            assert(t == p.push(x));
            assert forall|y: Seq<char>| #[trigger] t.contains(y) <==> (order.contains(y) && runs_under(ids, running, y)) by {
                if t.contains(y) {
                    let i = choose|i: int| 0 <= i < t.len() && t[i] == y;
                    if i < p.len() {
                        assert(p[i] == y);
                        assert(p.contains(y));
                    }
                }
                if y == x {
                    assert(t[p.len() as int] == x);
                }
                if p.contains(y) {
                    let i = choose|i: int| 0 <= i < p.len() && p[i] == y;
                    assert(t[i] == y);
                }
            }
            assert forall|a: int, b: int| 0 <= a < b < t.len() implies t[a] != t[b] by {
                if b == p.len() {
                    assert(t[a] == p[a]);
                    assert(p.contains(p[a]));
                } else {
                    assert(t[a] == p[a] && t[b] == p[b]);
                }
            }
            assert forall|a: int, b: int| 0 <= a < b < t.len() implies listed_before(order, #[trigger] t[a], #[trigger] t[b]) by {
                assert(t[a] == p[a]);
                if b < p.len() {
                    assert(t[b] == p[b]);
                    assert(listed_before(o2, p[a], p[b]));
                } else {
                    assert(t[b] == x);
                    assert(p.contains(p[a]));
                    let i = choose|i: int| 0 <= i < o2.len() && o2[i] == p[a];
                    assert(order[i] == p[a]);
                    if order.take(i + 1).contains(x) {
                        let m = choose|m: int| 0 <= m < order.take(i + 1).len() && #[trigger] order.take(i + 1)[m] == x;
                        assert(o2[m] == x);
                    }
                    assert(listed_before(order, p[a], x));
                }
            }
        } else {
            assert(t == p);
            assert forall|y: Seq<char>| #[trigger] t.contains(y) <==> (order.contains(y) && runs_under(ids, running, y)) by {
                assert(p.contains(y) <==> (o2.contains(y) && runs_under(ids, running, y)));
                assert(order.contains(y) <==> (o2.contains(y) || y == x));
            }
            assert forall|a: int, b: int| 0 <= a < b < t.len() implies listed_before(order, #[trigger] t[a], #[trigger] t[b]) by {
                assert(listed_before(o2, p[a], p[b]));
            }
        }
    }
}

/// Some pipeline runs exactly when the count of running pipelines is not zero.
pub proof fn law_any_running_iff_count(s: Seq<bool>)
    ensures
        count_true(s) > 0 <==> s.contains(true),
        count_true(s) <= s.len(),
    decreases s.len(),
{
    if s.len() > 0 {
        law_any_running_iff_count(s.drop_last());
        if s.drop_last().contains(true) {
            let k = choose|k: int| 0 <= k < s.drop_last().len() && s.drop_last()[k] == true;
            assert(s[k] == true);
        }
        if s.contains(true) && !s.last() {
            let k = choose|k: int| 0 <= k < s.len() && s[k] == true;
            assert(s.drop_last()[k] == true);
        }
        if s.last() {
            assert(s[s.len() - 1] == true);
        }
    }
}

/// An id occurs in the first `k + 1` entries of `s` exactly when it occurs
/// in the first `k` or is the entry at `k`.
proof fn lemma_take_next(s: Seq<Seq<char>>, k: int, x: Seq<char>)
    requires
        0 <= k < s.len(),
    ensures
        s.take(k + 1).contains(x) == (s.take(k).contains(x) || s[k] == x),
{
    assert(s.take(k + 1) == s.take(k).push(s[k]));
    if s.take(k + 1).contains(x) && s[k] != x {
        let m = choose|m: int| 0 <= m < s.take(k + 1).len() && #[trigger] s.take(k + 1)[m] == x;
        assert(s.take(k)[m] == x);
    }
    if s.take(k).contains(x) {
        let m = choose|m: int| 0 <= m < s.take(k).len() && #[trigger] s.take(k)[m] == x;
        assert(s.take(k + 1)[m] == x);
    }
    if s[k] == x {
        assert(s.take(k + 1)[k] == x);
    }
}

/// One registered pipeline; the slot is empty only while its pipeline is
/// taken out to be driven.
struct Slot {
    pipeline: Option<Box<dyn PipelineLifecycle>>,
}

/// The running states of a sequence of slots.
spec fn states_of(slots: Seq<Slot>) -> Seq<bool> {
    Seq::new(slots.len(), |j: int| slots[j].pipeline->0.spec_running())
}

/// The latest start outcomes of a sequence of slots.
spec fn outcomes_of(slots: Seq<Slot>) -> Seq<Option<Result<(), PipelineError>>> {
    Seq::new(slots.len(), |j: int| slots[j].pipeline->0.last_start())
}

/// The registered pipelines, each under the id at the same index. Every slot
/// holds its pipeline; a slot is emptied only while its pipeline is driven.
struct Table {
    ids: Vec<String>,
    pipelines: Vec<Slot>,
    /// The ids of the pipelines stopped through this table, in call order.
    stops: Ghost<Seq<Seq<char>>>,
}

impl Table {
    spec fn states(&self) -> Seq<bool> {
        states_of(self.pipelines@)
    }

    spec fn outcomes(&self) -> Seq<Option<Result<(), PipelineError>>> {
        outcomes_of(self.pipelines@)
    }

    spec fn valid(&self) -> bool {
        &&& self.ids@.len() == self.pipelines@.len()
        &&& id_views(self.ids@).no_duplicates()
        &&& forall|i: int| 0 <= i < self.ids@.len() ==> #[trigger] self.pipelines@[i].pipeline is Some
        &&& forall|i: int| 0 <= i < self.ids@.len() ==> #[trigger] self.ids@[i]@ == self.pipelines@[i].pipeline->0.spec_id()
    }

    /// A table whose slots differ from this one's at index `i` alone, where
    /// the pipeline keeps its id, is still valid and differs in its running
    /// states at `i` alone.
    proof fn lemma_update(&self, other: Table, i: int)
        requires
            self.valid(),
            0 <= i < self.pipelines@.len(),
            other.ids == self.ids,
            other.pipelines@.len() == self.pipelines@.len(),
            forall|j: int| 0 <= j < self.pipelines@.len() && j != i ==> other.pipelines@[j] == self.pipelines@[j],
            other.pipelines@[i].pipeline is Some,
            other.pipelines@[i].pipeline->0.spec_id() == self.pipelines@[i].pipeline->0.spec_id(),
        ensures
            other.valid(),
            other.states() == self.states().update(i, other.states()[i]),
            other.states()[i] == other.pipelines@[i].pipeline->0.spec_running(),
            other.outcomes() == self.outcomes().update(i, other.pipelines@[i].pipeline->0.last_start()),
    {
        assert forall|j: int| 0 <= j < other.ids@.len() implies #[trigger] other.pipelines@[j].pipeline is Some by {
            if j != i {
                assert(other.pipelines@[j] == self.pipelines@[j]);
            }
        }
        assert forall|j: int| 0 <= j < other.ids@.len() implies #[trigger] other.ids@[j]@ == other.pipelines@[j].pipeline->0.spec_id() by {
            if j != i {
                assert(other.pipelines@[j] == self.pipelines@[j]);
            }
            assert(self.ids@[j]@ == self.pipelines@[j].pipeline->0.spec_id());
        }
        assert forall|j: int| 0 <= j < other.states().len() implies #[trigger] other.states()[j] == self.states().update(i, other.states()[i])[j] by {
            if j != i {
                assert(other.pipelines@[j] == self.pipelines@[j]);
            }
        }
        assert(other.states() =~= self.states().update(i, other.states()[i]));
        assert forall|j: int| 0 <= j < other.outcomes().len() implies #[trigger] other.outcomes()[j] == self.outcomes().update(i, other.pipelines@[i].pipeline->0.last_start())[j] by {
            if j != i {
                assert(other.pipelines@[j] == self.pipelines@[j]);
            }
        }
        assert(other.outcomes() =~= self.outcomes().update(i, other.pipelines@[i].pipeline->0.last_start()));
    }

    fn empty() -> (t: Table)
        ensures
            t.valid(),
            id_views(t.ids@) == Seq::<Seq<char>>::empty(),
            t.states() == Seq::<bool>::empty(),
            t.outcomes() == Seq::<Option<Result<(), PipelineError>>>::empty(),
            t.stops@ == Seq::<Seq<char>>::empty(),
    {
        let t = Table { ids: Vec::new(), pipelines: Vec::new(), stops: Ghost(Seq::empty()) };
        assert(id_views(t.ids@) =~= Seq::<Seq<char>>::empty());
        assert(t.states() =~= Seq::<bool>::empty());
        assert(t.outcomes() =~= Seq::<Option<Result<(), PipelineError>>>::empty());
        t
    }

    /// The index of the pipeline registered under `id`, if any.
    fn find(&self, id: &str) -> (r: Option<usize>)
        requires
            self.valid(),
        ensures
            match r {
                Some(i) => {
                    &&& i < self.ids@.len()
                    &&& id_views(self.ids@)[i as int] == id@
                    &&& forall|j: int| 0 <= j < self.ids@.len() && #[trigger] id_views(self.ids@)[j] == id@ ==> j == i
                },
                None => !id_views(self.ids@).contains(id@),
            },
    {
        let key = String::from_str(id);
        let r = position(&self.ids, &key);
        match r {
            Some(i) => {
                assert(id_views(self.ids@)[i as int] == self.ids@[i as int]@);
            },
            None => {},
        }
        r
    }

    /// Whether the pipeline at index `i` runs.
    fn running_at(&self, i: usize) -> (r: bool)
        requires
            self.valid(),
            i < self.pipelines@.len(),
        ensures
            r == self.states()[i as int],
    {
        self.pipelines[i].pipeline.as_ref().unwrap().is_running()
    }

    /// Starts the pipeline at index `i`.
    fn start_at(&mut self, i: usize) -> (r: Result<(), PipelineError>)
        requires
            old(self).valid(),
            i < old(self).ids@.len(),
        ensures
            final(self).valid(),
            final(self).ids == old(self).ids,
            final(self).states() == old(self).states().update(i as int, final(self).states()[i as int]),
            r is Ok ==> final(self).states()[i as int],
            final(self).outcomes() == old(self).outcomes().update(i as int, Some(r)),
            final(self).stops == old(self).stops,
    {
        let mut slot = Slot { pipeline: None };
        self.pipelines.set_and_swap(i, &mut slot);
        let mut pipeline = slot.pipeline.unwrap();
        let r = pipeline.start();
        let held = Some(pipeline);
        self.pipelines.set(i, Slot { pipeline: held });
        proof {
            old(self).lemma_update(*self, i as int);
        }
        r
    }

    /// Stops the pipeline at index `i`.
    fn stop_at(&mut self, i: usize)
        requires
            old(self).valid(),
            i < old(self).ids@.len(),
        ensures
            final(self).valid(),
            final(self).ids == old(self).ids,
            final(self).states() == old(self).states().update(i as int, false),
            final(self).outcomes() == old(self).outcomes(),
            final(self).stops@ == old(self).stops@.push(old(self).ids@[i as int]@),
    {
        let mut slot = Slot { pipeline: None };
        self.pipelines.set_and_swap(i, &mut slot);
        let mut pipeline = slot.pipeline.unwrap();
        pipeline.stop();
        let held = Some(pipeline);
        self.pipelines.set(i, Slot { pipeline: held });
        self.stops = Ghost(self.stops@.push(self.ids@[i as int]@));
        proof {
            old(self).lemma_update(*self, i as int);
            assert(old(self).outcomes().update(i as int, old(self).outcomes()[i as int]) =~= old(self).outcomes());
        }
    }
}

/// Whether every id of `order` is unregistered.
pub open spec fn none_registered(order: Seq<Seq<char>>, registered: Seq<Seq<char>>) -> bool {
    forall|k: int| 0 <= k < order.len() ==> !registered.contains(#[trigger] order[k])
}

/// Registered pipelines, started in a startup order and stopped in a shutdown order.
pub struct PipelineOrchestrator {
    table: Table,
    startup_order: Vec<String>,
    shutdown_order: Vec<String>,
}

impl PipelineOrchestrator {
    #[verifier::type_invariant]
    spec fn well_formed(&self) -> bool {
        self.table.valid()
    }

    /// The ids of the registered pipelines, in registration order.
    pub closed spec fn registered(&self) -> Seq<Seq<char>> {
        id_views(self.table.ids@)
    }

    /// Whether each registered pipeline runs, in registration order.
    pub closed spec fn running(&self) -> Seq<bool> {
        Seq::new(self.registered().len(), |j: int| self.table.pipelines@[j].pipeline->0.spec_running())
    }

    /// What the latest `start` of each registered pipeline returned, in
    /// registration order.
    pub closed spec fn start_outcomes(&self) -> Seq<Option<Result<(), PipelineError>>> {
        Seq::new(self.registered().len(), |j: int| self.table.pipelines@[j].pipeline->0.last_start())
    }

    /// The ids of the pipelines whose `stop` the orchestrator has called,
    /// in call order.
    pub closed spec fn stops_made(&self) -> Seq<Seq<char>> {
        self.table.stops@
    }

    /// The startup order.
    pub closed spec fn startup(&self) -> Seq<Seq<char>> {
        id_views(self.startup_order@)
    }

    /// The shutdown order.
    pub closed spec fn shutdown(&self) -> Seq<Seq<char>> {
        id_views(self.shutdown_order@)
    }

    /// Every registered pipeline has a running state and a start outcome.
    pub proof fn lemma_running_len(&self)
        ensures
            self.running().len() == self.registered().len(),
            self.start_outcomes().len() == self.registered().len(),
    {
    }

    /// The running states, read off the table when it is in place.
    proof fn lemma_states(&self)
        requires
            self.table.valid(),
        ensures
            self.running() == self.table.states(),
            self.start_outcomes() == self.table.outcomes(),
            self.running().len() == self.registered().len(),
            self.registered().len() == self.table.ids@.len(),
    {
        assert(self.running() =~= self.table.states());
        assert(self.start_outcomes() =~= self.table.outcomes());
    }

    pub fn new() -> (r: Self)
        ensures
            r.stops_made() == Seq::<Seq<char>>::empty(),
            r.registered() == Seq::<Seq<char>>::empty(),
            r.running() == Seq::<bool>::empty(),
            r.start_outcomes() == Seq::<Option<Result<(), PipelineError>>>::empty(),
            r.startup() == Seq::<Seq<char>>::empty(),
            r.shutdown() == Seq::<Seq<char>>::empty(),
    {
        let r = PipelineOrchestrator {
            table: Table::empty(),
            startup_order: Vec::new(),
            shutdown_order: Vec::new(),
        };
        assert(id_views(r.startup_order@) =~= Seq::<Seq<char>>::empty());
        assert(id_views(r.shutdown_order@) =~= Seq::<Seq<char>>::empty());
        assert(r.running() =~= Seq::<bool>::empty());
        assert(r.start_outcomes() =~= Seq::<Option<Result<(), PipelineError>>>::empty());
        r
    }

    /// Moves the table out, leaving an empty one in its place.
    fn take_table(&mut self) -> (t: Table)
        ensures
            t.valid(),
            t == old(self).table,
            final(self).table.valid(),
            final(self).startup_order == old(self).startup_order,
            final(self).shutdown_order == old(self).shutdown_order,
    {
        proof {
            use_type_invariant(&*self);
        }
        let mut t = Table::empty();
        std::mem::swap(&mut t, &mut self.table);
        t
    }

    /// Registers a pipeline under its own id, replacing one already registered
    /// under that id. A new id is appended to the startup order and put in
    /// front of the shutdown order.
    pub fn register(&mut self, pipeline: Box<dyn PipelineLifecycle>)
        ensures
            final(self).stops_made() == old(self).stops_made(),
            appended_once(old(self).registered(), pipeline.spec_id(), final(self).registered()),
            forall|j: int| 0 <= j < final(self).registered().len() ==> #[trigger] final(self).running()[j] == if final(self).registered()[j] == pipeline.spec_id() {
                pipeline.spec_running()
            } else {
                old(self).running()[j]
            },
            forall|j: int| 0 <= j < final(self).registered().len() ==> #[trigger] final(self).start_outcomes()[j] == if final(self).registered()[j] == pipeline.spec_id() {
                pipeline.last_start()
            } else {
                old(self).start_outcomes()[j]
            },
            appended_once(old(self).startup(), pipeline.spec_id(), final(self).startup()),
            prepended_once(old(self).shutdown(), pipeline.spec_id(), final(self).shutdown()),
    {
        let ghost prun = pipeline.spec_running();
        let ghost pout = pipeline.last_start();
        let id = String::from_str(pipeline.pipeline_id());
        let ghost idv = id@;
        let mut t = self.take_table();
        proof {
            old(self).lemma_states();
        }
        let mut startup: Vec<String> = Vec::new();
        std::mem::swap(&mut startup, &mut self.startup_order);
        match position(&startup, &id) {
            Some(i) => {
                assert(id_views(startup@)[i as int] == idv);
            },
            None => {
                let ghost before = startup@;
                startup.push(id.clone());
                assert(id_views(startup@) =~= id_views(before).push(idv));
            },
        }
        self.startup_order = startup;
        let mut shutdown: Vec<String> = Vec::new();
        std::mem::swap(&mut shutdown, &mut self.shutdown_order);
        match position(&shutdown, &id) {
            Some(i) => {
                assert(id_views(shutdown@)[i as int] == idv);
            },
            None => {
                let ghost before = shutdown@;
                shutdown.insert(0, id.clone());
                assert(id_views(shutdown@) =~= seq![idv] + id_views(before));
            },
        }
        self.shutdown_order = shutdown;
        let ghost before = t.ids@;
        let ghost slots0 = t.pipelines@;
        let ghost states0 = t.states();
        let ghost outcomes0 = t.outcomes();
        match t.find(id.as_str()) {
            Some(i) => {
                let held = Some(pipeline);
                let slot = Slot { pipeline: held };
                t.pipelines.set(i, slot);
                assert(id_views(before).contains(idv));
                assert forall|j: int| 0 <= j < t.ids@.len() implies #[trigger] t.pipelines@[j].pipeline is Some by {
                    if j != i {
                        assert(t.pipelines@[j] == slots0[j]);
                    }
                }
                assert forall|j: int| 0 <= j < t.ids@.len() implies #[trigger] t.ids@[j]@ == t.pipelines@[j].pipeline->0.spec_id() by {
                    if j == i {
                        assert(id_views(before)[j] == t.ids@[j]@);
                    } else {
                        assert(t.pipelines@[j] == slots0[j]);
                    }
                }
                assert forall|j: int| 0 <= j < t.ids@.len() implies #[trigger] t.states()[j] == if id_views(t.ids@)[j] == idv { prun } else { states0[j] } by {
                    if j != i {
                        assert(t.pipelines@[j] == slots0[j]);
                        assert(id_views(before)[j] != id_views(before)[i as int]);
                    }
                }
                assert forall|j: int| 0 <= j < t.ids@.len() implies #[trigger] t.outcomes()[j] == if id_views(t.ids@)[j] == idv { pout } else { outcomes0[j] } by {
                    if j != i {
                        assert(t.pipelines@[j] == slots0[j]);
                        assert(id_views(before)[j] != id_views(before)[i as int]);
                    }
                }
            },
            None => {
                t.ids.push(id);
                let held = Some(pipeline);
                t.pipelines.push(Slot { pipeline: held });
                assert(id_views(t.ids@) =~= id_views(before).push(idv));
                assert(id_views(t.ids@).no_duplicates()) by {
                    assert forall|a: int, b: int| 0 <= a < b < id_views(t.ids@).len()
                        implies id_views(t.ids@)[a] != id_views(t.ids@)[b] by {
                        if b == id_views(before).len() {
                            assert(id_views(before)[a] == id_views(t.ids@)[a]);
                        }
                    }
                }
                assert forall|j: int| 0 <= j < t.ids@.len() implies #[trigger] t.pipelines@[j].pipeline is Some by {
                    if j < before.len() {
                        assert(t.pipelines@[j] == slots0[j]);
                    }
                }
                assert forall|j: int| 0 <= j < t.ids@.len() implies #[trigger] t.ids@[j]@ == t.pipelines@[j].pipeline->0.spec_id() by {
                    if j < before.len() {
                        assert(before[j]@ == t.ids@[j]@);
                        assert(t.pipelines@[j] == slots0[j]);
                    }
                }
                assert forall|j: int| 0 <= j < t.ids@.len() implies #[trigger] t.states()[j] == if id_views(t.ids@)[j] == idv { prun } else { states0[j] } by {
                    if j < before.len() {
                        assert(t.pipelines@[j] == slots0[j]);
                        assert(id_views(before)[j] == id_views(t.ids@)[j]);
                    }
                }
                assert forall|j: int| 0 <= j < t.ids@.len() implies #[trigger] t.outcomes()[j] == if id_views(t.ids@)[j] == idv { pout } else { outcomes0[j] } by {
                    if j < before.len() {
                        assert(t.pipelines@[j] == slots0[j]);
                        assert(id_views(before)[j] == id_views(t.ids@)[j]);
                    }
                }
            },
        }
        self.table = t;
        proof {
            self.lemma_states();
        }
        assert(self.registered() == with_appended(old(self).registered(), idv));
        assert(self.startup() == with_appended(old(self).startup(), idv));
        assert(self.shutdown() == with_prepended(old(self).shutdown(), idv));
        proof {
            lemma_added_once(old(self).registered(), idv);
            lemma_added_once(old(self).startup(), idv);
            lemma_added_once(old(self).shutdown(), idv);
        }
    }

    /// Replaces the startup order.
    pub fn set_startup_order(&mut self, order: Vec<&str>)
        ensures
            final(self).stops_made() == old(self).stops_made(),
            final(self).startup() == order@.map_values(|s: &str| s@),
            final(self).registered() == old(self).registered(),
            final(self).running() == old(self).running(),
            final(self).start_outcomes() == old(self).start_outcomes(),
            final(self).shutdown() == old(self).shutdown(),
    {
        proof {
            use_type_invariant(&*self);
        }
        self.startup_order = owned_ids(&order);
    }

    /// Replaces the shutdown order.
    pub fn set_shutdown_order(&mut self, order: Vec<&str>)
        ensures
            final(self).stops_made() == old(self).stops_made(),
            final(self).shutdown() == order@.map_values(|s: &str| s@),
            final(self).registered() == old(self).registered(),
            final(self).running() == old(self).running(),
            final(self).start_outcomes() == old(self).start_outcomes(),
            final(self).startup() == old(self).startup(),
    {
        proof {
            use_type_invariant(&*self);
        }
        self.shutdown_order = owned_ids(&order);
    }

    /// Starts one pipeline. An unknown id is refused with `NotFound` and a
    /// running pipeline with `AlreadyRunning`, neither calling `start`;
    /// otherwise that pipeline's `start` is called and its result returned.
    pub fn start_pipeline(&mut self, id: &str) -> (r: Result<(), PipelineError>)
        ensures
            final(self).stops_made() == old(self).stops_made(),
            final(self).registered() == old(self).registered(),
            final(self).startup() == old(self).startup(),
            final(self).shutdown() == old(self).shutdown(),
            !old(self).registered().contains(id@) ==> {
                &&& r matches Err(PipelineError::NotFound(s)) && s@ == id@
                &&& final(self).running() == old(self).running()
                &&& final(self).start_outcomes() == old(self).start_outcomes()
            },
            forall|j: int| 0 <= j < old(self).registered().len() && #[trigger] old(self).registered()[j] == id@ ==> if old(self).running()[j] {
                &&& r matches Err(PipelineError::AlreadyRunning(s)) && s@ == id@
                &&& final(self).running() == old(self).running()
                &&& final(self).start_outcomes() == old(self).start_outcomes()
            } else {
                &&& final(self).running() == old(self).running().update(j, final(self).running()[j])
                &&& r is Ok ==> final(self).running()[j]
                &&& final(self).start_outcomes() == old(self).start_outcomes().update(j, Some(r))
            },
    {
        let mut t = self.take_table();
        proof {
            old(self).lemma_states();
        }
        let r = match t.find(id) {
            None => Err(PipelineError::NotFound(String::from_str(id))),
            Some(i) => {
                if t.running_at(i) {
                    Err(PipelineError::AlreadyRunning(String::from_str(id)))
                } else {
                    t.start_at(i)
                }
            },
        };
        self.table = t;
        proof {
            self.lemma_states();
        }
        r
    }

    /// Stops one pipeline; an unknown id is ignored.
    pub fn stop_pipeline(&mut self, id: &str)
        ensures
            old(self).registered().contains(id@) ==> final(self).stops_made() == old(self).stops_made().push(id@),
            !old(self).registered().contains(id@) ==> final(self).stops_made() == old(self).stops_made(),
            final(self).registered() == old(self).registered(),
            final(self).startup() == old(self).startup(),
            final(self).shutdown() == old(self).shutdown(),
            !old(self).registered().contains(id@) ==> final(self).running() == old(self).running(),
            forall|j: int| 0 <= j < old(self).registered().len() && #[trigger] old(self).registered()[j] == id@ ==>
                final(self).running() == old(self).running().update(j, false),
            final(self).start_outcomes() == old(self).start_outcomes(),
    {
        let mut t = self.take_table();
        proof {
            old(self).lemma_states();
        }
        match t.find(id) {
            Some(i) => t.stop_at(i),
            None => {},
        }
        self.table = t;
        proof {
            self.lemma_states();
        }
    }

    /// Walks the startup order and starts each registered pipeline listed
    /// there that is not running, stopping at the first `start` that fails
    /// and returning its error. Ids that are not registered are skipped, and
    /// pipelines whose id is not listed are left alone.
    pub fn start_all(&mut self) -> (r: Result<(), PipelineError>)
        ensures
            final(self).stops_made() == old(self).stops_made(),
            final(self).registered() == old(self).registered(),
            final(self).startup() == old(self).startup(),
            final(self).shutdown() == old(self).shutdown(),
            (forall|j: int| 0 <= j < old(self).registered().len() && old(self).startup().contains(#[trigger] old(self).registered()[j])
                ==> old(self).running()[j]) ==> {
                &&& r is Ok
                &&& final(self).running() == old(self).running()
                &&& final(self).start_outcomes() == old(self).start_outcomes()
            },
            none_registered(old(self).startup(), old(self).registered()) ==> r is Ok,
            r is Ok ==> {
                &&& started_along(old(self).registered(), old(self).running(), old(self).startup(), final(self).running())
                &&& outcomes_along(old(self).registered(), old(self).running(), old(self).startup(), old(self).start_outcomes(), final(self).start_outcomes())
            },
            r is Err ==> exists|k: int| {
                &&& failed_at(old(self).registered(), old(self).running(), old(self).startup(), k, #[trigger] final(self).running())
                &&& outcomes_failed_at(old(self).registered(), old(self).running(), old(self).startup(), k, old(self).start_outcomes(), final(self).start_outcomes(), r)
                &&& k >= 0
            },
    {
        let order = clone_ids(&self.startup_order);
        let mut t = self.take_table();
        proof {
            old(self).lemma_states();
        }
        let ghost ids0 = t.ids;
        let ghost reg = id_views(ids0@);
        let ghost st0 = t.states();
        let ghost out0 = t.outcomes();
        let ghost ord = id_views(order@);
        let mut k: usize = 0;
        let mut result: Result<(), PipelineError> = Ok(());
        assert(ord.take(0) =~= Seq::<Seq<char>>::empty());
        assert forall|j: int| 0 <= j < st0.len() implies #[trigger] t.states()[j] == (ord.take(0).contains(reg[j]) || st0[j]) by {
            assert(!ord.take(0).contains(reg[j]));
        }
        assert forall|j: int| 0 <= j < st0.len() implies #[trigger] t.outcomes()[j] == if ord.take(0).contains(reg[j]) && !st0[j] {
            Some(Ok::<(), PipelineError>(()))
        } else {
            out0[j]
        } by {
            assert(!ord.take(0).contains(reg[j]));
        }
        while k < order.len()
            invariant_except_break
                result is Ok,
                started_along(reg, st0, ord.take(k as int), t.states()),
                outcomes_along(reg, st0, ord.take(k as int), out0, t.outcomes()),
            invariant
                k <= order@.len(),
                t.valid(),
                t.ids == ids0,
                ord == old(self).startup(),
                reg == old(self).registered(),
                st0 == old(self).running(),
                out0 == old(self).start_outcomes(),
                out0.len() == reg.len(),
                t.stops@ == old(self).stops_made(),
                t.outcomes().len() == reg.len(),
                st0.len() == reg.len(),
                t.states().len() == reg.len(),
                reg.len() == ids0@.len(),
                ord.len() == order@.len(),
                ord == id_views(order@),
                reg == id_views(ids0@),
            ensures
                t.valid(),
                t.ids == ids0,
                result is Ok ==> k == order@.len() && started_along(reg, st0, ord.take(k as int), t.states())
                    && outcomes_along(reg, st0, ord.take(k as int), out0, t.outcomes()),
                result is Err ==> exists|kk: int| failed_at(reg, st0, ord, kk, #[trigger] t.states())
                    && outcomes_failed_at(reg, st0, ord, kk, out0, t.outcomes(), result) && kk >= 0,
            decreases order@.len() - k,
        {
            let ghost cur = t.states();
            let ghost cur_out = t.outcomes();
            proof {
                assert(ord[k as int] == order@[k as int]@);
            }
            match t.find(order[k].as_str()) {
                Some(i) => {
                    if !t.running_at(i) {
                        proof {
                            if ord.take(k as int).contains(reg[i as int]) {
                                assert(cur[i as int]);
                            }
                        }
                        let started = t.start_at(i);
                        if started.is_err() {
                            result = started;
                            proof {
                                assert(failed_at(reg, st0, ord, k as int, t.states())) by {
                                    assert forall|j: int| 0 <= j < st0.len() && #[trigger] reg[j] != ord[k as int] implies
                                        t.states()[j] == (ord.take(k as int).contains(reg[j]) || st0[j]) by {
                                        assert(j != i);
                                        assert(cur[j] == (ord.take(k as int).contains(reg[j]) || st0[j]));
                                    }
                                    assert(reg.contains(ord[k as int]));
                                }
                                assert(outcomes_failed_at(reg, st0, ord, k as int, out0, t.outcomes(), result)) by {
                                    assert forall|j: int| 0 <= j < st0.len() implies #[trigger] t.outcomes()[j] == if reg[j] == ord[k as int] {
                                        Some(result)
                                    } else if ord.take(k as int).contains(reg[j]) && !st0[j] {
                                        Some(Ok::<(), PipelineError>(()))
                                    } else {
                                        out0[j]
                                    } by {
                                        if reg[j] == ord[k as int] {
                                            assert(j == i);
                                        } else {
                                            assert(j != i);
                                            assert(cur_out[j] == if ord.take(k as int).contains(reg[j]) && !st0[j] {
                                                Some(Ok::<(), PipelineError>(()))
                                            } else {
                                                out0[j]
                                            });
                                        }
                                    }
                                }
                            }
                            break;
                        }
                        assert(started matches Ok(u) && u == ());
                        assert(started == Ok::<(), PipelineError>(()));
                        assert(t.outcomes()[i as int] == Some(Ok::<(), PipelineError>(())));
                        assert(!ord.take(k as int).contains(reg[i as int]) && !st0[i as int]);
                    } else {
                        assert(t.outcomes() == cur_out);
                    }
                    proof {
                        assert forall|j: int| 0 <= j < st0.len() implies #[trigger] t.states()[j] == (ord.take(k + 1).contains(reg[j]) || st0[j]) by {
                            assert(cur[j] == (ord.take(k as int).contains(reg[j]) || st0[j]));
                            lemma_take_next(ord, k as int, reg[j]);
                            if j == i {
                                assert(reg[j] == ord[k as int]);
                            }
                        }
                        assert forall|j: int| 0 <= j < st0.len() implies #[trigger] t.outcomes()[j] == if ord.take(k + 1).contains(reg[j]) && !st0[j] {
                            Some(Ok::<(), PipelineError>(()))
                        } else {
                            out0[j]
                        } by {
                            assert(cur[j] == (ord.take(k as int).contains(reg[j]) || st0[j]));
                            assert(cur_out[j] == if ord.take(k as int).contains(reg[j]) && !st0[j] {
                                Some(Ok::<(), PipelineError>(()))
                            } else {
                                out0[j]
                            });
                            lemma_take_next(ord, k as int, reg[j]);
                            if j == i {
                                assert(reg[j] == ord[k as int]);
                            } else {
                                assert(reg[j] != ord[k as int]);
                            }
                        }
                    }
                },
                None => {
                    proof {
                        assert forall|j: int| 0 <= j < st0.len() implies #[trigger] t.states()[j] == (ord.take(k + 1).contains(reg[j]) || st0[j]) by {
                            assert(cur[j] == (ord.take(k as int).contains(reg[j]) || st0[j]));
                            assert(reg[j] != ord[k as int]);
                            lemma_take_next(ord, k as int, reg[j]);
                        }
                        assert forall|j: int| 0 <= j < st0.len() implies #[trigger] t.outcomes()[j] == if ord.take(k + 1).contains(reg[j]) && !st0[j] {
                            Some(Ok::<(), PipelineError>(()))
                        } else {
                            out0[j]
                        } by {
                            assert(reg[j] != ord[k as int]);
                            lemma_take_next(ord, k as int, reg[j]);
                        }
                    }
                },
            }
            k = k + 1;
        }
        proof {
            if result is Ok {
                assert(ord.take(k as int) =~= ord);
            }
        }
        self.table = t;
        proof {
            self.lemma_states();
            if forall|j: int| 0 <= j < reg.len() && ord.contains(#[trigger] reg[j]) ==> st0[j] {
                if result is Err {
                    let kk = choose|kk: int| failed_at(reg, st0, ord, kk, #[trigger] t.states())
                        && outcomes_failed_at(reg, st0, ord, kk, out0, t.outcomes(), result) && kk >= 0;
                    let j = choose|j: int| 0 <= j < reg.len() && #[trigger] reg[j] == ord[kk];
                    assert(ord.contains(reg[j])) by {
                        assert(ord[kk] == reg[j]);
                    }
                }
                assert(self.running() =~= st0);
                assert(self.start_outcomes() =~= out0);
            }
            if none_registered(ord, reg) {
                assert forall|j: int| 0 <= j < reg.len() && ord.contains(#[trigger] reg[j]) implies st0[j] by {
                    let m = choose|m: int| 0 <= m < ord.len() && #[trigger] ord[m] == reg[j];
                    assert(reg.contains(ord[m]));
                }
            }
        }
        result
    }

    /// Walks the shutdown order and stops each registered pipeline listed
    /// there that runs. Pipelines whose id is not listed are left alone.
    pub fn stop_all(&mut self)
        ensures
            final(self).registered() == old(self).registered(),
            final(self).startup() == old(self).startup(),
            final(self).shutdown() == old(self).shutdown(),
            stopped_along(old(self).registered(), old(self).running(), old(self).shutdown(), final(self).running()),
            final(self).start_outcomes() == old(self).start_outcomes(),
            final(self).stops_made() == old(self).stops_made() + stop_calls(old(self).registered(), old(self).running(), old(self).shutdown()),
    {
        let order = clone_ids(&self.shutdown_order);
        let mut t = self.take_table();
        proof {
            old(self).lemma_states();
        }
        let ghost ids0 = t.ids;
        let ghost reg = id_views(ids0@);
        let ghost st0 = t.states();
        let ghost ord = id_views(order@);
        let mut k: usize = 0;
        assert(ord.take(0) =~= Seq::<Seq<char>>::empty());
        while k < order.len()
            invariant
                k <= order@.len(),
                t.valid(),
                t.ids == ids0,
                ord == old(self).shutdown(),
                reg == old(self).registered(),
                st0 == old(self).running(),
                st0.len() == reg.len(),
                t.states().len() == reg.len(),
                reg.len() == ids0@.len(),
                ord.len() == order@.len(),
                ord == id_views(order@),
                reg == id_views(ids0@),
                stopped_along(reg, st0, ord.take(k as int), t.states()),
                t.outcomes() == old(self).start_outcomes(),
                t.stops@ == old(self).stops_made() + stop_calls(reg, st0, ord.take(k as int)),
            decreases order@.len() - k,
        {
            let ghost cur = t.states();
            proof {
                assert(ord[k as int] == order@[k as int]@);
            }
            match t.find(order[k].as_str()) {
                Some(i) => {
                    proof {
                        assert(ord.take(k + 1).drop_last() =~= ord.take(k as int));
                        assert(ord.take(k + 1).last() == ord[k as int]);
                        assert(reg[i as int] == ord[k as int]);
                        assert(runs_under(reg, st0, ord[k as int]) == st0[i as int]) by {
                            if runs_under(reg, st0, ord[k as int]) {
                                let j = choose|j: int| 0 <= j < reg.len() && #[trigger] reg[j] == ord[k as int] && st0[j];
                                assert(id_views(t.ids@)[j] == ord[k as int]);
                            }
                        }
                        assert(cur[i as int] == (!ord.take(k as int).contains(ord[k as int]) && st0[i as int]));
                    }
                    if t.running_at(i) {
                        t.stop_at(i);
                    }
                    proof {
                        assert forall|j: int| 0 <= j < st0.len() implies #[trigger] t.states()[j] == (!ord.take(k + 1).contains(reg[j]) && st0[j]) by {
                            assert(cur[j] == (!ord.take(k as int).contains(reg[j]) && st0[j]));
                            lemma_take_next(ord, k as int, reg[j]);
                            if j == i {
                                assert(reg[j] == ord[k as int]);
                            }
                        }
                    }
                },
                None => {
                    proof {
                        assert(ord.take(k + 1).drop_last() =~= ord.take(k as int));
                        assert(ord.take(k + 1).last() == ord[k as int]);
                        assert(!runs_under(reg, st0, ord[k as int])) by {
                            if runs_under(reg, st0, ord[k as int]) {
                                let j = choose|j: int| 0 <= j < reg.len() && #[trigger] reg[j] == ord[k as int] && st0[j];
                                assert(id_views(t.ids@)[j] == ord[k as int]);
                            }
                        }
                        assert forall|j: int| 0 <= j < st0.len() implies #[trigger] t.states()[j] == (!ord.take(k + 1).contains(reg[j]) && st0[j]) by {
                            assert(cur[j] == (!ord.take(k as int).contains(reg[j]) && st0[j]));
                            assert(reg[j] != ord[k as int]);
                            lemma_take_next(ord, k as int, reg[j]);
                        }
                    }
                },
            }
            k = k + 1;
        }
        assert(ord.take(ord.len() as int) == ord);
        assert(ord.take(0) =~= Seq::<Seq<char>>::empty());
        self.table = t;
        proof {
            self.lemma_states();
        }
    }

    /// Whether the pipeline registered under `id` runs; `false` for an unknown id.
    pub fn is_running(&self, id: &str) -> (r: bool)
        ensures
            r == exists|j: int| 0 <= j < self.registered().len() && #[trigger] self.registered()[j] == id@ && self.running()[j],
    {
        proof {
            use_type_invariant(self);
            self.lemma_states();
        }
        match self.table.find(id) {
            Some(i) => self.table.running_at(i),
            None => false,
        }
    }

    /// Whether any registered pipeline runs.
    pub fn is_any_running(&self) -> (r: bool)
        ensures
            r == self.running().contains(true),
    {
        proof {
            use_type_invariant(self);
            self.lemma_states();
        }
        let mut i: usize = 0;
        while i < self.table.pipelines.len()
            invariant
                i <= self.table.pipelines@.len(),
                self.table.valid(),
                self.running() == self.table.states(),
                forall|j: int| 0 <= j < i ==> !self.running()[j],
            decreases self.table.pipelines@.len() - i,
        {
            if self.table.running_at(i) {
                assert(self.running()[i as int]);
                return true;
            }
            i = i + 1;
        }
        false
    }

    /// How many registered pipelines run.
    pub fn running_count(&self) -> (r: usize)
        ensures
            r == count_true(self.running()),
            r <= self.registered().len(),
    {
        proof {
            use_type_invariant(self);
            self.lemma_states();
        }
        let mut n: usize = 0;
        let mut i: usize = 0;
        while i < self.table.pipelines.len()
            invariant
                i <= self.table.pipelines@.len(),
                self.table.valid(),
                self.running() == self.table.states(),
                self.running().len() == self.table.pipelines@.len(),
                n == count_true(self.running().take(i as int)),
                n <= i,
            decreases self.table.pipelines@.len() - i,
        {
            proof {
                assert(self.running().take(i + 1).drop_last() == self.running().take(i as int));
            }
            if self.table.running_at(i) {
                n = n + 1;
            }
            i = i + 1;
        }
        assert(self.running().take(i as int) == self.running());
        n
    }

    /// How many pipelines are registered; no id is registered twice.
    pub fn count(&self) -> (r: usize)
        ensures
            r == self.registered().len(),
            self.registered().no_duplicates(),
    {
        proof {
            use_type_invariant(self);
        }
        self.table.ids.len()
    }

    /// The registered ids, each once.
    pub fn pipeline_ids(&self) -> (r: Vec<&str>)
        ensures
            r@.map_values(|s: &str| s@) == self.registered(),
            self.registered().no_duplicates(),
    {
        proof {
            use_type_invariant(self);
        }
        let mut r: Vec<&str> = Vec::new();
        let mut i: usize = 0;
        while i < self.table.ids.len()
            invariant
                i <= self.table.ids@.len(),
                r@.len() == i,
                forall|j: int| 0 <= j < i ==> #[trigger] r@[j]@ == self.table.ids@[j]@,
            decreases self.table.ids@.len() - i,
        {
            r.push(self.table.ids[i].as_str());
            i = i + 1;
        }
        assert(r@.map_values(|s: &str| s@) =~= id_views(self.table.ids@));
        r
    }
}

impl Default for PipelineOrchestrator {
    fn default() -> (r: Self)
        ensures
            r.stops_made() == Seq::<Seq<char>>::empty(),
            r.registered() == Seq::<Seq<char>>::empty(),
            r.running() == Seq::<bool>::empty(),
            r.startup() == Seq::<Seq<char>>::empty(),
            r.shutdown() == Seq::<Seq<char>>::empty(),
    {
        Self::new()
    }
}


} // verus!
