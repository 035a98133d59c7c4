//! Which thread of the pool a core runs next.
//!
//! The pool is a queue.  A thread that is given a core leaves its place, and
//! a thread that is taken off a core joins at the back.  A core takes the
//! ready thread of the highest priority that may run on it, and among several
//! of that priority the one nearest the front: the one that has waited
//! longest.  That is what makes the rotation fair.

use vstd::prelude::*;
use crate::platform::ThreadId;
use crate::thread::{RunState, Thread};

verus! {

/// `t` as the scheduler sees it at time `now`: a sleeper whose deadline has
/// come is ready.
pub open spec fn promoted<F>(t: Thread<F>, now: usize) -> Thread<F> {
    if t.run_state matches RunState::WakeOn(deadline) && deadline <= now {
        Thread { run_state: RunState::Ready, ..t }
    } else {
        t
    }
}

/// The pool with every sleeper whose deadline has come made ready.
pub open spec fn promote_all<F>(pool: Seq<Thread<F>>, now: usize) -> Seq<Thread<F>> {
    Seq::new(pool.len(), |i: int| promoted(pool[i], now))
}

/// `t` may be given `core`: it is ready, and its affinity allows it.
pub open spec fn eligible<F>(t: Thread<F>, core: usize) -> bool {
    t.run_state is Ready && t.may_run_on(core)
}

/// Some thread among the first `n` of the pool may be given `core`.
pub open spec fn has_candidate_upto<F>(pool: Seq<Thread<F>>, core: usize, n: int) -> bool {
    exists|i: int| 0 <= i < n && i < pool.len() && eligible(#[trigger] pool[i], core)
}

/// Some thread of the pool may be given `core`.
pub open spec fn has_candidate<F>(pool: Seq<Thread<F>>, core: usize) -> bool {
    has_candidate_upto(pool, core, pool.len() as int)
}

/// Among the first `n` threads of the pool, the one at `c` is the one for
/// `core`: none that may run there has a higher priority, and none before it
/// has the same.
pub open spec fn is_choice_upto<F>(pool: Seq<Thread<F>>, core: usize, n: int, c: int) -> bool {
    &&& 0 <= c < n <= pool.len()
    &&& eligible(pool[c], core)
    &&& forall|j: int|
        0 <= j < n && eligible(#[trigger] pool[j], core) ==> pool[j].priority <= pool[c].priority
    &&& forall|j: int|
        0 <= j < c && eligible(#[trigger] pool[j], core) ==> pool[j].priority < pool[c].priority
}

/// The thread at `c` is the one that `core` takes from the pool.
pub open spec fn is_choice<F>(pool: Seq<Thread<F>>, core: usize, c: int) -> bool {
    is_choice_upto(pool, core, pool.len() as int, c)
}

/// The place of the thread that `core` takes from the pool, where there is one.
pub open spec fn choice<F>(pool: Seq<Thread<F>>, core: usize) -> int {
    choose|c: int| is_choice(pool, core, c)
}

/// No two places are both the choice.
pub proof fn lemma_choice_unique<F>(pool: Seq<Thread<F>>, core: usize, a: int, b: int)
    requires
        is_choice(pool, core, a),
        is_choice(pool, core, b),
    ensures
        a == b,
{
    if a < b {
        assert(eligible(pool[a], core));
    } else if b < a {
        assert(eligible(pool[b], core));
    }
}

/// A place that is the choice is the one that `choice` names.
pub proof fn lemma_choice_is<F>(pool: Seq<Thread<F>>, core: usize, c: int)
    requires
        is_choice(pool, core, c),
    ensures
        choice(pool, core) == c,
        has_candidate(pool, core),
{
    lemma_choice_unique(pool, core, c, choice(pool, core));
    assert(eligible(pool[c], core));
}

/// Where a thread may be given the core, there is a choice.
pub proof fn lemma_choice_exists<F>(pool: Seq<Thread<F>>, core: usize, n: int)
    requires
        0 <= n <= pool.len(),
        has_candidate_upto(pool, core, n),
    ensures
        exists|c: int| is_choice_upto(pool, core, n, c),
    decreases n,
{
    let last = n - 1;
    if has_candidate_upto(pool, core, last) {
        lemma_choice_exists(pool, core, last);
        let c = choose|c: int| is_choice_upto(pool, core, last, c);
        if eligible(pool[last], core) && pool[last].priority > pool[c].priority {
            assert(is_choice_upto(pool, core, n, last));
        } else {
            assert(is_choice_upto(pool, core, n, c));
        }
    } else {
        let w = choose|i: int| 0 <= i < n && i < pool.len() && eligible(#[trigger] pool[i], core);
        assert(w == last) by {
            if w < last {
                assert(has_candidate_upto(pool, core, last));
            }
        }
        assert forall|j: int| 0 <= j < last implies !eligible(#[trigger] pool[j], core) by {
            if eligible(pool[j], core) {
                assert(has_candidate_upto(pool, core, last));
            }
        }
        assert(is_choice_upto(pool, core, n, last));
    }
}

/// Where a thread may be given the core, `choice` names the one that is.
pub proof fn lemma_choice_of_candidates<F>(pool: Seq<Thread<F>>, core: usize)
    requires
        has_candidate(pool, core),
    ensures
        is_choice(pool, core, choice(pool, core)),
{
    lemma_choice_exists(pool, core, pool.len() as int);
    let c = choose|c: int| is_choice_upto(pool, core, pool.len() as int, c);
    assert(is_choice(pool, core, c));
}

/// Makes every sleeper whose deadline has come ready, and finds the thread
/// that `core` takes.
pub fn scan<F>(pool: &mut Vec<Thread<F>>, core: usize, now: usize) -> (chosen: Option<usize>)
    ensures
        final(pool)@ == promote_all(old(pool)@, now),
        chosen matches Some(c) ==> is_choice(final(pool)@, core, c as int),
        chosen is None ==> !has_candidate(final(pool)@, core),
{
    let ghost target = promote_all(pool@, now);
    let mut chosen: Option<usize> = None;
    let mut i: usize = 0;
    while i < pool.len()
        invariant
            i <= pool@.len(),
            pool@.len() == old(pool)@.len(),
            target == promote_all(old(pool)@, now),
            forall|j: int| 0 <= j < i ==> pool@[j] == target[j],
            forall|j: int| i <= j < pool@.len() ==> pool@[j] == old(pool)@[j],
            chosen matches Some(c) ==> is_choice_upto(target, core, i as int, c as int),
            chosen is None ==> !has_candidate_upto(target, core, i as int),
        decreases pool@.len() - i,
    {
        if let RunState::WakeOn(wake_on) = pool[i].run_state {
            if wake_on <= now {
                pool[i].run_state = RunState::Ready;
            }
        }
        assert(pool@[i as int] == target[i as int]);
        let cur_thread = &pool[i];
        let fits = match cur_thread.cpu_affinity {
            Some(affinity) => affinity == core,
            None => true,
        };
        if fits && cur_thread.is_ready() {
            match chosen {
                Some(index) => {
                    if cur_thread.priority > pool[index].priority {
                        chosen = Some(i);
                    }
                },
                None => {
                    chosen = Some(i);
                },
            }
        }
        i = i + 1;
    }
    assert(pool@ =~= target);
    chosen
}

/// Whether some thread of the pool may be given `core` at the time `now`.
pub fn has_ready<F>(pool: &Vec<Thread<F>>, core: usize, now: usize) -> (b: bool)
    ensures
        b == has_candidate(promote_all(pool@, now), core),
{
    let ghost target = promote_all(pool@, now);
    let mut i: usize = 0;
    while i < pool.len()
        invariant
            i <= pool@.len(),
            target == promote_all(pool@, now),
            !has_candidate_upto(target, core, i as int),
        decreases pool@.len() - i,
    {
        let t = &pool[i];
        let awake = match t.run_state {
            RunState::Ready => true,
            RunState::WakeOn(deadline) => deadline <= now,
            RunState::Blocked => false,
        };
        let fits = match t.cpu_affinity {
            Some(affinity) => affinity == core,
            None => true,
        };
        assert(eligible(target[i as int], core) == (awake && fits));
        if awake && fits {
            return true;
        }
        i = i + 1;
    }
    false
}

/// The first thread of the pool that is called `tid` is at `i`.
pub open spec fn is_first_with_id<F>(pool: Seq<Thread<F>>, tid: ThreadId, i: int) -> bool {
    &&& 0 <= i < pool.len()
    &&& pool[i].id == tid
    &&& forall|j: int| 0 <= j < i ==> (#[trigger] pool[j]).id != tid
}

/// No thread of the pool is called `tid`.
pub open spec fn has_no_thread<F>(pool: Seq<Thread<F>>, tid: ThreadId) -> bool {
    forall|j: int| 0 <= j < pool.len() ==> (#[trigger] pool[j]).id != tid
}

/// `t`, ready.
pub open spec fn readied<F>(t: Thread<F>) -> Thread<F> {
    Thread { run_state: RunState::Ready, ..t }
}

/// Makes the first thread of the pool that is called `tid` ready, and says
/// where it was; a pool without such a thread is left as it is.
pub fn wake_first<F>(pool: &mut Vec<Thread<F>>, tid: ThreadId) -> (found: Option<usize>)
    ensures
        found is None ==> has_no_thread(old(pool)@, tid) && final(pool)@ == old(pool)@,
        found matches Some(i) ==> is_first_with_id(old(pool)@, tid, i as int) && final(pool)@
            == old(pool)@.update(i as int, readied(old(pool)@[i as int])),
{
    let mut i: usize = 0;
    while i < pool.len()
        invariant
            i <= pool@.len(),
            pool@ == old(pool)@,
            forall|j: int| 0 <= j < i ==> (#[trigger] pool@[j]).id != tid,
        decreases pool@.len() - i,
    {
        if pool[i].id == tid {
            pool[i].run_state = RunState::Ready;
            assert(pool@ =~= old(pool)@.update(i as int, readied(old(pool)@[i as int])));
            return Some(i);
        }
        i = i + 1;
    }
    None
}

/// A thread that the first half of a switch has taken off its core and that
/// has not been put away yet: it is on no core and not in the pool, and its
/// stack is still in use.
#[derive(Copy, Clone, PartialEq, Eq, Structural, Debug)]
pub struct Leaving {
    pub id: ThreadId,
    /// Whether it has been woken by name since it left its core.
    pub woken: bool,
}

/// A thread called `tid` is on the list.
pub open spec fn is_leaving(list: Seq<Leaving>, tid: ThreadId) -> bool {
    exists|i: int| 0 <= i < list.len() && (#[trigger] list[i]).id == tid
}

/// The last entry of the list for a thread called `tid` is at `i`.
pub open spec fn is_last_leaving(list: Seq<Leaving>, tid: ThreadId, i: int) -> bool {
    &&& 0 <= i < list.len()
    &&& list[i].id == tid
    &&& forall|j: int| i < j < list.len() ==> (#[trigger] list[j]).id != tid
}

/// The list after the threads called `tid` have been woken.
pub open spec fn noted(list: Seq<Leaving>, tid: ThreadId) -> Seq<Leaving> {
    Seq::new(
        list.len(),
        |i: int|
            if list[i].id == tid {
                Leaving { id: tid, woken: true }
            } else {
                list[i]
            },
    )
}

/// The place of the last entry for a thread called `tid`, if there is one.
pub open spec fn last_leaving(list: Seq<Leaving>, tid: ThreadId) -> Option<int> {
    if is_leaving(list, tid) {
        Some(choose|i: int| is_last_leaving(list, tid, i))
    } else {
        None
    }
}

/// The list without the last entry for a thread called `tid`.
pub open spec fn without_leaving(list: Seq<Leaving>, tid: ThreadId) -> Seq<Leaving> {
    match last_leaving(list, tid) {
        Some(i) => list.remove(i),
        None => list,
    }
}

/// `t` as it is put away: ready, if it has been woken since it left its
/// core, and as it left otherwise.
pub open spec fn settled<F>(t: Thread<F>, list: Seq<Leaving>) -> Thread<F> {
    match last_leaving(list, t.id) {
        Some(i) => if list[i].woken {
            readied(t)
        } else {
            t
        },
        None => t,
    }
}

/// A place that is the last for a name is the one that `last_leaving` names.
pub proof fn lemma_last_leaving_is(list: Seq<Leaving>, tid: ThreadId, i: int)
    requires
        is_last_leaving(list, tid, i),
    ensures
        last_leaving(list, tid) == Some(i),
{
    assert(list[i].id == tid);
    let c = choose|c: int| is_last_leaving(list, tid, c);
    if c < i {
        assert(list[i].id != tid);
    } else if i < c {
        assert(list[c].id != tid);
    }
}

/// A thread that has just been entered as leaving, and not woken, is put
/// away as it left, and the list is as it was before.
pub proof fn lemma_enter_then_settle<F>(list: Seq<Leaving>, t: Thread<F>)
    ensures
        settled(t, list.push(Leaving { id: t.id, woken: false })) == t,
        without_leaving(list.push(Leaving { id: t.id, woken: false }), t.id) == list,
{
    let entered = list.push(Leaving { id: t.id, woken: false });
    assert(is_last_leaving(entered, t.id, list.len() as int));
    lemma_last_leaving_is(entered, t.id, list.len() as int);
    assert(entered.remove(list.len() as int) =~= list);
}

/// A wakeup between the two halves of a switch is not lost: a thread that
/// was entered as leaving, and was then woken by name while it was between
/// two cores, is ready when it is put away.
pub proof fn law_wakeup_between_halves_is_kept<F>(list: Seq<Leaving>, t: Thread<F>)
    ensures
        settled(t, noted(list.push(Leaving { id: t.id, woken: false }), t.id)).run_state is Ready,
        settled(t, noted(list.push(Leaving { id: t.id, woken: false }), t.id)) == readied(t),
{
    let marked = noted(list.push(Leaving { id: t.id, woken: false }), t.id);
    assert(marked[list.len() as int] == Leaving { id: t.id, woken: true });
    assert(is_last_leaving(marked, t.id, list.len() as int));
    lemma_last_leaving_is(marked, t.id, list.len() as int);
}

/// A wakeup of a thread that is not between two cores leaves the list as it
/// is.
pub proof fn lemma_noted_absent(list: Seq<Leaving>, tid: ThreadId)
    requires
        !is_leaving(list, tid),
    ensures
        noted(list, tid) == list,
{
    assert forall|i: int| 0 <= i < list.len() implies #[trigger] noted(list, tid)[i] == list[i] by {
        if list[i].id == tid {
            assert(is_leaving(list, tid));
        }
    }
    assert(noted(list, tid) =~= list);
}

/// Takes the last entry for a thread called `tid` off the list, and says
/// whether the thread has been woken; a list without such an entry is left
/// as it is.
pub fn take_leaving(list: &mut Vec<Leaving>, tid: ThreadId) -> (woken: Option<bool>)
    ensures
        final(list)@ == without_leaving(old(list)@, tid),
        woken == (match last_leaving(old(list)@, tid) {
            Some(i) => Some(old(list)@[i].woken),
            None => None,
        }),
{
    let mut i: usize = list.len();
    while i > 0
        invariant
            i <= list@.len(),
            list@ == old(list)@,
            forall|j: int| i <= j < list@.len() ==> (#[trigger] list@[j]).id != tid,
        decreases i,
    {
        i = i - 1;
        if list[i].id == tid {
            proof {
                assert(is_last_leaving(list@, tid, i as int));
                lemma_last_leaving_is(list@, tid, i as int);
            }
            let e = list.remove(i);
            return Some(e.woken);
        }
    }
    assert(!is_leaving(list@, tid)) by {
        if is_leaving(list@, tid) {
            let w = choose|w: int| 0 <= w < list@.len() && (#[trigger] list@[w]).id == tid;
            assert(list@[w].id != tid);
        }
    }
    None
}

/// Marks every entry for a thread called `tid` as woken.
pub fn note_woken(list: &mut Vec<Leaving>, tid: ThreadId)
    ensures
        final(list)@ == noted(old(list)@, tid),
{
    let mut i: usize = 0;
    while i < list.len()
        invariant
            i <= list@.len(),
            list@.len() == old(list)@.len(),
            forall|j: int| 0 <= j < i ==> (#[trigger] list@[j]) == noted(old(list)@, tid)[j],
            forall|j: int| i <= j < list@.len() ==> (#[trigger] list@[j]) == old(list)@[j],
        decreases list@.len() - i,
    {
        if list[i].id == tid {
            list[i].woken = true;
        }
        i = i + 1;
    }
    assert(list@ =~= noted(old(list)@, tid));
}

} // verus!
