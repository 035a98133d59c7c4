//! What holds of the scheduler in every state.

use vstd::prelude::*;
use crate::platform::ThreadId;
use crate::sched::select::{
    eligible, has_candidate, has_no_thread, is_choice, is_leaving, lemma_choice_is,
    lemma_choice_of_candidates, lemma_noted_absent, noted, promote_all, promoted, settled,
    Leaving,
};
use crate::sync::sema::{lemma_woken_pool, woken_pool};
use crate::sched::{pick, pool_wf, CoreView, Pick, DELTA_MILLIS};
use crate::thread::{RunState, Thread};

verus! {

/// The thread that a core takes next is ready, whatever the pool holds and
/// whatever the time is, as long as the core's resting fallback thread is.
pub proof fn law_next_thread_is_ready<F>(
    v: CoreView<F>,
    core: usize,
    now: usize,
    current: Option<Thread<F>>,
)
    requires
        v.can_take_next(core, now, current),
        v.idle matches Some(t) ==> t.run_state is Ready,
    ensures
        v.take_next(core, now, current).running matches Some(t) && t.run_state is Ready,
{
    let p = promote_all(v.pool, now);
    if has_candidate(p, core) {
        lemma_choice_of_candidates(p, core);
    }
}

/// The thread that a core takes from the pool may run there, and no ready
/// thread of the pool that may run there has a higher priority.
pub proof fn law_next_thread_has_highest_priority<F>(
    v: CoreView<F>,
    core: usize,
    now: usize,
    current: Option<Thread<F>>,
    j: int,
)
    requires
        0 <= j < v.pool.len(),
        eligible(promoted(v.pool[j], now), core),
    ensures
        v.take_next(core, now, current).running matches Some(t) && t.may_run_on(core)
            && t.priority >= v.pool[j].priority,
{
    let p = promote_all(v.pool, now);
    assert(eligible(p[j], core));
    lemma_choice_of_candidates(p, core);
}

/// A core with nothing else to run runs its own fallback thread.  Where no
/// thread of the pool is ready for the core, and the thread it was running
/// is gone, or not ready, or is the fallback thread itself, the thread that
/// runs next is the fallback thread of this core, which is the fallback of
/// no other.
pub proof fn law_idle_fallback<F>(
    v: CoreView<F>,
    core: usize,
    now: usize,
    current: Option<Thread<F>>,
)
    requires
        !has_candidate(promote_all(v.pool, now), core),
        current matches Some(c) ==> c.run_state !is Ready || c.is_idle_of(core),
        v.idle matches Some(t) ==> t.is_idle_of(core),
        v.can_take_next(core, now, current),
    ensures
        v.take_next(core, now, current).running matches Some(t) && t.is_idle_of(core) && (forall|
            other: usize,
        |
            other != core ==> !t.is_idle_of(other)),
        v.take_next(core, now, current).pool == promote_all(v.pool, now),
{
}

/// A sleeper stays as it is, and is passed over, while the clock is short of
/// its deadline; the first look at the pool at or after the deadline finds
/// it ready.
pub proof fn law_sleeper_wakes_at_deadline<F>(
    pool: Seq<Thread<F>>,
    i: int,
    deadline: usize,
    now: usize,
    core: usize,
)
    requires
        0 <= i < pool.len(),
        pool[i].run_state == RunState::WakeOn(deadline),
    ensures
        now < deadline ==> promote_all(pool, now)[i] == pool[i] && !eligible(
            promote_all(pool, now)[i],
            core,
        ) && !is_choice(promote_all(pool, now), core, i),
        now >= deadline ==> promote_all(pool, now)[i].run_state is Ready,
        now >= deadline && pool[i].may_run_on(core) ==> eligible(promote_all(pool, now)[i], core),
{
}

/// A thread that went to sleep for `millis` milliseconds is ready after
/// `ticks` ticks exactly when the ticks add up to `millis` at least.
pub proof fn law_sleep_lasts_its_time<F>(pool: Seq<Thread<F>>, i: int, start: usize, millis: u32, ticks: nat)
    requires
        0 <= i < pool.len(),
        start + millis <= usize::MAX,
        start + ticks * DELTA_MILLIS <= usize::MAX,
        pool[i].run_state == RunState::WakeOn((start + millis) as usize),
    ensures
        promote_all(pool, (start + ticks * DELTA_MILLIS) as usize)[i].run_state is Ready <==> ticks
            * DELTA_MILLIS >= millis,
{
}

/// The view after one yield at each of the given times, in turn.
pub open spec fn yield_n<F>(v: CoreView<F>, core: usize, times: Seq<usize>) -> CoreView<F>
    decreases times.len(),
{
    if times.len() == 0 {
        v
    } else {
        yield_n(v, core, times.drop_last()).yield_step(core, times.last())
    }
}

/// The running thread and every thread of the pool are ready, may run on
/// `core`, and have one priority, which is not the fallback's.
pub open spec fn equal_and_ready<F>(v: CoreView<F>, core: usize) -> bool {
    &&& v.running matches Some(r) && eligible(r, core) && r.priority > 0
    &&& forall|i: int|
        0 <= i < v.pool.len() ==> eligible(#[trigger] v.pool[i], core) && v.pool[i].priority
            == v.running.unwrap().priority
}

/// The running thread followed by the pool: the order in which the threads
/// get the core.
pub open spec fn rotation<F>(v: CoreView<F>) -> Seq<Thread<F>> {
    seq![v.running.unwrap()] + v.pool
}

/// The view in which the thread at `k` of the rotation `q` runs, the ones
/// after it wait in front, and the ones before it wait behind them.
pub open spec fn rotated<F>(q: Seq<Thread<F>>, k: int, idle: Option<Thread<F>>) -> CoreView<F> {
    CoreView {
        pool: q.subrange(k + 1, q.len() as int) + q.subrange(0, k),
        running: Some(q[k]),
        idle,
    }
}

/// One yield among equals moves the rotation on by one place.
proof fn lemma_yield_rotates<F>(q: Seq<Thread<F>>, k: int, idle: Option<Thread<F>>, core: usize, now: usize)
    requires
        0 <= k < q.len(),
        forall|i: int|
            0 <= i < q.len() ==> eligible(#[trigger] q[i], core) && q[i].priority == q[0].priority,
        q[0].priority > 0,
    ensures
        rotated(q, k, idle).yield_step(core, now) == rotated(
            q,
            if k + 1 < q.len() {
                k + 1
            } else {
                0
            },
            idle,
        ),
{
    let v = rotated(q, k, idle);
    let p = promote_all(v.pool, now);
    assert(p =~= v.pool);
    assert(q[k].priority == q[0].priority);
    if v.pool.len() == 0 {
        assert(!has_candidate(p, core));
        assert(q.len() == 1);
        assert(v.yield_step(core, now).pool =~= rotated(q, 0, idle).pool);
    } else {
        assert(eligible(p[0], core));
        assert(is_choice(p, core, 0)) by {
            assert forall|j: int| 0 <= j < p.len() implies (#[trigger] p[j]).priority
                <= p[0].priority by {
                if j < q.len() - (k + 1) {
                    assert(p[j] == q[k + 1 + j]);
                } else {
                    assert(p[j] == q[j - (q.len() - (k + 1))]);
                }
                if 0 < q.len() - (k + 1) {
                    assert(p[0] == q[k + 1]);
                } else {
                    assert(p[0] == q[0]);
                }
            }
        }
        lemma_choice_is(p, core, 0);
        assert(pick(p, core, true) == Pick::FromPool(0));
        let next = if k + 1 < q.len() {
            k + 1
        } else {
            0
        };
        assert(p[0] == q[next]);
        assert(p.remove(0).push(q[k]) =~= rotated(q, next, idle).pool);
    }
}

/// After `k` yields among equals the thread at `k` of the rotation runs,
/// for every `k` short of a full round.
proof fn lemma_yields_rotate<F>(v: CoreView<F>, core: usize, times: Seq<usize>)
    requires
        equal_and_ready(v, core),
        times.len() <= v.pool.len(),
    ensures
        yield_n(v, core, times) == rotated(rotation(v), times.len() as int, v.idle),
    decreases times.len(),
{
    let q = rotation(v);
    assert forall|i: int| 0 <= i < q.len() implies eligible(#[trigger] q[i], core) && q[i].priority
        == q[0].priority by {
        if i > 0 {
            assert(q[i] == v.pool[i - 1]);
        }
    }
    if times.len() == 0 {
        assert(rotated(q, 0, v.idle).pool =~= v.pool);
    } else {
        lemma_yields_rotate(v, core, times.drop_last());
        lemma_yield_rotates(q, times.len() - 1, v.idle, core, times.last());
    }
}

/// Round-robin among equals.  Let a core run one of `n` threads and let the
/// other `n - 1` be the pool, all of them ready, of one priority, and free
/// to run on the core.  Then in `n` yields in a row, at whatever times, each
/// of them gets the core once: the `k`-th yield gives it to the thread at
/// place `k - 1` of the pool, and the `n`-th gives it back to the one that
/// ran at the start, with the pool in its first order.
pub proof fn law_round_robin<F>(v: CoreView<F>, core: usize, times: Seq<usize>)
    requires
        equal_and_ready(v, core),
        times.len() == v.pool.len() + 1,
    ensures
        forall|k: int|
            1 <= k <= v.pool.len() ==> (#[trigger] yield_n(v, core, times.take(k))).running == Some(
                v.pool[k - 1],
            ),
        yield_n(v, core, times) == v,
{
    let q = rotation(v);
    assert forall|k: int| 1 <= k <= v.pool.len() implies (#[trigger] yield_n(
        v,
        core,
        times.take(k),
    )).running == Some(v.pool[k - 1]) by {
        lemma_yields_rotate(v, core, times.take(k));
        assert(q[k] == v.pool[k - 1]);
    }
    lemma_yields_rotate(v, core, times.drop_last());
    assert forall|i: int| 0 <= i < q.len() implies eligible(#[trigger] q[i], core) && q[i].priority
        == q[0].priority by {
        if i > 0 {
            assert(q[i] == v.pool[i - 1]);
        }
    }
    lemma_yield_rotates(q, v.pool.len() as int, v.idle, core, times.last());
    assert(rotated(q, 0, v.idle).pool =~= v.pool);
}

/// `t` is ready for `core` and has the priority `p`.
pub open spec fn competes<F>(t: Thread<F>, core: usize, p: usize) -> bool {
    eligible(t, core) && t.priority == p
}

/// At the time `now`, `t` is no match for a thread of priority `p` on
/// `core`: it is not ready for the core then, or its priority is lower.
pub open spec fn is_out_at<F>(t: Thread<F>, core: usize, p: usize, now: usize) -> bool {
    !(eligible(promoted(t, now), core) && t.priority >= p)
}

/// At none of the given times `t` is a match for a thread of priority `p` on
/// `core`.
pub open spec fn stays_out<F>(t: Thread<F>, core: usize, p: usize, times: Seq<usize>) -> bool {
    forall|k: int| 0 <= k < times.len() ==> is_out_at(t, core, p, #[trigger] times[k])
}

/// The threads of the pool that are ready for `core` with the priority `p`,
/// in the order of the pool.
pub open spec fn competitors<F>(pool: Seq<Thread<F>>, core: usize, p: usize) -> Seq<Thread<F>>
    decreases pool.len(),
{
    if pool.len() == 0 {
        Seq::empty()
    } else if competes(pool.last(), core, p) {
        competitors(pool.drop_last(), core, p).push(pool.last())
    } else {
        competitors(pool.drop_last(), core, p)
    }
}

/// At none of the given times a thread of the pool is ready for `core`.
pub open spec fn quiet<F>(pool: Seq<Thread<F>>, core: usize, times: Seq<usize>) -> bool {
    forall|i: int, k: int|
        0 <= i < pool.len() && 0 <= k < times.len() ==> !eligible(
            promoted(#[trigger] pool[i], #[trigger] times[k]),
            core,
        )
}

/// The core runs a thread that is ready for it, and every thread of the pool
/// either has the same priority and is ready for the core too, or is no
/// match for them at any of the given times.  Where the running thread is
/// alone at its priority, no thread of the pool is ready for the core at any
/// of the times: a thread that yields makes way for any ready thread, also
/// for one of lower priority.
pub open spec fn fair_window<F>(v: CoreView<F>, core: usize, times: Seq<usize>) -> bool {
    &&& v.running matches Some(r) && eligible(r, core) && r.priority > 0
    &&& forall|i: int|
        0 <= i < v.pool.len() ==> competes(#[trigger] v.pool[i], core, v.running.unwrap().priority)
            || stays_out(v.pool[i], core, v.running.unwrap().priority, times)
    &&& competitors(v.pool, core, v.running.unwrap().priority).len() == 0 ==> quiet(
        v.pool,
        core,
        times,
    )
}

proof fn lemma_competitors_push<F>(pool: Seq<Thread<F>>, x: Thread<F>, core: usize, p: usize)
    ensures
        competitors(pool.push(x), core, p) == (if competes(x, core, p) {
            competitors(pool, core, p).push(x)
        } else {
            competitors(pool, core, p)
        }),
{
    assert(pool.push(x).drop_last() =~= pool);
}

proof fn lemma_competitors_none<F>(pool: Seq<Thread<F>>, core: usize, p: usize)
    requires
        competitors(pool, core, p).len() == 0,
    ensures
        forall|i: int| 0 <= i < pool.len() ==> !competes(#[trigger] pool[i], core, p),
    decreases pool.len(),
{
    if pool.len() > 0 {
        lemma_competitors_none(pool.drop_last(), core, p);
        assert forall|i: int| 0 <= i < pool.len() implies !competes(#[trigger] pool[i], core, p) by {
            if i < pool.len() - 1 {
                assert(pool.drop_last()[i] == pool[i]);
            }
        }
    }
}

/// Looking at the pool at a time at which the others are out changes none
/// of the competitors, and the others are still out.
proof fn lemma_competitors_promote<F>(pool: Seq<Thread<F>>, core: usize, p: usize, now: usize)
    requires
        forall|i: int|
            0 <= i < pool.len() ==> competes(#[trigger] pool[i], core, p) || is_out_at(
                pool[i],
                core,
                p,
                now,
            ),
    ensures
        competitors(promote_all(pool, now), core, p) == competitors(pool, core, p),
        forall|i: int|
            0 <= i < pool.len() ==> competes(#[trigger] promote_all(pool, now)[i], core, p)
                == competes(pool[i], core, p),
    decreases pool.len(),
{
    let q = promote_all(pool, now);
    if pool.len() > 0 {
        assert forall|i: int| 0 <= i < pool.drop_last().len() implies competes(
            #[trigger] pool.drop_last()[i],
            core,
            p,
        ) || is_out_at(pool.drop_last()[i], core, p, now) by {
            assert(pool.drop_last()[i] == pool[i]);
        }
        lemma_competitors_promote(pool.drop_last(), core, p, now);
        assert(q.drop_last() =~= promote_all(pool.drop_last(), now));
        assert(q.last() == promoted(pool.last(), now));
        assert(competes(pool[pool.len() - 1], core, p) || is_out_at(
            pool[pool.len() - 1],
            core,
            p,
            now,
        ));
        assert forall|i: int| 0 <= i < pool.len() implies competes(#[trigger] q[i], core, p)
            == competes(pool[i], core, p) by {
            assert(competes(pool[i], core, p) || is_out_at(pool[i], core, p, now));
        }
    }
}

/// A pool with competitors has a first one; without it, the competitors are
/// the rest of them.
proof fn lemma_first_competitor<F>(pool: Seq<Thread<F>>, core: usize, p: usize) -> (i: int)
    requires
        competitors(pool, core, p).len() > 0,
    ensures
        0 <= i < pool.len(),
        competes(pool[i], core, p),
        forall|j: int| 0 <= j < i ==> !competes(#[trigger] pool[j], core, p),
        pool[i] == competitors(pool, core, p)[0],
        competitors(pool.remove(i), core, p) == competitors(pool, core, p).drop_first(),
    decreases pool.len(),
{
    let rest = pool.drop_last();
    let last = pool.last();
    if competitors(rest, core, p).len() == 0 {
        lemma_competitors_none(rest, core, p);
        let i = pool.len() - 1;
        assert forall|j: int| 0 <= j < i implies !competes(#[trigger] pool[j], core, p) by {
            assert(rest[j] == pool[j]);
        }
        assert(pool.remove(i) =~= rest);
        assert(competitors(pool, core, p).drop_first() =~= competitors(rest, core, p));
        i
    } else {
        let i = lemma_first_competitor(rest, core, p);
        assert forall|j: int| 0 <= j < i implies !competes(#[trigger] pool[j], core, p) by {
            assert(rest[j] == pool[j]);
        }
        assert(pool.remove(i) =~= rest.remove(i).push(last));
        lemma_competitors_push(rest.remove(i), last, core, p);
        if competes(last, core, p) {
            assert(competitors(pool, core, p).drop_first() =~= competitors(
                rest,
                core,
                p,
            ).drop_first().push(last));
        }
        i
    }
}

/// A thread that is out at every time of a window is still out at every
/// time of the window after the scheduler has looked at it at one of them.
proof fn lemma_stays_out_promoted<F>(t: Thread<F>, core: usize, p: usize, times: Seq<usize>, k: int)
    requires
        0 <= k < times.len(),
        stays_out(t, core, p, times),
    ensures
        stays_out(promoted(t, times[k]), core, p, times),
{
    assert(is_out_at(t, core, p, times[k]));
    assert forall|j: int| 0 <= j < times.len() implies is_out_at(
        promoted(t, times[k]),
        core,
        p,
        #[trigger] times[j],
    ) by {
        assert(is_out_at(t, core, p, times[j]));
    }
}

/// One yield in a fair window: the first competitor of the pool gets the
/// core, and the thread that had it joins the competitors at the back.
proof fn lemma_fair_step<F>(v: CoreView<F>, core: usize, times: Seq<usize>, k: int)
    requires
        fair_window(v, core, times),
        0 <= k < times.len(),
    ensures
        fair_window(v.yield_step(core, times[k]), core, times),
        v.yield_step(core, times[k]).running.unwrap().priority == v.running.unwrap().priority,
        competitors(v.pool, core, v.running.unwrap().priority).len() == 0 ==> v.yield_step(
            core,
            times[k],
        ).running == v.running && competitors(
            v.yield_step(core, times[k]).pool,
            core,
            v.running.unwrap().priority,
        ).len() == 0,
        competitors(v.pool, core, v.running.unwrap().priority).len() > 0 ==> v.yield_step(
            core,
            times[k],
        ).running == Some(competitors(v.pool, core, v.running.unwrap().priority)[0])
            && competitors(v.yield_step(core, times[k]).pool, core, v.running.unwrap().priority)
            == competitors(v.pool, core, v.running.unwrap().priority).drop_first().push(
            v.running.unwrap(),
        ),
{
    let now = times[k];
    let r = v.running.unwrap();
    let p = r.priority;
    let q = promote_all(v.pool, now);
    let c = competitors(v.pool, core, p);
    assert forall|i: int| 0 <= i < v.pool.len() implies competes(#[trigger] v.pool[i], core, p)
        || is_out_at(v.pool[i], core, p, now) by {
        if !competes(v.pool[i], core, p) {
            assert(stays_out(v.pool[i], core, p, times));
        }
    }
    lemma_competitors_promote(v.pool, core, p, now);
    assert forall|i: int| 0 <= i < q.len() implies competes(#[trigger] q[i], core, p) || stays_out(
        q[i],
        core,
        p,
        times,
    ) by {
        assert(competes(q[i], core, p) == competes(v.pool[i], core, p));
        if !competes(v.pool[i], core, p) {
            assert(stays_out(v.pool[i], core, p, times));
            lemma_stays_out_promoted(v.pool[i], core, p, times, k);
        }
    }
    assert forall|i: int| 0 <= i < q.len() && eligible(#[trigger] q[i], core) implies q[i].priority
        <= p && (q[i].priority == p ==> competes(q[i], core, p)) by {
        assert(competes(q[i], core, p) == competes(v.pool[i], core, p));
        if !competes(v.pool[i], core, p) {
            assert(is_out_at(v.pool[i], core, p, now));
        }
    }
    if c.len() == 0 {
        assert(!has_candidate(q, core)) by {
            assert forall|i: int| 0 <= i < q.len() implies !eligible(#[trigger] q[i], core) by {
                assert(!eligible(promoted(v.pool[i], times[k]), core));
            }
        }
        assert forall|i: int, j: int| 0 <= i < q.len() && 0 <= j < times.len() implies !eligible(
            promoted(#[trigger] q[i], #[trigger] times[j]),
            core,
        ) by {
            assert(!eligible(promoted(v.pool[i], times[k]), core));
            assert(!eligible(promoted(v.pool[i], times[j]), core));
        }
    } else {
        let i = lemma_first_competitor(q, core, p);
        assert(is_choice(q, core, i));
        lemma_choice_is(q, core, i);
        lemma_competitors_push(q.remove(i), r, core, p);
        let next = v.yield_step(core, now);
        assert(next.pool == q.remove(i).push(r));
        assert forall|j: int| 0 <= j < next.pool.len() implies competes(
            #[trigger] next.pool[j],
            core,
            p,
        ) || stays_out(next.pool[j], core, p, times) by {
            if j < i {
                assert(next.pool[j] == q[j]);
            } else if j < q.len() - 1 {
                assert(next.pool[j] == q[j + 1]);
            }
        }
    }
}

/// The running thread followed by the competitors of the pool: the order in
/// which they get the core.
pub open spec fn turn_order<F>(v: CoreView<F>, core: usize) -> Seq<Thread<F>> {
    seq![v.running.unwrap()] + competitors(v.pool, core, v.running.unwrap().priority)
}

/// After `k` yields in a fair window the thread at `k` of the turn order
/// runs, for every `k` short of a full round.
proof fn lemma_fair_yields<F>(v: CoreView<F>, core: usize, times: Seq<usize>, k: int)
    requires
        fair_window(v, core, times),
        0 <= k <= times.len(),
        k < turn_order(v, core).len(),
    ensures
        fair_window(yield_n(v, core, times.take(k)), core, times),
        yield_n(v, core, times.take(k)).running == Some(turn_order(v, core)[k]),
        turn_order(v, core)[k].priority == v.running.unwrap().priority,
        competitors(yield_n(v, core, times.take(k)).pool, core, v.running.unwrap().priority)
            == turn_order(v, core).subrange(k + 1, turn_order(v, core).len() as int) + turn_order(
            v,
            core,
        ).subrange(0, k),
    decreases k,
{
    let q = turn_order(v, core);
    let p = v.running.unwrap().priority;
    if k == 0 {
        assert(times.take(0).len() == 0);
        assert(q.subrange(1, q.len() as int) + q.subrange(0, 0) =~= competitors(v.pool, core, p));
    } else {
        lemma_fair_yields(v, core, times, k - 1);
        let before = yield_n(v, core, times.take(k - 1));
        assert(times.take(k).drop_last() =~= times.take(k - 1));
        assert(times.take(k).last() == times[k - 1]);
        assert(yield_n(v, core, times.take(k)) == before.yield_step(core, times[k - 1]));
        lemma_fair_step(before, core, times, k - 1);
        let c = q.subrange(k, q.len() as int) + q.subrange(0, k - 1);
        assert(c[0] == q[k]);
        assert(c.drop_first().push(q[k - 1]) =~= q.subrange(k + 1, q.len() as int) + q.subrange(
            0,
            k,
        ));
    }
}

/// Round-robin among equals, with others about.  Let a core run a thread
/// that is ready for it, let `n - 1` threads of the pool be ready for the
/// core at the same priority, and let the other threads of the pool be no
/// match for them during `n` yields in a row: not ready for the core, or of
/// lower priority.  Then each of the `n` gets the core once in those yields:
/// the `k`-th goes to the `k`-th of the equals in the pool, and the `n`-th
/// back to the thread that ran at the start.
pub proof fn law_round_robin_among_others<F>(v: CoreView<F>, core: usize, times: Seq<usize>)
    requires
        fair_window(v, core, times),
        times.len() == competitors(v.pool, core, v.running.unwrap().priority).len() + 1,
    ensures
        forall|k: int|
            1 <= k < times.len() ==> (#[trigger] yield_n(v, core, times.take(k))).running == Some(
                competitors(v.pool, core, v.running.unwrap().priority)[k - 1],
            ),
        yield_n(v, core, times).running == v.running,
{
    let q = turn_order(v, core);
    let n = times.len() as int;
    assert forall|k: int| 1 <= k < n implies (#[trigger] yield_n(v, core, times.take(k))).running
        == Some(competitors(v.pool, core, v.running.unwrap().priority)[k - 1]) by {
        lemma_fair_yields(v, core, times, k);
    }
    lemma_fair_yields(v, core, times, n - 1);
    let before = yield_n(v, core, times.take(n - 1));
    assert(times.drop_last() =~= times.take(n - 1));
    assert(yield_n(v, core, times) == before.yield_step(core, times[n - 1]));
    lemma_fair_step(before, core, times, n - 1);
    let c = q.subrange(n, q.len() as int) + q.subrange(0, n - 1);
    if n > 1 {
        assert(c[0] == q[0]);
    }
}

/// No thread that the core can get at is called `x`: none in the pool, not
/// the one that runs, not the fallback thread at rest.
pub open spec fn is_gone<F>(v: CoreView<F>, x: ThreadId) -> bool {
    &&& has_no_thread(v.pool, x)
    &&& v.running matches Some(r) ==> r.id != x
    &&& v.idle matches Some(t) ==> t.id != x
}

/// The next thread of a core is one of the pool or its fallback thread, and
/// what is left in the pool was there before: taking the next thread brings
/// in no name.
proof fn lemma_take_next_keeps_gone<F>(
    v: CoreView<F>,
    core: usize,
    now: usize,
    current: Option<Thread<F>>,
    x: ThreadId,
)
    requires
        has_no_thread(v.pool, x),
        v.idle matches Some(t) ==> t.id != x,
        current matches Some(c) ==> c.id != x,
        v.can_take_next(core, now, current),
    ensures
        is_gone(v.take_next(core, now, current), x),
{
    let p = promote_all(v.pool, now);
    assert forall|j: int| 0 <= j < p.len() implies (#[trigger] p[j]).id != x by {
        assert(v.pool[j].id != x);
    }
    if has_candidate(p, core) {
        lemma_choice_of_candidates(p, core);
        let c = crate::sched::select::choice(p, core);
        let rest = p.remove(c);
        assert forall|j: int| 0 <= j < rest.len() implies (#[trigger] rest[j]).id != x by {
            if j < c {
                assert(rest[j] == p[j]);
            } else {
                assert(rest[j] == p[j + 1]);
            }
        }
    }
}

/// Putting a thread of another name away brings in no name.
proof fn lemma_put_away_keeps_gone<F>(v: CoreView<F>, t: Thread<F>, x: ThreadId)
    requires
        is_gone(v, x),
        t.id != x,
    ensures
        is_gone(v.put_away(t), x),
{
    if t.priority != 0 {
        let after = v.pool.push(t);
        assert forall|j: int| 0 <= j < after.len() implies (#[trigger] after[j]).id != x by {
            if j < v.pool.len() {
                assert(after[j] == v.pool[j]);
            }
        }
    }
}

/// A thread that ends is gone.  Let the running thread be the only one of
/// its name.  When it has ended, no thread that the core can get at has that
/// name: the pool has none, the core runs another, and the name is on the
/// list of ended threads only.
pub proof fn law_exit_removes<F>(v: CoreView<F>, core: usize, now: usize)
    requires
        v.running is Some,
        has_no_thread(v.pool, v.running.unwrap().id),
        v.idle matches Some(t) ==> t.id != v.running.unwrap().id,
        v.can_take_next(core, now, None),
    ensures
        is_gone(v.exit_step(core, now), v.running.unwrap().id),
{
    lemma_take_next_keeps_gone(v, core, now, None, v.running.unwrap().id);
}

/// A thread that is gone stays gone.  Whatever the core does next, the name
/// does not come back: not by a yield, by waiting or sleeping, by the end of
/// another thread, by a wakeup of any name, or by a new thread with a new
/// name.  To wake the name itself changes nothing: not in the pool, and not
/// among the threads between two cores, unless one of them has the name.
pub proof fn law_gone_stays_gone<F>(
    v: CoreView<F>,
    core: usize,
    now: usize,
    x: ThreadId,
    state: RunState,
    tid: ThreadId,
    spawned: Thread<F>,
    list: Seq<Leaving>,
)
    requires
        is_gone(v, x),
        spawned.id != x,
    ensures
        v.running is Some && v.can_take_next(core, now, v.running) ==> is_gone(
            v.yield_step(core, now),
            x,
        ),
        v.running is Some ==> is_gone(v.with_run_state(state), x),
        v.can_take_next(core, now, None) ==> is_gone(v.exit_step(core, now), x),
        is_gone(CoreView { pool: woken_pool(v.pool, Some(tid)), ..v }, x),
        woken_pool(v.pool, Some(x)) == v.pool,
        is_gone(CoreView { pool: v.pool.push(spawned), ..v }, x),
        is_gone(CoreView { pool: promote_all(v.pool, now), ..v }, x),
        is_gone(v.put_away(settled(spawned, list)), x),
        !is_leaving(list, x) ==> noted(list, x) == list,
{
    if !is_leaving(list, x) {
        lemma_noted_absent(list, x);
    }
    if v.running is Some && v.can_take_next(core, now, v.running) {
        lemma_take_next_keeps_gone(v, core, now, v.running, x);
        let next = v.take_next(core, now, v.running);
        if !v.stays(core, now) {
            lemma_put_away_keeps_gone(next, v.running.unwrap(), x);
        }
    }
    if v.can_take_next(core, now, None) {
        lemma_take_next_keeps_gone(v, core, now, None, x);
    }
    let woken = woken_pool(v.pool, Some(tid));
    assert forall|j: int| 0 <= j < woken.len() implies (#[trigger] woken[j]).id != x by {
        lemma_woken_pool(v.pool, tid);
        assert(v.pool[j].id != x);
    }
    let more = v.pool.push(spawned);
    assert forall|j: int| 0 <= j < more.len() implies (#[trigger] more[j]).id != x by {
        if j < v.pool.len() {
            assert(more[j] == v.pool[j]);
        }
    }
    let p = promote_all(v.pool, now);
    assert forall|j: int| 0 <= j < p.len() implies (#[trigger] p[j]).id != x by {
        assert(v.pool[j].id != x);
    }
    lemma_put_away_keeps_gone(v, settled(spawned, list), x);
}

} // verus!
