//! The interrupt dispatcher: the sources that can raise interrupts, and for
//! every interrupt number the driver that handles it.
//!
//! Finding out what is pending means asking the sources, and handling an
//! interrupt means running a driver.  The dispatcher does the first and
//! decides the second: it hands back the drivers to run, in order, and the
//! caller runs them.

use vstd::prelude::*;
use crate::arch::arm::DriverHandle;
use crate::sync::CpuMutex;

verus! {

/// A device that raises the interrupts from `range().0` up to, and not
/// including, `range().1`.
pub trait InterruptSource {
    fn range(&self) -> (usize, usize);

    fn enable(&self, interrupt: usize);

    fn disable(&self, interrupt: usize);

    fn is_interrupted(&self, interrupt: usize) -> bool;
}

/// What the dispatcher knows of one interrupt number.
#[derive(Clone, Copy, Debug)]
pub struct InterruptState {
    pub driver_handle: Option<DriverHandle>,
    pub is_enabled: bool,
}

impl InterruptState {
    pub fn new() -> (s: Self)
        ensures
            s.driver_handle is None,
            !s.is_enabled,
    {
        InterruptState { driver_handle: None, is_enabled: false }
    }
}

/// A pending interrupt that no driver has registered for.
#[derive(Clone, Copy, PartialEq, Eq, Structural, Debug)]
pub struct UnexpectedInterrupt(pub usize);

/// A source, with the numbers that it said it answers for when it was
/// added.
pub struct SourceEntry<S> {
    pub source: S,
    pub start: usize,
    pub end: usize,
}

pub struct PIC<S: InterruptSource> {
    sources: CpuMutex<Vec<SourceEntry<S>>>,
    callbacks: CpuMutex<Vec<InterruptState>>,
}

/// The record that a driver has registered for a number.
pub struct InterruptAttachment {
    num: usize,
}

/// The table after it has been made to reach up to `end`: new numbers have
/// no driver and are off.
pub open spec fn grown(table: Seq<InterruptState>, end: usize) -> Seq<InterruptState> {
    if table.len() >= end {
        table
    } else {
        table + Seq::new(
            (end - table.len()) as nat,
            |i: int| InterruptState { driver_handle: None, is_enabled: false },
        )
    }
}

/// The table after every number that has a driver has been switched on.
pub open spec fn with_registered_enabled(table: Seq<InterruptState>) -> Seq<InterruptState> {
    Seq::new(
        table.len(),
        |i: int|
            if table[i].driver_handle is Some {
                InterruptState { is_enabled: true, ..table[i] }
            } else {
                table[i]
            },
    )
}

/// `interrupt` is one of the numbers of `source`.
pub open spec fn answers_for<S>(source: SourceEntry<S>, interrupt: usize) -> bool {
    source.start <= interrupt < source.end
}

/// What the source promises of `is_interrupted` allows `answer` as its
/// answer about `interrupt`.  An answer that the source has given is one
/// that its promise allows; more than that cannot be said of a device.
pub open spec fn admits_answer<S: InterruptSource>(
    source: SourceEntry<S>,
    interrupt: usize,
    answer: bool,
) -> bool {
    call_ensures(S::is_interrupted, (&source.source, interrupt), answer)
}

/// How many numbers the source answers for.
pub open spec fn range_len<S>(source: SourceEntry<S>) -> nat {
    if source.end >= source.start {
        (source.end - source.start) as nat
    } else {
        0
    }
}

/// `answers` can be the answers of the source about its numbers, one after
/// the other from the lowest.
pub open spec fn are_answers_of<S: InterruptSource>(source: SourceEntry<S>, answers: Seq<bool>) -> bool {
    &&& answers.len() == range_len(source)
    &&& forall|j: int|
        0 <= j < answers.len() ==> admits_answer(
            source,
            (source.start + j) as usize,
            #[trigger] answers[j],
        )
}

/// The numbers of the source about which the answer was that they are
/// pending, in rising order.
pub open spec fn pending_of<S>(source: SourceEntry<S>, answers: Seq<bool>) -> Seq<usize>
    decreases answers.len(),
{
    if answers.len() == 0 {
        Seq::empty()
    } else if answers.last() {
        pending_of(source, answers.drop_last()).push((source.start + answers.len() - 1) as usize)
    } else {
        pending_of(source, answers.drop_last())
    }
}

/// `answers` can be the answers of the sources, source by source in the
/// order in which they were added.
pub open spec fn are_all_answers<S: InterruptSource>(
    sources: Seq<SourceEntry<S>>,
    answers: Seq<Seq<bool>>,
) -> bool {
    &&& answers.len() == sources.len()
    &&& forall|k: int| 0 <= k < sources.len() ==> are_answers_of(sources[k], #[trigger] answers[k])
}

/// The pending numbers: those of the first source in rising order, then
/// those of the second, and so on.
pub open spec fn all_pending<S>(sources: Seq<SourceEntry<S>>, answers: Seq<Seq<bool>>) -> Seq<usize>
    decreases sources.len(),
{
    if sources.len() == 0 || answers.len() == 0 {
        Seq::empty()
    } else {
        all_pending(sources.drop_last(), answers.drop_last()) + pending_of(
            sources.last(),
            answers.last(),
        )
    }
}

/// The pending numbers of a source are those with the answer that they are.
pub proof fn lemma_pending_of<S>(source: SourceEntry<S>, answers: Seq<bool>)
    requires
        source.start + answers.len() <= usize::MAX + 1,
    ensures
        forall|j: int|
            0 <= j < answers.len() && #[trigger] answers[j] ==> pending_of(source, answers).contains(
                (source.start + j) as usize,
            ),
        forall|i: int|
            0 <= i < pending_of(source, answers).len() ==> ({
                let n = #[trigger] pending_of(source, answers)[i];
                source.start <= n < source.start + answers.len() && answers[n - source.start]
            }),
    decreases answers.len(),
{
    if answers.len() > 0 {
        let rest = answers.drop_last();
        lemma_pending_of(source, rest);
        let all = pending_of(source, answers);
        let before = pending_of(source, rest);
        assert forall|j: int| 0 <= j < answers.len() && #[trigger] answers[j] implies all.contains(
            (source.start + j) as usize,
        ) by {
            if j < answers.len() - 1 {
                assert(rest[j] == answers[j]);
                let w = choose|w: int|
                    0 <= w < before.len() && before[w] == (source.start + j) as usize;
                assert(all[w] == before[w]);
            } else {
                assert(all[all.len() - 1] == (source.start + j) as usize);
            }
        }
        assert forall|i: int| 0 <= i < all.len() implies {
            let n = #[trigger] all[i];
            source.start <= n < source.start + answers.len() && answers[n - source.start]
        } by {
            if i < before.len() {
                assert(all[i] == before[i]);
                assert(rest[before[i] - source.start] == answers[before[i] - source.start]);
            }
        }
    }
}

/// Every number of every source is among the pending numbers, unless the
/// answer about it was that it is not pending; and every pending number is
/// a number of a source with the answer that it is.
pub proof fn lemma_all_pending<S: InterruptSource>(sources: Seq<SourceEntry<S>>, answers: Seq<Seq<bool>>)
    requires
        are_all_answers(sources, answers),
    ensures
        forall|k: int, n: usize|
            0 <= k < sources.len() && #[trigger] answers_for(sources[k], n) ==> all_pending(
                sources,
                answers,
            ).contains(n) || admits_answer(sources[k], n, false),
        forall|i: int|
            0 <= i < all_pending(sources, answers).len() ==> exists|k: int|
                0 <= k < sources.len() && answers_for(
                    #[trigger] sources[k],
                    all_pending(sources, answers)[i],
                ) && admits_answer(sources[k], #[trigger] all_pending(sources, answers)[i], true),
    decreases sources.len(),
{
    if sources.len() > 0 {
        let front = sources.drop_last();
        let front_answers = answers.drop_last();
        let last = sources.last();
        let last_answers = answers.last();
        assert(are_all_answers(front, front_answers)) by {
            assert forall|k: int| 0 <= k < front.len() implies are_answers_of(
                front[k],
                #[trigger] front_answers[k],
            ) by {
                assert(are_answers_of(sources[k], answers[k]));
            }
        }
        lemma_all_pending(front, front_answers);
        assert(are_answers_of(sources[sources.len() - 1], answers[sources.len() - 1]));
        lemma_pending_of(last, last_answers);
        let head = all_pending(front, front_answers);
        let tail = pending_of(last, last_answers);
        let all = all_pending(sources, answers);
        assert(all == head + tail);
        assert forall|k: int, n: usize|
            0 <= k < sources.len() && #[trigger] answers_for(sources[k], n) implies all.contains(n)
            || admits_answer(sources[k], n, false) by {
            if k < front.len() {
                assert(front[k] == sources[k]);
                assert(answers_for(front[k], n));
                if head.contains(n) {
                    let w = choose|w: int| 0 <= w < head.len() && head[w] == n;
                    assert(all[w] == n);
                }
            } else {
                let j = n - last.start;
                assert(admits_answer(last, (last.start + j) as usize, last_answers[j]));
                if last_answers[j] {
                    assert(tail.contains((last.start + j) as usize));
                    let w = choose|w: int| 0 <= w < tail.len() && tail[w] == n;
                    assert(all[head.len() + w] == n);
                }
            }
        }
        assert forall|i: int| 0 <= i < all.len() implies exists|k: int|
            0 <= k < sources.len() && answers_for(#[trigger] sources[k], all[i]) && admits_answer(
                sources[k],
                #[trigger] all[i],
                true,
            ) by {
            if i < head.len() {
                assert(all[i] == head[i]);
                let k = choose|k: int|
                    0 <= k < front.len() && answers_for(#[trigger] front[k], head[i])
                        && admits_answer(front[k], head[i], true);
                assert(front[k] == sources[k]);
                assert(answers_for(sources[k], all[i]) && admits_answer(sources[k], all[i], true));
            } else {
                let n = tail[i - head.len()];
                assert(all[i] == n);
                let j = n - last.start;
                assert(admits_answer(last, (last.start + j) as usize, last_answers[j]));
                assert(answers_for(sources[sources.len() - 1], all[i]) && admits_answer(
                    sources[sources.len() - 1],
                    all[i],
                    true,
                ));
            }
        }
    }
}

/// `interrupt` is one of the numbers of the source at `k`, and of no source
/// before it.
pub open spec fn is_source_of<S>(sources: Seq<SourceEntry<S>>, interrupt: usize, k: int) -> bool {
    &&& 0 <= k < sources.len()
    &&& answers_for(sources[k], interrupt)
    &&& forall|j: int| 0 <= j < k ==> !answers_for(#[trigger] sources[j], interrupt)
}

/// A number has one source at most.
pub proof fn lemma_source_unique<S>(sources: Seq<SourceEntry<S>>, interrupt: usize, a: int, b: int)
    requires
        is_source_of(sources, interrupt, a),
        is_source_of(sources, interrupt, b),
    ensures
        a == b,
{
    if a < b {
        assert(answers_for(sources[a], interrupt));
    } else if b < a {
        assert(answers_for(sources[b], interrupt));
    }
}

/// Every pending number has a driver.
pub open spec fn all_handled(table: Seq<InterruptState>, pending: Seq<usize>) -> bool {
    forall|i: int|
        0 <= i < pending.len() ==> (#[trigger] pending[i]) < table.len()
            && table[pending[i] as int].driver_handle is Some
}

/// The place in `pending` of the first number without a driver.
pub open spec fn is_first_unhandled(table: Seq<InterruptState>, pending: Seq<usize>, i: int) -> bool {
    &&& 0 <= i < pending.len()
    &&& !(pending[i] < table.len() && table[pending[i] as int].driver_handle is Some)
    &&& all_handled(table, pending.take(i))
}

/// What becomes of a list of pending numbers: the drivers to run, in the
/// order of the list, or the first number that no driver has registered for.
pub open spec fn is_dispatch(
    table: Seq<InterruptState>,
    pending: Seq<usize>,
    r: Result<Vec<DriverHandle>, UnexpectedInterrupt>,
) -> bool {
    match r {
        Ok(handles) => {
            &&& all_handled(table, pending)
            &&& handles@.len() == pending.len()
            &&& forall|i: int|
                0 <= i < pending.len() ==> Some(#[trigger] handles@[i])
                    == table[pending[i] as int].driver_handle
        },
        Err(e) => exists|i: int| is_first_unhandled(table, pending, i) && pending[i] == e.0,
    }
}

/// Finds the drivers for the pending numbers.
pub fn dispatch(table: &Vec<InterruptState>, pending: &Vec<usize>) -> (r: Result<
    Vec<DriverHandle>,
    UnexpectedInterrupt,
>)
    ensures
        is_dispatch(table@, pending@, r),
        r is Ok <==> all_handled(table@, pending@),
{
    let mut handles: Vec<DriverHandle> = Vec::new();
    let mut i: usize = 0;
    while i < pending.len()
        invariant
            i <= pending@.len(),
            handles@.len() == i,
            all_handled(table@, pending@.take(i as int)),
            forall|j: int|
                0 <= j < i ==> Some(#[trigger] handles@[j])
                    == table@[pending@[j] as int].driver_handle,
        decreases pending@.len() - i,
    {
        let intr = pending[i];
        let handle = if intr < table.len() {
            table[intr].driver_handle
        } else {
            None
        };
        match handle {
            Some(cb) => {
                handles.push(cb);
                assert forall|j: int| 0 <= j < i + 1 implies (#[trigger] pending@.take(i + 1)[j])
                    < table@.len() && table@[pending@.take(i + 1)[j] as int].driver_handle
                    is Some by {
                    if j < i {
                        assert(pending@.take(i as int)[j] == pending@[j]);
                    }
                }
            },
            None => {
                assert(is_first_unhandled(table@, pending@, i as int));
                assert(!all_handled(table@, pending@)) by {
                    if all_handled(table@, pending@) {
                        assert(pending@[i as int] < table@.len());
                    }
                }
                return Err(UnexpectedInterrupt(intr));
            },
        }
        i = i + 1;
    }
    assert(pending@.take(i as int) =~= pending@);
    Ok(handles)
}

impl<S: InterruptSource> PIC<S> {
    /// The sources, in the order in which they were added.
    pub closed spec fn sources(&self) -> Seq<SourceEntry<S>> {
        self.sources.value()@
    }

    /// The table from interrupt number to driver.
    pub closed spec fn callbacks(&self) -> Seq<InterruptState> {
        self.callbacks.value()@
    }

    /// Between two operations nobody holds the dispatcher's locks, and the
    /// table reaches past the numbers of every source.
    pub closed spec fn wf(&self) -> bool {
        &&& self.sources.is_free()
        &&& self.callbacks.is_free()
        &&& forall|k: int|
            0 <= k < self.sources().len() ==> (#[trigger] self.sources()[k]).end
                <= self.callbacks().len()
    }

    pub fn new() -> (p: PIC<S>)
        ensures
            p.wf(),
            p.sources().len() == 0,
            p.callbacks().len() == 0,
    {
        PIC { sources: CpuMutex::new(Vec::new()), callbacks: CpuMutex::new(Vec::new()) }
    }

    /// Adds a source.  It is asked once for the numbers that it answers
    /// for, and the table grows to take them in.
    pub fn add_source(&mut self, curcpu: usize, is: S)
        requires
            old(self).wf(),
        ensures
            final(self).wf(),
            final(self).sources().len() == old(self).sources().len() + 1,
            final(self).sources().drop_last() == old(self).sources(),
            final(self).sources().last().source == is,
            call_ensures(
                S::range,
                (&is,),
                (final(self).sources().last().start, final(self).sources().last().end),
            ),
            final(self).callbacks() == grown(
                old(self).callbacks(),
                final(self).sources().last().end,
            ),
    {
        let (start, end) = is.range();
        self.add_source_with_range(curcpu, is, start, end);
    }

    /// Adds a source that answers for the numbers from `start` up to, and
    /// not including, `end`.  The table grows to take them in.
    pub fn add_source_with_range(&mut self, curcpu: usize, is: S, start: usize, end: usize)
        requires
            old(self).wf(),
        ensures
            final(self).wf(),
            final(self).sources() == old(self).sources().push(SourceEntry { source: is, start, end }),
            final(self).callbacks() == grown(old(self).callbacks(), end),
    {
        {
            let mut v = self.callbacks.lock(curcpu).unwrap();
            let table = v.deref_mut();
            while table.len() < end
                invariant
                    old(self).callbacks().len() <= table@.len(),
                    table@.len() <= end || table@ == old(self).callbacks(),
                    table@.take(old(self).callbacks().len() as int) == old(self).callbacks(),
                    forall|i: int|
                        old(self).callbacks().len() <= i < table@.len() ==> (#[trigger] table@[i])
                            == (InterruptState { driver_handle: None, is_enabled: false }),
                decreases end - table@.len(),
            {
                table.push(InterruptState::new());
            }
            assert(table@ =~= grown(old(self).callbacks(), end));
            v.unlock();
        }
        let mut sources = self.sources.lock(curcpu).unwrap();
        sources.deref_mut().push(SourceEntry { source: is, start, end });
        sources.unlock();
        assert forall|k: int| 0 <= k < self.sources().len() implies (#[trigger] self.sources()[k]).end
            <= self.callbacks().len() by {
            if k < old(self).sources().len() {
                assert(old(self).sources()[k].end <= old(self).callbacks().len());
            }
        }
    }

    /// Makes `driver` the handler of `interrupt`.
    pub fn register_callback_on_intr(&mut self, curcpu: usize, interrupt: usize, driver: DriverHandle)
        requires
            old(self).wf(),
            interrupt < old(self).callbacks().len(),
        ensures
            final(self).wf(),
            final(self).sources() == old(self).sources(),
            final(self).callbacks() == old(self).callbacks().update(
                interrupt as int,
                InterruptState {
                    driver_handle: Some(driver),
                    ..old(self).callbacks()[interrupt as int]
                },
            ),
    {
        let mut v = self.callbacks.lock(curcpu).unwrap();
        let table = v.deref_mut();
        table[interrupt].driver_handle = Some(driver);
        assert(table@ =~= old(self).callbacks().update(
            interrupt as int,
            InterruptState {
                driver_handle: Some(driver),
                ..old(self).callbacks()[interrupt as int]
            },
        ));
        v.unlock();
        assert forall|k: int| 0 <= k < self.sources().len() implies (#[trigger] self.sources()[k]).end
            <= self.callbacks().len() by {
            assert(old(self).sources()[k].end <= old(self).callbacks().len());
        }
    }

    /// The place of the source that answers for `interrupt`: the first whose
    /// numbers take it in.
    pub fn source_of(&self, interrupt: usize) -> (r: Option<usize>)
        ensures
            r matches Some(k) ==> is_source_of(self.sources(), interrupt, k as int),
            r is None ==> forall|k: int| !is_source_of(self.sources(), interrupt, k),
    {
        let sources = self.sources.peek();
        let mut k: usize = 0;
        while k < sources.len()
            invariant
                k <= sources@.len(),
                sources@ == self.sources(),
                forall|j: int| 0 <= j < k ==> !answers_for(#[trigger] sources@[j], interrupt),
            decreases sources@.len() - k,
        {
            if interrupt >= sources[k].start && interrupt < sources[k].end {
                return Some(k);
            }
            k = k + 1;
        }
        None
    }

    /// Switches `interrupt` on at the source that answers for it, and says
    /// which source that was; `None` where no source does.
    pub fn enable_interrupt(&mut self, curcpu: usize, interrupt: usize) -> (r: Option<usize>)
        requires
            old(self).wf(),
        ensures
            final(self).wf(),
            final(self).sources() == old(self).sources(),
            final(self).callbacks() == old(self).callbacks(),
            r matches Some(k) ==> is_source_of(old(self).sources(), interrupt, k as int)
                && call_ensures(S::enable, (&old(self).sources()[k as int].source, interrupt), ()),
            r is None ==> forall|k: int| !is_source_of(old(self).sources(), interrupt, k),
    {
        let found = self.source_of(interrupt);
        let sources = self.sources.lock(curcpu).unwrap();
        if let Some(k) = found {
            sources.deref()[k].source.enable(interrupt);
        }
        sources.unlock();
        found
    }

    /// Switches on every interrupt that has a driver: the number is marked
    /// in the table, and the source that answers for it, if there is one,
    /// is told to let it through.
    pub fn enable_registered(&mut self, curcpu: usize)
        requires
            old(self).wf(),
        ensures
            final(self).wf(),
            final(self).sources() == old(self).sources(),
            final(self).callbacks() == with_registered_enabled(old(self).callbacks()),
            forall|i: int, k: int|
                0 <= i < old(self).callbacks().len() && old(self).callbacks()[i].driver_handle
                    is Some && #[trigger] is_source_of(old(self).sources(), i as usize, k)
                    ==> call_ensures(S::enable, (&old(self).sources()[k].source, i as usize), ()),
    {
        let n = self.callbacks.peek().len();
        let mut i: usize = 0;
        while i < n
            invariant
                i <= n,
                n == old(self).callbacks().len(),
                self.wf(),
                self.sources() == old(self).sources(),
                self.callbacks().len() == n,
                forall|j: int|
                    0 <= j < i ==> (#[trigger] self.callbacks()[j]) == with_registered_enabled(
                        old(self).callbacks(),
                    )[j],
                forall|j: int|
                    i <= j < n ==> (#[trigger] self.callbacks()[j]) == old(self).callbacks()[j],
                forall|j: int, k: int|
                    0 <= j < i && old(self).callbacks()[j].driver_handle is Some
                        && #[trigger] is_source_of(old(self).sources(), j as usize, k)
                        ==> call_ensures(
                        S::enable,
                        (&old(self).sources()[k].source, j as usize),
                        (),
                    ),
            decreases n - i,
        {
            let registered = self.callbacks.peek()[i].driver_handle.is_some();
            if registered {
                let ghost before = self.callbacks();
                let mut v = self.callbacks.lock(curcpu).unwrap();
                let table = v.deref_mut();
                table[i].is_enabled = true;
                assert(table@ =~= before.update(
                    i as int,
                    InterruptState { is_enabled: true, ..before[i as int] },
                ));
                v.unlock();
                let told = self.enable_interrupt(curcpu, i);
                proof {
                    assert forall|k: int| #[trigger]
                        is_source_of(old(self).sources(), i as usize, k) implies call_ensures(
                        S::enable,
                        (&old(self).sources()[k].source, i as usize),
                        (),
                    ) by {
                        match told {
                            Some(t) => {
                                lemma_source_unique(old(self).sources(), i as usize, k, t as int);
                            },
                            None => {},
                        }
                    }
                }
            }
            i = i + 1;
        }
        assert(self.callbacks() =~= with_registered_enabled(old(self).callbacks()));
    }

    /// An interrupt has come in.  Every source is asked about each of its
    /// numbers: the sources in the order in which they were added, the
    /// numbers of a source in rising order.  The drivers of the numbers that
    /// are pending are handed back, in that order, for the caller to run.
    /// Where a pending number has no driver, the first such number is handed
    /// back as the error, and the caller halts.
    ///
    /// Which numbers are pending is for the sources to say.  `answers` is
    /// what they said, number by number; the result is what [`dispatch`]
    /// makes of the numbers about which the answer was that they are
    /// pending.  So no pending number is passed over, and nothing is
    /// dispatched that is not pending.
    pub fn interrupted(&mut self, curcpu: usize) -> (r: Result<Vec<DriverHandle>, UnexpectedInterrupt>)
        requires
            old(self).wf(),
        ensures
            final(self).wf(),
            final(self).sources() == old(self).sources(),
            final(self).callbacks() == old(self).callbacks(),
            exists|answers: Seq<Seq<bool>>|
                ({
                    &&& #[trigger] are_all_answers(old(self).sources(), answers)
                    &&& is_dispatch(
                        old(self).callbacks(),
                        all_pending(old(self).sources(), answers),
                        r,
                    )
                    &&& forall|k: int, n: usize|
                        0 <= k < old(self).sources().len() && #[trigger] answers_for(
                            old(self).sources()[k],
                            n,
                        ) ==> all_pending(old(self).sources(), answers).contains(n)
                            || admits_answer(old(self).sources()[k], n, false)
                }),
    {
        let mut pending: Vec<usize> = Vec::new();
        let sourceslock = self.sources.lock(curcpu).unwrap();
        let sources = sourceslock.deref();
        let ghost mut answers: Seq<Seq<bool>> = Seq::empty();
        let mut k: usize = 0;
        while k < sources.len()
            invariant
                k <= sources@.len(),
                sources@ == old(self).sources(),
                answers.len() == k,
                forall|j: int| 0 <= j < k ==> are_answers_of(sources@[j], #[trigger] answers[j]),
                pending@ == all_pending(sources@.take(k as int), answers),
            decreases sources@.len() - k,
        {
            let start = sources[k].start;
            let end = sources[k].end;
            let ghost base = pending@;
            let ghost mut cur: Seq<bool> = Seq::empty();
            let mut intr = start;
            while intr < end
                invariant
                    k < sources@.len(),
                    sources@ == old(self).sources(),
                    start == sources@[k as int].start,
                    end == sources@[k as int].end,
                    start <= intr,
                    start <= end ==> intr <= end,
                    start > end ==> intr == start,
                    cur.len() == intr - start,
                    forall|j: int|
                        0 <= j < cur.len() ==> admits_answer(
                            sources@[k as int],
                            (start + j) as usize,
                            #[trigger] cur[j],
                        ),
                    pending@ == base + pending_of(sources@[k as int], cur),
                decreases end - intr,
            {
                let answer = sources[k].source.is_interrupted(intr);
                let ghost before = cur;
                proof {
                    cur = cur.push(answer);
                    assert(cur.drop_last() =~= before);
                    assert forall|j: int| 0 <= j < cur.len() implies admits_answer(
                        sources@[k as int],
                        (start + j) as usize,
                        #[trigger] cur[j],
                    ) by {
                        if j < before.len() {
                            assert(cur[j] == before[j]);
                        }
                    }
                }
                if answer {
                    pending.push(intr);
                    assert(pending@ =~= base + pending_of(sources@[k as int], cur));
                }
                intr = intr + 1;
            }
            proof {
                let ghost front = answers;
                answers = answers.push(cur);
                assert(answers.drop_last() =~= front);
                assert(sources@.take(k + 1).drop_last() =~= sources@.take(k as int));
                assert(sources@.take(k + 1).last() == sources@[k as int]);
                assert(are_answers_of(sources@[k as int], cur));
                assert forall|j: int| 0 <= j < k + 1 implies are_answers_of(
                    sources@[j],
                    #[trigger] answers[j],
                ) by {
                    if j < k {
                        assert(answers[j] == front[j]);
                    }
                }
            }
            k = k + 1;
        }
        sourceslock.unlock();
        let r = dispatch(self.callbacks.peek(), &pending);
        proof {
            assert(sources@.take(k as int) =~= sources@);
            assert(are_all_answers(old(self).sources(), answers));
            lemma_all_pending(old(self).sources(), answers);
        }
        r
    }
}

impl InterruptAttachment {
    pub closed spec fn num(&self) -> usize {
        self.num
    }

    /// Registers `driver` for the interrupt `num` at `pic`.
    pub fn new<S: InterruptSource>(pic: &mut PIC<S>, curcpu: usize, num: usize, driver: DriverHandle) -> (a:
        Self)
        requires
            old(pic).wf(),
            num < old(pic).callbacks().len(),
        ensures
            a.num() == num,
            final(pic).wf(),
            final(pic).sources() == old(pic).sources(),
            final(pic).callbacks() == old(pic).callbacks().update(
                num as int,
                InterruptState { driver_handle: Some(driver), ..old(pic).callbacks()[num as int] },
            ),
    {
        pic.register_callback_on_intr(curcpu, num, driver);
        InterruptAttachment { num }
    }
}

} // verus!
