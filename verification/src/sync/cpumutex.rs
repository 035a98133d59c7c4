//! A lock owned by a core rather than by a thread.  The owning core may take
//! it again while it holds it; every other core has to wait until the owner
//! has released it as often as it took it.

use vstd::prelude::*;

verus! {

/// Who holds a lock, and how many times over.
pub struct LockState {
    pub owner: Option<usize>,
    pub recursion: nat,
}

impl LockState {
    /// The state of a lock that nobody holds.
    pub open spec fn free() -> LockState {
        LockState { owner: None, recursion: 0 }
    }

    /// A lock is held exactly when its count is positive.
    pub open spec fn wf(self) -> bool {
        self.recursion > 0 <==> self.owner is Some
    }

    /// Whether `cpu` gets the lock at once: it is free, or `cpu` holds it already.
    pub open spec fn available_to(self, cpu: usize) -> bool {
        self.owner is None || self.owner == Some(cpu)
    }

    /// The state after `cpu` has taken the lock once more.
    pub open spec fn locked_by(self, cpu: usize) -> LockState {
        if self.owner == Some(cpu) {
            LockState { owner: Some(cpu), recursion: self.recursion + 1 }
        } else {
            LockState { owner: Some(cpu), recursion: 1 }
        }
    }

    /// The state after the owner has given the lock back once.
    pub open spec fn unlocked(self) -> LockState {
        if self.recursion <= 1 {
            LockState::free()
        } else {
            LockState { owner: self.owner, recursion: (self.recursion - 1) as nat }
        }
    }

    /// The state after `cpu` has taken the lock `n` times in a row.
    pub open spec fn locked_n(self, cpu: usize, n: nat) -> LockState
        decreases n,
    {
        if n == 0 {
            self
        } else {
            self.locked_n(cpu, (n - 1) as nat).locked_by(cpu)
        }
    }

    /// The state after the owner has given the lock back `n` times in a row.
    pub open spec fn unlocked_n(self, n: nat) -> LockState
        decreases n,
    {
        if n == 0 {
            self
        } else {
            self.unlocked().unlocked_n((n - 1) as nat)
        }
    }
}

pub struct CpuMutex<T> {
    owner: Option<usize>,
    recursion: usize,
    data: T,
}

/// Access to the value of a lock that `cpu` holds.  There is no destructor:
/// the holder ends the access with [`CpuMutexGuard::unlock`].
pub struct CpuMutexGuard<'a, T> {
    pub mutex: &'a mut CpuMutex<T>,
    pub cpu: usize,
}

impl<T> CpuMutex<T> {
    pub closed spec fn state(&self) -> LockState {
        LockState { owner: self.owner, recursion: self.recursion as nat }
    }

    /// The protected value.
    pub closed spec fn value(&self) -> T {
        self.data
    }

    pub open spec fn wf(&self) -> bool {
        self.state().wf()
    }

    pub open spec fn is_free(&self) -> bool {
        self.state() == LockState::free()
    }

    /// Whether one more `lock` by `cpu` can be counted.
    pub open spec fn can_count(&self, cpu: usize) -> bool {
        self.state().owner == Some(cpu) ==> self.state().recursion < usize::MAX
    }

    pub fn new(user_data: T) -> (m: Self)
        ensures
            m.is_free(),
            m.wf(),
            m.value() == user_data,
    {
        CpuMutex { owner: None, recursion: 0, data: user_data }
    }

    /// The core that holds the lock.
    pub fn holder(&self) -> (o: Option<usize>)
        ensures
            o == self.state().owner,
    {
        self.owner
    }

    /// How many times over the lock is held.
    pub fn depth(&self) -> (n: usize)
        ensures
            n == self.state().recursion,
    {
        self.recursion
    }

    /// A look at the value without taking the lock, for a caller that is
    /// alone with it.
    pub fn peek(&self) -> (r: &T)
        ensures
            *r == self.value(),
    {
        &self.data
    }

    /// One attempt of `curcpu` to take the lock.  The owner is counted once
    /// more and a free lock changes hands; a lock that another core holds is
    /// left alone, and the caller tries again.
    pub fn obtain_lock(&mut self, curcpu: usize) -> (acquired: bool)
        requires
            old(self).can_count(curcpu),
        ensures
            acquired == old(self).state().available_to(curcpu),
            acquired ==> final(self).state() == old(self).state().locked_by(curcpu),
            !acquired ==> final(self).state() == old(self).state(),
            final(self).value() == old(self).value(),
            old(self).wf() ==> final(self).wf(),
    {
        if self.owner == Some(curcpu) {
            self.recursion = self.recursion + 1;
            return true;
        }
        if self.owner.is_some() {
            return false;
        }
        self.owner = Some(curcpu);
        self.recursion = 1;
        true
    }

    /// `curcpu` gives the lock back once; the lock is free when every `lock`
    /// has been answered.
    pub fn release_lock(&mut self, curcpu: usize)
        requires
            old(self).wf(),
            old(self).state().owner == Some(curcpu),
        ensures
            final(self).state() == old(self).state().unlocked(),
            final(self).value() == old(self).value(),
            final(self).wf(),
    {
        self.recursion = self.recursion - 1;
        if self.recursion > 0 {
            return ;
        }
        self.owner = None;
    }

    /// Takes the lock for `curcpu` and hands out the access to the value, or
    /// `None` where another core holds the lock.
    pub fn lock(&mut self, curcpu: usize) -> (r: Option<CpuMutexGuard<'_, T>>)
        requires
            old(self).can_count(curcpu),
        ensures
            r is Some <==> old(self).state().available_to(curcpu),
            r is None ==> *final(self) == *old(self),
            r matches Some(g) ==> ({
                &&& g.cpu == curcpu
                &&& g.mutex.state() == old(self).state().locked_by(curcpu)
                &&& g.mutex.value() == old(self).value()
                &&& *final(self) == *final(g.mutex)
            }),
    {
        if self.obtain_lock(curcpu) {
            Some(CpuMutexGuard { mutex: self, cpu: curcpu })
        } else {
            None
        }
    }
}

impl<'a, T> CpuMutexGuard<'a, T> {
    /// The guard stands for a lock that its core holds.
    pub open spec fn wf(&self) -> bool {
        self.mutex.wf() && self.mutex.state().owner == Some(self.cpu)
    }

    pub fn deref(&self) -> (r: &T)
        ensures
            *r == old(self.mutex).value(),
    {
        &self.mutex.data
    }

    pub fn deref_mut(&mut self) -> (r: &mut T)
        ensures
            *r == old(self).mutex.value(),
            final(self).mutex.value() == *final(r),
            final(self).mutex.state() == old(self).mutex.state(),
            final(self).cpu == old(self).cpu,
            *final(final(self).mutex) == *final(old(self).mutex),
    {
        &mut self.mutex.data
    }

    /// Ends the access: the lock is given back once.
    pub fn unlock(self)
        requires
            self.wf(),
        ensures
            final(self.mutex).state() == old(self.mutex).state().unlocked(),
            final(self.mutex).value() == old(self.mutex).value(),
            final(self.mutex).wf(),
    {
        self.mutex.release_lock(self.cpu);
    }
}

/// A core that takes a free lock `n` times, each time at once, and gives it
/// back `n` times leaves the lock free.
pub proof fn law_nested_locks_release(cpu: usize, n: nat)
    ensures
        forall|k: nat| k < n ==> #[trigger] LockState::free().locked_n(cpu, k).available_to(cpu),
        LockState::free().locked_n(cpu, n).unlocked_n(n) == LockState::free(),
        LockState::free().locked_n(cpu, n).unlocked_n(n).owner is None,
{
    assert forall|k: nat| k < n implies #[trigger] LockState::free().locked_n(cpu, k).available_to(
        cpu,
    ) by {
        lemma_locked_n(LockState::free(), cpu, k);
    }
    lemma_locked_n(LockState::free(), cpu, n);
    lemma_unlocked_n(LockState::free().locked_n(cpu, n), n);
}

/// Taking an available lock `n` times adds `n` to its count.
pub proof fn lemma_locked_n(s: LockState, cpu: usize, n: nat)
    requires
        s.wf(),
        s.available_to(cpu),
    ensures
        s.locked_n(cpu, n).wf(),
        s.locked_n(cpu, n).available_to(cpu),
        s.locked_n(cpu, n).recursion == s.recursion + n,
        n > 0 ==> s.locked_n(cpu, n).owner == Some(cpu),
        n == 0 ==> s.locked_n(cpu, n) == s,
    decreases n,
{
    if n > 0 {
        lemma_locked_n(s, cpu, (n - 1) as nat);
    }
}

/// Giving a lock back `n` times takes `n` from its count, and frees it when
/// nothing is left.
pub proof fn lemma_unlocked_n(s: LockState, n: nat)
    requires
        s.wf(),
        n <= s.recursion,
    ensures
        s.unlocked_n(n).wf(),
        s.unlocked_n(n).recursion == s.recursion - n,
        n < s.recursion ==> s.unlocked_n(n).owner == s.owner,
        n == s.recursion ==> s.unlocked_n(n) == LockState::free(),
    decreases n,
{
    if n > 0 {
        lemma_unlocked_n(s.unlocked(), (n - 1) as nat);
    }
}

} // verus!
