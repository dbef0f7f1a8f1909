//! Mutual exclusion as a state machine over thread identities.
//!
//! A [`Mutex`] records which thread holds it, which threads wait for it in
//! arrival order, and whether a holder ever ended abnormally. It decides; the
//! caller does the waiting: a `lock` that cannot be granted queues the thread,
//! and the `unlock` that frees the lock hands it to the oldest waiter, whom the
//! caller then wakes.
use std::collections::VecDeque;
use vstd::prelude::*;

verus! {

/// The answer to a lock request.
#[derive(PartialEq, Eq, Structural, Clone, Copy, Debug)]
pub enum LockOutcome {
    /// The thread now holds the lock.
    Acquired,
    /// The thread now holds the lock, but an earlier holder ended abnormally.
    Poisoned,
    /// The lock is held; the thread is queued and must wait to be handed it.
    Wait,
}

/// A mutex as a mathematical value.
pub struct MutexModel<T> {
    /// The guarded value.
    pub value: T,
    /// The thread that holds the lock, if any.
    pub holder: Option<u64>,
    /// Threads waiting, oldest first.
    pub waiters: Seq<u64>,
    /// Whether some holder ended abnormally.
    pub poisoned: bool,
}

impl<T> MutexModel<T> {
    /// Nobody waits for a free lock, the holder does not wait, and no thread
    /// waits twice.
    pub open spec fn wf(self) -> bool {
        &&& self.holder is None ==> self.waiters.len() == 0
        &&& self.holder is Some ==> !self.waiters.contains(self.holder->0)
        &&& self.waiters.no_duplicates()
    }
}

/// The mutex after thread `t` asks for it: granted when free, else `t` queues.
pub open spec fn lock_step<T>(m: MutexModel<T>, t: u64) -> MutexModel<T> {
    if m.holder is None {
        MutexModel { holder: Some(t), ..m }
    } else {
        MutexModel { waiters: m.waiters.push(t), ..m }
    }
}

/// The mutex after its holder lets go (abnormally when `panicked`): the
/// oldest waiter, if any, becomes the holder.
pub open spec fn unlock_step<T>(m: MutexModel<T>, panicked: bool) -> MutexModel<T> {
    let poisoned = m.poisoned || panicked;
    if m.waiters.len() > 0 {
        MutexModel { holder: Some(m.waiters[0]), waiters: m.waiters.drop_first(), poisoned, ..m }
    } else {
        MutexModel { holder: None, poisoned, ..m }
    }
}

/// A request by a thread that neither holds nor waits keeps the mutex well formed.
pub proof fn lemma_lock_step_wf<T>(m: MutexModel<T>, t: u64)
    requires
        m.wf(),
        m.holder != Some(t),
        !m.waiters.contains(t),
    ensures
        lock_step(m, t).wf(),
{
    if m.holder is Some {
        let w = m.waiters.push(t);
        assert forall|i: int, j: int| 0 <= i < j < w.len() implies w[i] != w[j] by {
            if j == w.len() - 1 {
                assert(w[i] == m.waiters[i]);
            }
        }
        assert forall|i: int| 0 <= i < w.len() implies w[i] != m.holder->0 by {
            if i < m.waiters.len() {
                assert(w[i] == m.waiters[i]);
            }
        }
    }
}

/// Handing the lock on keeps the mutex well formed: the new holder leaves the
/// queue and appears in it no more.
pub proof fn lemma_unlock_step_wf<T>(m: MutexModel<T>, panicked: bool)
    requires
        m.wf(),
        m.holder is Some,
    ensures
        unlock_step(m, panicked).wf(),
        m.waiters.len() > 0 ==> forall|u: u64|
            #![trigger m.waiters.drop_first().contains(u)]
            m.waiters.drop_first().contains(u) <==> (m.waiters.contains(u) && u != m.waiters[0]),
{
    if m.waiters.len() > 0 {
        let w = m.waiters.drop_first();
        assert forall|u: u64| w.contains(u) <==> (m.waiters.contains(u) && u != m.waiters[0]) by {
            if w.contains(u) {
                let k = choose|k: int| 0 <= k < w.len() && w[k] == u;
                assert(m.waiters[k + 1] == u);
            }
            if m.waiters.contains(u) && u != m.waiters[0] {
                let k = choose|k: int| 0 <= k < m.waiters.len() && m.waiters[k] == u;
                assert(w[k - 1] == u);
            }
        }
    }
}

/// Where a thread is in one round of incrementing a shared counter.
pub enum Phase {
    /// Outside the lock.
    Idle,
    /// Queued for the lock.
    Waiting,
    /// Holding the lock, counter not read yet.
    Holding,
    /// Holding the lock, having read this value of the counter.
    HasRead(int),
    /// Holding the lock, having written the counter.
    Written,
}

/// One step of one thread in an increment round.
pub enum CounterEvent {
    /// Ask for the lock.
    Lock(u64),
    /// Read the counter.
    Read(u64),
    /// Write back what was read, plus one.
    Write(u64),
    /// Let go of the lock.
    Unlock(u64),
}

/// Threads incrementing a counter that a mutex guards.
pub struct CounterWorld {
    /// The mutex and the counter it guards.
    pub m: MutexModel<int>,
    /// Where each thread is; a thread not listed is idle.
    pub phase: Map<u64, Phase>,
    /// How many writes have happened.
    pub writes: nat,
}

/// Where thread `t` is in `w`.
pub open spec fn phase_of(w: CounterWorld, t: u64) -> Phase {
    if w.phase.contains_key(t) {
        w.phase[t]
    } else {
        Phase::Idle
    }
}

/// Whether thread `t` is inside its critical section.
pub open spec fn in_section(p: Phase) -> bool {
    match p {
        Phase::Holding | Phase::HasRead(_) | Phase::Written => true,
        _ => false,
    }
}

/// Whether the thread of `e` may take that step: each follows the round
/// lock, read, write, unlock, and touches the counter only while holding the lock.
pub open spec fn counter_allowed(w: CounterWorld, e: CounterEvent) -> bool {
    match e {
        CounterEvent::Lock(t) => phase_of(w, t) is Idle,
        CounterEvent::Read(t) => w.m.holder == Some(t) && phase_of(w, t) is Holding,
        CounterEvent::Write(t) => w.m.holder == Some(t) && phase_of(w, t) is HasRead,
        CounterEvent::Unlock(t) => w.m.holder == Some(t) && phase_of(w, t) is Written,
    }
}

/// `w` after the step `e`. The mutex moves as [`Mutex::lock`] and
/// [`Mutex::unlock`] move it; an unlock hands the lock to the oldest waiter.
pub open spec fn counter_step(w: CounterWorld, e: CounterEvent) -> CounterWorld {
    match e {
        CounterEvent::Lock(t) => CounterWorld {
            m: lock_step(w.m, t),
            phase: w.phase.insert(
                t,
                if w.m.holder is None {
                    Phase::Holding
                } else {
                    Phase::Waiting
                },
            ),
            ..w
        },
        CounterEvent::Read(t) => CounterWorld {
            phase: w.phase.insert(t, Phase::HasRead(w.m.value)),
            ..w
        },
        CounterEvent::Write(t) => match phase_of(w, t) {
            Phase::HasRead(x) => CounterWorld {
                m: MutexModel { value: x + 1, ..w.m },
                phase: w.phase.insert(t, Phase::Written),
                writes: w.writes + 1,
            },
            _ => w,
        },
        CounterEvent::Unlock(t) => CounterWorld {
            m: unlock_step(w.m, false),
            phase: if w.m.waiters.len() > 0 {
                w.phase.insert(t, Phase::Idle).insert(w.m.waiters[0], Phase::Holding)
            } else {
                w.phase.insert(t, Phase::Idle)
            },
            ..w
        },
    }
}

/// The world after the steps `es`, in order, from a free mutex guarding zero.
pub open spec fn run_counter(es: Seq<CounterEvent>) -> CounterWorld
    decreases es.len(),
{
    if es.len() == 0 {
        CounterWorld {
            m: MutexModel { value: 0, holder: None, waiters: Seq::empty(), poisoned: false },
            phase: Map::empty(),
            writes: 0,
        }
    } else {
        counter_step(run_counter(es.drop_last()), es.last())
    }
}

/// Whether every step of `es` is allowed where it happens.
pub open spec fn counter_run_allowed(es: Seq<CounterEvent>) -> bool
    decreases es.len(),
{
    es.len() == 0 || (counter_run_allowed(es.drop_last()) && counter_allowed(
        run_counter(es.drop_last()),
        es.last(),
    ))
}

/// The facts that hold after every allowed run.
pub open spec fn counter_inv(w: CounterWorld) -> bool {
    &&& w.m.wf()
    &&& forall|t: u64| #[trigger] in_section(phase_of(w, t)) <==> w.m.holder == Some(t)
    &&& forall|t: u64| #[trigger] w.m.waiters.contains(t) <==> phase_of(w, t) is Waiting
    &&& forall|t: u64| #[trigger] phase_of(w, t) is HasRead ==> phase_of(w, t)->HasRead_0 == w.m.value
    &&& w.m.value == w.writes
}

/// However the steps of any number of threads interleave, at most one thread
/// is inside its critical section, a value read there is still current when it
/// is written back, and so the counter equals the number of writes: no
/// increment is lost.
pub proof fn lemma_no_lost_updates(es: Seq<CounterEvent>)
    requires
        counter_run_allowed(es),
    ensures
        counter_inv(run_counter(es)),
        run_counter(es).m.value == run_counter(es).writes,
        forall|t: u64, u: u64|
            in_section(#[trigger] phase_of(run_counter(es), t)) && in_section(
                #[trigger] phase_of(run_counter(es), u),
            ) ==> t == u,
    decreases es.len(),
{
    if es.len() > 0 {
        let prev = es.drop_last();
        lemma_no_lost_updates(prev);
        let w = run_counter(prev);
        let e = es.last();
        let w2 = counter_step(w, e);
        assert(w2 == run_counter(es));
        match e {
            CounterEvent::Lock(t) => {
                assert(!in_section(phase_of(w, t)));
                assert(!w.m.waiters.contains(t));
                lemma_lock_step_wf(w.m, t);
                assert forall|u: u64| #[trigger] w2.m.waiters.contains(u) <==> phase_of(w2, u) is Waiting by {
                    if w.m.holder is Some {
                        if w2.m.waiters.contains(u) && u != t {
                            let k = choose|k: int| 0 <= k < w2.m.waiters.len() && w2.m.waiters[k] == u;
                            assert(w.m.waiters[k] == u);
                        }
                        if w.m.waiters.contains(u) {
                            let k = choose|k: int| 0 <= k < w.m.waiters.len() && w.m.waiters[k] == u;
                            assert(w2.m.waiters[k] == u);
                        }
                        assert(w2.m.waiters[w2.m.waiters.len() - 1] == t);
                    }
                }
                assert forall|u: u64| #[trigger] in_section(phase_of(w2, u)) <==> w2.m.holder == Some(u) by {
                    assert(in_section(phase_of(w, u)) <==> w.m.holder == Some(u));
                    assert(in_section(phase_of(w, t)) <==> w.m.holder == Some(t));
                }
                assert forall|u: u64| #[trigger] phase_of(w2, u) is HasRead implies phase_of(w2, u)->HasRead_0 == w2.m.value by {
                    assert(phase_of(w, u) is HasRead ==> phase_of(w, u)->HasRead_0 == w.m.value);
                }
            },
            CounterEvent::Read(t) => {
                assert forall|u: u64| #[trigger] w2.m.waiters.contains(u) <==> phase_of(w2, u) is Waiting by {
                    assert(w.m.waiters.contains(u) <==> phase_of(w, u) is Waiting);
                }
                assert forall|u: u64| #[trigger] in_section(phase_of(w2, u)) <==> w2.m.holder == Some(u) by {
                    assert(in_section(phase_of(w, u)) <==> w.m.holder == Some(u));
                }
                assert forall|u: u64| #[trigger] phase_of(w2, u) is HasRead implies phase_of(w2, u)->HasRead_0 == w2.m.value by {
                    assert(phase_of(w, u) is HasRead ==> phase_of(w, u)->HasRead_0 == w.m.value);
                }
            },
            CounterEvent::Write(t) => {
                assert forall|u: u64| #[trigger] w2.m.waiters.contains(u) <==> phase_of(w2, u) is Waiting by {
                    assert(w.m.waiters.contains(u) <==> phase_of(w, u) is Waiting);
                }
                assert forall|u: u64| #[trigger] in_section(phase_of(w2, u)) <==> w2.m.holder == Some(u) by {
                    assert(in_section(phase_of(w, u)) <==> w.m.holder == Some(u));
                }
                assert forall|u: u64| #[trigger] phase_of(w2, u) is HasRead implies phase_of(w2, u)->HasRead_0 == w2.m.value by {
                    if u != t {
                        assert(phase_of(w2, u) == phase_of(w, u));
                        assert(in_section(phase_of(w, u)) <==> w.m.holder == Some(u));
                    }
                }
            },
            CounterEvent::Unlock(t) => {
                lemma_unlock_step_wf(w.m, false);
                assert forall|u: u64| #[trigger] w2.m.waiters.contains(u) <==> phase_of(w2, u) is Waiting by {
                    if w.m.waiters.len() > 0 {
                        assert(w.m.waiters.contains(w.m.waiters[0]));
                        if u == t {
                            assert(!w.m.waiters.contains(t));
                        }
                    } else {
                        if w.m.waiters.contains(u) {
                            let k = choose|k: int| 0 <= k < w.m.waiters.len() && w.m.waiters[k] == u;
                        }
                    }
                }
                assert forall|u: u64| #[trigger] in_section(phase_of(w2, u)) <==> w2.m.holder == Some(u) by {
                    assert(in_section(phase_of(w, u)) <==> w.m.holder == Some(u));
                    if w.m.waiters.len() > 0 {
                        assert(w.m.waiters.contains(w.m.waiters[0]));
                    }
                }
                assert forall|u: u64| #[trigger] phase_of(w2, u) is HasRead implies phase_of(w2, u)->HasRead_0 == w2.m.value by {
                    assert(phase_of(w, u) is HasRead ==> phase_of(w, u)->HasRead_0 == w.m.value);
                }
            },
        }
    }
}

/// A value guarded by a lock over thread identities.
pub struct Mutex<T> {
    value: T,
    holder: Option<u64>,
    waiters: VecDeque<u64>,
    poisoned: bool,
}

impl<T> View for Mutex<T> {
    type V = MutexModel<T>;

    closed spec fn view(&self) -> MutexModel<T> {
        MutexModel {
            value: self.value,
            holder: self.holder,
            waiters: self.waiters@,
            poisoned: self.poisoned,
        }
    }
}

impl<T> Mutex<T> {
    /// A free mutex guarding `value`.
    pub fn new(value: T) -> (m: Mutex<T>)
        ensures
            m@.wf(),
            m@ == (MutexModel {
                value,
                holder: None,
                waiters: Seq::<u64>::empty(),
                poisoned: false,
            }),
    {
        Mutex { value, holder: None, waiters: VecDeque::new(), poisoned: false }
    }

    /// Thread `t` asks for the lock. A free lock is granted at once, reported
    /// `Poisoned` if an earlier holder ended abnormally; a held one queues `t`.
    pub fn lock(&mut self, t: u64) -> (r: LockOutcome)
        requires
            old(self)@.wf(),
            old(self)@.holder != Some(t),
            !old(self)@.waiters.contains(t),
        ensures
            final(self)@.wf(),
            final(self)@ == lock_step(old(self)@, t),
            r == if old(self)@.holder is Some {
                LockOutcome::Wait
            } else if old(self)@.poisoned {
                LockOutcome::Poisoned
            } else {
                LockOutcome::Acquired
            },
    {
        proof {
            lemma_lock_step_wf(old(self)@, t);
        }
        match self.holder {
            None => {
                self.holder = Some(t);
                if self.poisoned {
                    LockOutcome::Poisoned
                } else {
                    LockOutcome::Acquired
                }
            },
            Some(_) => {
                self.waiters.push_back(t);
                LockOutcome::Wait
            },
        }
    }

    /// The holder `t` lets go of the lock, abnormally when `panicked`. The
    /// oldest waiter, if any, is handed the lock and returned, to be woken.
    pub fn unlock(&mut self, t: u64, panicked: bool) -> (next: Option<u64>)
        requires
            old(self)@.wf(),
            old(self)@.holder == Some(t),
        ensures
            final(self)@.wf(),
            final(self)@ == unlock_step(old(self)@, panicked),
            next == final(self)@.holder,
    {
        if panicked {
            self.poisoned = true;
        }
        let next = self.waiters.pop_front();
        self.holder = next;
        proof {
            lemma_unlock_step_wf(old(self)@, panicked);
            if old(self)@.waiters.len() > 0 {
                assert(self@.waiters =~= old(self)@.waiters.drop_first());
            }
        }
        next
    }

    /// Whether some holder ended abnormally.
    pub fn is_poisoned(&self) -> (r: bool)
        ensures
            r == self@.poisoned,
    {
        self.poisoned
    }

    /// The holder `t` declares the value repaired.
    pub fn clear_poison(&mut self, t: u64)
        requires
            old(self)@.holder == Some(t),
        ensures
            final(self)@ == (MutexModel { poisoned: false, ..old(self)@ }),
    {
        self.poisoned = false;
    }

    /// The thread that holds the lock, if any.
    pub fn holder(&self) -> (h: Option<u64>)
        ensures
            h == self@.holder,
    {
        self.holder
    }

    /// The number of threads waiting.
    pub fn waiting(&self) -> (n: usize)
        ensures
            n == self@.waiters.len(),
    {
        self.waiters.len()
    }

    /// Whether thread `t` is queued for the lock.
    pub fn is_waiting(&self, t: u64) -> (r: bool)
        ensures
            r == self@.waiters.contains(t),
    {
        let mut i: usize = 0;
        while i < self.waiters.len()
            invariant
                i <= self@.waiters.len(),
                forall|j: int| 0 <= j < i ==> self@.waiters[j] != t,
            decreases self@.waiters.len() - i,
        {
            if self.waiters[i] == t {
                return true;
            }
            i = i + 1;
        }
        false
    }

    /// Read access to the value for the holder `t`.
    pub fn get(&self, t: u64) -> (v: &T)
        requires
            self@.holder == Some(t),
        ensures
            *v == self@.value,
    {
        &self.value
    }

    /// Write access to the value for the holder `t`; only the value changes.
    pub fn get_mut(&mut self, t: u64) -> (v: &mut T)
        requires
            old(self)@.holder == Some(t),
        ensures
            *v == old(self)@.value,
            final(self)@ == (MutexModel { value: *final(v), ..old(self)@ }),
    {
        &mut self.value
    }

    /// The holder `t` replaces the value, getting the old one back.
    pub fn set(&mut self, t: u64, mut v: T) -> (prev: T)
        requires
            old(self)@.holder == Some(t),
        ensures
            final(self)@ == (MutexModel { value: v, ..old(self)@ }),
            prev == old(self)@.value,
    {
        std::mem::swap(&mut self.value, &mut v);
        v
    }

    /// The value, taken out of a mutex that nobody holds.
    pub fn into_inner(self) -> (v: T)
        requires
            self@.holder is None,
        ensures
            v == self@.value,
    {
        self.value
    }
}

} // verus!
