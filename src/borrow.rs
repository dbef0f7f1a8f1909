//! Interior mutability with aliasing checked when a borrow is taken.
//!
//! A [`MutableCell`] tracks its outstanding borrows in a [`BorrowState`]. A
//! shared borrow is refused while an exclusive one is out; an exclusive borrow
//! is refused while any borrow is out. Access to the value goes through the
//! guard token that a successful borrow hands out.
use vstd::prelude::*;

verus! {

/// The outstanding borrows of a cell.
#[derive(PartialEq, Eq, Structural, Clone, Copy, Debug)]
pub enum BorrowState {
    /// No borrow is out.
    Unborrowed,
    /// This many shared borrows are out (at least one).
    Shared(usize),
    /// One exclusive borrow is out.
    Exclusive,
}

/// Why a borrow was refused.
#[derive(PartialEq, Eq, Structural, Clone, Copy, Debug)]
pub enum BorrowError {
    /// A shared borrow was asked for while an exclusive borrow is out.
    AlreadyExclusivelyBorrowed,
    /// An exclusive borrow was asked for while some borrow is out.
    AlreadyBorrowed,
}

/// One event in the life of a cell.
pub enum BorrowEvent {
    /// Ask for a shared borrow.
    Borrow,
    /// Ask for an exclusive borrow.
    BorrowMut,
    /// Give a shared borrow back.
    ReleaseShared,
    /// Give the exclusive borrow back.
    ReleaseExclusive,
}

/// The state a borrow of each kind leads to, or `None` when it is refused;
/// a release leads back towards `Unborrowed`.
pub open spec fn borrow_step(s: BorrowState, e: BorrowEvent) -> Option<BorrowState> {
    match e {
        BorrowEvent::Borrow => match s {
            BorrowState::Unborrowed => Some(BorrowState::Shared(1)),
            BorrowState::Shared(n) => Some(BorrowState::Shared((n + 1) as usize)),
            BorrowState::Exclusive => None,
        },
        BorrowEvent::BorrowMut => match s {
            BorrowState::Unborrowed => Some(BorrowState::Exclusive),
            _ => None,
        },
        BorrowEvent::ReleaseShared => match s {
            BorrowState::Shared(n) => if n <= 1 {
                Some(BorrowState::Unborrowed)
            } else {
                Some(BorrowState::Shared((n - 1) as usize))
            },
            _ => None,
        },
        BorrowEvent::ReleaseExclusive => match s {
            BorrowState::Exclusive => Some(BorrowState::Unborrowed),
            _ => None,
        },
    }
}

/// A state is well formed when a shared count is positive.
pub open spec fn state_wf(s: BorrowState) -> bool {
    match s {
        BorrowState::Shared(n) => n >= 1,
        _ => true,
    }
}

/// A cell's borrow state together with the guards that callers hold.
pub struct GuardCount {
    /// The state the cell records.
    pub state: BorrowState,
    /// Shared guards held by callers.
    pub shared: nat,
    /// Exclusive guards held by callers.
    pub exclusive: nat,
}

/// Whether `e` can happen in `w`: a release needs a guard of its kind, and a
/// shared borrow needs room in the shared count.
pub open spec fn event_allowed(w: GuardCount, e: BorrowEvent) -> bool {
    match e {
        BorrowEvent::Borrow => w.state != BorrowState::Shared(usize::MAX),
        BorrowEvent::BorrowMut => true,
        BorrowEvent::ReleaseShared => w.shared > 0,
        BorrowEvent::ReleaseExclusive => w.exclusive > 0,
    }
}

/// `w` after `e`: a borrow that is granted hands out a guard, a refused one
/// changes nothing, a release gives a guard back.
pub open spec fn guard_step(w: GuardCount, e: BorrowEvent) -> GuardCount {
    match borrow_step(w.state, e) {
        None => w,
        Some(s) => match e {
            BorrowEvent::Borrow => GuardCount { state: s, shared: w.shared + 1, ..w },
            BorrowEvent::BorrowMut => GuardCount { state: s, exclusive: w.exclusive + 1, ..w },
            BorrowEvent::ReleaseShared => GuardCount {
                state: s,
                shared: (w.shared - 1) as nat,
                ..w
            },
            BorrowEvent::ReleaseExclusive => GuardCount {
                state: s,
                exclusive: (w.exclusive - 1) as nat,
                ..w
            },
        },
    }
}

/// The world after the events `es`, in order, from a fresh cell.
pub open spec fn run_events(es: Seq<BorrowEvent>) -> GuardCount
    decreases es.len(),
{
    if es.len() == 0 {
        GuardCount { state: BorrowState::Unborrowed, shared: 0, exclusive: 0 }
    } else {
        guard_step(run_events(es.drop_last()), es.last())
    }
}

/// Whether every event of `es` is allowed where it happens.
pub open spec fn events_allowed(es: Seq<BorrowEvent>) -> bool
    decreases es.len(),
{
    es.len() == 0 || (events_allowed(es.drop_last()) && event_allowed(
        run_events(es.drop_last()),
        es.last(),
    ))
}

/// The recorded state matches the guards held: none when unborrowed, exactly
/// `n` shared ones when shared `n` times, and one exclusive one alone.
pub open spec fn guards_match(w: GuardCount) -> bool {
    match w.state {
        BorrowState::Unborrowed => w.shared == 0 && w.exclusive == 0,
        BorrowState::Shared(n) => n >= 1 && w.shared == n && w.exclusive == 0,
        BorrowState::Exclusive => w.shared == 0 && w.exclusive == 1,
    }
}

/// Under every interleaving of borrows and releases, an exclusive guard never
/// coexists with any other guard.
pub proof fn lemma_exclusive_alone(es: Seq<BorrowEvent>)
    requires
        events_allowed(es),
    ensures
        guards_match(run_events(es)),
        run_events(es).exclusive <= 1,
        run_events(es).exclusive == 1 ==> run_events(es).shared == 0,
    decreases es.len(),
{
    if es.len() > 0 {
        lemma_exclusive_alone(es.drop_last());
    }
}

/// Proof that a shared borrow of a cell is out.
pub struct ReadGuard {
    cell: u64,
}

/// Proof that the exclusive borrow of a cell is out.
pub struct WriteGuard {
    cell: u64,
}

impl ReadGuard {
    /// The identity of the cell this guard was taken from.
    pub closed spec fn cell(&self) -> u64 {
        self.cell
    }
}

impl WriteGuard {
    /// The identity of the cell this guard was taken from.
    pub closed spec fn cell(&self) -> u64 {
        self.cell
    }
}

/// A value whose borrows are checked at run time.
pub struct MutableCell<T> {
    value: T,
    state: BorrowState,
    id: u64,
}

impl<T> MutableCell<T> {
    /// The value held.
    pub closed spec fn value(&self) -> T {
        self.value
    }

    /// The borrows that are out.
    pub closed spec fn borrows(&self) -> BorrowState {
        self.state
    }

    /// The identity that guards of this cell carry.
    pub closed spec fn id(&self) -> u64 {
        self.id
    }

    /// The shared count is positive whenever shared borrows are out.
    pub open spec fn wf(&self) -> bool {
        state_wf(self.borrows())
    }

    /// A cell holding `value`, with no borrow out; its guards carry `id`.
    pub fn new(value: T, id: u64) -> (c: MutableCell<T>)
        ensures
            c.wf(),
            c.value() == value,
            c.borrows() == BorrowState::Unborrowed,
            c.id() == id,
    {
        MutableCell { value, state: BorrowState::Unborrowed, id }
    }

    /// The borrows that are out.
    pub fn state(&self) -> (s: BorrowState)
        ensures
            s == self.borrows(),
    {
        self.state
    }

    /// Takes a shared borrow, refused while the exclusive borrow is out.
    pub fn try_borrow(&mut self) -> (r: Result<ReadGuard, BorrowError>)
        requires
            old(self).wf(),
            old(self).borrows() != BorrowState::Shared(usize::MAX),
        ensures
            final(self).wf(),
            final(self).value() == old(self).value(),
            final(self).id() == old(self).id(),
            match borrow_step(old(self).borrows(), BorrowEvent::Borrow) {
                Some(s) => r is Ok && r->Ok_0.cell() == old(self).id() && final(self).borrows() == s,
                None => r == Err::<ReadGuard, BorrowError>(BorrowError::AlreadyExclusivelyBorrowed)
                    && final(self).borrows() == old(self).borrows(),
            },
    {
        match self.state {
            BorrowState::Unborrowed => {
                self.state = BorrowState::Shared(1);
                Ok(ReadGuard { cell: self.id })
            },
            BorrowState::Shared(n) => {
                self.state = BorrowState::Shared(n + 1);
                Ok(ReadGuard { cell: self.id })
            },
            BorrowState::Exclusive => Err(BorrowError::AlreadyExclusivelyBorrowed),
        }
    }

    /// Takes the exclusive borrow, refused while any borrow is out.
    pub fn try_borrow_mut(&mut self) -> (r: Result<WriteGuard, BorrowError>)
        requires
            old(self).wf(),
        ensures
            final(self).wf(),
            final(self).value() == old(self).value(),
            final(self).id() == old(self).id(),
            match borrow_step(old(self).borrows(), BorrowEvent::BorrowMut) {
                Some(s) => r is Ok && r->Ok_0.cell() == old(self).id() && final(self).borrows() == s,
                None => r == Err::<WriteGuard, BorrowError>(BorrowError::AlreadyBorrowed)
                    && final(self).borrows() == old(self).borrows(),
            },
    {
        match self.state {
            BorrowState::Unborrowed => {
                self.state = BorrowState::Exclusive;
                Ok(WriteGuard { cell: self.id })
            },
            _ => Err(BorrowError::AlreadyBorrowed),
        }
    }

    /// Takes a shared borrow. Asking while the exclusive borrow is out breaks
    /// the aliasing rule, so callers must not: see [`MutableCell::try_borrow`].
    pub fn borrow(&mut self) -> (g: ReadGuard)
        requires
            old(self).wf(),
            old(self).borrows() != BorrowState::Exclusive,
            old(self).borrows() != BorrowState::Shared(usize::MAX),
        ensures
            final(self).wf(),
            final(self).value() == old(self).value(),
            final(self).id() == old(self).id(),
            g.cell() == old(self).id(),
            Some(final(self).borrows()) == borrow_step(old(self).borrows(), BorrowEvent::Borrow),
    {
        self.try_borrow().unwrap()
    }

    /// Takes the exclusive borrow. Asking while any borrow is out breaks the
    /// aliasing rule, so callers must not: see [`MutableCell::try_borrow_mut`].
    pub fn borrow_mut(&mut self) -> (g: WriteGuard)
        requires
            old(self).wf(),
            old(self).borrows() == BorrowState::Unborrowed,
        ensures
            final(self).wf(),
            final(self).value() == old(self).value(),
            final(self).id() == old(self).id(),
            g.cell() == old(self).id(),
            final(self).borrows() == BorrowState::Exclusive,
    {
        self.state = BorrowState::Exclusive;
        WriteGuard { cell: self.id }
    }

    /// Gives back a shared borrow of this cell.
    pub fn release(&mut self, g: ReadGuard)
        requires
            old(self).wf(),
            old(self).borrows() is Shared,
            g.cell() == old(self).id(),
        ensures
            final(self).wf(),
            final(self).value() == old(self).value(),
            final(self).id() == old(self).id(),
            Some(final(self).borrows()) == borrow_step(
                old(self).borrows(),
                BorrowEvent::ReleaseShared,
            ),
    {
        match self.state {
            BorrowState::Shared(n) => {
                if n <= 1 {
                    self.state = BorrowState::Unborrowed;
                } else {
                    self.state = BorrowState::Shared(n - 1);
                }
            },
            _ => {},
        }
    }

    /// Gives back the exclusive borrow of this cell.
    pub fn release_mut(&mut self, g: WriteGuard)
        requires
            old(self).wf(),
            old(self).borrows() == BorrowState::Exclusive,
            g.cell() == old(self).id(),
        ensures
            final(self).wf(),
            final(self).value() == old(self).value(),
            final(self).id() == old(self).id(),
            final(self).borrows() == BorrowState::Unborrowed,
    {
        self.state = BorrowState::Unborrowed;
    }

    /// Reads the value under a shared borrow.
    pub fn read(&self, g: &ReadGuard) -> (v: &T)
        requires
            self.borrows() is Shared,
            g.cell() == self.id(),
        ensures
            *v == self.value(),
    {
        &self.value
    }

    /// Replaces the value under the exclusive borrow, handing back the old one.
    pub fn write(&mut self, g: &WriteGuard, mut v: T) -> (prev: T)
        requires
            old(self).borrows() == BorrowState::Exclusive,
            g.cell() == old(self).id(),
        ensures
            final(self).value() == v,
            prev == old(self).value(),
            final(self).borrows() == old(self).borrows(),
            final(self).id() == old(self).id(),
    {
        std::mem::swap(&mut self.value, &mut v);
        v
    }

    /// The value, taken out of a cell with no borrow out.
    pub fn into_inner(self) -> (v: T)
        requires
            self.borrows() == BorrowState::Unborrowed,
        ensures
            v == self.value(),
    {
        self.value
    }
}

} // verus!
