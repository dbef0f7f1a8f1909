//! Reference-counted shared ownership with weak back-references.
//!
//! A [`SharedHeap`] owns control blocks. Each block holds a value together with
//! a strong count (owning handles, [`SharedCell`]) and a weak count
//! (observing handles, [`WeakRef`]). Handles are not `Clone`: every strong or
//! weak handle that exists was produced by exactly one counted operation and is
//! consumed by exactly one release.
use vstd::prelude::*;

verus! {

/// What a control block holds, as a mathematical value.
pub struct BlockModel<T> {
    /// The shared value; `None` once it has been destroyed.
    pub value: Option<T>,
    /// Number of owning handles.
    pub strong: nat,
    /// Number of observing handles.
    pub weak: nat,
}

impl<T> BlockModel<T> {
    /// A value is present exactly while some owning handle exists.
    pub open spec fn wf(self) -> bool {
        self.value is Some <==> self.strong > 0
    }

    /// The control block itself is reclaimed once no handle of either kind remains.
    pub open spec fn reclaimed(self) -> bool {
        self.strong == 0 && self.weak == 0
    }
}

/// The block a fresh cell holding `v` starts from.
pub open spec fn fresh_block<T>(v: T) -> BlockModel<T> {
    BlockModel { value: Some(v), strong: 1, weak: 0 }
}

/// One operation on the counts of a block.
pub enum CountOp {
    /// Copy an owning handle.
    Clone,
    /// Release an owning handle.
    Drop,
    /// Create an observing handle from an owning one.
    Downgrade,
    /// Try to turn an observing handle into an owning one.
    Upgrade,
    /// Release an observing handle.
    DropWeak,
}

/// Whether `op` may be applied to `b`: each operation needs a handle of its kind.
pub open spec fn op_allowed<T>(b: BlockModel<T>, op: CountOp) -> bool {
    match op {
        CountOp::Clone => b.strong > 0,
        CountOp::Drop => b.strong > 0,
        CountOp::Downgrade => b.strong > 0,
        CountOp::Upgrade => b.weak > 0,
        CountOp::DropWeak => b.weak > 0,
    }
}

/// The block after applying `op` to `b`.
pub open spec fn count_step<T>(b: BlockModel<T>, op: CountOp) -> BlockModel<T> {
    match op {
        CountOp::Clone => BlockModel { strong: b.strong + 1, ..b },
        CountOp::Drop => if b.strong == 1 {
            BlockModel { value: None, strong: 0, weak: b.weak }
        } else {
            BlockModel { strong: (b.strong - 1) as nat, ..b }
        },
        CountOp::Downgrade => BlockModel { weak: b.weak + 1, ..b },
        CountOp::Upgrade => if b.strong > 0 {
            BlockModel { strong: b.strong + 1, ..b }
        } else {
            b
        },
        CountOp::DropWeak => BlockModel { weak: (b.weak - 1) as nat, ..b },
    }
}

/// Whether applying `op` to `b` destroys the value.
pub open spec fn destroys<T>(b: BlockModel<T>, op: CountOp) -> bool {
    b.value is Some && count_step(b, op).value is None
}

/// The block after applying `ops`, in order, to `b`.
pub open spec fn run_ops<T>(b: BlockModel<T>, ops: Seq<CountOp>) -> BlockModel<T>
    decreases ops.len(),
{
    if ops.len() == 0 {
        b
    } else {
        count_step(run_ops(b, ops.drop_last()), ops.last())
    }
}

/// Whether each operation of `ops` is allowed on the block it is applied to.
pub open spec fn ops_allowed<T>(b: BlockModel<T>, ops: Seq<CountOp>) -> bool
    decreases ops.len(),
{
    ops.len() == 0 || (ops_allowed(b, ops.drop_last()) && op_allowed(
        run_ops(b, ops.drop_last()),
        ops.last(),
    ))
}

/// How many operations of `ops`, applied in order to `b`, destroy the value.
pub open spec fn destroy_count<T>(b: BlockModel<T>, ops: Seq<CountOp>) -> nat
    decreases ops.len(),
{
    if ops.len() == 0 {
        0
    } else {
        destroy_count(b, ops.drop_last()) + if destroys(run_ops(b, ops.drop_last()), ops.last()) {
            1nat
        } else {
            0nat
        }
    }
}

/// A single allowed operation on a well-formed block destroys the value
/// exactly when it brings the strong count from positive to zero, and keeps
/// the block well formed.
pub proof fn lemma_destroy_step<T>(b: BlockModel<T>, op: CountOp)
    requires
        b.wf(),
        op_allowed(b, op),
    ensures
        count_step(b, op).wf(),
        destroys(b, op) <==> (b.strong > 0 && count_step(b, op).strong == 0),
        count_step(b, op).value is Some ==> count_step(b, op).value == b.value,
{
}

/// Whatever sequence of clones, drops, downgrades, upgrades and weak releases
/// is applied to a fresh cell, the value is destroyed exactly once if the
/// strong count has reached zero and never otherwise, and while it is present
/// it is the value the cell was created with.
pub proof fn lemma_destroyed_exactly_once<T>(v: T, ops: Seq<CountOp>)
    requires
        ops_allowed(fresh_block(v), ops),
    ensures
        run_ops(fresh_block(v), ops).wf(),
        destroy_count(fresh_block(v), ops) == if run_ops(fresh_block(v), ops).strong == 0 {
            1nat
        } else {
            0nat
        },
        run_ops(fresh_block(v), ops).value is Some ==> run_ops(fresh_block(v), ops).value == Some(
            v,
        ),
    decreases ops.len(),
{
    if ops.len() > 0 {
        lemma_destroyed_exactly_once(v, ops.drop_last());
        lemma_destroy_step(run_ops(fresh_block(v), ops.drop_last()), ops.last());
    }
}

/// Upgrading a weak handle to a cell that was created with `v` fails, leaving
/// the block as it is, exactly when the strong count is zero; otherwise the
/// block gains an owner and still holds `v`.
pub proof fn lemma_upgrade_sees_initial_value<T>(v: T, ops: Seq<CountOp>)
    requires
        ops_allowed(fresh_block(v), ops),
        op_allowed(run_ops(fresh_block(v), ops), CountOp::Upgrade),
    ensures
        ({
            let b = run_ops(fresh_block(v), ops);
            let u = count_step(b, CountOp::Upgrade);
            &&& b.strong == 0 ==> u == b && u.value is None
            &&& b.strong > 0 ==> u.strong == b.strong + 1 && u.value == Some(v)
        }),
{
    lemma_destroyed_exactly_once(v, ops);
}

/// `b` holding `x` in place of its value.
pub open spec fn with_value<T>(b: BlockModel<T>, x: T) -> BlockModel<T> {
    BlockModel { value: Some(x), ..b }
}

/// Every block of `s` is well formed.
pub open spec fn blocks_wf<T>(s: Seq<BlockModel<T>>) -> bool {
    forall|i: int| 0 <= i < s.len() ==> (#[trigger] s[i]).wf()
}

struct Block<T> {
    value: Option<T>,
    strong: usize,
    weak: usize,
}

impl<T> Block<T> {
    spec fn model(&self) -> BlockModel<T> {
        BlockModel { value: self.value, strong: self.strong as nat, weak: self.weak as nat }
    }
}

/// An owning handle to a block of a [`SharedHeap`].
pub struct SharedCell {
    slot: usize,
}

impl SharedCell {
    /// The index of the block this handle owns.
    pub closed spec fn id(&self) -> nat {
        self.slot as nat
    }
}

/// A non-owning handle to a block of a [`SharedHeap`], or to nothing.
pub struct WeakRef {
    slot: Option<usize>,
}

impl WeakRef {
    /// The index of the block this handle observes, if any.
    pub closed spec fn target(&self) -> Option<nat> {
        match self.slot {
            Some(s) => Some(s as nat),
            None => None,
        }
    }

    /// A weak handle that observes nothing; upgrading it always fails.
    pub fn new_empty() -> (w: WeakRef)
        ensures
            w.target() is None,
    {
        WeakRef { slot: None }
    }
}

/// The store of control blocks that shared handles refer to.
pub struct SharedHeap<T> {
    blocks: Vec<Block<T>>,
}

impl<T> View for SharedHeap<T> {
    type V = Seq<BlockModel<T>>;

    closed spec fn view(&self) -> Seq<BlockModel<T>> {
        self.blocks@.map_values(|b: Block<T>| b.model())
    }
}

impl<T> SharedHeap<T> {
    /// Every block keeps its value exactly while it has owners.
    pub open spec fn wf(&self) -> bool {
        blocks_wf(self@)
    }

    /// `h` names a block of this heap (every live owning handle does).
    pub open spec fn owns(&self, h: &SharedCell) -> bool {
        h.id() < self@.len() && self@[h.id() as int].strong > 0
    }

    /// `w` observes nothing, or names a block of this heap that counts it.
    pub open spec fn observes(&self, w: &WeakRef) -> bool {
        match w.target() {
            Some(i) => i < self@.len() && self@[i as int].weak > 0,
            None => true,
        }
    }

    /// An empty heap.
    pub fn new() -> (heap: SharedHeap<T>)
        ensures
            heap.wf(),
            heap@ == Seq::<BlockModel<T>>::empty(),
    {
        let heap = SharedHeap { blocks: Vec::new() };
        proof {
            assert(heap@ =~= Seq::<BlockModel<T>>::empty());
        }
        heap
    }

    /// Places `value` in a new block with one owner and no observers.
    pub fn new_cell(&mut self, value: T) -> (h: SharedCell)
        requires
            old(self).wf(),
        ensures
            final(self).wf(),
            final(self)@ == old(self)@.push(fresh_block(value)),
            h.id() == old(self)@.len(),
    {
        let slot = self.blocks.len();
        self.blocks.push(Block { value: Some(value), strong: 1, weak: 0 });
        proof {
            assert(self@ =~= old(self)@.push(fresh_block(value)));
        }
        SharedCell { slot }
    }
    /// Another owning handle to the block `h` owns.
    pub fn clone_cell(&mut self, h: &SharedCell) -> (c: SharedCell)
        requires
            old(self).wf(),
            old(self).owns(h),
            old(self)@[h.id() as int].strong < usize::MAX,
        ensures
            final(self).wf(),
            final(self)@ == old(self)@.update(
                h.id() as int,
                count_step(old(self)@[h.id() as int], CountOp::Clone),
            ),
            c.id() == h.id(),
    {
        let i = h.slot;
        self.blocks[i].strong = self.blocks[i].strong + 1;
        proof {
            assert(self@ =~= old(self)@.update(
                h.id() as int,
                count_step(old(self)@[h.id() as int], CountOp::Clone),
            ));
        }
        SharedCell { slot: i }
    }

    /// Releases the owning handle `h`. When it was the last owner the value is
    /// destroyed: it is taken out of the block and handed back, and no later
    /// operation can reach it again.
    pub fn drop_cell(&mut self, h: SharedCell) -> (r: Option<T>)
        requires
            old(self).wf(),
            old(self).owns(&h),
        ensures
            final(self).wf(),
            final(self)@ == old(self)@.update(
                h.id() as int,
                count_step(old(self)@[h.id() as int], CountOp::Drop),
            ),
            r is Some <==> destroys(old(self)@[h.id() as int], CountOp::Drop),
            r is Some <==> old(self)@[h.id() as int].strong == 1,
            r is Some ==> r == old(self)@[h.id() as int].value,
    {
        let i = h.slot;
        let strong = self.blocks[i].strong;
        let r = if strong == 1 {
            self.blocks[i].strong = 0;
            self.blocks[i].value.take()
        } else {
            self.blocks[i].strong = strong - 1;
            None
        };
        proof {
            assert(self@ =~= old(self)@.update(
                h.id() as int,
                count_step(old(self)@[h.id() as int], CountOp::Drop),
            ));
        }
        r
    }

    /// A new observing handle to the block `h` owns.
    pub fn downgrade(&mut self, h: &SharedCell) -> (w: WeakRef)
        requires
            old(self).wf(),
            old(self).owns(h),
            old(self)@[h.id() as int].weak < usize::MAX,
        ensures
            final(self).wf(),
            final(self)@ == old(self)@.update(
                h.id() as int,
                count_step(old(self)@[h.id() as int], CountOp::Downgrade),
            ),
            w.target() == Some(h.id()),
    {
        let i = h.slot;
        self.blocks[i].weak = self.blocks[i].weak + 1;
        proof {
            assert(self@ =~= old(self)@.update(
                h.id() as int,
                count_step(old(self)@[h.id() as int], CountOp::Downgrade),
            ));
        }
        WeakRef { slot: Some(i) }
    }

    /// Turns the observing handle `w` into an owning one. Fails, with `None`,
    /// when `w` observes nothing or its block's value is already destroyed;
    /// otherwise the block gains an owner.
    pub fn upgrade(&mut self, w: &WeakRef) -> (r: Option<SharedCell>)
        requires
            old(self).wf(),
            old(self).observes(w),
            w.target() is Some ==> old(self)@[w.target()->0 as int].strong < usize::MAX,
        ensures
            final(self).wf(),
            r is None <==> (w.target() is None || old(self)@[w.target()->0 as int].strong == 0),
            w.target() is None ==> final(self)@ == old(self)@,
            w.target() is Some ==> final(self)@ == old(self)@.update(
                w.target()->0 as int,
                count_step(old(self)@[w.target()->0 as int], CountOp::Upgrade),
            ),
            r is Some ==> r->0.id() == w.target()->0 && final(self).owns(&r->0),
    {
        match w.slot {
            None => None,
            Some(i) => {
                let strong = self.blocks[i].strong;
                if strong == 0 {
                    proof {
                        assert(self@ =~= old(self)@.update(
                            w.target()->0 as int,
                            count_step(old(self)@[w.target()->0 as int], CountOp::Upgrade),
                        ));
                    }
                    None
                } else {
                    self.blocks[i].strong = strong + 1;
                    proof {
                        assert(self@ =~= old(self)@.update(
                            w.target()->0 as int,
                            count_step(old(self)@[w.target()->0 as int], CountOp::Upgrade),
                        ));
                    }
                    Some(SharedCell { slot: i })
                }
            },
        }
    }

    /// Releases the observing handle `w`.
    pub fn drop_weak(&mut self, w: WeakRef)
        requires
            old(self).wf(),
            old(self).observes(&w),
        ensures
            final(self).wf(),
            w.target() is None ==> final(self)@ == old(self)@,
            w.target() is Some ==> final(self)@ == old(self)@.update(
                w.target()->0 as int,
                count_step(old(self)@[w.target()->0 as int], CountOp::DropWeak),
            ),
    {
        match w.slot {
            None => {},
            Some(i) => {
                self.blocks[i].weak = self.blocks[i].weak - 1;
                proof {
                    assert(self@ =~= old(self)@.update(
                        w.target()->0 as int,
                        count_step(old(self)@[w.target()->0 as int], CountOp::DropWeak),
                    ));
                }
            },
        }
    }

    /// Read access to the value that `h` owns.
    pub fn get(&self, h: &SharedCell) -> (v: &T)
        requires
            self.wf(),
            self.owns(h),
        ensures
            Some(*v) == self@[h.id() as int].value,
    {
        proof {
            assert(self@[h.id() as int].wf());
        }
        self.blocks[h.slot].value.as_ref().unwrap()
    }

    /// Write access to the value that `h` owns, for a caller that holds the
    /// whole heap exclusively; the block's counts stay as they are.
    pub fn get_mut(&mut self, h: &SharedCell) -> (v: &mut T)
        requires
            old(self).wf(),
            old(self).owns(h),
        ensures
            Some(*v) == old(self)@[h.id() as int].value,
            blocks_wf(
                old(self)@.update(
                    h.id() as int,
                    with_value(old(self)@[h.id() as int], *final(v)),
                ),
            ),
            final(self)@ == old(self)@.update(
                h.id() as int,
                with_value(old(self)@[h.id() as int], *final(v)),
            ),
    {
        proof {
            assert(self@[h.id() as int].wf());
            assert forall|x: T|
                #![trigger old(self)@.update(h.id() as int, with_value(old(self)@[h.id() as int], x))]
                blocks_wf(
                    old(self)@.update(
                        h.id() as int,
                        with_value(old(self)@[h.id() as int], x),
                    ),
                ) by {
                let u = old(self)@.update(
                    h.id() as int,
                    with_value(old(self)@[h.id() as int], x),
                );
                assert forall|i: int| 0 <= i < u.len() implies (#[trigger] u[i]).wf() by {
                    if i != h.id() {
                        assert(old(self)@[i].wf());
                    }
                }
            }
        }
        let b = &mut self.blocks[h.slot];
        b.value.as_mut().unwrap()
    }

    /// The number of owning handles of the block that `h` owns.
    pub fn strong_count(&self, h: &SharedCell) -> (n: usize)
        requires
            self.owns(h),
        ensures
            n == self@[h.id() as int].strong,
    {
        self.blocks[h.slot].strong
    }

    /// The number of observing handles of the block that `h` owns.
    pub fn weak_count(&self, h: &SharedCell) -> (n: usize)
        requires
            self.owns(h),
        ensures
            n == self@[h.id() as int].weak,
    {
        self.blocks[h.slot].weak
    }

    /// Whether block `id` has been reclaimed: no handle of either kind remains.
    pub fn is_reclaimed(&self, id: usize) -> (r: bool)
        requires
            id < self@.len(),
        ensures
            r == self@[id as int].reclaimed(),
    {
        self.blocks[id].strong == 0 && self.blocks[id].weak == 0
    }

    /// The number of blocks ever created in this heap.
    pub fn len(&self) -> (n: usize)
        ensures
            n == self@.len(),
    {
        self.blocks.len()
    }
}

} // verus!
