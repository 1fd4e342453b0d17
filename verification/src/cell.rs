//! The orientation cell: the holder of the single latest orientation, one
//! 32-bit slot per quaternion component. A concurrent realisation keeps each
//! slot in its own relaxed atomic, written and read independently, so a load
//! that races a store can observe a torn mix of two stores — an accepted
//! design trade-off, not corrected here. This module is the cell's verified
//! sequential model: it pins down what each slot holds (the bit pattern most
//! recently written to that slot) and what `store` and `load` do to the
//! slots, one slot at a time.

use vstd::prelude::*;
use crate::quat::QuatBits;
use crate::quat::F32_ONE_BITS;

verus! {

/// Four independent 32-bit slots, one per quaternion component, each holding
/// the raw bit pattern of an `f32`. There is no invariant tying the four
/// slots together: under concurrent access each slot simply holds whatever
/// was last written to it.
#[derive(Clone, Copy, Debug, PartialEq, Eq, Structural)]
pub struct AtomicQuat {
    pub x: u32,
    pub y: u32,
    pub z: u32,
    pub w: u32,
}

impl View for AtomicQuat {
    type V = QuatBits;

    /// The quaternion assembled from whatever the four slots hold.
    open spec fn view(&self) -> QuatBits {
        QuatBits { x: self.x, y: self.y, z: self.z, w: self.w }
    }
}

/// What `store` does to the cell: every slot is overwritten with the
/// corresponding component of `q`; nothing of the old value survives.
pub open spec fn spec_store(cell: AtomicQuat, q: QuatBits) -> AtomicQuat {
    AtomicQuat { x: q.x, y: q.y, z: q.z, w: q.w }
}

/// What `load` reads from the cell: the quaternion made of the four slots as
/// they stand, whatever mix of stores put them there.
pub open spec fn spec_load(cell: AtomicQuat) -> QuatBits {
    cell@
}

impl AtomicQuat {
    /// A fresh cell holding the identity orientation `(0, 0, 0, 1)`.
    pub fn new() -> (r: AtomicQuat)
        ensures
            r@ == QuatBits::spec_identity(),
    {
        AtomicQuat { x: 0, y: 0, z: 0, w: F32_ONE_BITS }
    }

    /// Write `q` into the cell, each component into its own slot
    /// independently. Never fails.
    pub fn store(&mut self, q: QuatBits)
        ensures
            *final(self) == spec_store(*old(self), q),
            final(self)@ == q,
    {
        self.x = q.x;
        self.y = q.y;
        self.z = q.z;
        self.w = q.w;
    }

    /// Read the cell, each slot independently, and reassemble a quaternion
    /// from whatever four values are present. Never fails.
    pub fn load(&self) -> (r: QuatBits)
        ensures
            r == spec_load(*self),
    {
        QuatBits { x: self.x, y: self.y, z: self.z, w: self.w }
    }
}

/// Round trip: a `load` after a `store` of `q` returns exactly `q` — this
/// holds exactly when no other store interleaves between the two, which in
/// this sequential model is always.
pub proof fn lemma_store_load_round_trip(cell: AtomicQuat, q: QuatBits)
    ensures
        spec_load(spec_store(cell, q)) == q,
{
}

/// Each component of `c` is the corresponding component of `q1` or of `q2`:
/// the cell states reachable when the slot writes of two stores interleave,
/// each slot keeping whichever of the two wrote it last.
pub open spec fn torn_mix_of(c: QuatBits, q1: QuatBits, q2: QuatBits) -> bool {
    &&& (c.x == q1.x || c.x == q2.x)
    &&& (c.y == q1.y || c.y == q2.y)
    &&& (c.z == q1.z || c.z == q2.z)
    &&& (c.w == q1.w || c.w == q2.w)
}

/// One write of a single 32-bit slot. A concurrent `store` is not one event
/// but four of these, one per component, and a racing reader can see the
/// cell between any two of them.
pub enum SlotWrite {
    X(u32),
    Y(u32),
    Z(u32),
    W(u32),
}

/// The cell after one slot write: that slot holds the written value, the
/// other three are untouched.
pub open spec fn apply_write(c: AtomicQuat, wr: SlotWrite) -> AtomicQuat {
    match wr {
        SlotWrite::X(v) => AtomicQuat { x: v, ..c },
        SlotWrite::Y(v) => AtomicQuat { y: v, ..c },
        SlotWrite::Z(v) => AtomicQuat { z: v, ..c },
        SlotWrite::W(v) => AtomicQuat { w: v, ..c },
    }
}

/// The cell after a sequence of slot writes, applied in order.
pub open spec fn apply_writes(c: AtomicQuat, ws: Seq<SlotWrite>) -> AtomicQuat
    decreases ws.len(),
{
    if ws.len() <= 0 {
        c
    } else {
        apply_writes(apply_write(c, ws[0]), ws.skip(1))
    }
}

/// The four slot writes that `store(q)` performs, in order.
pub open spec fn store_writes(q: QuatBits) -> Seq<SlotWrite> {
    seq![SlotWrite::X(q.x), SlotWrite::Y(q.y), SlotWrite::Z(q.z), SlotWrite::W(q.w)]
}

/// `ws` merges `a` and `b`, keeping the order of each: how the slot writes
/// of two unsynchronised stores can reach the cell.
pub open spec fn is_interleaving(
    ws: Seq<SlotWrite>,
    a: Seq<SlotWrite>,
    b: Seq<SlotWrite>,
) -> bool
    decreases ws.len(),
{
    if a.len() == 0 {
        ws == b
    } else if b.len() == 0 {
        ws == a
    } else if ws.len() == 0 {
        false
    } else {
        ||| (ws[0] == a[0] && is_interleaving(ws.skip(1), a.skip(1), b))
        ||| (ws[0] == b[0] && is_interleaving(ws.skip(1), a, b.skip(1)))
    }
}

/// Slot `k` of the cell, slots numbered in write order x, y, z, w.
spec fn slot_of(c: AtomicQuat, k: int) -> u32 {
    if k == 0 {
        c.x
    } else if k == 1 {
        c.y
    } else if k == 2 {
        c.z
    } else {
        c.w
    }
}

/// Component `k` of the quaternion, in the same numbering.
spec fn comp_of(q: QuatBits, k: int) -> u32 {
    if k == 0 {
        q.x
    } else if k == 1 {
        q.y
    } else if k == 2 {
        q.z
    } else {
        q.w
    }
}

/// Slot `k` holds the component one of the two stores wrote.
spec fn slot_from_either(c: AtomicQuat, q1: QuatBits, q2: QuatBits, k: int) -> bool {
    slot_of(c, k) == comp_of(q1, k) || slot_of(c, k) == comp_of(q2, k)
}

/// Induction for the interleaving theorem, over the tails of the two
/// stores' write sequences: `i` and `j` slots of each are already applied,
/// and every slot both stores are finished with holds a component of one of
/// them; after the remaining writes land, every slot does.
proof fn lemma_interleaving_covers(
    c: AtomicQuat,
    ws: Seq<SlotWrite>,
    q1: QuatBits,
    q2: QuatBits,
    i: int,
    j: int,
)
    requires
        0 <= i <= 4,
        0 <= j <= 4,
        is_interleaving(ws, store_writes(q1).skip(i), store_writes(q2).skip(j)),
        forall|k: int| 0 <= k < i && k < j ==> slot_from_either(c, q1, q2, k),
    ensures
        forall|k: int| 0 <= k < 4 ==> slot_from_either(apply_writes(c, ws), q1, q2, k),
    decreases ws.len(),
{
    let a = store_writes(q1).skip(i);
    let b = store_writes(q2).skip(j);
    assert(store_writes(q1).len() == 4);
    assert(store_writes(q2).len() == 4);
    assert(a.len() == 4 - i);
    assert(b.len() == 4 - j);
    if ws.len() == 0 {
        assert(i == 4 && j == 4);
        assert(apply_writes(c, ws) == c);
    } else if a.len() == 0 {
        assert(ws == b);
        assert(ws[0] == store_writes(q2)[j]);
        lemma_store_writes_elem(q2, j);
        let c2 = apply_write(c, ws[0]);
        assert forall|k: int| 0 <= k < i && k < j + 1 implies slot_from_either(
            c2, q1, q2, k,
        ) by {
            lemma_write_keeps_and_sets(c, q2, j, q1, q2, k);
        }
        assert(store_writes(q2).skip(j).skip(1) =~= store_writes(q2).skip(j + 1));
        assert(ws.skip(1) == store_writes(q2).skip(j + 1));
        lemma_interleaving_covers(c2, ws.skip(1), q1, q2, i, j + 1);
        assert(apply_writes(c, ws) == apply_writes(c2, ws.skip(1)));
    } else if b.len() == 0 {
        assert(ws == a);
        assert(ws[0] == store_writes(q1)[i]);
        lemma_store_writes_elem(q1, i);
        let c2 = apply_write(c, ws[0]);
        assert forall|k: int| 0 <= k < i + 1 && k < j implies slot_from_either(
            c2, q1, q2, k,
        ) by {
            lemma_write_keeps_and_sets(c, q1, i, q1, q2, k);
        }
        assert(store_writes(q1).skip(i).skip(1) =~= store_writes(q1).skip(i + 1));
        assert(ws.skip(1) == store_writes(q1).skip(i + 1));
        if i + 1 == 4 {
            assert(ws.skip(1) =~= store_writes(q2).skip(j));
        }
        lemma_interleaving_covers(c2, ws.skip(1), q1, q2, i + 1, j);
        assert(apply_writes(c, ws) == apply_writes(c2, ws.skip(1)));
    } else if ws[0] == a[0] && is_interleaving(ws.skip(1), a.skip(1), b) {
        assert(ws[0] == store_writes(q1)[i]);
        lemma_store_writes_elem(q1, i);
        let c2 = apply_write(c, ws[0]);
        assert forall|k: int| 0 <= k < i + 1 && k < j implies slot_from_either(
            c2, q1, q2, k,
        ) by {
            lemma_write_keeps_and_sets(c, q1, i, q1, q2, k);
        }
        assert(store_writes(q1).skip(i).skip(1) =~= store_writes(q1).skip(i + 1));
        lemma_interleaving_covers(c2, ws.skip(1), q1, q2, i + 1, j);
        assert(apply_writes(c, ws) == apply_writes(c2, ws.skip(1)));
    } else {
        assert(ws[0] == store_writes(q2)[j]);
        lemma_store_writes_elem(q2, j);
        let c2 = apply_write(c, ws[0]);
        assert forall|k: int| 0 <= k < i && k < j + 1 implies slot_from_either(
            c2, q1, q2, k,
        ) by {
            lemma_write_keeps_and_sets(c, q2, j, q1, q2, k);
        }
        assert(store_writes(q2).skip(j).skip(1) =~= store_writes(q2).skip(j + 1));
        lemma_interleaving_covers(c2, ws.skip(1), q1, q2, i, j + 1);
        assert(apply_writes(c, ws) == apply_writes(c2, ws.skip(1)));
    }
}

/// The write at position `p` of `q`'s store sequence sets slot `p` to `q`'s
/// component `p` and leaves every other slot as it was.
proof fn lemma_write_keeps_and_sets(
    c: AtomicQuat,
    q: QuatBits,
    p: int,
    q1: QuatBits,
    q2: QuatBits,
    k: int,
)
    requires
        0 <= p < 4,
        0 <= k < 4,
        q == q1 || q == q2,
        k != p ==> slot_from_either(c, q1, q2, k),
    ensures
        slot_from_either(apply_write(c, store_writes(q)[p]), q1, q2, k),
{
    lemma_store_writes_elem(q, p);
}

/// The write at position `k` of a store's sequence targets slot `k` and
/// carries component `k`.
proof fn lemma_store_writes_elem(q: QuatBits, k: int)
    requires
        0 <= k < 4,
    ensures
        store_writes(q)[k] == (if k == 0 {
            SlotWrite::X(q.x)
        } else if k == 1 {
            SlotWrite::Y(q.y)
        } else if k == 2 {
            SlotWrite::Z(q.z)
        } else {
            SlotWrite::W(q.w)
        }),
{
}

/// Per-field last-writer-wins under concurrency: however the eight slot
/// writes of two unsynchronised stores of `q1` and `q2` interleave, each
/// slot ends holding the component whichever of the two wrote it last, so a
/// subsequent load returns a quaternion whose every component equals the
/// corresponding component of `q1` or of `q2` — possibly a torn mix of the
/// two, never a value that was never stored.
pub proof fn lemma_per_field_last_writer_wins(
    cell: AtomicQuat,
    ws: Seq<SlotWrite>,
    q1: QuatBits,
    q2: QuatBits,
)
    requires
        is_interleaving(ws, store_writes(q1), store_writes(q2)),
    ensures
        torn_mix_of(spec_load(apply_writes(cell, ws)), q1, q2),
{
    assert(store_writes(q1).skip(0) =~= store_writes(q1));
    assert(store_writes(q2).skip(0) =~= store_writes(q2));
    lemma_interleaving_covers(cell, ws, q1, q2, 0, 0);
    let end = apply_writes(cell, ws);
    assert(slot_from_either(end, q1, q2, 0));
    assert(slot_from_either(end, q1, q2, 1));
    assert(slot_from_either(end, q1, q2, 2));
    assert(slot_from_either(end, q1, q2, 3));
}

/// `store` is exactly its four slot writes applied in order: the
/// interleaving model above, in the case where nothing runs in between.
pub proof fn lemma_store_is_its_slot_writes(c: AtomicQuat, q: QuatBits)
    ensures
        spec_store(c, q) == apply_writes(c, store_writes(q)),
{
    let ws = store_writes(q);
    let w1 = seq![SlotWrite::Y(q.y), SlotWrite::Z(q.z), SlotWrite::W(q.w)];
    let w2 = seq![SlotWrite::Z(q.z), SlotWrite::W(q.w)];
    let w3 = seq![SlotWrite::W(q.w)];
    let w4 = Seq::<SlotWrite>::empty();
    assert(ws.skip(1) =~= w1);
    assert(w1.skip(1) =~= w2);
    assert(w2.skip(1) =~= w3);
    assert(w3.skip(1) =~= w4);
    assert(apply_writes(c, ws) == apply_writes(apply_write(c, ws[0]), w1));
    let c1 = apply_write(c, ws[0]);
    assert(apply_writes(c1, w1) == apply_writes(apply_write(c1, w1[0]), w2));
    let c2 = apply_write(c1, w1[0]);
    assert(apply_writes(c2, w2) == apply_writes(apply_write(c2, w2[0]), w3));
    let c3 = apply_write(c2, w2[0]);
    assert(apply_writes(c3, w3) == apply_writes(apply_write(c3, w3[0]), w4));
}

/// Running one write sequence to completion and then the other is itself an
/// interleaving of the two — the degenerate race.
pub proof fn lemma_sequential_is_interleaving(a: Seq<SlotWrite>, b: Seq<SlotWrite>)
    ensures
        is_interleaving(a + b, a, b),
    decreases a.len(),
{
    if a.len() == 0 {
        assert(a + b =~= b);
    } else if b.len() == 0 {
        assert(a + b =~= a);
    } else {
        assert((a + b)[0] == a[0]);
        assert((a + b).skip(1) =~= a.skip(1) + b);
        lemma_sequential_is_interleaving(a.skip(1), b);
    }
}

/// Applying an appended write sequence is applying the two in turn.
proof fn lemma_apply_writes_add(c: AtomicQuat, s1: Seq<SlotWrite>, s2: Seq<SlotWrite>)
    ensures
        apply_writes(c, s1 + s2) == apply_writes(apply_writes(c, s1), s2),
    decreases s1.len(),
{
    if s1.len() == 0 {
        assert(s1 + s2 =~= s2);
        assert(apply_writes(c, s1) == c);
    } else {
        assert((s1 + s2)[0] == s1[0]);
        assert((s1 + s2).skip(1) =~= s1.skip(1) + s2);
        lemma_apply_writes_add(apply_write(c, s1[0]), s1.skip(1), s2);
    }
}

/// The round trip breaks exactly when another store interleaves: when a
/// whole second store of `q2` lands between a store of `q1` and the load,
/// the load returns `q2` — the latest value wins, the older one is
/// discarded without queueing.
pub proof fn lemma_second_store_wins(c: AtomicQuat, q1: QuatBits, q2: QuatBits)
    ensures
        spec_load(apply_writes(c, store_writes(q1) + store_writes(q2))) == q2,
{
    lemma_apply_writes_add(c, store_writes(q1), store_writes(q2));
    lemma_store_is_its_slot_writes(c, q1);
    lemma_store_is_its_slot_writes(apply_writes(c, store_writes(q1)), q2);
}

/// A torn mix of two equal orientations is not observable: however two
/// stores of the same value `q` interleave, any load returns exactly `q`.
pub proof fn lemma_equal_stores_not_torn(cell: AtomicQuat, ws: Seq<SlotWrite>, q: QuatBits)
    requires
        is_interleaving(ws, store_writes(q), store_writes(q)),
    ensures
        spec_load(apply_writes(cell, ws)) == q,
{
    lemma_per_field_last_writer_wins(cell, ws, q, q);
}

} // verus!
