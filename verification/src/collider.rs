//! Axis-aligned colliders: the bounding box, the per-tick list of recorded
//! contacts, and the bitmask of occupied sides for O(1) side queries.

use vstd::prelude::*;
use crate::world::Vec2i;

verus! {

/// Which side of an entity a contact touches.
#[derive(PartialEq, Eq, Structural, Debug, Clone, Copy)]
pub enum CollidingSide {
    Top,
    Bottom,
    Left,
    Right,
}

/// The bit each side occupies in a side mask. The mapping is fixed here
/// rather than derived from declaration order.
pub open spec fn side_bit_spec(side: CollidingSide) -> u8 {
    match side {
        CollidingSide::Top => 1u8,
        CollidingSide::Bottom => 2u8,
        CollidingSide::Left => 4u8,
        CollidingSide::Right => 8u8,
    }
}

/// Whether `mask` has the bit of `side` set.
pub open spec fn mask_has(mask: u8, side: CollidingSide) -> bool {
    mask & side_bit_spec(side) != 0
}

/// The side the counterpart of a contact records.
pub open spec fn opposite_spec(side: CollidingSide) -> CollidingSide {
    match side {
        CollidingSide::Top => CollidingSide::Bottom,
        CollidingSide::Bottom => CollidingSide::Top,
        CollidingSide::Left => CollidingSide::Right,
        CollidingSide::Right => CollidingSide::Left,
    }
}

impl CollidingSide {
    pub fn opposite(&self) -> (r: Self)
        ensures
            r == opposite_spec(*self),
    {
        match self {
            CollidingSide::Top => CollidingSide::Bottom,
            CollidingSide::Bottom => CollidingSide::Top,
            CollidingSide::Left => CollidingSide::Right,
            CollidingSide::Right => CollidingSide::Left,
        }
    }

    /// The mask bit of this side.
    pub fn bit(&self) -> (r: u8)
        ensures
            r == side_bit_spec(*self),
    {
        match self {
            CollidingSide::Top => 1u8,
            CollidingSide::Bottom => 2u8,
            CollidingSide::Left => 4u8,
            CollidingSide::Right => 8u8,
        }
    }
}

/// Bit-level facts about side masks: OR distributes over membership, side
/// bits are pairwise disjoint, and the upper four bits stay clear.
pub proof fn lemma_mask_bits()
    by (bit_vector)
    ensures
        forall|m: u8, b: u8, t: u8| (#[trigger] ((m | b) & t) != 0) == ((m & t != 0) || (b & t
            != 0)),
        forall|t: u8| #[trigger] (0u8 & t) == 0,
        forall|a: u8, b: u8|
            (a == 1 || a == 2 || a == 4 || a == 8) && (b == 1 || b == 2 || b == 4 || b == 8)
                ==> ((#[trigger] (a & b) != 0) == (a == b)),
        forall|a: u8| (a == 1 || a == 2 || a == 4 || a == 8) ==> #[trigger] (a & 0xf0) == 0,
        forall|m: u8, b: u8| (m & 0xf0 == 0 && b & 0xf0 == 0) ==> #[trigger] ((m | b) & 0xf0)
            == 0,
{
}

/// One recorded contact: the other entity, the side it touches, how deep
/// the boxes overlap, and whether the contact is solid on both ends.
#[derive(PartialEq, Eq, Structural, Debug, Clone, Copy)]
pub struct CollisionRecord {
    pub entity: usize,
    pub side: CollidingSide,
    pub overlap: i64,
    pub solid: bool,
}

/// The mask the sides of a record list OR together to.
pub open spec fn mask_of(recs: Seq<CollisionRecord>) -> u8
    decreases recs.len(),
{
    if recs.len() == 0 {
        0u8
    } else {
        mask_of(recs.drop_last()) | side_bit_spec(recs.last().side)
    }
}

/// ORing one side bit into a mask marks exactly that side.
pub proof fn lemma_mask_has_or(m: u8, b: CollidingSide)
    ensures
        forall|side: CollidingSide|
            #[trigger] mask_has(m | side_bit_spec(b), side) == (mask_has(m, side) || side == b),
{
    let bb = side_bit_spec(b);
    assert forall|side: CollidingSide|
        #[trigger] mask_has(m | bb, side) == (mask_has(m, side) || side == b) by {
        let t = side_bit_spec(side);
        assert(bb == 1 || bb == 2 || bb == 4 || bb == 8);
        assert(t == 1 || t == 2 || t == 4 || t == 8);
        assert((((m | bb) & t) != 0) == ((m & t != 0) || (bb & t != 0))) by (bit_vector);
        assert((bb & t != 0) == (bb == t)) by (bit_vector)
            requires
                bb == 1 || bb == 2 || bb == 4 || bb == 8,
                t == 1 || t == 2 || t == 4 || t == 8,
        ;
        assert((bb == t) == (b == side));
    }
}

/// A record list occupies a side exactly when one of its records lies on
/// that side, and its mask keeps the upper bits clear.
pub proof fn lemma_mask_of_has(recs: Seq<CollisionRecord>)
    ensures
        forall|side: CollidingSide|
            #[trigger] mask_has(mask_of(recs), side) <==> exists|i: int|
                0 <= i < recs.len() && recs[i].side == side,
        mask_of(recs) & 0xf0 == 0,
    decreases recs.len(),
{
    lemma_mask_bits();
    if recs.len() > 0 {
        lemma_mask_of_has(recs.drop_last());
        lemma_mask_has_or(mask_of(recs.drop_last()), recs.last().side);
        assert forall|side: CollidingSide| #[trigger] mask_has(mask_of(recs), side) implies exists|
            i: int,
        | 0 <= i < recs.len() && recs[i].side == side by {
            if mask_has(mask_of(recs.drop_last()), side) {
                let i = choose|i: int|
                    0 <= i < recs.drop_last().len() && recs.drop_last()[i].side == side;
                assert(recs[i].side == side);
            } else {
                assert(recs[recs.len() - 1].side == side);
            }
        }
        assert forall|side: CollidingSide|
            exists|i: int| 0 <= i < recs.len() && recs[i].side == side implies #[trigger] mask_has(
            mask_of(recs),
            side,
        ) by {
            let i = choose|i: int| 0 <= i < recs.len() && recs[i].side == side;
            if i < recs.len() - 1 {
                assert(recs.drop_last()[i].side == side);
            }
        }
    }
}

/// The first record in `recs` that names `entity`, if any.
pub open spec fn find_rec(recs: Seq<CollisionRecord>, entity: int) -> Option<CollisionRecord>
    decreases recs.len(),
{
    if recs.len() == 0 {
        None
    } else if recs[0].entity == entity {
        Some(recs[0])
    } else {
        find_rec(recs.subrange(1, recs.len() as int), entity)
    }
}


/// A found record names the entity it was looked up by and sits in the
/// list.
pub proof fn lemma_find_rec_some(recs: Seq<CollisionRecord>, e: int)
    ensures
        find_rec(recs, e) matches Some(r) ==> (exists|i: int|
            0 <= i < recs.len() && recs[i] == r) && r.entity == e,
    decreases recs.len(),
{
    if recs.len() > 0 && recs[0].entity != e {
        let sub = recs.subrange(1, recs.len() as int);
        lemma_find_rec_some(sub, e);
        if find_rec(recs, e) is Some {
            let r = find_rec(recs, e)->0;
            let i = choose|i: int| 0 <= i < sub.len() && sub[i] == r;
            assert(recs[i + 1] == r);
        }
    }
}

/// A list none of whose records name `e` has nothing to find for `e`.
pub proof fn lemma_find_rec_none(recs: Seq<CollisionRecord>, e: int)
    requires
        forall|i: int| 0 <= i < recs.len() ==> (#[trigger] recs[i]).entity != e,
    ensures
        find_rec(recs, e) is None,
    decreases recs.len(),
{
    if recs.len() > 0 {
        let sub = recs.subrange(1, recs.len() as int);
        assert(forall|i: int| 0 <= i < sub.len() ==> (#[trigger] sub[i]).entity != e);
        lemma_find_rec_none(sub, e);
    }
}

/// Appending a record changes a lookup only where nothing was found yet
/// and the new record names the entity.
pub proof fn lemma_find_rec_push(recs: Seq<CollisionRecord>, x: CollisionRecord, e: int)
    ensures
        find_rec(recs.push(x), e) == if find_rec(recs, e) is Some {
            find_rec(recs, e)
        } else if x.entity == e {
            Some(x)
        } else {
            None::<CollisionRecord>
        },
    decreases recs.len(),
{
    let p = recs.push(x);
    if recs.len() == 0 {
        assert(p[0] == x);
        if x.entity != e {
            assert(p.subrange(1, 1) =~= Seq::<CollisionRecord>::empty());
            assert(find_rec(p, e) == find_rec(p.subrange(1, 1), e));
            assert(find_rec(p, e) is None);
        } else {
            assert(find_rec(p, e) == Some(x));
        }
        assert(find_rec(recs, e) is None);
    } else {
        assert(p[0] == recs[0]);
        if recs[0].entity == e {
            assert(find_rec(p, e) == Some(recs[0]));
            assert(find_rec(recs, e) == Some(recs[0]));
        } else {
            let sub = recs.subrange(1, recs.len() as int);
            assert(p.subrange(1, p.len() as int) =~= sub.push(x));
            lemma_find_rec_push(sub, x, e);
            assert(find_rec(p, e) == find_rec(sub.push(x), e));
            assert(find_rec(recs, e) == find_rec(sub, e));
        }
    }
}

/// The entities of the records lying on `side`, in list order.
pub open spec fn entities_on_side(recs: Seq<CollisionRecord>, side: CollidingSide) -> Seq<usize>
    decreases recs.len(),
{
    if recs.len() == 0 {
        Seq::empty()
    } else {
        let rest = entities_on_side(recs.drop_last(), side);
        if recs.last().side == side {
            rest.push(recs.last().entity)
        } else {
            rest
        }
    }
}

/// The view of a collider: the same data with the record list as a sequence.
#[verifier::ext_equal]
pub struct ColliderView {
    pub bounding_box: Vec2i,
    pub collisions: Seq<CollisionRecord>,
    pub colliding_side: u8,
}

/// A fixed-size bounding box plus the transient contacts recorded for the
/// current tick. The list and mask are rebuilt from scratch every tick.
#[derive(Debug)]
pub struct Collider {
    pub bounding_box: Vec2i,
    pub collisions: Vec<CollisionRecord>,
    pub colliding_side: u8,
}

impl View for Collider {
    type V = ColliderView;

    open spec fn view(&self) -> ColliderView {
        ColliderView {
            bounding_box: self.bounding_box,
            collisions: self.collisions@,
            colliding_side: self.colliding_side,
        }
    }
}

/// The side mask matches the record list and keeps its upper bits clear.
pub open spec fn collider_wf(c: ColliderView) -> bool {
    c.colliding_side == mask_of(c.collisions)
}

impl Collider {
    /// A fresh collider around the absolute value of the given extents,
    /// with no contacts recorded.
    pub fn new(bounding_box: Vec2i) -> (c: Self)
        requires
            bounding_box.x != i64::MIN,
            bounding_box.y != i64::MIN,
        ensures
            c@.bounding_box.x == vstd::math::abs(bounding_box.x as int),
            c@.bounding_box.y == vstd::math::abs(bounding_box.y as int),
            c@.collisions == Seq::<CollisionRecord>::empty(),
            c@.colliding_side == 0,
            collider_wf(c@),
    {
        let ax = if bounding_box.x < 0 {
            -bounding_box.x
        } else {
            bounding_box.x
        };
        let ay = if bounding_box.y < 0 {
            -bounding_box.y
        } else {
            bounding_box.y
        };
        let c = Self { bounding_box: Vec2i { x: ax, y: ay }, collisions: Vec::new(), colliding_side: 0 };
        assert(c.collisions@ =~= Seq::<CollisionRecord>::empty());
        c
    }

    /// Whether any contact occupies `side`, answered from the bitmask.
    pub fn check_colliding_side(&self, side: CollidingSide) -> (r: bool)
        ensures
            r == mask_has(self@.colliding_side, side),
    {
        self.colliding_side & side.bit() > 0
    }

    /// Whether a contact on `side` is solid on both ends.
    pub fn check_colliding_solid_side(&self, side: CollidingSide) -> (r: bool)
        ensures
            r == exists|i: int|
                0 <= i < self@.collisions.len() && self@.collisions[i].side == side
                    && self@.collisions[i].solid,
    {
        let n = self.collisions.len();
        let mut k: usize = 0;
        while k < n
            invariant
                n == self.collisions@.len(),
                0 <= k <= n,
                forall|i: int|
                    0 <= i < k ==> !(self.collisions@[i].side == side
                        && self.collisions@[i].solid),
            decreases n - k,
        {
            let rec = self.collisions[k];
            if rec.side == side && rec.solid {
                return true;
            }
            k = k + 1;
        }
        false
    }

    /// All entities recorded on `side`, in the order they were recorded.
    pub fn get_all_colliding_side(&self, side: CollidingSide) -> (r: Vec<usize>)
        ensures
            r@ == entities_on_side(self@.collisions, side),
    {
        let n = self.collisions.len();
        let mut r: Vec<usize> = Vec::new();
        let mut k: usize = 0;
        while k < n
            invariant
                n == self.collisions@.len(),
                0 <= k <= n,
                r@ == entities_on_side(self.collisions@.subrange(0, k as int), side),
            decreases n - k,
        {
            let rec = self.collisions[k];
            proof {
                assert(self.collisions@.subrange(0, k + 1 as int).drop_last() =~= self.collisions@
                    .subrange(0, k as int));
                assert(self.collisions@.subrange(0, k + 1 as int).last() == self.collisions@[k as int]);
            }
            if rec.side == side {
                r.push(rec.entity);
            }
            k = k + 1;
        }
        proof {
            assert(self.collisions@.subrange(0, n as int) =~= self.collisions@);
        }
        r
    }

    /// Records one contact and marks its side in the bitmask.
    pub fn add_collision(
        &mut self,
        entity: usize,
        colliding_side: CollidingSide,
        overlap: i64,
        solid: bool,
    )
        ensures
            final(self)@.bounding_box == old(self)@.bounding_box,
            final(self)@.collisions == old(self)@.collisions.push(
                CollisionRecord { entity, side: colliding_side, overlap, solid },
            ),
            final(self)@.colliding_side == old(self)@.colliding_side | side_bit_spec(
                colliding_side,
            ),
            collider_wf(old(self)@) ==> collider_wf(final(self)@),
    {
        self.collisions.push(CollisionRecord { entity, side: colliding_side, overlap, solid });
        self.colliding_side = self.colliding_side | colliding_side.bit();
        proof {
            assert(self.collisions@.drop_last() =~= old(self).collisions@);
        }
    }

    /// Forgets all contacts and clears the bitmask.
    pub fn clear_collisions(&mut self)
        ensures
            final(self)@.bounding_box == old(self)@.bounding_box,
            final(self)@.collisions == Seq::<CollisionRecord>::empty(),
            final(self)@.colliding_side == 0,
            collider_wf(final(self)@),
    {
        self.colliding_side = 0;
        self.collisions.clear();
        proof {
            assert(self.collisions@ =~= Seq::<CollisionRecord>::empty());
        }
    }

    /// The side, overlap and solidity of the first contact recorded against
    /// `entity`, if there is one.
    pub fn colliding_with(&self, entity: usize) -> (r: Option<(CollidingSide, i64, bool)>)
        ensures
            r == match find_rec(self@.collisions, entity as int) {
                Some(rec) => Some((rec.side, rec.overlap, rec.solid)),
                None => None::<(CollidingSide, i64, bool)>,
            },
    {
        let n = self.collisions.len();
        assert(self.collisions@.subrange(0, n as int) =~= self.collisions@);
        let mut k: usize = 0;
        while k < n
            invariant
                n == self.collisions@.len(),
                0 <= k <= n,
                find_rec(self.collisions@, entity as int) == find_rec(
                    self.collisions@.subrange(k as int, n as int),
                    entity as int,
                ),
            decreases n - k,
        {
            let rec = self.collisions[k];
            proof {
                assert(self.collisions@.subrange(k as int, n as int).subrange(
                    1,
                    (n - k) as int,
                ) =~= self.collisions@.subrange(k + 1 as int, n as int));
            }
            if rec.entity == entity {
                return Some((rec.side, rec.overlap, rec.solid));
            }
            k = k + 1;
        }
        None
    }
}

} // verus!
