//! Solid push-out resolution: overlapping pairs of solid-flagged entities
//! are separated along the recorded contact side, splitting the correction
//! or assigning it wholly, by a case table over the two solid flags and the
//! two side masks. A visited-pairs set keeps a correction from being applied
//! twice for the same contact.

use vstd::prelude::*;
use crate::collider::{find_rec, mask_has, opposite_spec, CollidingSide};
use crate::world::{pos_of, solid_trio, BodyView, Solid, Transform, Vec2i, World};

verus! {

/// Deepest overlap the resolver accepts; detection stays below it whenever
/// box extents do.
pub const OVERLAP_LIMIT: i64 = 0x100_0000;

/// Largest coordinate magnitude the resolver accepts without overflowing.
pub const RESOLVE_POS_LIMIT: i64 = 0x400_0000_0000_0000;

/// Most entities the resolver accepts, so that summed corrections stay in
/// range.
pub const MAX_BODIES: usize = 0x10_0000;

/// The set of ordered entity pairs already resolved this tick.
#[derive(Debug)]
pub struct ResolvedPairs {
    pub pairs: Vec<(usize, usize)>,
}

impl View for ResolvedPairs {
    type V = Set<(int, int)>;

    open spec fn view(&self) -> Set<(int, int)> {
        Set::new(
            |p: (int, int)|
                exists|i: int|
                    0 <= i < self.pairs@.len() && p == (
                        #[trigger] self.pairs@[i].0 as int,
                        self.pairs@[i].1 as int,
                    ),
        )
    }
}

impl ResolvedPairs {
    /// An empty set: nothing resolved yet this tick.
    pub fn new() -> (r: Self)
        ensures
            r@ == Set::<(int, int)>::empty(),
    {
        let r = ResolvedPairs { pairs: Vec::new() };
        proof {
            assert(r@ =~= Set::<(int, int)>::empty());
        }
        r
    }

    /// Whether the ordered pair `(a, b)` was already resolved.
    pub fn contains(&self, a: usize, b: usize) -> (r: bool)
        ensures
            r == self@.contains((a as int, b as int)),
    {
        let n = self.pairs.len();
        let mut i: usize = 0;
        while i < n
            invariant
                n == self.pairs@.len(),
                0 <= i <= n,
                forall|t: int|
                    0 <= t < i ==> !((#[trigger] self.pairs@[t].0 as int, self.pairs@[t].1 as int)
                        == (a as int, b as int)),
            decreases n - i,
        {
            let p = self.pairs[i];
            if p.0 == a && p.1 == b {
                return true;
            }
            i = i + 1;
        }
        false
    }

    /// Marks the ordered pair `(a, b)` resolved.
    pub fn insert(&mut self, a: usize, b: usize)
        ensures
            final(self)@ == old(self)@.insert((a as int, b as int)),
    {
        self.pairs.push((a, b));
        proof {
            assert forall|p: (int, int)| final(self)@.contains(p) implies old(self)@.insert(
                (a as int, b as int),
            ).contains(p) by {
                let i = choose|i: int|
                    0 <= i < self.pairs@.len() && p == (
                        #[trigger] self.pairs@[i].0 as int,
                        self.pairs@[i].1 as int,
                    );
                if i < self.pairs@.len() - 1 {
                    assert(old(self).pairs@[i] == self.pairs@[i]);
                }
            }
            assert forall|p: (int, int)|
                old(self)@.insert((a as int, b as int)).contains(p) implies final(self)@.contains(
                p,
            ) by {
                if old(self)@.contains(p) {
                    let i = choose|i: int|
                        0 <= i < old(self).pairs@.len() && p == (
                            #[trigger] old(self).pairs@[i].0 as int,
                            old(self).pairs@[i].1 as int,
                        );
                    assert(p == (self.pairs@[i].0 as int, self.pairs@[i].1 as int));
                } else {
                    let i = self.pairs@.len() - 1;
                    assert(p == (self.pairs@[i].0 as int, self.pairs@[i].1 as int));
                }
            }
            assert(final(self)@ =~= old(self)@.insert((a as int, b as int)));
        }
    }
}

/// The push-out an entity applies to itself for a contact on `side` with
/// overlap `ov`: away from the side, by the full depth.
pub open spec fn movement_of(side: CollidingSide, ov: int) -> (int, int) {
    match side {
        CollidingSide::Top => (0, -ov),
        CollidingSide::Bottom => (0, ov),
        CollidingSide::Left => (ov, 0),
        CollidingSide::Right => (-ov, 0),
    }
}

/// Half of the push-out, for an evenly split correction. The depth is
/// halved before the sign is applied, so both halves round toward zero.
pub open spec fn half_movement_of(side: CollidingSide, ov: int) -> (int, int) {
    match side {
        CollidingSide::Top => (0, -(ov / 2)),
        CollidingSide::Bottom => (0, ov / 2),
        CollidingSide::Left => (ov / 2, 0),
        CollidingSide::Right => (-(ov / 2), 0),
    }
}

/// Entity `k` keeps a contact record against entity `j`, and both take part
/// in solid resolution.
pub open spec fn pair_recorded(w: Seq<BodyView>, k: int, j: int) -> bool {
    &&& 0 <= k < w.len()
    &&& 0 <= j < w.len()
    &&& j != k
    &&& solid_trio(w[k])
    &&& solid_trio(w[j])
    &&& find_rec((w[k].collider->0).collisions, j) is Some
}

/// All ordered pairs with a recorded contact among resolution-eligible
/// entities.
pub open spec fn recorded_pairs(w: Seq<BodyView>) -> Set<(int, int)> {
    Set::new(|p: (int, int)| pair_recorded(w, p.0, p.1))
}

/// The correction entity `k` applies to itself for its contact with entity
/// `j`, given the already-resolved pairs `hs`. Zero unless the pair is
/// recorded and unresolved; otherwise the case table over the two solid
/// flags and the two side masks decides between a half share, the full
/// push-out, and nothing:
/// both solid and neither side pre-occupied — half each; this entity solid
/// and the other not, or both solid with only the other's side occupied —
/// the full push-out; anything else — the counterpart or nobody moves.
pub open spec fn share_of(w: Seq<BodyView>, hs: Set<(int, int)>, k: int, j: int) -> (int, int) {
    if pair_recorded(w, k, j) && !hs.contains((k, j)) {
        let rec = find_rec((w[k].collider->0).collisions, j)->0;
        let sa = (w[k].solid->0).0;
        let sb = (w[j].solid->0).0;
        let fa = mask_has((w[k].collider->0).colliding_side, opposite_spec(rec.side));
        let fb = mask_has((w[j].collider->0).colliding_side, rec.side);
        if sa && sb && !fa && !fb {
            half_movement_of(rec.side, rec.overlap as int)
        } else if (sa && !sb) || (sa && sb && !fa && fb) {
            movement_of(rec.side, rec.overlap as int)
        } else {
            (0, 0)
        }
    } else {
        (0, 0)
    }
}

/// The total correction entity `k` accumulates against entities `0 .. j`.
pub open spec fn share_sum(w: Seq<BodyView>, hs: Set<(int, int)>, k: int, j: int) -> (int, int)
    decreases j,
{
    if j <= 0 {
        (0, 0)
    } else {
        let rest = share_sum(w, hs, k, j - 1);
        let s = share_of(w, hs, k, j - 1);
        (rest.0 + s.0, rest.1 + s.1)
    }
}

/// What resolution does to one body: an eligible entity moves by its total
/// correction; everything else is untouched.
pub open spec fn resolve_body(w: Seq<BodyView>, hs: Set<(int, int)>, k: int) -> BodyView {
    if 0 <= k < w.len() && solid_trio(w[k]) {
        let p = pos_of(w[k]);
        let s = share_sum(w, hs, k, w.len() as int);
        BodyView {
            transform: Some(
                Transform { translation: Vec2i { x: (p.x + s.0) as i64, y: (p.y + s.1) as i64 } },
            ),
            ..w[k]
        }
    } else {
        w[k]
    }
}

/// One resolution pass over the whole world, given the pairs already
/// resolved.
pub open spec fn resolve_stage(w: Seq<BodyView>, hs: Set<(int, int)>) -> Seq<BodyView> {
    Seq::new(w.len(), |k: int| resolve_body(w, hs, k))
}

/// Sizes under which the resolver's arithmetic stays exact.
pub open spec fn resolve_bounds(w: Seq<BodyView>) -> bool {
    &&& w.len() <= MAX_BODIES
    &&& forall|k: int|
        0 <= k < w.len() && solid_trio(#[trigger] w[k]) ==> {
            let p = pos_of(w[k]);
            let recs = (w[k].collider->0).collisions;
            &&& -RESOLVE_POS_LIMIT <= p.x <= RESOLVE_POS_LIMIT
            &&& -RESOLVE_POS_LIMIT <= p.y <= RESOLVE_POS_LIMIT
            &&& forall|i: int| 0 <= i < recs.len() ==> 0 <= (#[trigger] recs[i]).overlap <= OVERLAP_LIMIT
        }
}

/// Each single share moves an entity by at most the recorded overlap depth.
pub proof fn lemma_share_bound(w: Seq<BodyView>, hs: Set<(int, int)>, k: int, j: int, lim: int)
    requires
        pair_recorded(w, k, j) ==> {
            let recs = (w[k].collider->0).collisions;
            forall|i: int| 0 <= i < recs.len() ==> 0 <= (#[trigger] recs[i]).overlap <= lim
        },
        lim >= 0,
    ensures
        -lim <= share_of(w, hs, k, j).0 <= lim,
        -lim <= share_of(w, hs, k, j).1 <= lim,
{
    if pair_recorded(w, k, j) && !hs.contains((k, j)) {
        let recs = (w[k].collider->0).collisions;
        crate::collider::lemma_find_rec_some(recs, j);
    }
}

/// The accumulated correction grows by at most the overlap bound per
/// entity scanned.
pub proof fn lemma_share_sum_bound(w: Seq<BodyView>, hs: Set<(int, int)>, k: int, j: int, lim: int)
    requires
        pair_recorded_overlaps_bounded(w, lim),
        lim >= 0,
        j >= 0,
    ensures
        -(j * lim) <= share_sum(w, hs, k, j).0 <= j * lim,
        -(j * lim) <= share_sum(w, hs, k, j).1 <= j * lim,
    decreases j,
{
    if j > 0 {
        lemma_share_sum_bound(w, hs, k, j - 1, lim);
        lemma_share_bound(w, hs, k, j - 1, lim);
        assert((j - 1) * lim + lim == j * lim) by (nonlinear_arith);
    }
}

/// Every recorded pair's overlaps lie within `lim`.
pub open spec fn pair_recorded_overlaps_bounded(w: Seq<BodyView>, lim: int) -> bool {
    forall|k: int, j: int|
        #[trigger] pair_recorded(w, k, j) ==> {
            let recs = (w[k].collider->0).collisions;
            forall|i: int| 0 <= i < recs.len() ==> 0 <= (#[trigger] recs[i]).overlap <= lim
        }
}

/// Law: resolution is idempotent within a tick. Once the visited-pairs set
/// covers every recorded pair, every share is zero and a further resolution
/// pass moves nothing.
pub proof fn lemma_resolution_noop(w: Seq<BodyView>, hs: Set<(int, int)>)
    requires
        forall|a: int, b: int| #[trigger] pair_recorded(w, a, b) ==> hs.contains((a, b)),
    ensures
        resolve_stage(w, hs) =~= w,
{
    assert forall|k: int| 0 <= k < w.len() implies resolve_body(w, hs, k) == w[k] by {
        if solid_trio(w[k]) {
            lemma_share_sum_zero(w, hs, k, w.len() as int);
            let p = pos_of(w[k]);
            assert(Vec2i { x: (p.x + 0) as i64, y: (p.y + 0) as i64 } == p);
            assert(resolve_body(w, hs, k) =~= w[k]);
        }
    }
}

/// With every recorded pair already visited, the accumulated correction is
/// zero.
proof fn lemma_share_sum_zero(w: Seq<BodyView>, hs: Set<(int, int)>, k: int, j: int)
    requires
        forall|a: int, b: int| #[trigger] pair_recorded(w, a, b) ==> hs.contains((a, b)),
    ensures
        share_sum(w, hs, k, j) == (0int, 0int),
    decreases j,
{
    if j > 0 {
        lemma_share_sum_zero(w, hs, k, j - 1);
    }
}

/// Law: running solid resolution twice over the same visited-pairs set does
/// not double-apply a correction — the pass records every pair it sees, a
/// resolved world keeps the same contact records, and a pass whose set
/// already covers them all moves nothing.
pub proof fn lemma_second_resolution_noop(w: Seq<BodyView>, hs: Set<(int, int)>)
    ensures
        resolve_stage(
            resolve_stage(w, hs),
            hs.union(recorded_pairs(w)),
        ) =~= resolve_stage(w, hs),
{
    let w1 = resolve_stage(w, hs);
    let hs1 = hs.union(recorded_pairs(w));
    assert forall|a: int, b: int| #[trigger] pair_recorded(w1, a, b) implies hs1.contains(
        (a, b),
    ) by {
        assert(resolve_body(w, hs, a) == w1[a]);
        assert(resolve_body(w, hs, b) == w1[b]);
        assert(pair_recorded(w, a, b));
    }
    lemma_resolution_noop(w1, hs1);
}

/// The recorded pairs the resolver has visited after finishing the entities
/// before `k` and, within entity `k`, the partners before `j`.
pub open spec fn visited_upto(w: Seq<BodyView>, k: int, j: int) -> Set<(int, int)> {
    Set::new(
        |p: (int, int)|
            pair_recorded(w, p.0, p.1) && (p.0 < k || (p.0 == k && p.1 < j)),
    )
}

/// Resolves every recorded contact among solid-flagged entities not yet in
/// the visited-pairs set: each side of a pair applies its own share of the
/// push-out — split evenly when both are solid with free sides, assigned
/// wholly by the case table otherwise — and every pair seen is marked
/// visited. Corrections read only the contact records, flags and masks, so
/// each entity's total correction is a pure function of the pre-state.
pub fn handle_solids(w: &mut World, handled: &mut ResolvedPairs)
    requires
        resolve_bounds(old(w)@),
    ensures
        final(w)@ == resolve_stage(old(w)@, old(handled)@),
        final(handled)@ == old(handled)@.union(recorded_pairs(old(w)@)),
{
    let ghost w0 = w@;
    let ghost hs0 = handled@;
    proof {
        assert forall|a: int, b: int| #[trigger] pair_recorded(w0, a, b) implies {
            let recs = (w0[a].collider->0).collisions;
            forall|i: int|
                0 <= i < recs.len() ==> 0 <= (#[trigger] recs[i]).overlap <= OVERLAP_LIMIT as int
        } by {
            assert(solid_trio(w0[a]));
        }
        assert(pair_recorded_overlaps_bounded(w0, OVERLAP_LIMIT as int));
        assert(handled@ =~= hs0.union(visited_upto(w0, 0, 0)));
    }
    let n = w.bodies.len();
    let mut k: usize = 0;
    while k < n
        invariant
            n == w.bodies@.len(),
            w0.len() == n,
            0 <= k <= n,
            resolve_bounds(w0),
            pair_recorded_overlaps_bounded(w0, OVERLAP_LIMIT as int),
            forall|i: int| 0 <= i < k ==> w.bodies@[i]@ == resolve_body(w0, hs0, i),
            forall|i: int| k <= i < n ==> w.bodies@[i]@ == w0[i],
            handled@ == hs0.union(visited_upto(w0, k as int, 0)),
        decreases n - k,
    {
        let trio_k = w.bodies[k].transform.is_some() && w.bodies[k].collider.is_some()
            && w.bodies[k].solid.is_some();
        if trio_k {
            let sa = match w.bodies[k].solid {
                Some(s) => s.0,
                None => false,
            };
            proof {
                assert(solid_trio(w0[k as int]));
                assert(sa == (w0[k as int].solid->0).0);
            }
            let mut shx: i64 = 0;
            let mut shy: i64 = 0;
            let mut j: usize = 0;
            proof {
                assert(handled@ =~= hs0.union(visited_upto(w0, k as int, 0)));
            }
            while j < n
                invariant
                    n == w.bodies@.len(),
                    w0.len() == n,
                    0 <= k < n,
                    0 <= j <= n,
                    n <= MAX_BODIES,
                    resolve_bounds(w0),
                    pair_recorded_overlaps_bounded(w0, OVERLAP_LIMIT as int),
                    forall|i: int| 0 <= i < k ==> w.bodies@[i]@ == resolve_body(w0, hs0, i),
                    forall|i: int| k <= i < n ==> w.bodies@[i]@ == w0[i],
                    solid_trio(w0[k as int]),
                    sa == (w0[k as int].solid->0).0,
                    shx == share_sum(w0, hs0, k as int, j as int).0,
                    shy == share_sum(w0, hs0, k as int, j as int).1,
                    handled@ == hs0.union(visited_upto(w0, k as int, j as int)),
                decreases n - j,
            {
                let mut sx_step: i64 = 0;
                let mut sy_step: i64 = 0;
                proof {
                    if (j as int) < k as int {
                        assert(w.bodies@[j as int]@ == resolve_body(w0, hs0, j as int));
                    } else {
                        assert(w.bodies@[j as int]@ == w0[j as int]);
                    }
                    assert(w.bodies@[j as int]@.collider == w0[j as int].collider);
                    assert(w.bodies@[j as int]@.solid == w0[j as int].solid);
                    assert(w.bodies@[j as int]@.transform is Some == w0[j as int].transform is Some);
                }
                if j != k {
                    let trio_j = w.bodies[j].transform.is_some() && w.bodies[j].collider.is_some()
                        && w.bodies[j].solid.is_some();
                    proof {
                        assert(trio_j == solid_trio(w0[j as int]));
                    }
                    if trio_j {
                        let rec_opt = match &w.bodies[k].collider {
                            Some(c) => c.colliding_with(j),
                            None => None,
                        };
                        if let Some((side, ov, _rec_solid)) = rec_opt {
                            proof {
                                assert(pair_recorded(w0, k as int, j as int));
                            }
                            if !handled.contains(k, j) {
                                proof {
                                    assert(!visited_upto(w0, k as int, j as int).contains(
                                        (k as int, j as int),
                                    ));
                                    assert(!hs0.contains((k as int, j as int)));
                                    crate::collider::lemma_find_rec_some(
                                        (w0[k as int].collider->0).collisions,
                                        j as int,
                                    );
                                    assert(0 <= ov <= OVERLAP_LIMIT);
                                }
                                let sb = match w.bodies[j].solid {
                                    Some(s) => s.0,
                                    None => false,
                                };
                                let fa = match &w.bodies[k].collider {
                                    Some(c) => c.check_colliding_side(side.opposite()),
                                    None => false,
                                };
                                let fb = match &w.bodies[j].collider {
                                    Some(c) => c.check_colliding_side(side),
                                    None => false,
                                };
                                if sa && sb && !fa && !fb {
                                    let h = ((ov as u64) / 2) as i64;
                                    match side {
                                        CollidingSide::Top => {
                                            sy_step = -h;
                                        },
                                        CollidingSide::Bottom => {
                                            sy_step = h;
                                        },
                                        CollidingSide::Left => {
                                            sx_step = h;
                                        },
                                        CollidingSide::Right => {
                                            sx_step = -h;
                                        },
                                    }
                                } else if (sa && !sb) || (sa && sb && !fa && fb) {
                                    match side {
                                        CollidingSide::Top => {
                                            sy_step = -ov;
                                        },
                                        CollidingSide::Bottom => {
                                            sy_step = ov;
                                        },
                                        CollidingSide::Left => {
                                            sx_step = ov;
                                        },
                                        CollidingSide::Right => {
                                            sx_step = -ov;
                                        },
                                    }
                                }
                                handled.insert(k, j);
                                proof {
                                    assert(sx_step == share_of(w0, hs0, k as int, j as int).0);
                                    assert(sy_step == share_of(w0, hs0, k as int, j as int).1);
                                    assert(handled@ =~= hs0.union(
                                        visited_upto(w0, k as int, j as int + 1),
                                    ));
                                }
                            } else {
                                proof {
                                    assert(hs0.contains((k as int, j as int)));
                                    assert(share_of(w0, hs0, k as int, j as int) == (0int, 0int));
                                    assert(handled@ =~= hs0.union(
                                        visited_upto(w0, k as int, j as int + 1),
                                    ));
                                }
                            }
                        } else {
                            proof {
                                assert(!pair_recorded(w0, k as int, j as int));
                                assert(share_of(w0, hs0, k as int, j as int) == (0int, 0int));
                                assert(handled@ =~= hs0.union(
                                    visited_upto(w0, k as int, j as int + 1),
                                ));
                            }
                        }
                    } else {
                        proof {
                            assert(!pair_recorded(w0, k as int, j as int));
                            assert(share_of(w0, hs0, k as int, j as int) == (0int, 0int));
                            assert(handled@ =~= hs0.union(
                                visited_upto(w0, k as int, j as int + 1),
                            ));
                        }
                    }
                } else {
                    proof {
                        assert(!pair_recorded(w0, k as int, j as int));
                        assert(share_of(w0, hs0, k as int, j as int) == (0int, 0int));
                        assert(handled@ =~= hs0.union(visited_upto(w0, k as int, j as int + 1)));
                    }
                }
                proof {
                    lemma_share_sum_bound(w0, hs0, k as int, j as int, OVERLAP_LIMIT as int);
                    lemma_share_bound(w0, hs0, k as int, j as int, OVERLAP_LIMIT as int);
                    vstd::arithmetic::mul::lemma_mul_inequality(
                        j as int + 1,
                        MAX_BODIES as int,
                        OVERLAP_LIMIT as int,
                    );
                    assert((j as int) * (OVERLAP_LIMIT as int) + OVERLAP_LIMIT as int == (j as int
                        + 1) * (OVERLAP_LIMIT as int)) by (nonlinear_arith);
                }
                shx = shx + sx_step;
                shy = shy + sy_step;
                j = j + 1;
            }
            let t = w.bodies[k].transform.unwrap();
            proof {
                lemma_share_sum_bound(w0, hs0, k as int, n as int, OVERLAP_LIMIT as int);
                vstd::arithmetic::mul::lemma_mul_inequality(
                    n as int,
                    MAX_BODIES as int,
                    OVERLAP_LIMIT as int,
                );
                assert(-RESOLVE_POS_LIMIT <= t.translation.x <= RESOLVE_POS_LIMIT);
                assert(-RESOLVE_POS_LIMIT <= t.translation.y <= RESOLVE_POS_LIMIT);
            }
            w.bodies[k].transform = Some(
                Transform {
                    translation: Vec2i { x: t.translation.x + shx, y: t.translation.y + shy },
                },
            );
            proof {
                assert(w.bodies@[k as int]@ =~= resolve_body(w0, hs0, k as int));
                assert(handled@ =~= hs0.union(visited_upto(w0, k as int + 1, 0)));
            }
        } else {
            proof {
                assert(!solid_trio(w0[k as int]));
                assert(w.bodies@[k as int]@ =~= resolve_body(w0, hs0, k as int));
                assert(handled@ =~= hs0.union(visited_upto(w0, k as int + 1, 0)));
            }
        }
        k = k + 1;
    }
    proof {
        assert(w@ =~= resolve_stage(w0, hs0));
        assert(visited_upto(w0, n as int, 0) =~= recorded_pairs(w0));
        assert(handled@ =~= hs0.union(recorded_pairs(w0)));
    }
}

} // verus!
