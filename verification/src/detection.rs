//! Broad/narrow-phase collision detection: for every pair of entities that
//! both carry a transform and a collider, the axis-aligned separation
//! decides whether they touch, which side each records, and how deep the
//! overlap is. Contact lists are cleared and fully rebuilt every tick.

use vstd::prelude::*;
use vstd::math::{abs, max};
use crate::collider::{mask_of, Collider, ColliderView, CollidingSide, CollisionRecord};
use crate::world::{has_box, pos_of, BodyView, Solid, Vec2i, World};

verus! {

/// Positions and box extents the detector accepts without overflowing.
pub const POS_LIMIT: i64 = 0x1000_0000_0000_0000;

/// The horizontal separation of the two boxes' edges: the distance of the
/// centers minus the summed half-extents. Negative when the boxes overlap
/// on this axis.
pub open spec fn sep_x(a: BodyView, b: BodyView) -> int
    recommends
        has_box(a),
        has_box(b),
{
    abs(pos_of(a).x - pos_of(b).x) - ((a.collider->0).bounding_box.x
        + (b.collider->0).bounding_box.x) / 2
}

/// The vertical separation of the two boxes' edges.
pub open spec fn sep_y(a: BodyView, b: BodyView) -> int
    recommends
        has_box(a),
        has_box(b),
{
    abs(pos_of(a).y - pos_of(b).y) - ((a.collider->0).bounding_box.y
        + (b.collider->0).bounding_box.y) / 2
}

/// The larger of the two axis separations.
pub open spec fn max_sep(a: BodyView, b: BodyView) -> int {
    max(sep_x(a, b), sep_y(a, b))
}

/// Two boxed entities touch exactly when neither axis keeps a positive
/// separation.
pub open spec fn colliding_spec(a: BodyView, b: BodyView) -> bool {
    has_box(a) && has_box(b) && max_sep(a, b) <= 0
}

/// The side classification of a pair, seen from its first entity: the axis
/// with the larger (less negative) separation is the penetration axis —
/// strictly greater favors the horizontal axis, a tie picks the vertical
/// one — and within the axis the sign of the center difference picks the
/// side. The second entity of the pair records the opposite side.
pub open spec fn side_for(a: BodyView, b: BodyView) -> CollidingSide {
    if sep_x(a, b) > sep_y(a, b) {
        if pos_of(a).x - pos_of(b).x < 0 {
            CollidingSide::Right
        } else {
            CollidingSide::Left
        }
    } else {
        if pos_of(a).y - pos_of(b).y < 0 {
            CollidingSide::Top
        } else {
            CollidingSide::Bottom
        }
    }
}

/// How deep two touching boxes overlap: the magnitude of the larger
/// separation.
pub open spec fn overlap_of(a: BodyView, b: BodyView) -> int {
    -max_sep(a, b)
}

/// A contact is solid exactly when both entities carry `Solid(true)`.
pub open spec fn contact_solid(a: BodyView, b: BodyView) -> bool {
    a.solid == Some(Solid(true)) && b.solid == Some(Solid(true))
}

/// The side entity `k` records against entity `j`. The pair is classified
/// once, from its lower-indexed entity, and the partner records the
/// opposite side — so the two records of a pair mirror each other even
/// when the centers coincide on the chosen axis.
pub open spec fn record_side(w: Seq<BodyView>, k: int, j: int) -> CollidingSide {
    if k < j {
        side_for(w[k], w[j])
    } else {
        crate::collider::opposite_spec(side_for(w[j], w[k]))
    }
}

/// The record entity `k` keeps about its contact with entity `j`.
pub open spec fn record_for(w: Seq<BodyView>, k: int, j: int) -> CollisionRecord {
    CollisionRecord {
        entity: j as usize,
        side: record_side(w, k, j),
        overlap: overlap_of(w[k], w[j]) as i64,
        solid: contact_solid(w[k], w[j]),
    }
}

/// The contacts entity `k` records against entities `0 .. j`, in index
/// order.
pub open spec fn contacts_upto(w: Seq<BodyView>, k: int, j: int) -> Seq<CollisionRecord>
    decreases j,
{
    if j <= 0 {
        Seq::empty()
    } else {
        let rest = contacts_upto(w, k, j - 1);
        if j - 1 != k && colliding_spec(w[k], w[j - 1]) {
            rest.push(record_for(w, k, j - 1))
        } else {
            rest
        }
    }
}

/// What detection does to one body: a boxed entity gets its contact list
/// rebuilt from scratch and the side mask of that list; everything else is
/// untouched.
pub open spec fn detect_body(w: Seq<BodyView>, k: int) -> BodyView {
    if has_box(w[k]) {
        BodyView {
            collider: Some(
                ColliderView {
                    bounding_box: (w[k].collider->0).bounding_box,
                    collisions: contacts_upto(w, k, w.len() as int),
                    colliding_side: mask_of(contacts_upto(w, k, w.len() as int)),
                },
            ),
            ..w[k]
        }
    } else {
        w[k]
    }
}

/// One full detection pass over the whole world.
pub open spec fn detect_stage(w: Seq<BodyView>) -> Seq<BodyView> {
    Seq::new(w.len(), |k: int| detect_body(w, k))
}

/// Positions and extents the detector's arithmetic stays exact for.
pub open spec fn detect_bounds(w: Seq<BodyView>) -> bool {
    forall|k: int|
        0 <= k < w.len() && has_box(#[trigger] w[k]) ==> {
            let p = pos_of(w[k]);
            let bb = (w[k].collider->0).bounding_box;
            -POS_LIMIT <= p.x <= POS_LIMIT && -POS_LIMIT <= p.y <= POS_LIMIT && 0 <= bb.x
                <= POS_LIMIT && 0 <= bb.y <= POS_LIMIT
        }
}

/// Law: a pair of boxed entities yields no contact record exactly when the
/// larger axis separation is positive; exact touching, at separation zero,
/// still counts as a contact (with zero overlap).
pub proof fn lemma_contact_iff_overlapping(w: Seq<BodyView>, k: int, j: int, upto: int)
    requires
        w.len() <= usize::MAX,
        0 <= k < w.len(),
        0 <= j < w.len(),
        j < upto <= w.len(),
        j != k,
        has_box(w[k]),
        has_box(w[j]),
    ensures
        max_sep(w[k], w[j]) > 0 <==> forall|i: int|
            0 <= i < contacts_upto(w, k, upto).len() ==> (#[trigger] contacts_upto(
                w,
                k,
                upto,
            )[i]).entity != j,
    decreases upto,
{
    assert((j as usize) == j);
    if j == upto - 1 {
        if upto - 1 != k && colliding_spec(w[k], w[upto - 1]) {
            let c = contacts_upto(w, k, upto);
            assert(c[c.len() - 1] == record_for(w, k, upto - 1));
            assert(c[c.len() - 1].entity == j);
        } else {
            lemma_contacts_entity_range(w, k, upto - 1);
        }
    } else {
        lemma_contact_iff_overlapping(w, k, j, upto - 1);
        let rest = contacts_upto(w, k, upto - 1);
        if upto - 1 != k && colliding_spec(w[k], w[upto - 1]) {
            let c = contacts_upto(w, k, upto);
            assert(forall|i: int| 0 <= i < rest.len() ==> c[i] == rest[i]);
            if max_sep(w[k], w[j]) > 0 {
                assert(((upto - 1) as usize) == upto - 1);
                assert(c[c.len() - 1] == record_for(w, k, upto - 1));
                assert(c[c.len() - 1].entity == upto - 1);
                assert(forall|i: int| 0 <= i < c.len() ==> (#[trigger] c[i]).entity != j);
            } else {
                let i = choose|i: int| 0 <= i < rest.len() && (#[trigger] rest[i]).entity == j;
                assert(c[i].entity == j);
            }
        }
    }
}

/// Every contact recorded while scanning entities `0 .. upto` names an
/// entity in that range, other than the owner.
pub proof fn lemma_contacts_entity_range(w: Seq<BodyView>, k: int, upto: int)
    requires
        w.len() <= usize::MAX,
        0 <= upto <= w.len(),
    ensures
        forall|i: int|
            0 <= i < contacts_upto(w, k, upto).len() ==> 0 <= (#[trigger] contacts_upto(
                w,
                k,
                upto,
            )[i]).entity < upto && contacts_upto(w, k, upto)[i].entity != k,
    decreases upto,
{
    if upto > 0 {
        lemma_contacts_entity_range(w, k, upto - 1);
        assert(((upto - 1) as usize) == upto - 1);
        if upto - 1 != k && colliding_spec(w[k], w[upto - 1]) {
            let c = contacts_upto(w, k, upto);
            assert(c[c.len() - 1] == record_for(w, k, upto - 1));
        }
    }
}

/// Law: after a detection pass, a boxed pair has a contact record exactly
/// when the larger axis separation is not positive — no false positives or
/// negatives at the boundary.
pub proof fn lemma_detection_contact_iff(w: Seq<BodyView>, k: int, j: int)
    requires
        w.len() <= usize::MAX,
        0 <= k < w.len(),
        0 <= j < w.len(),
        j != k,
        has_box(w[k]),
        has_box(w[j]),
    ensures
        max_sep(w[k], w[j]) > 0 <==> forall|i: int|
            0 <= i < (detect_stage(w)[k].collider->0).collisions.len() ==> (#[trigger] (detect_stage(
                w,
            )[k].collider->0).collisions[i]).entity != j,
{
    lemma_contact_iff_overlapping(w, k, j, w.len() as int);
}

/// Law: detection is symmetric in existence and depth — each side of a
/// boxed pair records the other exactly when the other records it, and
/// both record the same overlap and the same solidity.
pub proof fn lemma_detection_symmetric(w: Seq<BodyView>, k: int, j: int)
    requires
        w.len() <= usize::MAX,
        0 <= k < w.len(),
        0 <= j < w.len(),
        j != k,
        has_box(w[k]),
        has_box(w[j]),
    ensures
        colliding_spec(w[k], w[j]) == colliding_spec(w[j], w[k]),
        overlap_of(w[k], w[j]) == overlap_of(w[j], w[k]),
        contact_solid(w[k], w[j]) == contact_solid(w[j], w[k]),
{
    assert(sep_x(w[k], w[j]) == sep_x(w[j], w[k]));
    assert(sep_y(w[k], w[j]) == sep_y(w[j], w[k]));
}

/// Law: side classification is antisymmetric — each entity of a pair
/// records the opposite side of the other, with the same overlap depth,
/// ties included.
pub proof fn lemma_side_antisymmetric(w: Seq<BodyView>, k: int, j: int)
    requires
        0 <= k < w.len(),
        0 <= j < w.len(),
        j != k,
    ensures
        record_side(w, j, k) == crate::collider::opposite_spec(record_side(w, k, j)),
        overlap_of(w[j], w[k]) == overlap_of(w[k], w[j]),
        colliding_spec(w[j], w[k]) == colliding_spec(w[k], w[j]),
{
    assert(sep_x(w[j], w[k]) == sep_x(w[k], w[j]));
    assert(sep_y(w[j], w[k]) == sep_y(w[k], w[j]));
}

/// Looking up a partner in a rebuilt contact list finds exactly the record
/// detection computed for the pair — one record per touching partner,
/// none otherwise.
pub proof fn lemma_find_contact(w: Seq<BodyView>, k: int, j: int, upto: int)
    requires
        w.len() <= usize::MAX,
        0 <= k < w.len(),
        0 <= j < upto <= w.len(),
        j != k,
    ensures
        crate::collider::find_rec(contacts_upto(w, k, upto), j) == if colliding_spec(
            w[k],
            w[j],
        ) {
            Some(record_for(w, k, j))
        } else {
            None::<CollisionRecord>
        },
    decreases upto,
{
    assert((j as usize) == j);
    let prev = contacts_upto(w, k, upto - 1);
    if j == upto - 1 {
        lemma_contacts_entity_range(w, k, upto - 1);
        crate::collider::lemma_find_rec_none(prev, j);
        if colliding_spec(w[k], w[j]) {
            crate::collider::lemma_find_rec_push(prev, record_for(w, k, j), j);
        }
    } else {
        lemma_find_contact(w, k, j, upto - 1);
        if upto - 1 != k && colliding_spec(w[k], w[upto - 1]) {
            assert(((upto - 1) as usize) == upto - 1);
            crate::collider::lemma_find_rec_push(prev, record_for(w, k, upto - 1), j);
        }
    }
}

/// Law: on detector output the two records of a touching pair mirror each
/// other — each side finds exactly one record of the other, on opposite
/// sides, with the same overlap depth and solidity, ties included.
pub proof fn lemma_detection_records_mirror(w: Seq<BodyView>, k: int, j: int)
    requires
        w.len() <= usize::MAX,
        0 <= k < w.len(),
        0 <= j < w.len(),
        j != k,
        colliding_spec(w[k], w[j]),
    ensures
        crate::collider::find_rec((detect_stage(w)[k].collider->0).collisions, j) == Some(
            record_for(w, k, j),
        ),
        crate::collider::find_rec((detect_stage(w)[j].collider->0).collisions, k) == Some(
            record_for(w, j, k),
        ),
        record_for(w, j, k).side == crate::collider::opposite_spec(record_for(w, k, j).side),
        record_for(w, j, k).overlap == record_for(w, k, j).overlap,
        record_for(w, j, k).solid == record_for(w, k, j).solid,
{
    lemma_side_antisymmetric(w, k, j);
    lemma_find_contact(w, k, j, w.len() as int);
    lemma_find_contact(w, j, k, w.len() as int);
}

/// Whether the body carries `Solid(true)`.
fn solid_true(b: &crate::world::Body) -> (r: bool)
    ensures
        r == (b@.solid == Some(Solid(true))),
{
    match b.solid {
        Some(s) => s.0,
        None => false,
    }
}

/// Rebuilds every boxed entity's contact list and side mask from the
/// current positions: every unordered pair of boxed entities is tested,
/// a pair touches exactly when neither axis separation is positive, and
/// each of the two records the side, overlap depth and solidity of the
/// contact. All previously recorded contacts are discarded first.
pub fn handle_colliders(w: &mut World)
    requires
        detect_bounds(old(w)@),
    ensures
        final(w)@ == detect_stage(old(w)@),
{
    let ghost w0 = w@;
    let n = w.bodies.len();
    let mut k: usize = 0;
    while k < n
        invariant
            n == w.bodies@.len(),
            w0.len() == n,
            0 <= k <= n,
            detect_bounds(w0),
            forall|i: int| 0 <= i < k ==> w.bodies@[i]@ == detect_body(w0, i),
            forall|i: int| k <= i < n ==> w.bodies@[i]@ == w0[i],
        decreases n - k,
    {
        let active = w.bodies[k].transform.is_some() && w.bodies[k].collider.is_some();
        if active {
            let t = w.bodies[k].transform.unwrap();
            let ax = t.translation.x;
            let ay = t.translation.y;
            let (abx, aby) = match &w.bodies[k].collider {
                Some(c) => (c.bounding_box.x, c.bounding_box.y),
                None => (0i64, 0i64),
            };
            let a_solid = solid_true(&w.bodies[k]);
            proof {
                assert(has_box(w0[k as int]));
                assert(ax == pos_of(w0[k as int]).x && ay == pos_of(w0[k as int]).y);
                assert(abx == (w0[k as int].collider->0).bounding_box.x);
            }
            let mut recs: Vec<CollisionRecord> = Vec::new();
            let mut mask: u8 = 0;
            assert(recs@ =~= contacts_upto(w0, k as int, 0));
            let mut j: usize = 0;
            while j < n
                invariant
                    n == w.bodies@.len(),
                    w0.len() == n,
                    0 <= k < n,
                    0 <= j <= n,
                    detect_bounds(w0),
                    forall|i: int| 0 <= i < k ==> w.bodies@[i]@ == detect_body(w0, i),
                    forall|i: int| k <= i < n ==> w.bodies@[i]@ == w0[i],
                    has_box(w0[k as int]),
                    ax == pos_of(w0[k as int]).x,
                    ay == pos_of(w0[k as int]).y,
                    abx == (w0[k as int].collider->0).bounding_box.x,
                    aby == (w0[k as int].collider->0).bounding_box.y,
                    a_solid == (w0[k as int].solid == Some(Solid(true))),
                    recs@ == contacts_upto(w0, k as int, j as int),
                    mask == mask_of(recs@),
                decreases n - j,
            {
                let ghost av = w0[k as int];
                let ghost bv = w0[j as int];
                proof {
                    if j < k {
                        assert(w.bodies@[j as int]@ == detect_body(w0, j as int));
                    } else {
                        assert(w.bodies@[j as int]@ == w0[j as int]);
                    }
                }
                if j != k {
                    let ob = &w.bodies[j];
                    let oactive = ob.transform.is_some() && ob.collider.is_some();
                    proof {
                        assert(oactive == has_box(bv));
                    }
                    if oactive {
                        let ot = ob.transform.unwrap();
                        let (obx, oby) = match &ob.collider {
                            Some(c) => (c.bounding_box.x, c.bounding_box.y),
                            None => (0i64, 0i64),
                        };
                        let o_solid = solid_true(ob);
                        proof {
                            assert(ot.translation == pos_of(bv));
                            assert(obx == (bv.collider->0).bounding_box.x);
                            assert(o_solid == (bv.solid == Some(Solid(true))));
                            assert(-POS_LIMIT <= pos_of(av).x <= POS_LIMIT && -POS_LIMIT <= pos_of(
                                av,
                            ).y <= POS_LIMIT && 0 <= abx <= POS_LIMIT && 0 <= aby <= POS_LIMIT);
                            assert(-POS_LIMIT <= pos_of(bv).x <= POS_LIMIT && -POS_LIMIT <= pos_of(
                                bv,
                            ).y <= POS_LIMIT && 0 <= obx <= POS_LIMIT && 0 <= oby <= POS_LIMIT);
                        }
                        let dx = ax - ot.translation.x;
                        let dy = ay - ot.translation.y;
                        let adx = if dx < 0 { -dx } else { dx };
                        let ady = if dy < 0 { -dy } else { dy };
                        let halfx = (((abx as u64) + (obx as u64)) / 2) as i64;
                        let halfy = (((aby as u64) + (oby as u64)) / 2) as i64;
                        let sx = adx - halfx;
                        let sy = ady - halfy;
                        let maxv = if sx > sy { sx } else { sy };
                        proof {
                            assert(sx == sep_x(av, bv));
                            assert(sy == sep_y(av, bv));
                            assert(maxv == max_sep(av, bv));
                        }
                        if maxv <= 0 {
                            let side = if k < j {
                                if sx > sy {
                                    if dx < 0 {
                                        CollidingSide::Right
                                    } else {
                                        CollidingSide::Left
                                    }
                                } else {
                                    if dy < 0 {
                                        CollidingSide::Top
                                    } else {
                                        CollidingSide::Bottom
                                    }
                                }
                            } else {
                                if sx > sy {
                                    if dx > 0 {
                                        CollidingSide::Left
                                    } else {
                                        CollidingSide::Right
                                    }
                                } else {
                                    if dy > 0 {
                                        CollidingSide::Bottom
                                    } else {
                                        CollidingSide::Top
                                    }
                                }
                            };
                            let rec = CollisionRecord {
                                entity: j,
                                side,
                                overlap: -maxv,
                                solid: a_solid && o_solid,
                            };
                            proof {
                                if k < j {
                                    assert(side == side_for(av, bv));
                                } else {
                                    assert(sep_x(bv, av) == sep_x(av, bv));
                                    assert(sep_y(bv, av) == sep_y(av, bv));
                                    assert(pos_of(bv).x - pos_of(av).x == -dx);
                                    assert(pos_of(bv).y - pos_of(av).y == -dy);
                                    assert(side == crate::collider::opposite_spec(
                                        side_for(bv, av),
                                    ));
                                }
                                assert(side == record_side(w0, k as int, j as int));
                                assert(rec == record_for(w0, k as int, j as int));
                            }
                            recs.push(rec);
                            mask = mask | side.bit();
                            proof {
                                assert(recs@.drop_last() =~= contacts_upto(w0, k as int, j as int));
                                assert(recs@ =~= contacts_upto(w0, k as int, j as int + 1));
                            }
                        }
                    }
                }
                proof {
                    assert(recs@ =~= contacts_upto(w0, k as int, j as int + 1));
                }
                j = j + 1;
            }
            w.bodies[k].collider = Some(
                Collider { bounding_box: Vec2i { x: abx, y: aby }, collisions: recs, colliding_side: mask },
            );
            proof {
                assert(w.bodies@[k as int]@ =~= detect_body(w0, k as int));
            }
        } else {
            proof {
                assert(w.bodies@[k as int]@ =~= detect_body(w0, k as int));
            }
        }
        k = k + 1;
    }
    proof {
        assert(w@ =~= detect_stage(w0));
    }
}

} // verus!
