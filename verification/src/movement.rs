//! The movement system.
//!
//! Each tick, every entity with a move order steps toward its target:
//! the displacement is normalized, scaled by the order's speed over one
//! sixtieth of a second, and clamped per axis so the mover never crosses
//! its target.  Arrived orders (within `AXIS_EPSILON` on both axes) are
//! removed.  Targets pointing at another entity are resolved against the
//! positions at the start of the tick, so the outcome never depends on
//! the order entities are visited in.

use vstd::prelude::*;
use crate::components::{Move, MoveTarget, MovedFlag, Pos};
use crate::geom::{sqrt_floor, AXIS_EPSILON, MAX_COORD, MAX_SPEED, TICKS_PER_SECOND};
use crate::ids::EntityId;
use crate::table::{lemma_key_seq, Table};

verus! {

/// One axis-change record per ordered entity, consumed by the renderer;
/// an axis is `Some` only if that coordinate changed this tick.
#[derive(Copy, Clone, Debug, PartialEq, Eq, Structural)]
pub struct MoveResult {
    pub new_x: Option<i64>,
    pub new_y: Option<i64>,
    pub e_id: EntityId,
}

/// A decoded movement command: send `e_id` toward `(new_x, new_y)`.
#[derive(Copy, Clone, Debug, PartialEq, Eq, Structural)]
pub struct MoveUpdate {
    pub new_x: i64,
    pub new_y: i64,
    pub speed: i64,
    pub e_id: EntityId,
}

pub open spec fn abs_diff(a: int, b: int) -> nat {
    if a >= b {
        (a - b) as nat
    } else {
        (b - a) as nat
    }
}

/// Both axes within the arrival epsilon.
pub open spec fn spec_arrived(px: int, py: int, tx: int, ty: int) -> bool {
    abs_diff(px, tx) <= AXIS_EPSILON && abs_diff(py, ty) <= AXIS_EPSILON
}

/// One axis of a step: advance `step` micro-units from `p` toward `t`,
/// snapping to `t` when the step would reach or cross it.
pub open spec fn spec_step_axis(p: int, t: int, step: nat) -> int {
    if step >= abs_diff(t, p) {
        t
    } else if t >= p {
        p + step
    } else {
        p - step
    }
}

/// How far one tick carries the mover along an axis whose displacement
/// magnitude is `d`: the displacement is normalized by `nrm` and scaled
/// by `speed` micro-units per second over a sixtieth of a second.
pub open spec fn spec_step_len(d: nat, speed: int, nrm: nat) -> nat {
    (d * speed) as nat / (TICKS_PER_SECOND * nrm) as nat
}

/// Where a mover at `(px, py)` with the given order speed stands after one
/// tick of heading to `(tx, ty)` (not already arrived).
pub open spec fn spec_move_step(px: int, py: int, tx: int, ty: int, speed: int) -> (int, int) {
    let dx = abs_diff(tx, px);
    let dy = abs_diff(ty, py);
    let nrm = sqrt_floor(dx * dx + dy * dy);
    (
        spec_step_axis(px, tx, spec_step_len(dx, speed, nrm)),
        spec_step_axis(py, ty, spec_step_len(dy, speed, nrm)),
    )
}

/// The coordinates an order heads for, with entity targets resolved
/// against the positions `pm` at the start of the tick.
pub open spec fn spec_target_xy(pm: Map<u64, Pos>, o: Move) -> (int, int) {
    match o.target {
        MoveTarget::Ground(g) => (g.x as int, g.y as int),
        MoveTarget::Unit(u) => (pm[u].x as int, pm[u].y as int),
    }
}

/// Where entity `e`, ordered by `o`, stands after this tick.
pub open spec fn spec_new_xy(pm: Map<u64, Pos>, o: Move, e: u64) -> (int, int) {
    let p = pm[e];
    let t = spec_target_xy(pm, o);
    if spec_arrived(p.x as int, p.y as int, t.0, t.1) {
        (p.x as int, p.y as int)
    } else {
        spec_move_step(p.x as int, p.y as int, t.0, t.1, o.speed as int)
    }
}

/// Whether `e`'s order is fulfilled after this tick's step.
pub open spec fn spec_order_done(pm: Map<u64, Pos>, o: Move, e: u64) -> bool {
    let n = spec_new_xy(pm, o, e);
    let t = spec_target_xy(pm, o);
    spec_arrived(n.0, n.1, t.0, t.1)
}

/// Whether this tick's step changes `e`'s position at all.
pub open spec fn spec_pos_changed(pm: Map<u64, Pos>, o: Move, e: u64) -> bool {
    spec_new_xy(pm, o, e) != (pm[e].x as int, pm[e].y as int)
}

/// The change record movement emits for ordered entity `e`.
pub open spec fn spec_move_result(pm: Map<u64, Pos>, o: Move, e: u64) -> MoveResult {
    let p = pm[e];
    let n = spec_new_xy(pm, o, e);
    MoveResult {
        new_x: if n.0 != p.x as int {
            Some(n.0 as i64)
        } else {
            None
        },
        new_y: if n.1 != p.y as int {
            Some(n.1 as i64)
        } else {
            None
        },
        e_id: e,
    }
}

/// An in-bounds coordinate pair.
pub open spec fn in_bounds(x: int, y: int, w: int, h: int) -> bool {
    0 <= x <= w && 0 <= y <= h
}

/// What movement needs of an order: a positive bounded speed, and a
/// target that resolves to an in-bounds point.
pub open spec fn order_ok(pm: Map<u64, Pos>, o: Move, w: int, h: int) -> bool {
    &&& 0 < o.speed <= MAX_SPEED
    &&& match o.target {
        MoveTarget::Ground(g) => in_bounds(g.x as int, g.y as int, w, h),
        MoveTarget::Unit(u) => pm.dom().contains(u),
    }
}

/// One tick of stepping a mover at `p` toward `(tx, ty)`: exactly
/// `spec_move_step`, and the result stays between the mover and its
/// target on each axis.
pub fn move_point(p: Pos, tx: i64, ty: i64, speed: i64) -> (q: (i64, i64))
    requires
        0 <= p.x <= MAX_COORD,
        0 <= p.y <= MAX_COORD,
        0 <= tx <= MAX_COORD,
        0 <= ty <= MAX_COORD,
        0 < speed <= MAX_SPEED,
        !spec_arrived(p.x as int, p.y as int, tx as int, ty as int),
    ensures
        (q.0 as int, q.1 as int) == spec_move_step(
            p.x as int,
            p.y as int,
            tx as int,
            ty as int,
            speed as int,
        ),
        q.0 == p.x || (p.x < q.0 <= tx) || (tx <= q.0 < p.x),
        q.1 == p.y || (p.y < q.1 <= ty) || (ty <= q.1 < p.y),
{
    let dx: u64 = if tx >= p.x {
        (tx - p.x) as u64
    } else {
        (p.x - tx) as u64
    };
    let dy: u64 = if ty >= p.y {
        (ty - p.y) as u64
    } else {
        (p.y - ty) as u64
    };
    proof {
        assert(dx * dx <= 1_000_000_000_000_000_000 && dy * dy <= 1_000_000_000_000_000_000)
            by (nonlinear_arith)
            requires dx <= 1_000_000_000u64, dy <= 1_000_000_000u64;
    }
    let nsq: u64 = dx * dx + dy * dy;
    let nrm: u64 = crate::geom::isqrt64(nsq);
    proof {
        crate::geom::lemma_sqrt_floor(nsq as nat);
        // not arrived, so one axis exceeds the epsilon and the norm is positive
        assert(dx > AXIS_EPSILON || dy > AXIS_EPSILON);
        assert(nsq > 0) by (nonlinear_arith)
            requires dx > 100 || dy > 100, nsq == dx * dx + dy * dy;
        if nrm == 0 {
            assert((nrm as nat + 1) * (nrm as nat + 1) == 1) by (nonlinear_arith)
                requires nrm == 0u64;
            assert(false);
        }
        assert(dx * speed <= 1_000_000_000_000_000_000) by (nonlinear_arith)
            requires dx <= 1_000_000_000u64, speed <= 1_000_000_000i64;
        assert(dy * speed <= 1_000_000_000_000_000_000) by (nonlinear_arith)
            requires dy <= 1_000_000_000u64, speed <= 1_000_000_000i64;
        // the norm of a vector with axes below 2^31 is below 2^31
        assert(nrm * nrm <= nsq ==> nrm <= 2_000_000_000) by (nonlinear_arith)
            requires nsq <= 2_000_000_000_000_000_000u64;
    }
    let sx: u64 = dx * (speed as u64) / (60 * nrm);
    let sy: u64 = dy * (speed as u64) / (60 * nrm);
    let nx: i64 = if sx >= dx {
        tx
    } else if tx >= p.x {
        p.x + (sx as i64)
    } else {
        p.x - (sx as i64)
    };
    let ny: i64 = if sy >= dy {
        ty
    } else if ty >= p.y {
        p.y + (sy as i64)
    } else {
        p.y - (sy as i64)
    };
    (nx, ny)
}

/// Advance every ordered entity one tick.
///
/// Positions change exactly as `spec_new_xy` says (headings are kept);
/// fulfilled orders are removed and no others; `MovedFlag` is set on
/// exactly the entities whose position changed; and the returned records
/// list every ordered entity in ascending id order.
#[verifier::rlimit(50)]
pub fn run_movement(
    positions: &mut Table<Pos>,
    orders: &mut Table<Move>,
    moved: &mut Table<MovedFlag>,
    w: i64,
    h: i64,
) -> (results: Vec<MoveResult>)
    requires
        old(positions).wf(),
        old(orders).wf(),
        old(moved).wf(),
        0 < w <= MAX_COORD,
        0 < h <= MAX_COORD,
        forall|e: u64| #[trigger]
            old(orders)@.dom().contains(e) ==> old(positions)@.dom().contains(e) && order_ok(
                old(positions)@,
                old(orders)@[e],
                w as int,
                h as int,
            ),
        forall|e: u64| #[trigger]
            old(positions)@.dom().contains(e) ==> in_bounds(
                old(positions)@[e].x as int,
                old(positions)@[e].y as int,
                w as int,
                h as int,
            ),
    ensures
        final(positions).wf(),
        final(orders).wf(),
        final(moved).wf(),
        final(positions)@.dom() == old(positions)@.dom(),
        forall|e: u64| #[trigger]
            final(positions)@.dom().contains(e) ==> final(positions)@[e] == (if old(
                orders,
            )@.dom().contains(e) {
                Pos {
                    x: spec_new_xy(old(positions)@, old(orders)@[e], e).0 as i64,
                    y: spec_new_xy(old(positions)@, old(orders)@[e], e).1 as i64,
                    heading: old(positions)@[e].heading,
                }
            } else {
                old(positions)@[e]
            }),
        forall|e: u64| #[trigger]
            final(positions)@.dom().contains(e) ==> in_bounds(
                final(positions)@[e].x as int,
                final(positions)@[e].y as int,
                w as int,
                h as int,
            ),
        forall|e: u64|
            final(orders)@.dom().contains(e) <==> (#[trigger] old(orders)@.dom().contains(e)
                && !spec_order_done(old(positions)@, old(orders)@[e], e)),
        forall|e: u64| #[trigger]
            final(orders)@.dom().contains(e) ==> final(orders)@[e] == old(orders)@[e],
        forall|e: u64|
            final(moved)@.dom().contains(e) <==> (#[trigger] old(moved)@.dom().contains(e) || (old(
                orders,
            )@.dom().contains(e) && spec_pos_changed(old(positions)@, old(orders)@[e], e))),
        results@.len() == old(orders).keys().len(),
        forall|j: int|
            0 <= j < results@.len() ==> results@[j] == spec_move_result(
                old(positions)@,
                old(orders)@[old(orders).keys()[j]],
                old(orders).keys()[j],
            ),
{
    let ghost pm0 = positions@;
    let ghost om = orders@;
    let ghost ks = orders.keys();
    let pos0 = positions.duplicate();
    let mut results: Vec<MoveResult> = Vec::new();
    let mut keep: Table<Move> = Table::new();
    let mut i: usize = 0;
    let n = orders.len();
    while i < n
        invariant
            positions.wf(),
            orders.wf(),
            moved.wf(),
            keep.wf(),
            pos0.wf(),
            pos0@ == pm0,
            orders@ == om,
            orders.keys() == ks,
            n == ks.len(),
            i <= n,
            old(positions)@ == pm0,
            old(orders)@ == om,
            0 < w <= MAX_COORD,
            0 < h <= MAX_COORD,
            forall|e: u64| #[trigger]
                om.dom().contains(e) ==> pm0.dom().contains(e) && order_ok(
                    pm0,
                    om[e],
                    w as int,
                    h as int,
                ),
            forall|e: u64| #[trigger]
                pm0.dom().contains(e) ==> in_bounds(pm0[e].x as int, pm0[e].y as int, w as int, h as int),
            positions@.dom() == pm0.dom(),
            forall|j: int| i <= j < n ==> positions@[ks[j]] == pm0[ks[j]],
            forall|e: u64| #[trigger]
                pm0.dom().contains(e) && !om.dom().contains(e) ==> positions@[e] == pm0[e],
            forall|j: int|
                0 <= j < i ==> positions@[ks[j]] == (Pos {
                    x: spec_new_xy(pm0, om[ks[j]], ks[j]).0 as i64,
                    y: spec_new_xy(pm0, om[ks[j]], ks[j]).1 as i64,
                    heading: pm0[ks[j]].heading,
                }),
            forall|e: u64| #[trigger]
                positions@.dom().contains(e) ==> in_bounds(
                    positions@[e].x as int,
                    positions@[e].y as int,
                    w as int,
                    h as int,
                ),
            forall|e: u64|
                keep@.dom().contains(e) <==> (exists|j: int|
                    0 <= j < i && ks[j] == e && !spec_order_done(pm0, om[#[trigger] ks[j]], ks[j])),
            forall|e: u64| #[trigger] keep@.dom().contains(e) ==> keep@[e] == om[e],
            forall|e: u64|
                moved@.dom().contains(e) <==> (#[trigger] old(moved)@.dom().contains(e) || (exists|
                    j: int,
                |
                    0 <= j < i && ks[j] == e && spec_pos_changed(pm0, om[#[trigger] ks[j]], ks[j]))),
            results@.len() == i,
            forall|j: int|
                0 <= j < i ==> results@[j] == spec_move_result(pm0, om[ks[j]], ks[j]),
        decreases n - i,
    {
        let e = orders.key_at(i);
        let o = orders.val_at(i);
        let p = match pos0.get(e) {
            Some(p) => p,
            None => {
                proof {
                    assert(false);
                }
                Pos { x: 0, y: 0, heading: 0 }
            },
        };
        let (tx, ty) = match o.target {
            MoveTarget::Ground(g) => (g.x, g.y),
            MoveTarget::Unit(u) => {
                match pos0.get(u) {
                    Some(tp) => (tp.x, tp.y),
                    None => {
                        proof {
                            assert(false);
                        }
                        (0i64, 0i64)
                    },
                }
            },
        };
        let adx: u64 = if tx >= p.x {
            (tx - p.x) as u64
        } else {
            (p.x - tx) as u64
        };
        let ady: u64 = if ty >= p.y {
            (ty - p.y) as u64
        } else {
            (p.y - ty) as u64
        };
        let arrived_now = adx <= 100 && ady <= 100;
        let (nx, ny) = if arrived_now {
            (p.x, p.y)
        } else {
            move_point(p, tx, ty, o.speed)
        };
        proof {
            assert((nx as int, ny as int) == spec_new_xy(pm0, o, e));
        }
        let changed = nx != p.x || ny != p.y;
        let ghost moved_pre = moved@;
        let ghost keep_pre = keep@;
        if changed {
            positions.insert(e, Pos { x: nx, y: ny, heading: p.heading });
            moved.insert(e, MovedFlag);
        } else {
            proof {
                assert(positions@[e] == pm0[e]);
                assert(positions@.insert(e, pm0[e]) =~= positions@);
            }
        }
        let ndx: u64 = if tx >= nx {
            (tx - nx) as u64
        } else {
            (nx - tx) as u64
        };
        let ndy: u64 = if ty >= ny {
            (ty - ny) as u64
        } else {
            (ny - ty) as u64
        };
        let done = ndx <= 100 && ndy <= 100;
        if !done {
            keep.insert(e, o);
        }
        results.push(MoveResult {
            new_x: if nx != p.x {
                Some(nx)
            } else {
                None
            },
            new_y: if ny != p.y {
                Some(ny)
            } else {
                None
            },
            e_id: e,
        });
        proof {
            // each key is visited once: later keys are strictly larger
            lemma_key_seq(orders.v@);
            assert(forall|j: int| 0 <= j < n ==> ks[j] == (#[trigger] orders.v@[j]).0);
            assert(forall|j: int| 0 <= j < i ==> ks[j] != ks[i as int]);
            assert(forall|j: int| (i as int) < j < n ==> ks[j] != ks[i as int]);
            assert(done == spec_order_done(pm0, o, e));
            assert(changed == spec_pos_changed(pm0, om[ks[i as int]], ks[i as int]));
            assert forall|e2: u64|
                (keep@.dom().contains(e2) <==> (exists|j: int|
                    0 <= j < i + 1 && ks[j] == e2 && !spec_order_done(
                        pm0,
                        om[#[trigger] ks[j]],
                        ks[j],
                    ))) by {
                if e2 == e {
                    if !done {
                        assert(ks[i as int] == e2 && !spec_order_done(pm0, om[ks[i as int]], ks[i as int]));
                    } else {
                        if keep@.dom().contains(e2) {
                            assert(false);
                        }
                    }
                }
            }
            assert forall|e2: u64|
                (moved@.dom().contains(e2) <==> (old(moved)@.dom().contains(e2) || (exists|j: int|
                    0 <= j < i + 1 && ks[j] == e2 && spec_pos_changed(
                        pm0,
                        om[#[trigger] ks[j]],
                        ks[j],
                    )))) by {
                if changed {
                    assert(moved@ == moved_pre.insert(e, MovedFlag));
                } else {
                    assert(moved@ == moved_pre);
                }
                if e2 == e {
                    if changed {
                        assert(moved@.dom().contains(e2));
                        assert(ks[i as int] == e2 && spec_pos_changed(pm0, om[ks[i as int]], ks[i as int]));
                    } else {
                        assert(moved@.dom().contains(e2) == moved_pre.dom().contains(e2));
                        if moved_pre.dom().contains(e2) && !old(moved)@.dom().contains(e2) {
                            let j = choose|j: int|
                                0 <= j < i && ks[j] == e2 && spec_pos_changed(
                                    pm0,
                                    om[#[trigger] ks[j]],
                                    ks[j],
                                );
                            assert(false);
                        }
                        if exists|j: int|
                            0 <= j < i + 1 && ks[j] == e2 && spec_pos_changed(
                                pm0,
                                om[#[trigger] ks[j]],
                                ks[j],
                            ) {
                            let j = choose|j: int|
                                0 <= j < i + 1 && ks[j] == e2 && spec_pos_changed(
                                    pm0,
                                    om[#[trigger] ks[j]],
                                    ks[j],
                                );
                            assert(j == i as int);
                            assert(false);
                        }
                    }
                } else {
                    assert(moved@.dom().contains(e2) == moved_pre.dom().contains(e2));
                    if exists|j: int|
                        0 <= j < i + 1 && ks[j] == e2 && spec_pos_changed(
                            pm0,
                            om[#[trigger] ks[j]],
                            ks[j],
                        ) {
                        let j = choose|j: int|
                            0 <= j < i + 1 && ks[j] == e2 && spec_pos_changed(
                                pm0,
                                om[#[trigger] ks[j]],
                                ks[j],
                            );
                        assert(j != i as int);
                        assert(0 <= j < i && ks[j] == e2 && spec_pos_changed(pm0, om[ks[j]], ks[j]));
                    }
                    if moved_pre.dom().contains(e2) && !old(moved)@.dom().contains(e2) {
                        let j = choose|j: int|
                            0 <= j < i && ks[j] == e2 && spec_pos_changed(
                                pm0,
                                om[#[trigger] ks[j]],
                                ks[j],
                            );
                        assert(0 <= j < i + 1 && ks[j] == e2 && spec_pos_changed(pm0, om[ks[j]], ks[j]));
                    }
                }
            }
        }
        i += 1;
    }
    *orders = keep;
    proof {
        assert(forall|j1: int, j2: int|
            0 <= j1 < j2 < ks.len() ==> #[trigger] ks[j1] != #[trigger] ks[j2]);
        lemma_key_seq(old(orders).v@);
        assert forall|e: u64|
            (final(orders)@.dom().contains(e) <==> (#[trigger] om.dom().contains(e)
                && !spec_order_done(pm0, om[e], e))) by {
            if om.dom().contains(e) {
                let j = choose|j: int|
                    0 <= j < old(orders).v@.len() && (#[trigger] old(orders).v@[j]).0 == e;
                assert(ks[j] == e);
            }
        }
        assert forall|e: u64|
            (final(moved)@.dom().contains(e) <==> (#[trigger] old(moved)@.dom().contains(e) || (
            om.dom().contains(e) && spec_pos_changed(pm0, om[e], e)))) by {
            if om.dom().contains(e) {
                let j = choose|j: int|
                    0 <= j < old(orders).v@.len() && (#[trigger] old(orders).v@[j]).0 == e;
                assert(ks[j] == e);
            }
        }
    }
    results
}

} // verus!
