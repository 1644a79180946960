//! The render system.
//!
//! The renderer keeps a cache of what each entity last looked like.  It
//! consumes the movement system's change records (one per ordered entity,
//! ascending ids), moves the cache along, and emits one visualization
//! record per change.  On the first frame after a reset (or a load) it
//! emits a full frame instead: every entity in ascending id order with
//! its shape and color.

use vstd::prelude::*;
use crate::components::{Pos, Renderable};
use crate::messages::{Viz, VizEntity, VizShape};
use crate::movement::MoveResult;
use crate::table::Table;

verus! {

/// A cached entry advanced by one change record.
pub open spec fn spec_upd_rend(r0: Renderable, u: MoveResult) -> Renderable {
    Renderable {
        pos: Pos {
            x: match u.new_x {
                Some(x) => x,
                None => r0.pos.x,
            },
            y: match u.new_y {
                Some(y) => y,
                None => r0.pos.y,
            },
            heading: r0.pos.heading,
        },
        shape: r0.shape,
        color: r0.color,
    }
}

/// Whether some change record addresses entity `e`.
pub open spec fn results_have(s: Seq<MoveResult>, e: u64) -> bool {
    exists|j: int| 0 <= j < s.len() && (#[trigger] s[j]).e_id == e
}

/// The one shape record of a full-frame entity.
pub open spec fn spec_full_shape(r: Renderable) -> VizShape {
    VizShape {
        id: 0,
        relative_pos: Pos { x: 0, y: 0, heading: 0 },
        color: r.color,
        shape: r.shape,
        delete: false,
    }
}

/// A delta record: the entity's id and its position after its change was
/// applied, with no shapes.
pub open spec fn is_delta_entity(v: VizEntity, r0: Renderable, u: MoveResult) -> bool {
    &&& v.id == u.e_id
    &&& v.pos == Some(spec_upd_rend(r0, u).pos)
    &&& v.shapes@.len() == 0
    &&& !v.delete
}

/// A full record: the entity's id, cached position, and its one shape.
pub open spec fn is_full_entity(v: VizEntity, e: u64, r: Renderable) -> bool {
    &&& v.id == e
    &&& v.pos == Some(r.pos)
    &&& v.shapes@ =~= seq![spec_full_shape(r)]
    &&& !v.delete
}

/// Advance the cache by this tick's change records and emit the frame:
/// a full frame (every entity, ascending ids, shapes included) when
/// `key_frame` is set, one delta record per change otherwise.
pub fn run_render(cache: &mut Table<Renderable>, results: &Vec<MoveResult>, key_frame: bool) -> (viz:
    Viz)
    requires
        old(cache).wf(),
        forall|j: int|
            0 <= j < results@.len() ==> old(cache)@.dom().contains(
                (#[trigger] results@[j]).e_id,
            ),
        forall|j1: int, j2: int|
            0 <= j1 < j2 < results@.len() ==> (#[trigger] results@[j1]).e_id < (
            #[trigger] results@[j2]).e_id,
    ensures
        final(cache).wf(),
        final(cache)@.dom() == old(cache)@.dom(),
        forall|j: int|
            0 <= j < results@.len() ==> final(cache)@[(#[trigger] results@[j]).e_id]
                == spec_upd_rend(old(cache)@[results@[j].e_id], results@[j]),
        forall|e: u64| #[trigger]
            old(cache)@.dom().contains(e) && !results_have(results@, e) ==> final(cache)@[e]
                == old(cache)@[e],
        key_frame ==> viz.entities@.len() == final(cache).keys().len() && (forall|j: int|
            0 <= j < viz.entities@.len() ==> is_full_entity(
                #[trigger] viz.entities@[j],
                final(cache).v@[j].0,
                final(cache).v@[j].1,
            )),
        !key_frame ==> viz.entities@.len() == results@.len() && (forall|j: int|
            0 <= j < viz.entities@.len() ==> is_delta_entity(
                #[trigger] viz.entities@[j],
                old(cache)@[results@[j].e_id],
                results@[j],
            )),
{
    let ghost m0 = cache@;
    let ghost s = results@;
    let mut deltas: Vec<VizEntity> = Vec::new();
    let mut i: usize = 0;
    while i < results.len()
        invariant
            cache.wf(),
            results@ == s,
            i <= s.len(),
            forall|j: int| 0 <= j < s.len() ==> m0.dom().contains((#[trigger] s[j]).e_id),
            forall|j1: int, j2: int|
                0 <= j1 < j2 < s.len() ==> (#[trigger] s[j1]).e_id < (#[trigger] s[j2]).e_id,
            cache@.dom() == m0.dom(),
            forall|j: int|
                0 <= j < i ==> cache@[(#[trigger] s[j]).e_id] == spec_upd_rend(
                    m0[s[j].e_id],
                    s[j],
                ),
            forall|e: u64| #[trigger]
                m0.dom().contains(e) && !(exists|j: int|
                    0 <= j < i && (#[trigger] s[j]).e_id == e) ==> cache@[e] == m0[e],
            deltas@.len() == i,
            forall|j: int|
                0 <= j < i ==> is_delta_entity(#[trigger] deltas@[j], m0[s[j].e_id], s[j]),
        decreases s.len() - i,
    {
        let u = results[i];
        proof {
            assert(forall|j: int| 0 <= j < i ==> (#[trigger] s[j]).e_id != s[i as int].e_id);
            if exists|j: int| 0 <= j < i && (#[trigger] s[j]).e_id == s[i as int].e_id {
                let j = choose|j: int| 0 <= j < i && (#[trigger] s[j]).e_id == s[i as int].e_id;
                assert(false);
            }
        }
        let r0 = match cache.get(u.e_id) {
            Some(r0) => r0,
            None => {
                proof {
                    assert(false);
                }
                Renderable {
                    pos: Pos { x: 0, y: 0, heading: 0 },
                    shape: crate::components::Shape::Triangle { base_len: 1 },
                    color: crate::components::Color { r: 0, g: 0, b: 0, a: 0 },
                }
            },
        };
        let r1 = Renderable {
            pos: Pos {
                x: match u.new_x {
                    Some(x) => x,
                    None => r0.pos.x,
                },
                y: match u.new_y {
                    Some(y) => y,
                    None => r0.pos.y,
                },
                heading: r0.pos.heading,
            },
            shape: r0.shape,
            color: r0.color,
        };
        cache.insert(u.e_id, r1);
        deltas.push(VizEntity { id: u.e_id, pos: Some(r1.pos), shapes: Vec::new(), delete: false });
        proof {
            assert(forall|j: int|
                (i as int) < j < s.len() ==> (#[trigger] s[j]).e_id != s[i as int].e_id);
            assert forall|e: u64| #[trigger]
                m0.dom().contains(e) && !(exists|j: int|
                    0 <= j < i + 1 && (#[trigger] s[j]).e_id == e) implies cache@[e] == m0[e] by {
                if e != s[i as int].e_id {
                    if exists|j: int| 0 <= j < i && (#[trigger] s[j]).e_id == e {
                        let j = choose|j: int| 0 <= j < i && (#[trigger] s[j]).e_id == e;
                        assert(0 <= j < i + 1 && s[j].e_id == e);
                    }
                }
            }
        }
        i += 1;
    }
    if key_frame {
        let mut full: Vec<VizEntity> = Vec::new();
        let n = cache.len();
        let mut j: usize = 0;
        while j < n
            invariant
                cache.wf(),
                n == cache.keys().len(),
                j <= n,
                full@.len() == j,
                forall|jj: int|
                    0 <= jj < j ==> is_full_entity(
                        #[trigger] full@[jj],
                        cache.v@[jj].0,
                        cache.v@[jj].1,
                    ),
            decreases n - j,
        {
            let e = cache.key_at(j);
            let r = cache.val_at(j);
            proof {
                crate::table::lemma_key_seq(cache.v@);
                crate::table::lemma_pairs_at(cache.v@, j as int);
            }
            let mut shapes: Vec<VizShape> = Vec::new();
            shapes.push(
                VizShape {
                    id: 0,
                    relative_pos: Pos { x: 0, y: 0, heading: 0 },
                    color: r.color,
                    shape: r.shape,
                    delete: false,
                },
            );
            proof {
                assert(shapes@ =~= seq![spec_full_shape(r)]);
            }
            full.push(VizEntity { id: e, pos: Some(r.pos), shapes, delete: false });
            j += 1;
        }
        Viz { entities: full }
    } else {
        Viz { entities: deltas }
    }
}

} // verus!
