//! The observation builder.
//!
//! The world is encoded as a dense tensor over a uniform grid of
//! 20-unit cells, four channels per cell, flattened row-major over
//! (cell x, cell y, channel).  A cell is described by the first entity
//! (lowest id) whose position falls inside it: channel 0 holds the
//! entity id plus one (zero marks an empty cell), channel 1 its current
//! hit points, channel 2 its unit-type index, channel 3 its faction.

use vstd::prelude::*;
use crate::components::{FactionId, Hp, Pos};
use crate::table::Table;

verus! {

/// Cell edge length in micro-units (20 world units).
pub const CELL_MICRO: u64 = 20_000_000;

/// Channels per grid cell.
pub const CHANNELS: usize = 4;

/// The grid index of a coordinate: its cell, with the far world edge
/// folded into the last cell.
pub open spec fn spec_cell_of(x: int, cells: int) -> int {
    let c = x / CELL_MICRO as int;
    if c >= cells {
        cells - 1
    } else {
        c
    }
}

/// Whether entity record `p` sits in cell `(ci, cj)`.
pub open spec fn spec_in_cell(p: Pos, ci: int, cj: int, gw: int, gh: int) -> bool {
    spec_cell_of(p.x as int, gw) == ci && spec_cell_of(p.y as int, gh) == cj
}

/// The first (lowest-id) entity at or after scan position `i` that sits
/// in cell `(ci, cj)`.
pub open spec fn spec_first_in_cell(
    s: Seq<(u64, Pos)>,
    ci: int,
    cj: int,
    gw: int,
    gh: int,
    i: int,
) -> Option<u64>
    decreases s.len() - i,
{
    if i < 0 || i >= s.len() {
        None
    } else if spec_in_cell(s[i].1, ci, cj, gw, gh) {
        Some(s[i].0)
    } else {
        spec_first_in_cell(s, ci, cj, gw, gh, i + 1)
    }
}

/// What one channel of one cell holds.
pub open spec fn spec_cell_channel(
    s: Seq<(u64, Pos)>,
    hp: Map<u64, Hp>,
    tags: Map<u64, u64>,
    factions: Map<u64, FactionId>,
    ci: int,
    cj: int,
    gw: int,
    gh: int,
    k: int,
) -> u64 {
    match spec_first_in_cell(s, ci, cj, gw, gh, 0) {
        None => 0,
        Some(e) => if k == 0 {
            (e + 1) as u64
        } else if k == 1 {
            hp[e].curr_hp
        } else if k == 2 {
            tags[e]
        } else {
            factions[e].0
        },
    }
}

/// Cells before `(ci, cj)` in row-major order have strictly smaller
/// flat indices.
proof fn lemma_cell_index_bound(a: int, b: int, ci: int, cj: int, gh: int)
    requires
        0 <= a < ci,
        0 <= b < gh,
        0 <= cj,
    ensures
        a * gh + b < ci * gh + cj,
{
    assert((a + 1) * gh <= ci * gh) by (nonlinear_arith)
        requires a + 1 <= ci, gh >= 0;
    assert(a * gh + b < (a + 1) * gh) by (nonlinear_arith)
        requires b < gh;
}

/// Build the flattened feature tensor for a `gw` by `gh` cell grid.
pub fn build_features(
    positions: &Table<Pos>,
    hp: &Table<Hp>,
    tags: &Table<u64>,
    factions: &Table<FactionId>,
    gw: usize,
    gh: usize,
) -> (features: Vec<u64>)
    requires
        positions.wf(),
        hp.wf(),
        tags.wf(),
        factions.wf(),
        gw <= 1000,
        gh <= 1000,
        forall|e: u64| #[trigger]
            positions@.dom().contains(e) ==> e < u64::MAX && hp@.dom().contains(e)
                && tags@.dom().contains(e) && factions@.dom().contains(e),
        forall|e: u64| #[trigger] positions@.dom().contains(e) ==> positions@[e].x >= 0
            && positions@[e].y >= 0,
    ensures
        features@.len() == gw * gh * CHANNELS,
        forall|ci: int, cj: int, k: int|
            0 <= ci < gw && 0 <= cj < gh && 0 <= k < CHANNELS ==> features@[(ci * gh + cj) * CHANNELS
                + k] == spec_cell_channel(
                positions.v@,
                hp@,
                tags@,
                factions@,
                ci,
                cj,
                gw as int,
                gh as int,
                k,
            ),
{
    let ghost s = positions.v@;
    let mut features: Vec<u64> = Vec::new();
    let mut ci: usize = 0;
    while ci < gw
        invariant
            positions.wf(),
            hp.wf(),
            tags.wf(),
            factions.wf(),
            positions.v@ == s,
            gw <= 1000,
            gh <= 1000,
            ci <= gw,
            forall|e: u64| #[trigger]
                positions@.dom().contains(e) ==> e < u64::MAX && hp@.dom().contains(e)
                    && tags@.dom().contains(e) && factions@.dom().contains(e),
            forall|e: u64| #[trigger] positions@.dom().contains(e) ==> positions@[e].x >= 0
                && positions@[e].y >= 0,
            features@.len() == ci * gh * CHANNELS,
            forall|a: int, b: int, k: int|
                0 <= a < ci && 0 <= b < gh && 0 <= k < CHANNELS ==> features@[(a * gh + b) * CHANNELS
                    + k] == spec_cell_channel(s, hp@, tags@, factions@, a, b, gw as int, gh as int, k),
        decreases gw - ci,
    {
        let mut cj: usize = 0;
        while cj < gh
            invariant
                positions.wf(),
                hp.wf(),
                tags.wf(),
                factions.wf(),
                positions.v@ == s,
                gw <= 1000,
                gh <= 1000,
                ci < gw,
                cj <= gh,
                forall|e: u64| #[trigger]
                    positions@.dom().contains(e) ==> e < u64::MAX && hp@.dom().contains(e)
                        && tags@.dom().contains(e) && factions@.dom().contains(e),
                forall|e: u64| #[trigger] positions@.dom().contains(e) ==> positions@[e].x >= 0
                    && positions@[e].y >= 0,
                features@.len() == (ci * gh + cj) * CHANNELS,
                forall|a: int, b: int, k: int|
                    0 <= a < ci && 0 <= b < gh && 0 <= k < CHANNELS ==> features@[(a * gh + b)
                        * CHANNELS + k] == spec_cell_channel(
                        s,
                        hp@,
                        tags@,
                        factions@,
                        a,
                        b,
                        gw as int,
                        gh as int,
                        k,
                    ),
                forall|b: int, k: int|
                    0 <= b < cj && 0 <= k < CHANNELS ==> features@[(ci * gh + b) * CHANNELS + k]
                        == spec_cell_channel(
                        s,
                        hp@,
                        tags@,
                        factions@,
                        ci as int,
                        b,
                        gw as int,
                        gh as int,
                        k,
                    ),
            decreases gh - cj,
        {
            // scan entities in ascending id order for the first in this cell
            let n = positions.len();
            let mut i: usize = 0;
            let mut found: Option<u64> = None;
            while i < n && found.is_none()
                invariant
                    positions.wf(),
                    hp.wf(),
                    tags.wf(),
                    factions.wf(),
                    positions.v@ == s,
                    n == s.len(),
                    i <= n,
                    ci < gw,
                    cj < gh,
                    forall|e: u64| #[trigger]
                        positions@.dom().contains(e) ==> e < u64::MAX && hp@.dom().contains(e)
                            && tags@.dom().contains(e) && factions@.dom().contains(e),
                    forall|e: u64| #[trigger] positions@.dom().contains(e) ==> positions@[e].x >= 0
                        && positions@[e].y >= 0,
                    found is None ==> spec_first_in_cell(s, ci as int, cj as int, gw as int, gh as int, 0)
                        == spec_first_in_cell(s, ci as int, cj as int, gw as int, gh as int, i as int),
                    found is Some ==> Some(found.unwrap()) == spec_first_in_cell(
                        s,
                        ci as int,
                        cj as int,
                        gw as int,
                        gh as int,
                        0,
                    ) && positions@.dom().contains(found.unwrap()),
                decreases n - i, (if found is None { 1int } else { 0int }),
            {
                let e = positions.key_at(i);
                let p = positions.val_at(i);
                proof {
                    crate::table::lemma_key_seq(s);
                    crate::table::lemma_pairs_at(s, i as int);
                }
                let ex: u64 = p.x as u64;
                let ey: u64 = p.y as u64;
                let mut ecx = ex / CELL_MICRO;
                if ecx >= gw as u64 {
                    ecx = (gw - 1) as u64;
                }
                let mut ecy = ey / CELL_MICRO;
                if ecy >= gh as u64 {
                    ecy = (gh - 1) as u64;
                }
                if ecx == ci as u64 && ecy == cj as u64 {
                    found = Some(e);
                } else {
                    proof {
                        assert(!spec_in_cell(s[i as int].1, ci as int, cj as int, gw as int, gh as int));
                    }
                    i += 1;
                }
            }
            match found {
                None => {
                    features.push(0);
                    features.push(0);
                    features.push(0);
                    features.push(0);
                },
                Some(e) => {
                    let ehp = match hp.get(e) {
                        Some(v) => v,
                        None => {
                            proof {
                                assert(false);
                            }
                            Hp { max_hp: 0, curr_hp: 0 }
                        },
                    };
                    let etag = match tags.get(e) {
                        Some(v) => v,
                        None => {
                            proof {
                                assert(false);
                            }
                            0
                        },
                    };
                    let efac = match factions.get(e) {
                        Some(v) => v,
                        None => {
                            proof {
                                assert(false);
                            }
                            FactionId(0)
                        },
                    };
                    features.push(e + 1);
                    features.push(ehp.curr_hp);
                    features.push(etag);
                    features.push(efac.0);
                },
            }
            proof {
                assert forall|a: int, b: int, k: int|
                    0 <= a < ci && 0 <= b < gh && 0 <= k < CHANNELS implies features@[(a * gh + b)
                        * CHANNELS + k] == spec_cell_channel(
                        s,
                        hp@,
                        tags@,
                        factions@,
                        a,
                        b,
                        gw as int,
                        gh as int,
                        k,
                    ) by {
                    lemma_cell_index_bound(a, b, ci as int, cj as int, gh as int);
                }
            }
            cj += 1;
        }
        proof {
            assert((ci + 1) * gh == ci * gh + gh) by (nonlinear_arith);
        }
        ci += 1;
    }
    features
}

} // verus!
