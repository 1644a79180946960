//! The trigger system: win/lose evaluation for the towers scenario.
//!
//! The agent is the lowest-id entity of faction 0.  Entities are scanned
//! in ascending id order and the first rule that fires wins: a friendly
//! tower (faction 1) within the victory radius ends the episode with a
//! reward, a hostile tower (faction 2) within the defeat radius ends it
//! with a penalty.  Distances are compared by their exact squares.

use vstd::prelude::*;
use crate::components::{FactionId, Pos};
use crate::geom::{dist_sq, distance_sq, MAX_COORD};
use crate::ids::EntityId;
use crate::movement::in_bounds;
use crate::table::{lemma_key_seq, Table};

verus! {

/// Victory radius: 1e-4 world units, squared, in micro-units.
pub const VICTORY_RADIUS_SQ: u64 = 10_000;

/// Defeat radius: 50 world units, squared, in micro-units.
pub const DEFEAT_RADIUS_SQ: u64 = 2_500_000_000_000_000;

/// Reward for victory, in micro-reward units (+100).
pub const VICTORY_REWARD: i64 = 100_000_000;

/// Penalty for defeat, in micro-reward units (-100).
pub const DEFEAT_PENALTY: i64 = -100_000_000;

/// What the trigger scan concluded, with the reward and the entity that
/// fired the rule (0 and entity 0 when the episode continues).
#[derive(Copy, Clone, Debug, PartialEq, Eq, Structural)]
pub enum VictoryState {
    Victory(i64, EntityId),
    Defeat(i64, EntityId),
    Continue(i64, EntityId),
}

impl VictoryState {
    pub open spec fn spec_typed_reward(&self) -> (i64, EntityId) {
        match *self {
            VictoryState::Victory(r, id) => (r, id),
            VictoryState::Defeat(r, id) => (r, id),
            VictoryState::Continue(r, id) => (r, id),
        }
    }

    pub open spec fn is_terminal(&self) -> bool {
        !(*self is Continue)
    }

    /// The reward and the entity it is attributed to.
    pub fn typed_reward(&self) -> (r: (i64, EntityId))
        ensures
            r == self.spec_typed_reward(),
    {
        match *self {
            VictoryState::Victory(r, id) => (r, id),
            VictoryState::Defeat(r, id) => (r, id),
            VictoryState::Continue(r, id) => (r, id),
        }
    }
}

/// The first entity, in ascending id order, belonging to faction 0.
pub open spec fn spec_agent_at(fm: Map<u64, FactionId>, ks: Seq<u64>, i: int) -> Option<u64>
    decreases ks.len() - i,
{
    if i < 0 || i >= ks.len() {
        None
    } else if fm[ks[i]] == FactionId(0) {
        Some(ks[i])
    } else {
        spec_agent_at(fm, ks, i + 1)
    }
}

/// The verdict the scan reaches from position `i` on, the agent's entity
/// and position given, earlier entities having fired no rule.
pub open spec fn spec_scan_at(
    pm: Map<u64, Pos>,
    fm: Map<u64, FactionId>,
    ks: Seq<u64>,
    agent: u64,
    i: int,
) -> VictoryState
    decreases ks.len() - i,
{
    if i < 0 || i >= ks.len() {
        VictoryState::Continue(0, 0)
    } else {
        let e = ks[i];
        let d = dist_sq(
            pm[agent].x as int,
            pm[agent].y as int,
            pm[e].x as int,
            pm[e].y as int,
        );
        if e != agent && d < VICTORY_RADIUS_SQ && fm[e] == FactionId(1) {
            VictoryState::Victory(VICTORY_REWARD, e)
        } else if e != agent && d < DEFEAT_RADIUS_SQ && fm[e] == FactionId(2) {
            VictoryState::Defeat(DEFEAT_PENALTY, e)
        } else {
            spec_scan_at(pm, fm, ks, agent, i + 1)
        }
    }
}

/// The verdict of this tick: `Continue(0, 0)` when there is no agent,
/// otherwise the first rule to fire in ascending id order.
pub open spec fn spec_trigger(
    pm: Map<u64, Pos>,
    fm: Map<u64, FactionId>,
    ks: Seq<u64>,
) -> VictoryState {
    match spec_agent_at(fm, ks, 0) {
        None => VictoryState::Continue(0, 0),
        Some(agent) => spec_scan_at(pm, fm, ks, agent, 0),
    }
}

/// A scan that ends an episode attributes its reward to a scanned entity.
pub proof fn lemma_scan_entity_live(
    pm: Map<u64, Pos>,
    fm: Map<u64, FactionId>,
    ks: Seq<u64>,
    agent: u64,
    i: int,
)
    requires
        forall|j: int| 0 <= j < ks.len() ==> pm.dom().contains(#[trigger] ks[j]),
        spec_scan_at(pm, fm, ks, agent, i).is_terminal(),
    ensures
        pm.dom().contains(spec_scan_at(pm, fm, ks, agent, i).spec_typed_reward().1),
    decreases ks.len() - i,
{
    if 0 <= i < ks.len() {
        let e = ks[i];
        let d = dist_sq(pm[agent].x as int, pm[agent].y as int, pm[e].x as int, pm[e].y as int);
        if e != agent && d < VICTORY_RADIUS_SQ && fm[e] == FactionId(1) {
        } else if e != agent && d < DEFEAT_RADIUS_SQ && fm[e] == FactionId(2) {
        } else {
            lemma_scan_entity_live(pm, fm, ks, agent, i + 1);
        }
    }
}

/// A trigger verdict that ends the episode names a live entity.
pub proof fn lemma_trigger_entity_live(pm: Map<u64, Pos>, fm: Map<u64, FactionId>, ks: Seq<u64>)
    requires
        forall|j: int| 0 <= j < ks.len() ==> pm.dom().contains(#[trigger] ks[j]),
        spec_trigger(pm, fm, ks).is_terminal(),
    ensures
        pm.dom().contains(spec_trigger(pm, fm, ks).spec_typed_reward().1),
{
    match spec_agent_at(fm, ks, 0) {
        None => {},
        Some(agent) => {
            lemma_scan_entity_live(pm, fm, ks, agent, 0);
        },
    }
}

/// Evaluate the towers triggers against the current world.
pub fn run_trigger(positions: &Table<Pos>, factions: &Table<FactionId>, w: i64, h: i64) -> (v:
    VictoryState)
    requires
        positions.wf(),
        factions.wf(),
        factions@.dom() == positions@.dom(),
        factions.keys() == positions.keys(),
        0 < w <= MAX_COORD,
        0 < h <= MAX_COORD,
        forall|e: u64| #[trigger]
            positions@.dom().contains(e) ==> in_bounds(
                positions@[e].x as int,
                positions@[e].y as int,
                w as int,
                h as int,
            ),
    ensures
        v == spec_trigger(positions@, factions@, positions.keys()),
{
    let ghost pm = positions@;
    let ghost fm = factions@;
    let ghost ks = positions.keys();
    let n = positions.len();

    // find the agent: the first entity of faction 0
    let mut a: usize = 0;
    let mut agent: u64 = 0;
    let mut found = false;
    while a < n && !found
        invariant
            positions.wf(),
            factions.wf(),
            factions@ == fm,
            positions@ == pm,
            positions.keys() == ks,
            factions.keys() == ks,
            factions@.dom() == positions@.dom(),
            n == ks.len(),
            a <= n,
            !found ==> spec_agent_at(fm, ks, 0) == spec_agent_at(fm, ks, a as int),
            found ==> a < n && spec_agent_at(fm, ks, 0) == Some(agent) && agent == ks[a as int],
        decreases n - a, (if found { 0int } else { 1int }),
    {
        let e = factions.key_at(a);
        let f = factions.val_at(a);
        proof {
            lemma_key_seq(factions.v@);
        }
        if f.0 == 0 {
            agent = e;
            found = true;
        } else {
            a += 1;
        }
    }
    if !found {
        return VictoryState::Continue(0, 0);
    }

    let ap = match positions.get(agent) {
        Some(p) => p,
        None => {
            proof {
                assert(pm.dom().contains(agent));
                assert(false);
            }
            Pos { x: 0, y: 0, heading: 0 }
        },
    };

    let mut i: usize = 0;
    while i < n
        invariant
            positions.wf(),
            factions.wf(),
            factions@ == fm,
            positions@ == pm,
            positions.keys() == ks,
            factions.keys() == ks,
            factions@.dom() == positions@.dom(),
            n == ks.len(),
            i <= n,
            pm.dom().contains(agent),
            ap == pm[agent],
            0 < w <= MAX_COORD,
            0 < h <= MAX_COORD,
            forall|e: u64| #[trigger]
                pm.dom().contains(e) ==> in_bounds(pm[e].x as int, pm[e].y as int, w as int, h as int),
            spec_scan_at(pm, fm, ks, agent, 0) == spec_scan_at(pm, fm, ks, agent, i as int),
            spec_agent_at(fm, ks, 0) == Some(agent),
        decreases n - i,
    {
        let e = positions.key_at(i);
        let p = positions.val_at(i);
        let ghost _ = factions.keys();
        proof {
            lemma_key_seq(positions.v@);
            lemma_key_seq(factions.v@);
            assert(fm.dom().contains(e));
        }
        let f = match factions.get(e) {
            Some(f) => f,
            None => {
                proof {
                    assert(false);
                }
                FactionId(0)
            },
        };
        let d = distance_sq(ap.x, ap.y, p.x, p.y);
        if e != agent && d < VICTORY_RADIUS_SQ && f.0 == 1 {
            return VictoryState::Victory(VICTORY_REWARD, e);
        } else if e != agent && d < DEFEAT_RADIUS_SQ && f.0 == 2 {
            return VictoryState::Defeat(DEFEAT_PENALTY, e);
        }
        i += 1;
    }
    VictoryState::Continue(0, 0)
}

} // verus!
