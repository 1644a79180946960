//! Scenario binding.
//!
//! A scenario is the engine's one external collaborator: `init` declares
//! the factions and the unit-type catalog, `reset` produces the units of
//! a fresh episode from the generator it is handed.  The engine trusts
//! neither: everything a scenario returns is validated before it touches
//! the world.  The towers scenario ships with the engine: an agent in
//! the middle, eight to eleven towers drawn uniformly at random, each at
//! least 100 units from the agent, friend or foe by a coin flip.

use vstd::prelude::*;
use crate::components::{Shape, UnitType, UnitTypeMap};
use crate::errors::RtsError;
use crate::geom::{MAX_SPEED, SCALE};
use crate::rng::{rng_gen_bool, rng_gen_range};
use crate::world::{unit_type_valid, UnitSpec};

verus! {

/// A unit-type declaration as a scenario hands it over; missing fields
/// fall back to the catalog defaults.
#[derive(Clone, Debug, PartialEq, Eq)]
pub struct UnitTypeSpec {
    pub tag: String,
    pub max_hp: Option<u64>,
    pub can_move: Option<bool>,
    pub shape: Option<Shape>,
    pub speed: Option<i64>,
    pub kill_reward: Option<i64>,
    pub death_penalty: Option<i64>,
    pub damage_deal_reward: Option<i64>,
    pub damage_recv_penalty: Option<i64>,
    pub attack_range: Option<i64>,
}

/// What a scenario's `init` declares.
#[derive(Clone, Debug, PartialEq, Eq)]
pub struct ScenarioInit {
    pub factions: u64,
    pub unit_types: Vec<UnitTypeSpec>,
}

/// The scenario callback interface.  The engine validates everything
/// these methods return, so implementations carry no proof burden.
pub trait Scenario {
    /// The factions and the unit-type catalog of this scenario.
    fn init(&self) -> ScenarioInit;

    /// The units of a fresh episode, drawn from `rng` so that the seed
    /// fully determines the outcome.
    fn reset(&mut self, rng: &mut rand::rngs::StdRng) -> Vec<UnitSpec>;
}

/// A declaration resolved against the defaults: absent fields fall back,
/// and a kill reward or death penalty given alone sets the other to its
/// negation.
pub open spec fn spec_resolve(sp: UnitTypeSpec) -> UnitType {
    let kr_dp: (i64, i64) = match (sp.kill_reward, sp.death_penalty) {
        (Some(kr), Some(dp)) => (kr, dp),
        (Some(kr), None) => (kr, (-(kr as int)) as i64),
        (None, Some(dp)) => ((-(dp as int)) as i64, dp),
        (None, None) => (0i64, 0i64),
    };
    UnitType {
        tag: sp.tag,
        max_hp: match sp.max_hp {
            Some(v) => v,
            None => 100u64,
        },
        movable: match sp.can_move {
            Some(v) => v,
            None => true,
        },
        shape: match sp.shape {
            Some(v) => v,
            None => Shape::Triangle { base_len: (10 * SCALE) as i64 },
        },
        kill_reward: kr_dp.0,
        death_penalty: kr_dp.1,
        damage_deal_reward: sp.damage_deal_reward,
        damage_recv_penalty: sp.damage_recv_penalty,
        speed: match sp.speed {
            Some(v) => v,
            None => (20 * SCALE) as i64,
        },
        attack_range: match sp.attack_range {
            Some(v) => v,
            None => (10 * SCALE) as i64,
        },
    }
}

/// Resolve one declaration against the defaults.
pub fn resolve_unit_type(sp: &UnitTypeSpec) -> (t: UnitType)
    requires
        match sp.kill_reward {
            Some(kr) => kr > i64::MIN,
            None => true,
        },
        match sp.death_penalty {
            Some(dp) => dp > i64::MIN,
            None => true,
        },
    ensures
        t == spec_resolve(*sp),
{
    let (kill_reward, death_penalty): (i64, i64) = match (sp.kill_reward, sp.death_penalty) {
        (Some(kr), Some(dp)) => (kr, dp),
        (Some(kr), None) => (kr, -kr),
        (None, Some(dp)) => (-dp, dp),
        (None, None) => (0, 0),
    };
    UnitType {
        tag: sp.tag.clone(),
        max_hp: match sp.max_hp {
            Some(v) => v,
            None => 100,
        },
        movable: match sp.can_move {
            Some(v) => v,
            None => true,
        },
        shape: match sp.shape {
            Some(v) => v,
            None => Shape::Triangle { base_len: 10 * SCALE },
        },
        kill_reward,
        death_penalty,
        damage_deal_reward: sp.damage_deal_reward,
        damage_recv_penalty: sp.damage_recv_penalty,
        speed: match sp.speed {
            Some(v) => v,
            None => 20 * SCALE,
        },
        attack_range: match sp.attack_range {
            Some(v) => v,
            None => 10 * SCALE,
        },
    }
}

/// Whether a resolved declaration may enter the catalog.
pub open spec fn spec_type_ok(sp: UnitTypeSpec) -> bool {
    &&& (match sp.kill_reward {
        Some(kr) => kr > i64::MIN,
        None => true,
    })
    &&& (match sp.death_penalty {
        Some(dp) => dp > i64::MIN,
        None => true,
    })
    &&& unit_type_valid(spec_resolve(sp))
}

/// Build the unit-type catalog from a scenario's declarations.
///
/// Fails with `ScenarioError` exactly when some declaration resolves to
/// an uninstantiable type (a non-positive dimension or speed, a speed
/// beyond the cap, a negative attack range, an out-of-range reward) or
/// when two declarations share a tag.
pub fn build_unit_type_map(specs: &Vec<UnitTypeSpec>) -> (r: Result<UnitTypeMap, RtsError>)
    ensures
        match r {
            Ok(m) => {
                &&& m.wf()
                &&& m.typ_vec@.len() == specs@.len()
                &&& forall|i: int|
                    0 <= i < specs@.len() ==> #[trigger] m.typ_vec@[i] == spec_resolve(specs@[i])
                &&& forall|i: int| 0 <= i < specs@.len() ==> spec_type_ok(#[trigger] specs@[i])
                &&& forall|i: int, j: int|
                    0 <= i < j < specs@.len() ==> (#[trigger] specs@[i]).tag@ != (
                    #[trigger] specs@[j]).tag@
            },
            Err(e) => {
                &&& e == RtsError::ScenarioError
                &&& (exists|i: int| 0 <= i < specs@.len() && !spec_type_ok(#[trigger] specs@[i]))
                    || (exists|i: int, j: int|
                    0 <= i < j < specs@.len() && (#[trigger] specs@[i]).tag@ == (
                    #[trigger] specs@[j]).tag@)
            },
        },
{
    let mut m = UnitTypeMap::new();
    let mut i: usize = 0;
    while i < specs.len()
        invariant
            i <= specs@.len(),
            m.typ_vec@.len() == i,
            forall|j: int|
                0 <= j < i ==> #[trigger] m.typ_vec@[j] == spec_resolve(specs@[j]),
            forall|j: int| 0 <= j < i ==> spec_type_ok(#[trigger] specs@[j]),
            forall|a: int, b: int|
                0 <= a < b < i ==> (#[trigger] specs@[a]).tag@ != (#[trigger] specs@[b]).tag@,
            m.wf(),
        decreases specs@.len() - i,
    {
        let sp = &specs[i];
        let reward_ok = (match sp.kill_reward {
            Some(kr) => kr > i64::MIN,
            None => true,
        }) && (match sp.death_penalty {
            Some(dp) => dp > i64::MIN,
            None => true,
        });
        if !reward_ok {
            return Err(RtsError::ScenarioError);
        }
        let t = resolve_unit_type(sp);
        let shape_ok = match t.shape {
            Shape::Triangle { base_len } => base_len > 0,
            Shape::Rect { width, height } => width > 0 && height > 0,
        };
        let valid = shape_ok && 0 < t.speed && t.speed <= MAX_SPEED && t.attack_range >= 0
            && -1_000_000_000_000 <= t.kill_reward && t.kill_reward <= 1_000_000_000_000
            && -1_000_000_000_000 <= t.death_penalty && t.death_penalty <= 1_000_000_000_000;
        if !valid {
            return Err(RtsError::ScenarioError);
        }
        if m.index_of(&sp.tag).is_some() {
            proof {
                let j = choose|j: int|
                    0 <= j < m.typ_vec@.len() && (#[trigger] m.typ_vec@[j]).tag@ == sp.tag@;
                assert(specs@[j].tag@ == specs@[i as int].tag@);
            }
            return Err(RtsError::ScenarioError);
        }
        proof {
            assert forall|j: int|
                0 <= j < i implies (#[trigger] specs@[j]).tag@ != specs@[i as int].tag@ by {
                if specs@[j].tag@ == specs@[i as int].tag@ {
                    assert(m.typ_vec@[j] == spec_resolve(specs@[j]));
                    assert((#[trigger] m.typ_vec@[j]).tag@ == sp.tag@);
                    assert(m.spec_index_of(sp.tag@) is Some);
                    assert(false);
                }
            }
        }
        m.typ_vec.push(t);
        i += 1;
    }
    Ok(m)
}

/// The built-in towers scenario.
#[derive(Copy, Clone, Debug, PartialEq, Eq, Structural)]
pub struct TowersScenario;

/// The agent's starting spot in the towers scenario (350, 350).
pub const TOWERS_AGENT_X: i64 = 350_000_000;

pub const TOWERS_AGENT_Y: i64 = 350_000_000;

/// Towers never spawn within 100 units of the agent (squared micro-units).
pub const TOWERS_CLEARANCE_SQ: u64 = 10_000_000_000_000_000;

impl TowersScenario {
    /// Draw one tower position: uniform in the 1000 by 1000 world, at
    /// least 100 units from the agent (a bounded number of redraws, then
    /// the origin, which also keeps that distance).
    fn tower_pos(rng: &mut rand::rngs::StdRng) -> (p: (i64, i64))
        ensures
            0 <= p.0 <= 1_000_000_000,
            0 <= p.1 <= 1_000_000_000,
            crate::geom::dist_sq(
                p.0 as int,
                p.1 as int,
                TOWERS_AGENT_X as int,
                TOWERS_AGENT_Y as int,
            ) >= TOWERS_CLEARANCE_SQ,
    {
        let mut tries: usize = 0;
        while tries < 32
            invariant
                tries <= 32,
            decreases 32 - tries,
        {
            let x = rng_gen_range(rng, 0, 1_000_000_001) as i64;
            let y = rng_gen_range(rng, 0, 1_000_000_001) as i64;
            let d = crate::geom::distance_sq(x, y, TOWERS_AGENT_X, TOWERS_AGENT_Y);
            if d >= TOWERS_CLEARANCE_SQ {
                return (x, y);
            }
            tries += 1;
        }
        proof {
            assert(350_000_000int * 350_000_000int + 350_000_000int * 350_000_000int
                >= TOWERS_CLEARANCE_SQ) by (nonlinear_arith);
        }
        (0, 0)
    }
}

impl Scenario for TowersScenario {
    /// Three factions (agent, friendly, hostile); a movable agent type
    /// and a static tower type.
    fn init(&self) -> ScenarioInit {
        let mut unit_types: Vec<UnitTypeSpec> = Vec::new();
        unit_types.push(
            UnitTypeSpec {
                tag: "agent".to_string(),
                max_hp: None,
                can_move: Some(true),
                shape: Some(Shape::Triangle { base_len: 10 * SCALE }),
                speed: Some(30 * SCALE),
                kill_reward: None,
                death_penalty: None,
                damage_deal_reward: None,
                damage_recv_penalty: None,
                attack_range: None,
            },
        );
        unit_types.push(
            UnitTypeSpec {
                tag: "tower".to_string(),
                max_hp: None,
                can_move: Some(false),
                shape: Some(Shape::Rect { width: 15 * SCALE, height: 15 * SCALE }),
                speed: None,
                kill_reward: Some(100_000_000),
                death_penalty: None,
                damage_deal_reward: None,
                damage_recv_penalty: None,
                attack_range: None,
            },
        );
        ScenarioInit { factions: 3, unit_types }
    }

    /// The agent at (350, 350) and eight to eleven towers at uniformly
    /// random spots clear of the agent, each friendly or hostile by a
    /// coin flip.
    fn reset(&mut self, rng: &mut rand::rngs::StdRng) -> Vec<UnitSpec> {
        let mut units: Vec<UnitSpec> = Vec::new();
        units.push(
            UnitSpec {
                unit_type: "agent".to_string(),
                pos: crate::components::Pos { x: TOWERS_AGENT_X, y: TOWERS_AGENT_Y, heading: 0 },
                faction: 0,
            },
        );
        let n = rng_gen_range(rng, 8, 12);
        let mut i: u64 = 1;
        while i < n
            invariant
                n < 12,
            decreases n - i,
        {
            let good = rng_gen_bool(rng);
            let (x, y) = Self::tower_pos(rng);
            units.push(
                UnitSpec {
                    unit_type: "tower".to_string(),
                    pos: crate::components::Pos { x, y, heading: 0 },
                    faction: if good {
                        1
                    } else {
                        2
                    },
                },
            );
            i += 1;
        }
        units
    }
}

} // verus!
