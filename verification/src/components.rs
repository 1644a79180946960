//! Components attached to entities, and the unit-type catalog.
//!
//! All spatial quantities are fixed-point micro-units (see `geom`): positions
//! and shape dimensions are `i64` micro-unit counts, speeds are micro-units
//! per second, rewards are micro-reward counts.

use vstd::prelude::*;
use crate::geom::SCALE;

verus! {

/// An entity's location (and heading, kept in micro-turns).
#[derive(Copy, Clone, Debug, PartialEq, Eq, Structural)]
pub struct Pos {
    pub x: i64,
    pub y: i64,
    pub heading: i64,
}

impl Pos {
    pub fn new(x: i64, y: i64) -> (p: Pos)
        ensures
            p == (Pos { x, y, heading: 0i64 }),
    {
        Pos { x, y, heading: 0 }
    }
}

/// Hit points; the world invariant keeps `curr_hp <= max_hp`.
#[derive(Copy, Clone, Debug, PartialEq, Eq, Structural)]
pub struct Hp {
    pub max_hp: u64,
    pub curr_hp: u64,
}

/// Marker component: the entity's position changed this tick.
#[derive(Copy, Clone, Debug, PartialEq, Eq, Structural)]
pub struct MovedFlag;

/// Marker component: the entity's hit points changed this tick.
#[derive(Copy, Clone, Debug, PartialEq, Eq, Structural)]
pub struct HpChangeFlag;

/// Marker component: the entity can move.
#[derive(Copy, Clone, Debug, PartialEq, Eq, Structural)]
pub struct Movable;

/// Marker component: the entity never moves.
#[derive(Copy, Clone, Debug, PartialEq, Eq, Structural)]
pub struct Static;

/// Movement rate, micro-units per second.
#[derive(Copy, Clone, Debug, PartialEq, Eq, Structural)]
pub struct Speed(pub i64);

/// An 8-bit-per-channel color.
#[derive(Copy, Clone, Debug, PartialEq, Eq, Structural, Default)]
pub struct Color {
    pub r: u8,
    pub g: u8,
    pub b: u8,
    pub a: u8,
}

/// A unit's footprint; dimensions are strictly positive micro-units.
#[derive(Copy, Clone, Debug, PartialEq, Eq, Structural)]
pub enum Shape {
    Triangle { base_len: i64 },
    Rect { width: i64, height: i64 },
}

impl Shape {
    /// Strictly positive dimensions.
    pub open spec fn wf(&self) -> bool {
        match *self {
            Shape::Triangle { base_len } => base_len > 0,
            Shape::Rect { width, height } => width > 0 && height > 0,
        }
    }
}

/// The faction (player id) an entity belongs to; 0 is the learning agent.
#[derive(Copy, Clone, Debug, PartialEq, Eq, Structural)]
pub struct FactionId(pub u64);

/// Per-faction data.
#[derive(Copy, Clone, Debug, PartialEq, Eq, Structural)]
pub struct Player {
    pub color: Color,
    pub id: FactionId,
}

/// How a move order steers.
#[derive(Copy, Clone, Debug, PartialEq, Eq, Structural)]
pub enum MoveBehavior {
    Straight,
}

/// What a move order heads for: a ground position, or another entity.
#[derive(Copy, Clone, Debug, PartialEq, Eq, Structural)]
pub enum MoveTarget {
    Ground(Pos),
    Unit(u64),
}

/// Whether the mover fights at the destination.
#[derive(Copy, Clone, Debug, PartialEq, Eq, Structural)]
pub enum MoveAttack {
    Attack,
    Friendly,
}

/// A move order; present on an entity only while it is moving.
#[derive(Copy, Clone, Debug, PartialEq, Eq, Structural)]
pub struct Move {
    pub behavior: MoveBehavior,
    pub target: MoveTarget,
    pub attacking: MoveAttack,
    pub speed: i64,
}

/// The component kinds a snapshot or debug view can name.
#[derive(Copy, Clone, Debug, PartialEq, Eq, Structural)]
pub enum ComponentType {
    Pos,
    Shape,
    Color,
    Faction,
    Movable,
    Static,
    Speed,
    Hp,
    MoveOrder,
    MovedFlag,
}

/// What the renderer remembers about an entity between frames.
#[derive(Copy, Clone, Debug, PartialEq, Eq, Structural)]
pub struct Renderable {
    pub pos: Pos,
    pub shape: Shape,
    pub color: Color,
}

/// A unit type from the scenario's catalog.  `tag` names it; rewards are in
/// micro-reward units; `speed` and `attack_range` are micro-units.
#[derive(Clone, Debug, PartialEq, Eq)]
pub struct UnitType {
    pub tag: String,
    pub max_hp: u64,
    pub movable: bool,
    pub shape: Shape,
    pub kill_reward: i64,
    pub death_penalty: i64,
    pub damage_deal_reward: Option<i64>,
    pub damage_recv_penalty: Option<i64>,
    pub speed: i64,
    pub attack_range: i64,
}

impl Default for UnitType {
    /// The catalog defaults: 100 hit points, movable at 20 units/s,
    /// a 10-unit triangle, 10 units of attack range, no rewards.
    fn default() -> (d: UnitType)
        ensures
            d.tag@ == Seq::<char>::empty(),
            d.max_hp == 100,
            d.movable,
            d.shape == (Shape::Triangle { base_len: (10 * SCALE) as i64 }),
            d.kill_reward == 0,
            d.death_penalty == 0,
            d.damage_deal_reward is None,
            d.damage_recv_penalty is None,
            d.speed == 20 * SCALE,
            d.attack_range == 10 * SCALE,
    {
        UnitType {
            tag: String::new(),
            max_hp: 100,
            movable: true,
            shape: Shape::Triangle { base_len: 10 * SCALE },
            kill_reward: 0,
            death_penalty: 0,
            damage_deal_reward: None,
            damage_recv_penalty: None,
            speed: 20 * SCALE,
            attack_range: 10 * SCALE,
        }
    }
}

/// The unit-type catalog, in scenario declaration order; tags are unique and
/// the position of a type in `typ_vec` is its observation channel index.
#[derive(Clone, Debug, PartialEq, Eq)]
pub struct UnitTypeMap {
    pub typ_vec: Vec<UnitType>,
}

impl UnitTypeMap {
    /// No two catalog entries share a tag.
    pub open spec fn wf(&self) -> bool {
        forall|i: int, j: int|
            0 <= i < j < self.typ_vec@.len() ==> (#[trigger] self.typ_vec@[i]).tag@ != (
            #[trigger] self.typ_vec@[j]).tag@
    }

    /// The catalog index of the type tagged `tag`, if any.
    pub open spec fn spec_index_of(&self, tag: Seq<char>) -> Option<int> {
        if exists|i: int| 0 <= i < self.typ_vec@.len() && (#[trigger] self.typ_vec@[i]).tag@ == tag {
            Some(choose|i: int|
                0 <= i < self.typ_vec@.len() && (#[trigger] self.typ_vec@[i]).tag@ == tag)
        } else {
            None
        }
    }

    pub fn new() -> (m: UnitTypeMap)
        ensures
            m.typ_vec@.len() == 0,
            m.wf(),
    {
        UnitTypeMap { typ_vec: Vec::new() }
    }

    /// Look a unit type up by tag.
    pub fn index_of(&self, tag: &String) -> (r: Option<usize>)
        requires
            self.wf(),
        ensures
            match r {
                Some(i) => {
                    &&& self.spec_index_of(tag@) == Some(i as int)
                    &&& i < self.typ_vec@.len()
                    &&& self.typ_vec@[i as int].tag@ == tag@
                },
                None => self.spec_index_of(tag@) is None,
            },
    {
        let mut i: usize = 0;
        while i < self.typ_vec.len()
            invariant
                self.wf(),
                i <= self.typ_vec@.len(),
                forall|j: int| 0 <= j < i ==> (#[trigger] self.typ_vec@[j]).tag@ != tag@,
            decreases self.typ_vec@.len() - i,
        {
            if self.typ_vec[i].tag == *tag {
                proof {
                    let j = choose|j: int|
                        0 <= j < self.typ_vec@.len() && (#[trigger] self.typ_vec@[j]).tag@ == tag@;
                    if j < i as int || (i as int) < j {
                        assert(false);
                    }
                }
                return Some(i);
            }
            i += 1;
        }
        None
    }
}

} // verus!
