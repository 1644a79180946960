//! The world: the entity store, one table per component kind, and the
//! process-wide resources, bound together by a single well-formedness
//! invariant that every mutation preserves:
//!
//! * every live entity has a position, shape, color, faction, hit points
//!   and unit-type index, and is either movable (with a positive speed)
//!   or static, never both;
//! * move orders sit only on movable entities and head for in-bounds
//!   targets or live entities;
//! * positions lie inside the world bounds, hit points never exceed
//!   their maximum, and the render cache mirrors the world exactly.

use vstd::prelude::*;
use crate::components::{
    Color, FactionId, Hp, Movable, Move, MovedFlag, Player, Pos, Renderable, Shape, Speed,
    UnitTypeMap,
};
use crate::errors::RtsError;
use crate::geom::{MAX_COORD, MAX_SPEED, SCALE};
use crate::ids::{EntityId, IdManager, JS_MAX_SAFE_INTEGER};
use crate::input::Action;
use crate::movement::{in_bounds, order_ok};
use crate::rng::RandomSource;
use crate::table::Table;

verus! {

/// The current episode; incremented by each reset.
#[derive(Copy, Clone, Debug, PartialEq, Eq, Structural)]
pub struct Episode(pub u64);

/// Whether a trigger has ended the episode.
#[derive(Copy, Clone, Debug, PartialEq, Eq, Structural)]
pub struct Terminal(pub bool);

/// Whether the next frame must carry full shape information.
#[derive(Copy, Clone, Debug, PartialEq, Eq, Structural)]
pub struct NeedsKeyInfo(pub bool);

/// World bounds in micro-units.
#[derive(Copy, Clone, Debug, PartialEq, Eq, Structural)]
pub struct WorldBounds {
    pub w: i64,
    pub h: i64,
}

/// A unit description the scenario hands back on reset.
#[derive(Clone, Debug, PartialEq, Eq)]
pub struct UnitSpec {
    pub unit_type: String,
    pub pos: Pos,
    pub faction: u64,
}

/// The color a faction's units are drawn in: the agent blue, friendly
/// units green, hostile units red, anything further gray.
pub open spec fn spec_player_color(faction: int) -> Color {
    if faction == 0 {
        Color { r: 0, g: 0, b: 255, a: 255 }
    } else if faction == 1 {
        Color { r: 0, g: 255, b: 0, a: 255 }
    } else if faction == 2 {
        Color { r: 255, g: 0, b: 0, a: 255 }
    } else {
        Color { r: 128, g: 128, b: 128, a: 255 }
    }
}

pub fn player_color(faction: u64) -> (c: Color)
    ensures
        c == spec_player_color(faction as int),
{
    if faction == 0 {
        Color { r: 0, g: 0, b: 255, a: 255 }
    } else if faction == 1 {
        Color { r: 0, g: 255, b: 0, a: 255 }
    } else if faction == 2 {
        Color { r: 255, g: 0, b: 0, a: 255 }
    } else {
        Color { r: 128, g: 128, b: 128, a: 255 }
    }
}

/// A catalog entry the world can instantiate safely.
pub open spec fn unit_type_valid(t: crate::components::UnitType) -> bool {
    &&& t.shape.wf()
    &&& 0 < t.speed <= MAX_SPEED
    &&& t.attack_range >= 0
    &&& -1_000_000_000_000 <= t.kill_reward <= 1_000_000_000_000
    &&& -1_000_000_000_000 <= t.death_penalty <= 1_000_000_000_000
}

pub struct World {
    pub ids: IdManager,
    pub pos: Table<Pos>,
    pub shapes: Table<Shape>,
    pub colors: Table<Color>,
    pub factions: Table<FactionId>,
    pub movable: Table<Movable>,
    pub statics: Table<crate::components::Static>,
    pub speeds: Table<Speed>,
    pub hp: Table<Hp>,
    pub orders: Table<Move>,
    pub moved: Table<MovedFlag>,
    pub type_idx: Table<u64>,
    pub render_cache: Table<Renderable>,
    pub tick: u64,
    pub episode: Episode,
    pub terminal: Terminal,
    pub last_reward: Vec<i64>,
    pub bounds: WorldBounds,
    pub players: Vec<Player>,
    pub unit_types: UnitTypeMap,
    pub pending_action: Option<Action>,
    pub needs_key_info: NeedsKeyInfo,
    pub rng: RandomSource,
}

impl World {
    /// The live entities.
    pub open spec fn live(&self) -> Set<u64> {
        self.ids.live()
    }

    /// The world invariant, short of the render cache mirroring the
    /// world; mid-tick, after movement and before the renderer has
    /// consumed the change records, only this much holds.
    pub open spec fn wf_but_render(&self) -> bool {
        &&& self.ids.wf()
        &&& self.ids.reclaim_thresh == JS_MAX_SAFE_INTEGER
        &&& self.pos.wf()
        &&& self.shapes.wf()
        &&& self.colors.wf()
        &&& self.factions.wf()
        &&& self.movable.wf()
        &&& self.statics.wf()
        &&& self.speeds.wf()
        &&& self.hp.wf()
        &&& self.orders.wf()
        &&& self.moved.wf()
        &&& self.type_idx.wf()
        &&& self.render_cache.wf()
        &&& self.unit_types.wf()
        // every live entity carries the per-entity components
        &&& self.pos@.dom() == self.live()
        &&& self.shapes@.dom() == self.live()
        &&& self.colors@.dom() == self.live()
        &&& self.factions@.dom() == self.live()
        &&& self.hp@.dom() == self.live()
        &&& self.type_idx@.dom() == self.live()
        &&& self.render_cache@.dom() == self.live()
        // movable and static partition the live entities
        &&& self.movable@.dom() + self.statics@.dom() == self.live()
        &&& self.movable@.dom().disjoint(self.statics@.dom())
        &&& self.speeds@.dom() == self.movable@.dom()
        // orders only on movable entities; moved flags only on live ones
        &&& self.orders@.dom() <= self.movable@.dom()
        &&& self.moved@.dom() <= self.live()
        // bounds are positive and representable
        &&& 0 < self.bounds.w <= MAX_COORD
        &&& 0 < self.bounds.h <= MAX_COORD
        // positions are finite and inside the bounds
        &&& forall|e: u64| #[trigger]
            self.pos@.dom().contains(e) ==> in_bounds(
                self.pos@[e].x as int,
                self.pos@[e].y as int,
                self.bounds.w as int,
                self.bounds.h as int,
            )
        // hit points never exceed their maximum
        &&& forall|e: u64| #[trigger]
            self.hp@.dom().contains(e) ==> self.hp@[e].curr_hp <= self.hp@[e].max_hp
        // movable entities move at positive bounded speed
        &&& forall|e: u64| #[trigger]
            self.speeds@.dom().contains(e) ==> 0 < self.speeds@[e].0 <= MAX_SPEED
        // orders carry positive speeds and reachable targets
        &&& forall|e: u64| #[trigger]
            self.orders@.dom().contains(e) ==> order_ok(
                self.pos@,
                self.orders@[e],
                self.bounds.w as int,
                self.bounds.h as int,
            )
        // shapes have positive dimensions
        &&& forall|e: u64| #[trigger] self.shapes@.dom().contains(e) ==> self.shapes@[e].wf()
        // factions point at known players, unit-type indices at the catalog
        &&& forall|e: u64| #[trigger]
            self.factions@.dom().contains(e) ==> self.factions@[e].0 < self.players@.len()
        &&& forall|e: u64| #[trigger]
            self.type_idx@.dom().contains(e) ==> self.type_idx@[e] < self.unit_types.typ_vec@.len()
        // the catalog holds only instantiable types
        &&& forall|i: int|
            0 <= i < self.unit_types.typ_vec@.len() ==> unit_type_valid(
                #[trigger] self.unit_types.typ_vec@[i],
            )
        // one reward slot per player
        &&& self.last_reward@.len() == self.players@.len()
        // players are listed by faction id
        &&& forall|i: int|
            0 <= i < self.players@.len() ==> (#[trigger] self.players@[i]).id == FactionId(i as u64)
    }

    /// The world invariant.
    pub open spec fn wf(&self) -> bool {
        &&& self.wf_but_render()
        // the render cache mirrors position, shape and color
        &&& forall|e: u64| #[trigger]
            self.render_cache@.dom().contains(e) ==> self.render_cache@[e] == (Renderable {
                pos: self.pos@[e],
                shape: self.shapes@[e],
                color: self.colors@[e],
            })
    }

    /// An empty world with the default 1000 by 1000 bounds.
    pub fn new(seed: u64) -> (w: World)
        ensures
            (w.pending_action is None),
            w.wf(),
            w.live() == Set::<u64>::empty(),
            w.orders@.dom() == Set::<u64>::empty(),
            w.moved@.dom() == Set::<u64>::empty(),
            w.tick == 0,
            w.episode == Episode(0),
            w.terminal == Terminal(false),
            w.bounds == (WorldBounds { w: (1000 * SCALE) as i64, h: (1000 * SCALE) as i64 }),
            w.players@.len() == 0,
            w.unit_types.typ_vec@.len() == 0,
            w.needs_key_info == NeedsKeyInfo(true),
            w.rng == (RandomSource { seed, uses: 0 }),
            w.ids.next_id == 0,
    {
        let w = World {
            ids: IdManager::new(),
            pos: Table::new(),
            shapes: Table::new(),
            colors: Table::new(),
            factions: Table::new(),
            movable: Table::new(),
            statics: Table::new(),
            speeds: Table::new(),
            hp: Table::new(),
            orders: Table::new(),
            moved: Table::new(),
            type_idx: Table::new(),
            render_cache: Table::new(),
            tick: 0,
            episode: Episode(0),
            terminal: Terminal(false),
            last_reward: Vec::new(),
            bounds: WorldBounds { w: 1000 * SCALE, h: 1000 * SCALE },
            players: Vec::new(),
            unit_types: UnitTypeMap::new(),
            pending_action: None,
            needs_key_info: NeedsKeyInfo(true),
            rng: RandomSource::new(seed),
        };
        proof {
            assert(w.movable@.dom() + w.statics@.dom() =~= w.live());
        }
        w
    }

    /// Destroy every entity, keeping the resources and the id counter so
    /// no id is ever reused across episodes.
    pub fn delete_all(&mut self)
        requires
            old(self).wf(),
        ensures
            final(self).wf(),
            final(self).live() == Set::<u64>::empty(),
            final(self).orders@.dom() == Set::<u64>::empty(),
            final(self).moved@.dom() == Set::<u64>::empty(),
            final(self).ids.next_id == old(self).ids.next_id,
            final(self).tick == old(self).tick,
            final(self).episode == old(self).episode,
            final(self).terminal == old(self).terminal,
            final(self).bounds == old(self).bounds,
            final(self).players == old(self).players,
            final(self).unit_types == old(self).unit_types,
            final(self).last_reward == old(self).last_reward,
            final(self).pending_action == old(self).pending_action,
            final(self).needs_key_info == old(self).needs_key_info,
            final(self).rng == old(self).rng,
    {
        self.ids.clear();
        self.pos.clear();
        self.shapes.clear();
        self.colors.clear();
        self.factions.clear();
        self.movable.clear();
        self.statics.clear();
        self.speeds.clear();
        self.hp.clear();
        self.orders.clear();
        self.moved.clear();
        self.type_idx.clear();
        self.render_cache.clear();
        proof {
            assert(self.movable@.dom() + self.statics@.dom() =~= self.live());
            assert(self.pos@.dom() =~= self.live());
            assert(self.shapes@.dom() =~= self.live());
            assert(self.colors@.dom() =~= self.live());
            assert(self.factions@.dom() =~= self.live());
            assert(self.hp@.dom() =~= self.live());
            assert(self.type_idx@.dom() =~= self.live());
            assert(self.render_cache@.dom() =~= self.live());
        }
    }

    /// Create one entity of catalog type `ti` at `pos` for `faction`.
    ///
    /// The entity gets the type's shape, the faction's color, full hit
    /// points, and either mobility at the type's speed or a static
    /// marker; the render cache learns of it at once.
    pub fn build_entity(&mut self, pos: Pos, ti: usize, faction: u64) -> (id: EntityId)
        requires
            old(self).wf(),
            old(self).ids.next_id < JS_MAX_SAFE_INTEGER,
            in_bounds(pos.x as int, pos.y as int, old(self).bounds.w as int, old(self).bounds.h as int),
            ti < old(self).unit_types.typ_vec@.len(),
            faction < old(self).players@.len(),
        ensures
            final(self).wf(),
            id == old(self).ids.next_id,
            final(self).ids.next_id == old(self).ids.next_id + 1,
            !old(self).live().contains(id),
            final(self).live() == old(self).live().insert(id),
            final(self).pos@ == old(self).pos@.insert(id, pos),
            final(self).shapes@ == old(self).shapes@.insert(
                id,
                old(self).unit_types.typ_vec@[ti as int].shape,
            ),
            final(self).colors@ == old(self).colors@.insert(
                id,
                spec_player_color(faction as int),
            ),
            final(self).factions@ == old(self).factions@.insert(id, FactionId(faction)),
            final(self).hp@ == old(self).hp@.insert(
                id,
                Hp {
                    max_hp: old(self).unit_types.typ_vec@[ti as int].max_hp,
                    curr_hp: old(self).unit_types.typ_vec@[ti as int].max_hp,
                },
            ),
            final(self).type_idx@ == old(self).type_idx@.insert(id, ti as u64),
            old(self).unit_types.typ_vec@[ti as int].movable ==> final(self).movable@.dom()
                == old(self).movable@.dom().insert(id) && final(self).speeds@ == old(
                self,
            ).speeds@.insert(id, Speed(old(self).unit_types.typ_vec@[ti as int].speed))
                && final(self).statics@ == old(self).statics@,
            !old(self).unit_types.typ_vec@[ti as int].movable ==> final(self).statics@.dom()
                == old(self).statics@.dom().insert(id) && final(self).movable@ == old(self).movable@
                && final(self).speeds@ == old(self).speeds@,
            final(self).orders@ == old(self).orders@,
            final(self).moved@ == old(self).moved@,
            final(self).tick == old(self).tick,
            final(self).episode == old(self).episode,
            final(self).terminal == old(self).terminal,
            final(self).bounds == old(self).bounds,
            final(self).players == old(self).players,
            final(self).unit_types == old(self).unit_types,
            final(self).last_reward == old(self).last_reward,
            final(self).pending_action == old(self).pending_action,
            final(self).needs_key_info == old(self).needs_key_info,
            final(self).rng == old(self).rng,
    {
        let id = self.ids.next_id();
        let t_shape = self.unit_types.typ_vec[ti].shape;
        let t_movable = self.unit_types.typ_vec[ti].movable;
        let t_speed = self.unit_types.typ_vec[ti].speed;
        let t_max_hp = self.unit_types.typ_vec[ti].max_hp;
        let color = player_color(faction);
        self.pos.insert(id, pos);
        self.shapes.insert(id, t_shape);
        self.colors.insert(id, color);
        self.factions.insert(id, FactionId(faction));
        self.hp.insert(id, Hp { max_hp: t_max_hp, curr_hp: t_max_hp });
        self.type_idx.insert(id, ti as u64);
        if t_movable {
            self.movable.insert(id, Movable);
            self.speeds.insert(id, Speed(t_speed));
        } else {
            self.statics.insert(id, crate::components::Static);
        }
        self.render_cache.insert(id, Renderable { pos, shape: t_shape, color });
        proof {
            assert(final(self).pos@.dom() =~= final(self).live());
            assert(final(self).shapes@.dom() =~= final(self).live());
            assert(final(self).colors@.dom() =~= final(self).live());
            assert(final(self).factions@.dom() =~= final(self).live());
            assert(final(self).hp@.dom() =~= final(self).live());
            assert(final(self).type_idx@.dom() =~= final(self).live());
            assert(final(self).render_cache@.dom() =~= final(self).live());
            assert(final(self).movable@.dom() + final(self).statics@.dom() =~= final(self).live());
            if t_movable {
                assert(final(self).speeds@.dom() =~= final(self).movable@.dom());
                assert(final(self).movable@.dom() =~= old(self).movable@.dom().insert(id));
            } else {
                assert(final(self).statics@.dom() =~= old(self).statics@.dom().insert(id));
            }
            assert forall|e: u64| #[trigger]
                final(self).orders@.dom().contains(e) implies order_ok(
                final(self).pos@,
                final(self).orders@[e],
                final(self).bounds.w as int,
                final(self).bounds.h as int,
            ) by {
                assert(order_ok(
                    old(self).pos@,
                    old(self).orders@[e],
                    old(self).bounds.w as int,
                    old(self).bounds.h as int,
                ));
            }
        }
        id
    }

    /// Whether the world can instantiate this unit description.
    pub open spec fn spec_unit_ok(&self, u: UnitSpec) -> bool {
        &&& self.unit_types.spec_index_of(u.unit_type@) is Some
        &&& u.faction < self.players@.len()
        &&& in_bounds(u.pos.x as int, u.pos.y as int, self.bounds.w as int, self.bounds.h as int)
    }

    /// Instantiate a scenario's unit list into an empty world, in order,
    /// with consecutive fresh ids.
    ///
    /// Fails with `ScenarioError`, leaving the world unchanged, exactly
    /// when some unit names an unknown type, an unknown faction or an
    /// out-of-bounds position, or the id space cannot seat the list.
    pub fn spawn_units(&mut self, units: &Vec<UnitSpec>) -> (r: Result<(), RtsError>)
        requires
            old(self).wf(),
            old(self).live() == Set::<u64>::empty(),
            old(self).orders@.dom() == Set::<u64>::empty(),
            old(self).moved@.dom() == Set::<u64>::empty(),
        ensures
            final(self).wf(),
            match r {
                Ok(()) => {
                    &&& forall|j: int| 0 <= j < units@.len() ==> old(self).spec_unit_ok(
                        #[trigger] units@[j],
                    )
                    &&& final(self).ids.next_id == old(self).ids.next_id + units@.len()
                    &&& forall|e: u64|
                        final(self).live().contains(e) <==> old(self).ids.next_id <= e < old(
                        self,
                    ).ids.next_id + units@.len()
                    &&& forall|j: int|
                        0 <= j < units@.len() ==> {
                            let e = (old(self).ids.next_id + j) as u64;
                            let u = #[trigger] units@[j];
                            let ti = old(self).unit_types.spec_index_of(u.unit_type@).unwrap();
                            let t = old(self).unit_types.typ_vec@[ti];
                            &&& final(self).pos@[e] == u.pos
                            &&& final(self).shapes@[e] == t.shape
                            &&& final(self).colors@[e] == spec_player_color(u.faction as int)
                            &&& final(self).factions@[e] == FactionId(u.faction)
                            &&& final(self).hp@[e] == (Hp { max_hp: t.max_hp, curr_hp: t.max_hp })
                            &&& final(self).type_idx@[e] == ti as u64
                            &&& final(self).movable@.dom().contains(e) == t.movable
                            &&& final(self).statics@.dom().contains(e) == !t.movable
                            &&& t.movable ==> final(self).speeds@[e] == Speed(t.speed)
                        }
                    &&& final(self).orders@.dom() == Set::<u64>::empty()
                    &&& final(self).moved@.dom() == Set::<u64>::empty()
                },
                Err(e) => {
                    &&& e == RtsError::ScenarioError
                    &&& *final(self) == *old(self)
                    &&& (exists|j: int|
                        0 <= j < units@.len() && !old(self).spec_unit_ok(#[trigger] units@[j]))
                        || old(self).ids.next_id + units@.len() > JS_MAX_SAFE_INTEGER
                },
            },
            final(self).tick == old(self).tick,
            final(self).episode == old(self).episode,
            final(self).terminal == old(self).terminal,
            final(self).bounds == old(self).bounds,
            final(self).players == old(self).players,
            final(self).unit_types == old(self).unit_types,
            final(self).last_reward == old(self).last_reward,
            final(self).pending_action == old(self).pending_action,
            final(self).needs_key_info == old(self).needs_key_info,
            final(self).rng == old(self).rng,
    {
        // validate everything before touching the world
        if self.ids.next_id > JS_MAX_SAFE_INTEGER || units.len() as u64 > JS_MAX_SAFE_INTEGER
            - self.ids.next_id {
            return Err(RtsError::ScenarioError);
        }
        let mut i: usize = 0;
        while i < units.len()
            invariant
                *old(self) == *self,
                self.wf(),
                i <= units@.len(),
                forall|j: int| 0 <= j < i ==> self.spec_unit_ok(#[trigger] units@[j]),
            decreases units@.len() - i,
        {
            let u = &units[i];
            let ok = match self.unit_types.index_of(&u.unit_type) {
                Some(_) => true,
                None => false,
            };
            let ok = ok && u.faction < self.players.len() as u64 && 0 <= u.pos.x && u.pos.x
                <= self.bounds.w && 0 <= u.pos.y && u.pos.y <= self.bounds.h;
            if !ok {
                return Err(RtsError::ScenarioError);
            }
            i += 1;
        }
        // instantiate
        let ghost base = self.ids.next_id;
        let mut i: usize = 0;
        while i < units.len()
            invariant
                self.wf(),
                i <= units@.len(),
                base == old(self).ids.next_id,
                old(self).live() == Set::<u64>::empty(),
                old(self).orders@.dom() == Set::<u64>::empty(),
                old(self).moved@.dom() == Set::<u64>::empty(),
                base + units@.len() <= JS_MAX_SAFE_INTEGER,
                self.ids.next_id == base + i,
                forall|j: int| 0 <= j < units@.len() ==> old(self).spec_unit_ok(
                    #[trigger] units@[j],
                ),
                forall|e: u64| self.live().contains(e) <==> base <= e < base + i,
                forall|j: int|
                    0 <= j < i ==> {
                        let e = (base + j) as u64;
                        let u = #[trigger] units@[j];
                        let ti = old(self).unit_types.spec_index_of(u.unit_type@).unwrap();
                        let t = old(self).unit_types.typ_vec@[ti];
                        &&& self.pos@[e] == u.pos
                        &&& self.shapes@[e] == t.shape
                        &&& self.colors@[e] == spec_player_color(u.faction as int)
                        &&& self.factions@[e] == FactionId(u.faction)
                        &&& self.hp@[e] == (Hp { max_hp: t.max_hp, curr_hp: t.max_hp })
                        &&& self.type_idx@[e] == ti as u64
                        &&& self.movable@.dom().contains(e) == t.movable
                        &&& self.statics@.dom().contains(e) == !t.movable
                        &&& t.movable ==> self.speeds@[e] == Speed(t.speed)
                    },
                self.orders@.dom() == Set::<u64>::empty(),
                self.moved@.dom() == Set::<u64>::empty(),
                self.tick == old(self).tick,
                self.episode == old(self).episode,
                self.terminal == old(self).terminal,
                self.bounds == old(self).bounds,
                self.players == old(self).players,
                self.unit_types == old(self).unit_types,
                self.last_reward == old(self).last_reward,
                self.pending_action == old(self).pending_action,
                self.needs_key_info == old(self).needs_key_info,
                self.rng == old(self).rng,
            decreases units@.len() - i,
        {
            let u = &units[i];
            let ti = match self.unit_types.index_of(&u.unit_type) {
                Some(ti) => ti,
                None => {
                    proof {
                        assert(false);
                    }
                    0
                },
            };
            let id = self.build_entity(u.pos, ti, u.faction);
            proof {
                assert(forall|e: u64|
                    self.live().contains(e) <==> base <= e < base + i + 1);
            }
            i += 1;
        }
        Ok(())
    }

    /// Zero the per-faction rewards (done at the top of every tick).
    pub fn clear_rewards(&mut self)
        requires
            old(self).wf(),
        ensures
            final(self).wf(),
            final(self).ids == old(self).ids,
            final(self).pos == old(self).pos,
            final(self).shapes == old(self).shapes,
            final(self).colors == old(self).colors,
            final(self).factions == old(self).factions,
            final(self).movable == old(self).movable,
            final(self).statics == old(self).statics,
            final(self).speeds == old(self).speeds,
            final(self).hp == old(self).hp,
            final(self).orders == old(self).orders,
            final(self).moved == old(self).moved,
            final(self).type_idx == old(self).type_idx,
            final(self).render_cache == old(self).render_cache,
            final(self).tick == old(self).tick,
            final(self).episode == old(self).episode,
            final(self).terminal == old(self).terminal,
            final(self).bounds == old(self).bounds,
            final(self).players == old(self).players,
            final(self).unit_types == old(self).unit_types,
            final(self).pending_action == old(self).pending_action,
            final(self).needs_key_info == old(self).needs_key_info,
            final(self).rng == old(self).rng,
            final(self).last_reward@.len() == old(self).last_reward@.len(),
            forall|i: int| 0 <= i < final(self).last_reward@.len()
                ==> final(self).last_reward@[i] == 0i64,
    {
        let n = self.last_reward.len();
        let mut z: Vec<i64> = Vec::new();
        let mut i: usize = 0;
        while i < n
            invariant
                i <= n,
                z@.len() == i,
                forall|j: int| 0 <= j < i ==> z@[j] == 0i64,
            decreases n - i,
        {
            z.push(0);
            i += 1;
        }
        self.last_reward = z;
    }
}

} // verus!
