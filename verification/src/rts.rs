//! The driver: the fixed-tick loop the router calls into.
//!
//! `reset` clears the world, advances the episode, derives a fresh
//! scenario sub-seed from the master random source, instantiates what the
//! scenario returns, and emits the reset marker, a full visualization
//! frame and an initial observation.  `update` advances one tick through
//! the fixed pipeline — input, movement, trigger, render, observation —
//! unless the episode already ended, in which case the world is left
//! untouched and nothing is emitted.  `diverge` reseeds the master source
//! from entropy so a resumed snapshot stops replaying identically.

use vstd::prelude::*;
use crate::components::{FactionId, Player};
use crate::errors::RtsError;
use crate::geom::MAX_COORD;
use crate::ids::JS_MAX_SAFE_INTEGER;
use crate::input::{
    apply_commands, cmd_good, lemma_apply_cmds_good, lemma_list_cmds_good, lemma_simple_cmds_good,
    run_input, Action, ActionStyle, InputSystem, RtsCommand, spec_apply_cmds, spec_list_cmds,
    spec_list_errs, spec_simple_cmds, spec_simple_errs,
};
use crate::messages::{
    agent_packet, core_packet, viz_packet, Endpoint, MultiMessage, ScaiiPacket, SpecificMsg, State,
    Viz, VizInit,
};
use crate::movement::{run_movement, spec_move_result, spec_new_xy, spec_order_done, MoveResult};
use crate::observe::{build_features, spec_cell_channel, CELL_MICRO, CHANNELS};
use crate::render::{is_delta_entity, is_full_entity, run_render, spec_upd_rend};
use crate::rng::{rng_from_seed, RandomSource};
use crate::scenario::{build_unit_type_map, Scenario};
use crate::table::{lemma_key_seq, lemma_keys_by_dom};
use crate::trigger::{lemma_trigger_entity_live, run_trigger, spec_trigger, VictoryState};
use crate::world::{Episode, NeedsKeyInfo, Terminal, World};

verus! {

/// The most factions a scenario may declare.
pub const MAX_FACTIONS: u64 = 15;

/// The commands one tick's action decodes to.
pub open spec fn spec_tick_cmds(style: ActionStyle, a: Option<Action>, w: World) -> Seq<
    RtsCommand,
> {
    match a {
        None => Seq::empty(),
        Some(act) => match style {
            ActionStyle::ActionList => match act.alternate_actions {
                Some(cs) => spec_list_cmds(
                    cs@,
                    w.movable@,
                    w.speeds@,
                    w.bounds.w as int,
                    w.bounds.h as int,
                ),
                None => Seq::empty(),
            },
            ActionStyle::Simple => spec_simple_cmds(
                act.discrete_actions@,
                w.pos@,
                w.movable@,
                w.speeds@,
            ),
        },
    }
}

/// The non-fatal errors one tick's action decodes to.
pub open spec fn spec_tick_errs(style: ActionStyle, a: Option<Action>, w: World) -> Seq<
    RtsError,
> {
    match a {
        None => Seq::empty(),
        Some(act) => match style {
            ActionStyle::ActionList => match act.alternate_actions {
                Some(cs) => spec_list_errs(
                    cs@,
                    w.movable@,
                    w.speeds@,
                    w.bounds.w as int,
                    w.bounds.h as int,
                ),
                None => seq![RtsError::MalformedAction(0)],
            },
            ActionStyle::Simple => spec_simple_errs(
                act.discrete_actions@,
                w.pos@,
                w.movable@,
                w.speeds@,
            ),
        },
    }
}

/// The orders that drive this tick's movement: last tick's surviving
/// orders overwritten by the action's commands.
pub open spec fn spec_tick_orders(style: ActionStyle, a: Option<Action>, w: World) -> Map<
    u64,
    crate::components::Move,
> {
    spec_apply_cmds(w.orders@, spec_tick_cmds(style, a, w))
}

/// The grid width the observation uses for these bounds.
pub open spec fn spec_grid(b: i64) -> int {
    b as int / CELL_MICRO as int
}

/// Build the observation payload from the world as it stands after the
/// pipeline ran.
pub fn build_state(w: &World, reward: i64) -> (st: State)
    requires
        w.wf(),
    ensures
        st.feature_array_dims@ == seq![
            spec_grid(w.bounds.w) as usize,
            spec_grid(w.bounds.h) as usize,
            CHANNELS,
        ],
        st.features@.len() == spec_grid(w.bounds.w) * spec_grid(w.bounds.h) * CHANNELS,
        forall|ci: int, cj: int, k: int|
            0 <= ci < spec_grid(w.bounds.w) && 0 <= cj < spec_grid(w.bounds.h) && 0 <= k < CHANNELS
                ==> st.features@[(ci * spec_grid(w.bounds.h) + cj) * CHANNELS + k]
                == spec_cell_channel(
                w.pos.v@,
                w.hp@,
                w.type_idx@,
                w.factions@,
                ci,
                cj,
                spec_grid(w.bounds.w),
                spec_grid(w.bounds.h),
                k,
            ),
        st.reward == reward,
        st.terminal == w.terminal.0,
        st.typed_reward@.len() == w.last_reward@.len(),
        forall|f: int|
            0 <= f < w.last_reward@.len() ==> #[trigger] st.typed_reward@[f] == (
            f as u64,
            w.last_reward@[f],
        ),
{
    let gw = (w.bounds.w / (CELL_MICRO as i64)) as usize;
    let gh = (w.bounds.h / (CELL_MICRO as i64)) as usize;
    proof {
        assert(w.ids.wf());
        assert forall|e: u64| #[trigger] w.pos@.dom().contains(e) implies e < u64::MAX
            && w.hp@.dom().contains(e) && w.type_idx@.dom().contains(e)
            && w.factions@.dom().contains(e) by {
            assert(w.live().contains(e));
        }
    }
    let features = build_features(&w.pos, &w.hp, &w.type_idx, &w.factions, gw, gh);
    let mut typed_reward: Vec<(u64, i64)> = Vec::new();
    let mut f: usize = 0;
    while f < w.last_reward.len()
        invariant
            f <= w.last_reward@.len(),
            typed_reward@.len() == f,
            forall|j: int|
                0 <= j < f ==> #[trigger] typed_reward@[j] == (j as u64, w.last_reward@[j]),
        decreases w.last_reward@.len() - f,
    {
        typed_reward.push((f as u64, w.last_reward[f]));
        f += 1;
    }
    State {
        features,
        feature_array_dims: [gw, gh, 4],
        reward,
        typed_reward,
        terminal: w.terminal.0,
    }
}

/// The simulation backend: the world, the scenario that populates it,
/// and the input decoding style.
pub struct Rts<S: Scenario> {
    pub world: World,
    pub scenario: S,
    pub initialized: bool,
    pub input_sys: InputSystem,
}

impl<S: Scenario> Rts<S> {
    pub open spec fn wf(&self) -> bool {
        self.world.wf()
    }

    pub fn new(scenario: S, seed: u64) -> (rts: Rts<S>)
        ensures
            rts.wf(),
            !rts.initialized,
            rts.world.live() == Set::<u64>::empty(),
            rts.world.rng == (RandomSource { seed, uses: 0 }),
            rts.input_sys.style == ActionStyle::Simple,
    {
        Rts {
            world: World::new(seed),
            scenario,
            initialized: false,
            input_sys: InputSystem::new(),
        }
    }

    /// Load the scenario's declarations: the players and the unit-type
    /// catalog.  Fails with `ScenarioError`, leaving the world unchanged,
    /// when the scenario declares no or too many factions, an invalid
    /// unit type, or two types with one tag.
    pub fn init(&mut self) -> (r: Result<(), RtsError>)
        requires
            old(self).wf(),
            old(self).world.live() == Set::<u64>::empty(),
        ensures
            final(self).wf(),
            final(self).initialized == old(self).initialized,
            final(self).input_sys == old(self).input_sys,
            match r {
                Ok(()) => 1 <= final(self).world.players@.len() <= MAX_FACTIONS,
                Err(e) => e == RtsError::ScenarioError && final(self).world == old(self).world,
            },
            final(self).world.live() == old(self).world.live(),
            final(self).world.rng == old(self).world.rng,
            final(self).world.terminal == old(self).world.terminal,
            final(self).world.episode == old(self).world.episode,
    {
        let si = self.scenario.init();
        if si.factions < 1 || si.factions > MAX_FACTIONS {
            return Err(RtsError::ScenarioError);
        }
        let type_map = match build_unit_type_map(&si.unit_types) {
            Ok(m) => m,
            Err(e) => {
                return Err(RtsError::ScenarioError);
            },
        };
        let mut players: Vec<Player> = Vec::new();
        let mut rewards: Vec<i64> = Vec::new();
        let mut f: u64 = 0;
        while f < si.factions
            invariant
                f <= si.factions <= MAX_FACTIONS,
                players@.len() == f,
                rewards@.len() == f,
                forall|j: int|
                    0 <= j < f ==> (#[trigger] players@[j]).id == FactionId(j as u64),
            decreases si.factions - f,
        {
            players.push(Player { color: crate::world::player_color(f), id: FactionId(f) });
            rewards.push(0);
            f += 1;
        }
        self.world.players = players;
        self.world.unit_types = type_map;
        self.world.last_reward = rewards;
        proof {
            assert forall|e: u64| #[trigger]
                self.world.factions@.dom().contains(e) implies self.world.factions@[e].0
                < self.world.players@.len() by {
                assert(old(self).world.factions@.dom().contains(e));
                assert(false);
            }
            assert forall|e: u64| #[trigger]
                self.world.type_idx@.dom().contains(e) implies self.world.type_idx@[e]
                < self.world.unit_types.typ_vec@.len() by {
                assert(old(self).world.type_idx@.dom().contains(e));
                assert(false);
            }
        }
        Ok(())
    }

    /// Hand the next tick its action; a second call before the tick runs
    /// replaces the first (last one wins).
    pub fn action_input(&mut self, action: Action)
        requires
            old(self).wf(),
        ensures
            final(self).wf(),
            final(self).world.pending_action == Some(action),
            final(self).world == (World {
                pending_action: final(self).world.pending_action,
                ..old(self).world
            }),
            final(self).scenario == old(self).scenario,
            final(self).initialized == old(self).initialized,
            final(self).input_sys == old(self).input_sys,
    {
        self.world.pending_action = Some(action);
    }

    /// Reseed the master random source from OS entropy, so that a
    /// snapshot taken before this call no longer replays identically.
    pub fn diverge(&mut self)
        requires
            old(self).wf(),
        ensures
            final(self).wf(),
            final(self).world.rng.uses == 0,
            final(self).world == (World { rng: final(self).world.rng, ..old(self).world }),
            final(self).scenario == old(self).scenario,
            final(self).initialized == old(self).initialized,
            final(self).input_sys == old(self).input_sys,
    {
        let seed = crate::rng::fresh_seed();
        self.world.rng = RandomSource::new(seed);
    }

    /// Reset onto the given master seed, then start an episode.
    pub fn reset_seeded(&mut self, seed: u64) -> (r: Result<MultiMessage, RtsError>)
        requires
            old(self).wf(),
        ensures
            final(self).wf(),
            match r {
                Ok(mm) => reset_ok(*final(self), mm),
                Err(e) => e == RtsError::ScenarioError && final(self).world.terminal.0
                    && final(self).world.live() == Set::<u64>::empty(),
            },
    {
        self.world.rng = RandomSource::new(seed);
        self.reset()
    }

    /// Start a fresh episode: clear the world, advance the episode
    /// counter, reseed the scenario generator from the master source,
    /// instantiate the scenario's units, and emit the reset marker, a
    /// full frame and the initial observation.
    ///
    /// Fails with `ScenarioError` when the scenario's declarations or
    /// unit list are malformed; the world is then left cleared with
    /// `Terminal` set so the controller can recover.
    pub fn reset(&mut self) -> (r: Result<MultiMessage, RtsError>)
        requires
            old(self).wf(),
        ensures
            final(self).wf(),
            match r {
                Ok(mm) => reset_ok(*final(self), mm),
                Err(e) => e == RtsError::ScenarioError && final(self).world.terminal.0
                    && final(self).world.live() == Set::<u64>::empty(),
            },
    {
        self.world.delete_all();
        if !self.initialized {
            match self.init() {
                Ok(()) => {
                    self.initialized = true;
                },
                Err(e) => {
                    self.world.delete_all();
                    self.world.terminal = Terminal(true);
                    return Err(RtsError::ScenarioError);
                },
            }
        }
        let sub_seed = self.world.rng.next_sub_seed();
        self.world.episode = Episode(self.world.episode.0.wrapping_add(1));
        self.world.terminal = Terminal(false);
        self.world.pending_action = None;
        self.world.clear_rewards();
        let mut scenario_rng = rng_from_seed(sub_seed);
        let units = self.scenario.reset(&mut scenario_rng);
        proof {
            assert(self.world.movable@.dom().subset_of(self.world.live()));
            assert(self.world.orders@.dom() =~= Set::<u64>::empty());
            assert(self.world.moved@.dom() =~= Set::<u64>::empty());
        }
        match self.world.spawn_units(&units) {
            Ok(()) => {},
            Err(e) => {
                self.world.delete_all();
                self.world.terminal = Terminal(true);
                return Err(RtsError::ScenarioError);
            },
        }
        // a fresh episode renders a full frame
        let empty_results: Vec<MoveResult> = Vec::new();
        let viz = run_render(&mut self.world.render_cache, &empty_results, true);
        self.world.needs_key_info = NeedsKeyInfo(false);
        let st = build_state(&self.world, 0);
        let mut mm = MultiMessage::new();
        mm.packets.push(viz_packet(SpecificMsg::VizInit(VizInit { test_mode: Some(false) })));
        mm.packets.push(viz_packet(SpecificMsg::Viz(viz)));
        mm.packets.push(agent_packet(SpecificMsg::State(st)));
        proof {
            assert forall|e: u64| #[trigger]
                self.world.render_cache@.dom().contains(e) implies self.world.render_cache@[e]
                == (crate::components::Renderable {
                pos: self.world.pos@[e],
                shape: self.world.shapes@[e],
                color: self.world.colors@[e],
            }) by {
                assert(!crate::render::results_have(empty_results@, e));
            }
        }
        Ok(mm)
    }
}

impl<S: Scenario> Rts<S> {
    /// Run the four systems for one non-terminal tick and return the
    /// frame to draw, the non-fatal input errors, and the tick's reward.
    /// Run the input and movement systems for one non-terminal tick:
    /// bump the tick counter, clear the moved flags and the rewards,
    /// decode the pending action into orders, and step every mover.
    /// Returns the change records and the non-fatal input errors.
    #[verifier::rlimit(100)]
    #[verifier::spinoff_prover]
    fn step_input_movement(&mut self) -> (out: (Vec<MoveResult>, Vec<RtsError>))
        requires
            old(self).wf(),
            !old(self).world.terminal.0,
        ensures
            final(self).world.wf_but_render(),
            movement_ok(*old(self), *final(self)),
            results_ok(*old(self), out.0@),
            final(self).world.render_cache == old(self).world.render_cache,
            final(self).world.terminal == old(self).world.terminal,
            final(self).world.needs_key_info == old(self).world.needs_key_info,
            final(self).world.last_reward@.len() == old(self).world.players@.len(),
            forall|i: int|
                0 <= i < final(self).world.last_reward@.len()
                    ==> final(self).world.last_reward@[i] == 0i64,
            out.1@ == spec_tick_errs(
                old(self).input_sys.style,
                old(self).world.pending_action,
                old(self).world,
            ),
    {
        let ghost rts0 = *self;
        let ghost w0 = self.world;
        self.world.tick = self.world.tick.wrapping_add(1);
        self.world.moved.clear();
        self.world.clear_rewards();
        // input: decode the pending action into movement commands
        let (cmds, errs) = match &self.world.pending_action {
            Some(a) => run_input(
                &self.input_sys,
                a,
                &self.world.pos,
                &self.world.movable,
                &self.world.speeds,
                self.world.bounds.w,
                self.world.bounds.h,
            ),
            None => (Vec::new(), Vec::new()),
        };
        self.world.pending_action = None;
        proof {
            assert(cmds@ == spec_tick_cmds(self.input_sys.style, w0.pending_action, w0));
            assert(errs@ == spec_tick_errs(self.input_sys.style, w0.pending_action, w0));
            match w0.pending_action {
                Some(act) => match self.input_sys.style {
                    ActionStyle::ActionList => match act.alternate_actions {
                        Some(cs) => lemma_list_cmds_good(
                            cs@,
                            w0.movable@,
                            w0.speeds@,
                            w0.bounds.w as int,
                            w0.bounds.h as int,
                        ),
                        None => {},
                    },
                    ActionStyle::Simple => lemma_simple_cmds_good(
                        act.discrete_actions@,
                        w0.pos@,
                        w0.movable@,
                        w0.speeds@,
                        w0.bounds.w as int,
                        w0.bounds.h as int,
                    ),
                },
                None => {},
            }
            lemma_apply_cmds_good(
                w0.orders@,
                cmds@,
                w0.pos@,
                w0.movable@,
                w0.speeds@,
                w0.bounds.w as int,
                w0.bounds.h as int,
            );
        }
        apply_commands(&mut self.world.orders, &cmds);
        let ghost om1 = spec_apply_cmds(
            w0.orders@,
            spec_tick_cmds(self.input_sys.style, w0.pending_action, w0),
        );
        let ghost orders1 = self.world.orders;
        proof {
            assert(self.world.orders@ == om1);
        }
        // movement
        proof {
            assert forall|e: u64| #[trigger] self.world.orders@.dom().contains(e) implies
                self.world.pos@.dom().contains(e) && crate::movement::order_ok(
                self.world.pos@,
                self.world.orders@[e],
                self.world.bounds.w as int,
                self.world.bounds.h as int,
            ) by {
                assert(w0.movable@.dom().contains(e));
                assert(w0.live().contains(e));
            }
        }
        let ghost moved0 = self.world.moved@;
        let results = run_movement(
            &mut self.world.pos,
            &mut self.world.orders,
            &mut self.world.moved,
            self.world.bounds.w,
            self.world.bounds.h,
        );
        proof {
            lemma_key_seq(orders1.v@);
            assert(forall|j: int|
                0 <= j < results@.len() ==> #[trigger] results@[j].e_id == orders1.keys()[j]
                    && results@[j] == spec_move_result(w0.pos@, om1[orders1.keys()[j]], orders1.keys()[j]));
            // the change records list exactly the ordered entities, ascending
            assert forall|j1: int, j2: int|
                0 <= j1 < j2 < results@.len() implies (#[trigger] results@[j1]).e_id < (
            #[trigger] results@[j2]).e_id by {
                assert(results@[j1].e_id == orders1.v@[j1].0);
                assert(results@[j2].e_id == orders1.v@[j2].0);
            }
            assert forall|j: int| 0 <= j < results@.len() implies #[trigger] om1.dom().contains(
                results@[j].e_id,
            ) && results@[j] == spec_move_result(w0.pos@, om1[results@[j].e_id], results@[j].e_id) by {
                crate::table::lemma_pairs_at(orders1.v@, j);
            }
            assert forall|e: u64| #[trigger] om1.dom().contains(e) implies exists|j: int|
                0 <= j < results@.len() && (#[trigger] results@[j]).e_id == e by {
                let j = crate::table::find_key(orders1.v@, e);
                assert(0 <= j < orders1.v@.len() && orders1.v@[j].0 == e);
                assert(results@[j].e_id == e);
            }
            // the world invariant (short of the render cache) holds again
            assert forall|e: u64| #[trigger] self.world.orders@.dom().contains(e) implies
                crate::movement::order_ok(
                self.world.pos@,
                self.world.orders@[e],
                self.world.bounds.w as int,
                self.world.bounds.h as int,
            ) by {
                assert(om1.dom().contains(e));
                assert(crate::movement::order_ok(
                    w0.pos@,
                    om1[e],
                    w0.bounds.w as int,
                    w0.bounds.h as int,
                ));
                match om1[e].target {
                    crate::components::MoveTarget::Ground(_) => {},
                    crate::components::MoveTarget::Unit(u) => {
                        assert(self.world.pos@.dom().contains(u));
                    },
                }
            }
            assert forall|e: u64| #[trigger] self.world.orders@.dom().contains(e) implies
                self.world.movable@.dom().contains(e) by {
                assert(om1.dom().contains(e));
            }
            assert(self.world.orders@.dom() <= self.world.movable@.dom());
            assert forall|e: u64|
                (self.world.moved@.dom().contains(e) <==> (#[trigger] om1.dom().contains(e)
                    && crate::movement::spec_pos_changed(w0.pos@, om1[e], e))) by {
                assert(!moved0.dom().contains(e));
            }
            assert forall|e: u64| #[trigger] self.world.moved@.dom().contains(e) implies
                self.world.live().contains(e) by {
                assert(!moved0.dom().contains(e));
                assert(om1.dom().contains(e));
                assert(w0.movable@.dom().contains(e));
            }
            assert(self.world.moved@.dom() <= self.world.live());
            assert forall|e: u64|
                (self.world.orders@.dom().contains(e) <==> (#[trigger] om1.dom().contains(e)
                    && !spec_order_done(w0.pos@, om1[e], e))) by {
                assert(orders1@ == om1);
                if orders1@.dom().contains(e) {
                }
                if self.world.orders@.dom().contains(e) {
                    assert(orders1@.dom().contains(e) && !spec_order_done(w0.pos@, orders1@[e], e));
                }
            }
            assert forall|e: u64| #[trigger]
                self.world.pos@.dom().contains(e) implies self.world.pos@[e] == (if om1.dom().contains(e) {
                crate::components::Pos {
                    x: spec_new_xy(w0.pos@, om1[e], e).0 as i64,
                    y: spec_new_xy(w0.pos@, om1[e], e).1 as i64,
                    heading: w0.pos@[e].heading,
                }
            } else {
                w0.pos@[e]
            }) by {
                assert(orders1@ == om1);
                if orders1@.dom().contains(e) {
                }
            }
            assert(movement_ok(rts0, *self));
            assert(results_ok(rts0, results@));
        }
        (results, errs)
    }

    /// Run the four systems for one non-terminal tick and return the
    /// frame to draw, the non-fatal input errors, and the tick's reward.
    #[verifier::rlimit(100)]
    fn step_systems(&mut self) -> (out: (Viz, Vec<RtsError>, i64))
        requires
            old(self).wf(),
            !old(self).world.terminal.0,
        ensures
            final(self).wf(),
            world_tick_ok(*old(self), *final(self)),
            viz_ok(*old(self), *final(self), out.0),
            out.1@ == spec_tick_errs(
                old(self).input_sys.style,
                old(self).world.pending_action,
                old(self).world,
            ),
            out.2 == spec_trigger(
                final(self).world.pos@,
                old(self).world.factions@,
                final(self).world.pos.keys(),
            ).spec_typed_reward().0,
    {
        let ghost w0 = self.world;
        let (results, errs) = self.step_input_movement();
        let ghost om1 = spec_apply_cmds(
            w0.orders@,
            spec_tick_cmds(self.input_sys.style, w0.pending_action, w0),
        );
        // trigger
        proof {
            lemma_keys_by_dom(self.world.pos, self.world.factions);
        }
        let vs = run_trigger(
            &self.world.pos,
            &self.world.factions,
            self.world.bounds.w,
            self.world.bounds.h,
        );
        let (reward, te) = vs.typed_reward();
        let terminal_now = match vs {
            VictoryState::Continue(_, _) => false,
            _ => true,
        };
        let ghost lr_zero = self.world.last_reward@;
        if terminal_now {
            self.world.terminal = Terminal(true);
            proof {
                lemma_trigger_entity_live(self.world.pos@, self.world.factions@, self.world.pos.keys());
            }
            let fi = match self.world.factions.get(te) {
                Some(f) => f.0,
                None => {
                    proof {
                        assert(false);
                    }
                    0
                },
            };
            let nslots = self.world.last_reward.len();
            proof {
                assert(fi < self.world.players@.len());
                assert(fi < nslots as u64);
            }
            let idx = fi as usize;
            proof {
                assert(idx as int == fi as int);
            }
            self.world.last_reward[idx] = reward;
            proof {
                assert(self.world.last_reward@ == lr_zero.update(fi as int, reward));
            }
        }
        let ghost vs_spec = spec_trigger(self.world.pos@, w0.factions@, self.world.pos.keys());
        proof {
            assert(vs == vs_spec);
            assert(self.world.terminal.0 == vs_spec.is_terminal());
            assert(forall|i: int| 0 <= i < lr_zero.len() ==> lr_zero[i] == 0i64);
            assert forall|fi: int|
                0 <= fi < self.world.last_reward@.len() implies #[trigger] self.world.last_reward@[fi]
                == (if vs_spec.is_terminal() && w0.factions@[vs_spec.spec_typed_reward().1].0 == fi {
                vs_spec.spec_typed_reward().0
            } else {
                0i64
            }) by {
                if vs_spec.is_terminal() {
                    let te2 = vs_spec.spec_typed_reward().1;
                    assert(self.world.factions@[te2].0 == w0.factions@[te2].0);
                    assert(self.world.last_reward@ == lr_zero.update(
                        w0.factions@[te2].0 as int,
                        vs_spec.spec_typed_reward().0,
                    ));
                } else {
                    assert(self.world.last_reward@ == lr_zero);
                }
            }
        }
        // render
        let key = self.world.needs_key_info.0;
        proof {
            assert forall|j: int|
                0 <= j < results@.len() implies self.world.render_cache@.dom().contains(
                (#[trigger] results@[j]).e_id,
            ) by {
                assert(om1.dom().contains(results@[j].e_id));
                assert(w0.movable@.dom().contains(results@[j].e_id));
                assert(w0.live().contains(results@[j].e_id));
            }
        }
        let ghost cache0 = self.world.render_cache@;
        let viz = run_render(&mut self.world.render_cache, &results, key);
        self.world.needs_key_info = NeedsKeyInfo(false);
        proof {
            assert(cache0 == w0.render_cache@);
            // the render cache mirrors the moved world again
            assert forall|e: u64| #[trigger]
                self.world.render_cache@.dom().contains(e) implies self.world.render_cache@[e]
                == (crate::components::Renderable {
                pos: self.world.pos@[e],
                shape: self.world.shapes@[e],
                color: self.world.colors@[e],
            }) by {
                if crate::render::results_have(results@, e) {
                    let j = choose|j: int|
                        0 <= j < results@.len() && (#[trigger] results@[j]).e_id == e;
                    assert(self.world.render_cache@[e] == spec_upd_rend(cache0[e], results@[j]));
                    assert(results@[j] == spec_move_result(w0.pos@, om1[e], e));
                    assert(om1.dom().contains(e));
                    assert(self.world.pos@[e] == (crate::components::Pos {
                        x: spec_new_xy(w0.pos@, om1[e], e).0 as i64,
                        y: spec_new_xy(w0.pos@, om1[e], e).1 as i64,
                        heading: w0.pos@[e].heading,
                    }));
                } else {
                    // no change record, so the entity was not ordered
                    if om1.dom().contains(e) {
                        let j = choose|j: int|
                            0 <= j < results@.len() && (#[trigger] results@[j]).e_id == e;
                        assert(false);
                    }
                    assert(self.world.render_cache@[e] == cache0[e]);
                    assert(self.world.pos@[e] == w0.pos@[e]);
                }
            }
            if !key {
                // the delta frame lists exactly the ordered entities, ascending
                assert forall|j1: int, j2: int|
                    0 <= j1 < j2 < viz.entities@.len() implies (#[trigger] viz.entities@[j1]).id < (
                #[trigger] viz.entities@[j2]).id by {
                    assert(viz.entities@[j1].id == results@[j1].e_id);
                    assert(viz.entities@[j2].id == results@[j2].e_id);
                }
                assert forall|e: u64| #[trigger] om1.dom().contains(e) implies exists|j: int|
                    0 <= j < viz.entities@.len() && (#[trigger] viz.entities@[j]).id == e by {
                    let j = choose|j: int|
                        0 <= j < results@.len() && (#[trigger] results@[j]).e_id == e;
                    assert(viz.entities@[j].id == e);
                }
            }
        }
        (viz, errs, reward)
    }


    /// Advance one tick: input, movement, trigger, render, observation.
    ///
    /// A terminal world is left untouched and nothing is emitted until
    /// `reset`.  Otherwise every part of the new state and of the emitted
    /// frames is a function of the old state and the pending action
    /// alone, as `tick_ok` spells out — ticks are deterministic.
    pub fn update(&mut self) -> (mm: MultiMessage)
        requires
            old(self).wf(),
        ensures
            final(self).wf(),
            old(self).world.terminal.0 ==> *final(self) == *old(self) && mm.packets@.len() == 0,
            !old(self).world.terminal.0 ==> tick_ok(*old(self), *final(self), mm),
    {
        if self.world.terminal.0 {
            return MultiMessage::new();
        }
        let (viz, errs, reward) = self.step_systems();
        let st = build_state(&self.world, reward);
        let mut mm = MultiMessage::new();
        mm.packets.push(viz_packet(SpecificMsg::Viz(viz)));
        mm.packets.push(agent_packet(SpecificMsg::State(st)));
        let ghost p0 = mm.packets@[0];
        let ghost p1 = mm.packets@[1];
        let mut k: usize = 0;
        while k < errs.len()
            invariant
                k <= errs@.len(),
                mm.packets@.len() == 2 + k,
                mm.packets@[0] == p0,
                mm.packets@[1] == p1,
                forall|j: int|
                    0 <= j < k ==> (#[trigger] mm.packets@[2 + j]).specific_msg
                        == SpecificMsg::Error(errs@[j]) && mm.packets@[2 + j].dest == Endpoint::Core,
            decreases errs@.len() - k,
        {
            mm.packets.push(core_packet(SpecificMsg::Error(errs[k])));
            k += 1;
        }
        mm
    }
}
/// What one non-terminal tick's input and movement do to the world, as
/// a function of the old state and the pending action alone: orders are
/// overwritten by the action's commands, every ordered entity steps,
/// fulfilled orders leave, the moved flags mark exactly what changed,
/// and nothing else is touched.
pub open spec fn movement_ok<S: Scenario>(o: Rts<S>, f: Rts<S>) -> bool {
    let w0 = o.world;
    let cmds = spec_tick_cmds(o.input_sys.style, w0.pending_action, w0);
    let om1 = spec_apply_cmds(w0.orders@, cmds);
    &&& f.scenario == o.scenario
    &&& f.initialized == o.initialized
    &&& f.input_sys == o.input_sys
    // resources
    &&& f.world.tick == w0.tick.wrapping_add(1)
    &&& f.world.episode == w0.episode
    &&& f.world.bounds == w0.bounds
    &&& f.world.players == w0.players
    &&& f.world.unit_types == w0.unit_types
    &&& f.world.rng == w0.rng
    &&& f.world.ids == w0.ids
    &&& (f.world.pending_action is None)
    // components movement does not touch
    &&& f.world.shapes == w0.shapes
    &&& f.world.colors == w0.colors
    &&& f.world.factions == w0.factions
    &&& f.world.hp == w0.hp
    &&& f.world.speeds == w0.speeds
    &&& f.world.movable == w0.movable
    &&& f.world.statics == w0.statics
    &&& f.world.type_idx == w0.type_idx
    // movement: each ordered entity stepped, everything else in place
    &&& f.world.pos@.dom() == w0.pos@.dom()
    &&& forall|e: u64| #[trigger]
        f.world.pos@.dom().contains(e) ==> f.world.pos@[e] == (if om1.dom().contains(e) {
            crate::components::Pos {
                x: spec_new_xy(w0.pos@, om1[e], e).0 as i64,
                y: spec_new_xy(w0.pos@, om1[e], e).1 as i64,
                heading: w0.pos@[e].heading,
            }
        } else {
            w0.pos@[e]
        })
    // fulfilled orders removed, others kept unchanged
    &&& forall|e: u64|
        f.world.orders@.dom().contains(e) <==> (#[trigger] om1.dom().contains(e)
            && !spec_order_done(w0.pos@, om1[e], e))
    &&& forall|e: u64| #[trigger]
        f.world.orders@.dom().contains(e) ==> f.world.orders@[e] == om1[e]
    // the moved flag marks exactly the entities whose position changed
    &&& forall|e: u64|
        f.world.moved@.dom().contains(e) <==> (#[trigger] om1.dom().contains(e)
            && crate::movement::spec_pos_changed(w0.pos@, om1[e], e))
    // every order sits on a movable (hence live) entity
    &&& forall|e: u64| #[trigger] om1.dom().contains(e) ==> w0.movable@.dom().contains(e)
}

/// The change records movement emits: one per ordered entity, in
/// ascending id order, each exactly as `spec_move_result` says, covering
/// every ordered entity.
pub open spec fn results_ok<S: Scenario>(o: Rts<S>, rs: Seq<MoveResult>) -> bool {
    let w0 = o.world;
    let cmds = spec_tick_cmds(o.input_sys.style, w0.pending_action, w0);
    let om1 = spec_apply_cmds(w0.orders@, cmds);
    &&& forall|j1: int, j2: int|
        0 <= j1 < j2 < rs.len() ==> (#[trigger] rs[j1]).e_id < (#[trigger] rs[j2]).e_id
    &&& forall|j: int|
        0 <= j < rs.len() ==> #[trigger] om1.dom().contains(rs[j].e_id) && rs[j]
            == spec_move_result(w0.pos@, om1[rs[j].e_id], rs[j].e_id)
    &&& forall|e: u64| #[trigger]
        om1.dom().contains(e) ==> exists|j: int| 0 <= j < rs.len() && (#[trigger] rs[j]).e_id == e
}

/// What one non-terminal tick does to the world: the input and movement
/// effects, then the trigger's verdict written to the terminal flag and
/// the per-faction rewards.
pub open spec fn world_tick_ok<S: Scenario>(o: Rts<S>, f: Rts<S>) -> bool {
    let w0 = o.world;
    let vs = spec_trigger(f.world.pos@, w0.factions@, f.world.pos.keys());
    &&& movement_ok(o, f)
    &&& f.world.needs_key_info == NeedsKeyInfo(false)
    // trigger: terminal flag and rewards
    &&& f.world.terminal.0 == vs.is_terminal()
    &&& f.world.last_reward@.len() == w0.players@.len()
    &&& forall|fi: int|
        0 <= fi < f.world.last_reward@.len() ==> #[trigger] f.world.last_reward@[fi] == (
        if vs.is_terminal() && w0.factions@[vs.spec_typed_reward().1].0 == fi {
            vs.spec_typed_reward().0
        } else {
            0i64
        })
}

/// The visualization frame one non-terminal tick emits: a full frame on
/// the first tick after a reset or a load, otherwise one delta record per
/// ordered entity, ascending ids, covering exactly the ordered entities.
pub open spec fn viz_ok<S: Scenario>(o: Rts<S>, f: Rts<S>, v: Viz) -> bool {
    let w0 = o.world;
    let cmds = spec_tick_cmds(o.input_sys.style, w0.pending_action, w0);
    let om1 = spec_apply_cmds(w0.orders@, cmds);
    if w0.needs_key_info.0 {
        v.entities@.len() == f.world.render_cache.keys().len() && (forall|j: int|
            0 <= j < v.entities@.len() ==> is_full_entity(
                #[trigger] v.entities@[j],
                f.world.render_cache.v@[j].0,
                f.world.render_cache.v@[j].1,
            ))
    } else {
        &&& (forall|j1: int, j2: int|
            0 <= j1 < j2 < v.entities@.len() ==> (#[trigger] v.entities@[j1]).id < (
            #[trigger] v.entities@[j2]).id)
        &&& (forall|j: int|
            0 <= j < v.entities@.len() ==> om1.dom().contains((#[trigger] v.entities@[j]).id)
                && is_delta_entity(
                v.entities@[j],
                w0.render_cache@[v.entities@[j].id],
                spec_move_result(w0.pos@, om1[v.entities@[j].id], v.entities@[j].id),
            ))
        &&& (forall|e: u64| #[trigger]
            om1.dom().contains(e) ==> exists|j: int|
                0 <= j < v.entities@.len() && (#[trigger] v.entities@[j]).id == e)
    }
}

/// Everything one non-terminal tick does: the world change, then the
/// emitted frames — the visualization, the observation, and one packet
/// per non-fatal input error.
pub open spec fn tick_ok<S: Scenario>(o: Rts<S>, f: Rts<S>, mm: MultiMessage) -> bool {
    let w0 = o.world;
    let errs = spec_tick_errs(o.input_sys.style, w0.pending_action, w0);
    let vs = spec_trigger(f.world.pos@, w0.factions@, f.world.pos.keys());
    &&& world_tick_ok(o, f)
    &&& mm.packets@.len() == 2 + errs.len()
    &&& (mm.packets@[0].dest matches Endpoint::Module(n) && n@ == "viz"@)
    &&& (mm.packets@[0].specific_msg matches SpecificMsg::Viz(v) && viz_ok(o, f, v))
    &&& mm.packets@[1].dest == Endpoint::Agent
    &&& (mm.packets@[1].specific_msg matches SpecificMsg::State(st) && state_matches(st, f.world)
        && st.reward == vs.spec_typed_reward().0)
    &&& forall|k: int|
        0 <= k < errs.len() ==> (#[trigger] mm.packets@[2 + k]).specific_msg == SpecificMsg::Error(
            errs[k],
        ) && mm.packets@[2 + k].dest == Endpoint::Core
}


/// What a successful reset leaves behind and emits: a non-terminal world
/// with no pending action or stale flags, and exactly the reset marker,
/// one full frame describing every entity, and an all-zero-reward,
/// non-terminal observation of the fresh world.
pub open spec fn reset_ok<S: Scenario>(rts: Rts<S>, mm: MultiMessage) -> bool {
    &&& rts.world.terminal == Terminal(false)
    &&& rts.world.needs_key_info == NeedsKeyInfo(false)
    &&& rts.world.pending_action is None
    &&& rts.world.orders@.dom() == Set::<u64>::empty()
    &&& rts.world.moved@.dom() == Set::<u64>::empty()
    &&& mm.packets@.len() == 3
    &&& mm.packets@[0].specific_msg == SpecificMsg::VizInit(VizInit { test_mode: Some(false) })
    &&& (mm.packets@[0].dest matches Endpoint::Module(n) && n@ == "viz"@)
    &&& (mm.packets@[1].specific_msg matches SpecificMsg::Viz(v) && v.entities@.len()
        == rts.world.render_cache.keys().len() && (forall|j: int|
        0 <= j < v.entities@.len() ==> is_full_entity(
            #[trigger] v.entities@[j],
            rts.world.render_cache.v@[j].0,
            rts.world.render_cache.v@[j].1,
        )))
    &&& (mm.packets@[1].dest matches Endpoint::Module(n) && n@ == "viz"@)
    &&& (mm.packets@[2].specific_msg matches SpecificMsg::State(st) && st.reward == 0
        && !st.terminal && state_matches(st, rts.world))
    &&& mm.packets@[2].dest == Endpoint::Agent
}

/// The observation payload describes this world exactly.
pub open spec fn state_matches(st: State, w: World) -> bool {
    &&& st.feature_array_dims@ == seq![
        spec_grid(w.bounds.w) as usize,
        spec_grid(w.bounds.h) as usize,
        CHANNELS,
    ]
    &&& st.features@.len() == spec_grid(w.bounds.w) * spec_grid(w.bounds.h) * CHANNELS
    &&& forall|ci: int, cj: int, k: int|
        0 <= ci < spec_grid(w.bounds.w) && 0 <= cj < spec_grid(w.bounds.h) && 0 <= k < CHANNELS
            ==> st.features@[(ci * spec_grid(w.bounds.h) + cj) * CHANNELS + k] == spec_cell_channel(
            w.pos.v@,
            w.hp@,
            w.type_idx@,
            w.factions@,
            ci,
            cj,
            spec_grid(w.bounds.w),
            spec_grid(w.bounds.h),
            k,
        )
    &&& st.terminal == w.terminal.0
    &&& st.typed_reward@.len() == w.last_reward@.len()
    &&& forall|f: int|
        0 <= f < w.last_reward@.len() ==> #[trigger] st.typed_reward@[f] == (
        f as u64,
        w.last_reward@[f],
    )
}

} // verus!
