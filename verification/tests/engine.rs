use rand::rngs::StdRng;
use sky_rts::components::{Pos, Shape};
use sky_rts::errors::RtsError;
use sky_rts::geom::{distance_sq, isqrt64, SCALE};
use sky_rts::input::{Action, ActionStyle, UnitAction, UnitCommand};
use sky_rts::messages::{MultiMessage, SpecificMsg};
use sky_rts::rts::Rts;
use sky_rts::scenario::{
    build_unit_type_map, resolve_unit_type, Scenario, ScenarioInit, TowersScenario, UnitTypeSpec,
};
use sky_rts::world::UnitSpec;

/// A scenario with a movable agent and two towers at fixed spots, used by
/// the trigger and movement tests.
struct FixedScenario {
    agent_pos: Pos,
    agent_speed: i64,
    towers: Vec<(Pos, u64)>,
}

fn type_spec(tag: &str, movable: bool, speed: i64) -> UnitTypeSpec {
    UnitTypeSpec {
        tag: tag.to_string(),
        max_hp: None,
        can_move: Some(movable),
        shape: None,
        speed: if movable { Some(speed) } else { None },
        kill_reward: None,
        death_penalty: None,
        damage_deal_reward: None,
        damage_recv_penalty: None,
        attack_range: None,
    }
}

impl Scenario for FixedScenario {
    fn init(&self) -> ScenarioInit {
        ScenarioInit {
            factions: 3,
            unit_types: vec![
                type_spec("agent", true, self.agent_speed),
                type_spec("tower", false, 0),
            ],
        }
    }

    fn reset(&mut self, _rng: &mut StdRng) -> Vec<UnitSpec> {
        let mut units = vec![UnitSpec {
            unit_type: "agent".to_string(),
            pos: self.agent_pos,
            faction: 0,
        }];
        for (pos, faction) in &self.towers {
            units.push(UnitSpec {
                unit_type: "tower".to_string(),
                pos: *pos,
                faction: *faction,
            });
        }
        units
    }
}

/// A scenario that returns no units at all.
struct EmptyScenario;

impl Scenario for EmptyScenario {
    fn init(&self) -> ScenarioInit {
        ScenarioInit { factions: 2, unit_types: vec![type_spec("agent", true, 20 * SCALE)] }
    }

    fn reset(&mut self, _rng: &mut StdRng) -> Vec<UnitSpec> {
        Vec::new()
    }
}

fn micro(units: i64) -> i64 {
    units * SCALE
}

fn move_to(unit_id: u64, x: i64, y: i64) -> Action {
    Action {
        alternate_actions: Some(vec![UnitCommand {
            unit_id,
            action: UnitAction::MoveTo { x, y },
        }]),
        discrete_actions: Vec::new(),
    }
}

fn state_of(mm: &MultiMessage) -> &sky_rts::messages::State {
    for p in &mm.packets {
        if let SpecificMsg::State(st) = &p.specific_msg {
            return st;
        }
    }
    panic!("no state packet in message");
}

#[test]
fn start_rts() {
    let mut rts = Rts::new(TowersScenario, 7);
    rts.init().expect("towers scenario loads");
    assert!(rts.world.players.len() == 3);
    let mm = rts.reset().expect("reset succeeds");
    assert_eq!(mm.packets.len(), 3);
}

#[test]
fn empty_reset_emits_init_viz_state() {
    let mut rts = Rts::new(EmptyScenario, 1);
    let mm = rts.reset().expect("reset succeeds");
    assert_eq!(mm.packets.len(), 3);
    match &mm.packets[0].specific_msg {
        SpecificMsg::VizInit(_) => {}
        _ => panic!("first packet is not VizInit"),
    }
    match &mm.packets[1].specific_msg {
        SpecificMsg::Viz(v) => assert!(v.entities.is_empty()),
        _ => panic!("second packet is not Viz"),
    }
    let st = state_of(&mm);
    assert!(!st.terminal);
    assert_eq!(st.reward, 0);
}

#[test]
fn move_to_straight_line() {
    let mut rts = Rts::new(
        FixedScenario {
            agent_pos: Pos::new(micro(50), micro(50)),
            agent_speed: 30 * SCALE,
            towers: vec![(Pos::new(micro(900), micro(900)), 1)],
        },
        3,
    );
    rts.input_sys.style = ActionStyle::ActionList;
    rts.reset().expect("reset succeeds");
    rts.action_input(move_to(0, micro(50), micro(60)));
    rts.update();
    let p = rts.world.pos.get(0).expect("agent is live");
    assert_eq!((p.x, p.y), (micro(50), 50_500_000));
    assert!(rts.world.moved.get(0).is_some());
    for _ in 0..19 {
        rts.update();
    }
    let p = rts.world.pos.get(0).expect("agent is live");
    assert_eq!((p.x, p.y), (micro(50), micro(60)));
    assert!(rts.world.orders.get(0).is_none());
}

#[test]
fn victory_trigger_towers() {
    let mut rts = Rts::new(
        FixedScenario {
            agent_pos: Pos::new(micro(5), micro(50)),
            agent_speed: 30 * SCALE,
            towers: vec![
                (Pos::new(micro(5), micro(50)), 1),
                (Pos::new(micro(95), micro(50)), 2),
            ],
        },
        4,
    );
    rts.reset().expect("reset succeeds");
    let mm = rts.update();
    let st = state_of(&mm);
    assert!(st.terminal);
    assert_eq!(st.reward, 100_000_000);
    assert!(rts.world.terminal.0);
}

#[test]
fn defeat_trigger_and_terminal_freeze() {
    let mut rts = Rts::new(
        FixedScenario {
            agent_pos: Pos::new(micro(60), micro(50)),
            agent_speed: 60 * SCALE,
            towers: vec![(Pos::new(micro(95), micro(50)), 2)],
        },
        5,
    );
    rts.input_sys.style = ActionStyle::ActionList;
    rts.reset().expect("reset succeeds");
    rts.action_input(move_to(0, micro(95), micro(50)));
    let mm = rts.update();
    let st = state_of(&mm);
    assert!(st.terminal);
    assert_eq!(st.reward, -100_000_000);
    // terminal worlds stay frozen until reset
    let pos_before = rts.world.pos.get(0).unwrap();
    let mm2 = rts.update();
    assert!(mm2.packets.is_empty());
    assert_eq!(rts.world.pos.get(0).unwrap(), pos_before);
}

#[test]
fn action_override_targets_latest_order() {
    let mut rts = Rts::new(
        FixedScenario {
            agent_pos: Pos::new(micro(50), micro(50)),
            agent_speed: 60 * SCALE,
            towers: vec![(Pos::new(micro(900), micro(900)), 1)],
        },
        6,
    );
    rts.input_sys.style = ActionStyle::ActionList;
    rts.reset().expect("reset succeeds");
    rts.action_input(move_to(0, micro(50), micro(40)));
    rts.update();
    rts.action_input(move_to(0, micro(50), micro(60)));
    rts.update();
    // movement from the second tick on heads back up toward y = 60
    let p = rts.world.pos.get(0).unwrap();
    assert_eq!((p.x, p.y), (micro(50), micro(50)));
    rts.update();
    let p = rts.world.pos.get(0).unwrap();
    assert_eq!((p.x, p.y), (micro(50), micro(51)));
}

#[test]
fn reseed_is_deterministic_and_diverge_is_not() {
    let mut a = Rts::new(TowersScenario, 42);
    let mut b = Rts::new(TowersScenario, 42);
    let ma = a.reset_seeded(99).expect("reset succeeds");
    let mb = b.reset_seeded(99).expect("reset succeeds");
    assert_eq!(ma, mb);
    assert_eq!(state_of(&ma).features, state_of(&mb).features);
    // reseeding from entropy makes an otherwise identical engine diverge
    let mut c = Rts::new(TowersScenario, 42);
    let mut d = Rts::new(TowersScenario, 42);
    c.diverge();
    let mc = c.reset().expect("reset succeeds");
    let md = d.reset().expect("reset succeeds");
    assert_ne!(mc, md);
}

#[test]
fn malformed_action_is_dropped_non_fatally() {
    let mut rts = Rts::new(
        FixedScenario {
            agent_pos: Pos::new(micro(50), micro(50)),
            agent_speed: 30 * SCALE,
            towers: vec![(Pos::new(micro(900), micro(900)), 1)],
        },
        8,
    );
    rts.input_sys.style = ActionStyle::ActionList;
    rts.reset().expect("reset succeeds");
    // unit 77 does not exist: command dropped, error emitted, tick goes on
    rts.action_input(move_to(77, micro(10), micro(10)));
    let mm = rts.update();
    let mut saw_error = false;
    for p in &mm.packets {
        if let SpecificMsg::Error(e) = &p.specific_msg {
            assert_eq!(*e, RtsError::MalformedAction(77));
            assert!(!e.is_fatal());
            saw_error = true;
        }
    }
    assert!(saw_error);
    assert!(!rts.world.terminal.0);
}

#[test]
fn unit_type_defaults_and_reward_negation() {
    let mut sp = type_spec("t", true, 20 * SCALE);
    sp.speed = None;
    let t = resolve_unit_type(&sp);
    assert_eq!(t.max_hp, 100);
    assert!(t.movable);
    assert_eq!(t.speed, 20 * SCALE);
    assert_eq!(t.shape, Shape::Triangle { base_len: 10 * SCALE });
    assert_eq!(t.attack_range, 10 * SCALE);
    assert_eq!((t.kill_reward, t.death_penalty), (0, 0));

    let mut sp = type_spec("t", true, 20 * SCALE);
    sp.kill_reward = Some(5_000_000);
    let t = resolve_unit_type(&sp);
    assert_eq!((t.kill_reward, t.death_penalty), (5_000_000, -5_000_000));

    let mut sp = type_spec("t", true, 20 * SCALE);
    sp.death_penalty = Some(7_000_000);
    let t = resolve_unit_type(&sp);
    assert_eq!((t.kill_reward, t.death_penalty), (-7_000_000, 7_000_000));
}

#[test]
fn duplicate_tags_are_a_scenario_error() {
    let specs = vec![type_spec("same", true, SCALE), type_spec("same", false, 0)];
    assert_eq!(build_unit_type_map(&specs), Err(RtsError::ScenarioError));
    let specs = vec![type_spec("bad", true, 0)];
    assert_eq!(build_unit_type_map(&specs), Err(RtsError::ScenarioError));
}

#[test]
fn fixed_point_geometry_is_exact() {
    assert_eq!(isqrt64(0), 0);
    assert_eq!(isqrt64(10), 3);
    assert_eq!(isqrt64(10_000_000_000_000_000), 100_000_000);
    assert_eq!(distance_sq(0, 0, 3, 4), 25);
    assert_eq!(
        distance_sq(micro(5), micro(50), micro(95), micro(50)),
        8_100_000_000_000_000
    );
}
