//! The input system: turning the agent's per-tick action into movement
//! commands.
//!
//! Two action styles exist.  In the action-list style every decoded
//! per-unit command is checked and becomes a `SimpleMove`; commands for
//! units that cannot move are malformed and dropped, and command kinds
//! the engine does not handle are unsupported and dropped — neither ends
//! the tick.  In the simple style the first discrete integer names a
//! target entity and the agent (entity 0) is sent toward its position.
//! Input never touches positions; it only overwrites move orders, so at
//! most one order per entity survives a tick.

use vstd::prelude::*;
use crate::components::{Movable, Move, MoveAttack, MoveBehavior, MoveTarget, Pos, Speed};
use crate::errors::RtsError;
use crate::ids::EntityId;
use crate::movement::{in_bounds, MoveUpdate};
use crate::table::Table;

verus! {

/// Which decoding the input system applies.
#[derive(Copy, Clone, Debug, PartialEq, Eq, Structural)]
pub enum ActionStyle {
    Simple,
    ActionList,
}

/// One decoded per-unit command.
#[derive(Copy, Clone, Debug, PartialEq, Eq, Structural)]
pub enum UnitAction {
    MoveTo { x: i64, y: i64 },
    AttackUnit { target: EntityId },
}

/// A command addressed to one unit.
#[derive(Copy, Clone, Debug, PartialEq, Eq, Structural)]
pub struct UnitCommand {
    pub unit_id: EntityId,
    pub action: UnitAction,
}

/// The agent's action for one tick, as the embedder hands it over:
/// the per-unit command list already decoded from transport, and the
/// discrete action integers.
#[derive(Clone, Debug, PartialEq, Eq)]
pub struct Action {
    pub alternate_actions: Option<Vec<UnitCommand>>,
    pub discrete_actions: Vec<u64>,
}

/// The command stream input hands to movement.
#[derive(Copy, Clone, Debug, PartialEq, Eq, Structural)]
pub enum RtsCommand {
    SimpleMove(MoveUpdate),
}

/// The input system; it owns only the configured action style.
#[derive(Copy, Clone, Debug, PartialEq, Eq, Structural)]
pub struct InputSystem {
    pub style: ActionStyle,
}

impl InputSystem {
    pub fn new() -> (s: InputSystem)
        ensures
            s.style == ActionStyle::Simple,
    {
        InputSystem { style: ActionStyle::Simple }
    }
}

/// A move-to command is well formed when the unit is movable, has a
/// speed, and the target lies inside the world.
pub open spec fn spec_move_ok(
    mov: Map<u64, Movable>,
    spd: Map<u64, Speed>,
    u: u64,
    x: int,
    y: int,
    w: int,
    h: int,
) -> bool {
    mov.dom().contains(u) && spd.dom().contains(u) && in_bounds(x, y, w, h)
}

/// The movement command a well-formed move-to becomes.
pub open spec fn spec_move_cmd(spd: Map<u64, Speed>, u: u64, x: i64, y: i64) -> RtsCommand {
    RtsCommand::SimpleMove(MoveUpdate { new_x: x, new_y: y, speed: spd[u].0, e_id: u })
}

/// The commands an action list yields, in order, dropping what is
/// malformed or unsupported.
pub open spec fn spec_list_cmds(
    s: Seq<UnitCommand>,
    mov: Map<u64, Movable>,
    spd: Map<u64, Speed>,
    w: int,
    h: int,
) -> Seq<RtsCommand>
    decreases s.len(),
{
    if s.len() == 0 {
        Seq::empty()
    } else {
        let pre = spec_list_cmds(s.drop_last(), mov, spd, w, h);
        let c = s.last();
        match c.action {
            UnitAction::MoveTo { x, y } => if spec_move_ok(
                mov,
                spd,
                c.unit_id,
                x as int,
                y as int,
                w,
                h,
            ) {
                pre.push(spec_move_cmd(spd, c.unit_id, x, y))
            } else {
                pre
            },
            UnitAction::AttackUnit { .. } => pre,
        }
    }
}

/// The non-fatal errors an action list yields, in order.
pub open spec fn spec_list_errs(
    s: Seq<UnitCommand>,
    mov: Map<u64, Movable>,
    spd: Map<u64, Speed>,
    w: int,
    h: int,
) -> Seq<RtsError>
    decreases s.len(),
{
    if s.len() == 0 {
        Seq::empty()
    } else {
        let pre = spec_list_errs(s.drop_last(), mov, spd, w, h);
        let c = s.last();
        match c.action {
            UnitAction::MoveTo { x, y } => if spec_move_ok(
                mov,
                spd,
                c.unit_id,
                x as int,
                y as int,
                w,
                h,
            ) {
                pre
            } else {
                pre.push(RtsError::MalformedAction(c.unit_id))
            },
            UnitAction::AttackUnit { .. } => pre.push(RtsError::UnsupportedAction(c.unit_id)),
        }
    }
}

/// What the simple style yields: the agent (entity 0) is sent toward the
/// position of the entity the first discrete integer names.
pub open spec fn spec_simple_cmds(
    discrete: Seq<u64>,
    pm: Map<u64, Pos>,
    mov: Map<u64, Movable>,
    spd: Map<u64, Speed>,
) -> Seq<RtsCommand> {
    if discrete.len() == 0 {
        Seq::empty()
    } else {
        let d = discrete[0];
        if pm.dom().contains(d) && mov.dom().contains(0u64) && spd.dom().contains(0u64) {
            seq![spec_move_cmd(spd, 0u64, pm[d].x, pm[d].y)]
        } else {
            Seq::empty()
        }
    }
}

/// The non-fatal errors of the simple style.
pub open spec fn spec_simple_errs(
    discrete: Seq<u64>,
    pm: Map<u64, Pos>,
    mov: Map<u64, Movable>,
    spd: Map<u64, Speed>,
) -> Seq<RtsError> {
    if discrete.len() == 0 {
        seq![RtsError::MalformedAction(0)]
    } else {
        let d = discrete[0];
        if !pm.dom().contains(d) {
            seq![RtsError::MalformedAction(d)]
        } else if !(mov.dom().contains(0u64) && spd.dom().contains(0u64)) {
            seq![RtsError::MalformedAction(0)]
        } else {
            Seq::empty()
        }
    }
}

/// Decode one action into movement commands plus non-fatal errors.
pub fn run_input(
    sys: &InputSystem,
    action: &Action,
    positions: &Table<Pos>,
    movable: &Table<Movable>,
    speeds: &Table<Speed>,
    w: i64,
    h: i64,
) -> (out: (Vec<RtsCommand>, Vec<RtsError>))
    requires
        positions.wf(),
        movable.wf(),
        speeds.wf(),
    ensures
        sys.style == ActionStyle::ActionList ==> match action.alternate_actions {
            Some(cmds) => out.0@ == spec_list_cmds(cmds@, movable@, speeds@, w as int, h as int)
                && out.1@ == spec_list_errs(cmds@, movable@, speeds@, w as int, h as int),
            None => out.0@ == Seq::<RtsCommand>::empty() && out.1@ == seq![
                RtsError::MalformedAction(0),
            ],
        },
        sys.style == ActionStyle::Simple ==> out.0@ == spec_simple_cmds(
            action.discrete_actions@,
            positions@,
            movable@,
            speeds@,
        ) && out.1@ == spec_simple_errs(action.discrete_actions@, positions@, movable@, speeds@),
{
    let mut cmds: Vec<RtsCommand> = Vec::new();
    let mut errs: Vec<RtsError> = Vec::new();
    match sys.style {
        ActionStyle::ActionList => {
            let list = match &action.alternate_actions {
                Some(list) => list,
                None => {
                    errs.push(RtsError::MalformedAction(0));
                    return (cmds, errs);
                },
            };
            let ghost s = list@;
            let mut i: usize = 0;
            while i < list.len()
                invariant
                    positions.wf(),
                    movable.wf(),
                    speeds.wf(),
                    list@ == s,
                    i <= s.len(),
                    cmds@ == spec_list_cmds(s.take(i as int), movable@, speeds@, w as int, h as int),
                    errs@ == spec_list_errs(s.take(i as int), movable@, speeds@, w as int, h as int),
                decreases s.len() - i,
            {
                let c = list[i];
                proof {
                    assert(s.take(i + 1).drop_last() =~= s.take(i as int));
                    assert(s.take(i + 1).last() == s[i as int]);
                }
                match c.action {
                    UnitAction::MoveTo { x, y } => {
                        let ok = movable.contains(c.unit_id) && speeds.contains(c.unit_id) && 0 <= x
                            && x <= w && 0 <= y && y <= h;
                        if ok {
                            let sp = match speeds.get(c.unit_id) {
                                Some(sp) => sp,
                                None => {
                                    proof {
                                        assert(false);
                                    }
                                    Speed(0)
                                },
                            };
                            cmds.push(
                                RtsCommand::SimpleMove(
                                    MoveUpdate { new_x: x, new_y: y, speed: sp.0, e_id: c.unit_id },
                                ),
                            );
                        } else {
                            errs.push(RtsError::MalformedAction(c.unit_id));
                        }
                    },
                    UnitAction::AttackUnit { .. } => {
                        errs.push(RtsError::UnsupportedAction(c.unit_id));
                    },
                }
                i += 1;
            }
            proof {
                assert(s.take(s.len() as int) =~= s);
            }
            (cmds, errs)
        },
        ActionStyle::Simple => {
            if action.discrete_actions.len() == 0 {
                errs.push(RtsError::MalformedAction(0));
                return (cmds, errs);
            }
            let d = action.discrete_actions[0];
            let dest = positions.get(d);
            match dest {
                None => {
                    errs.push(RtsError::MalformedAction(d));
                },
                Some(p) => {
                    if movable.contains(0) && speeds.contains(0) {
                        let sp = match speeds.get(0) {
                            Some(sp) => sp,
                            None => {
                                proof {
                                    assert(false);
                                }
                                Speed(0)
                            },
                        };
                        cmds.push(
                            RtsCommand::SimpleMove(
                                MoveUpdate { new_x: p.x, new_y: p.y, speed: sp.0, e_id: 0 },
                            ),
                        );
                    } else {
                        errs.push(RtsError::MalformedAction(0));
                    }
                },
            }
            (cmds, errs)
        },
    }
}

/// The orders that stand after a command stream is applied in order:
/// each command overwrites any earlier order for its unit.
pub open spec fn spec_apply_cmds(m: Map<u64, Move>, s: Seq<RtsCommand>) -> Map<u64, Move>
    decreases s.len(),
{
    if s.len() == 0 {
        m
    } else {
        let pre = spec_apply_cmds(m, s.drop_last());
        match s.last() {
            RtsCommand::SimpleMove(u) => pre.insert(
                u.e_id,
                Move {
                    behavior: MoveBehavior::Straight,
                    target: MoveTarget::Ground(Pos { x: u.new_x, y: u.new_y, heading: 0 }),
                    attacking: MoveAttack::Friendly,
                    speed: u.speed,
                },
            ),
        }
    }
}

/// What a movement command must satisfy for the world to accept it: the
/// unit is movable, the command carries the unit's own speed, and the
/// target lies inside the world.
pub open spec fn cmd_good(
    c: RtsCommand,
    mov: Map<u64, Movable>,
    spd: Map<u64, Speed>,
    w: int,
    h: int,
) -> bool {
    match c {
        RtsCommand::SimpleMove(u) => {
            &&& mov.dom().contains(u.e_id)
            &&& spd.dom().contains(u.e_id)
            &&& u.speed == spd[u.e_id].0
            &&& in_bounds(u.new_x as int, u.new_y as int, w, h)
        },
    }
}

/// Every command the action-list decoding yields is good.
pub proof fn lemma_list_cmds_good(
    s: Seq<UnitCommand>,
    mov: Map<u64, Movable>,
    spd: Map<u64, Speed>,
    w: int,
    h: int,
)
    ensures
        forall|j: int|
            0 <= j < spec_list_cmds(s, mov, spd, w, h).len() ==> cmd_good(
                #[trigger] spec_list_cmds(s, mov, spd, w, h)[j],
                mov,
                spd,
                w,
                h,
            ),
    decreases s.len(),
{
    if s.len() > 0 {
        lemma_list_cmds_good(s.drop_last(), mov, spd, w, h);
        let pre = spec_list_cmds(s.drop_last(), mov, spd, w, h);
        let c = s.last();
        match c.action {
            UnitAction::MoveTo { x, y } => {
                if spec_move_ok(mov, spd, c.unit_id, x as int, y as int, w, h) {
                    assert(spec_list_cmds(s, mov, spd, w, h) == pre.push(
                        spec_move_cmd(spd, c.unit_id, x, y),
                    ));
                    assert(cmd_good(spec_move_cmd(spd, c.unit_id, x, y), mov, spd, w, h));
                } else {
                    assert(spec_list_cmds(s, mov, spd, w, h) == pre);
                }
            },
            UnitAction::AttackUnit { .. } => {
                assert(spec_list_cmds(s, mov, spd, w, h) == pre);
            },
        }
    }
}

/// Every command the simple decoding yields is good.
pub proof fn lemma_simple_cmds_good(
    discrete: Seq<u64>,
    pm: Map<u64, Pos>,
    mov: Map<u64, Movable>,
    spd: Map<u64, Speed>,
    w: int,
    h: int,
)
    requires
        forall|e: u64| #[trigger]
            pm.dom().contains(e) ==> in_bounds(pm[e].x as int, pm[e].y as int, w, h),
    ensures
        forall|j: int|
            0 <= j < spec_simple_cmds(discrete, pm, mov, spd).len() ==> cmd_good(
                #[trigger] spec_simple_cmds(discrete, pm, mov, spd)[j],
                mov,
                spd,
                w,
                h,
            ),
{
}

/// Applying good commands to a table of acceptable orders yields a table
/// of acceptable orders on movable units.
pub proof fn lemma_apply_cmds_good(
    m0: Map<u64, Move>,
    s: Seq<RtsCommand>,
    pm: Map<u64, Pos>,
    mov: Map<u64, Movable>,
    spd: Map<u64, Speed>,
    w: int,
    h: int,
)
    requires
        forall|e: u64| #[trigger] m0.dom().contains(e) ==> mov.dom().contains(e)
            && crate::movement::order_ok(pm, m0[e], w, h),
        forall|j: int| 0 <= j < s.len() ==> cmd_good(#[trigger] s[j], mov, spd, w, h),
        forall|e: u64| #[trigger] spd.dom().contains(e) ==> 0 < spd[e].0 <= crate::geom::MAX_SPEED,
    ensures
        forall|e: u64| #[trigger]
            spec_apply_cmds(m0, s).dom().contains(e) ==> mov.dom().contains(e)
                && crate::movement::order_ok(pm, spec_apply_cmds(m0, s)[e], w, h),
    decreases s.len(),
{
    if s.len() > 0 {
        lemma_apply_cmds_good(m0, s.drop_last(), pm, mov, spd, w, h);
        assert(cmd_good(s[s.len() - 1], mov, spd, w, h));
        let pre = spec_apply_cmds(m0, s.drop_last());
        match s.last() {
            RtsCommand::SimpleMove(u) => {
                let o = Move {
                    behavior: MoveBehavior::Straight,
                    target: MoveTarget::Ground(Pos { x: u.new_x, y: u.new_y, heading: 0 }),
                    attacking: MoveAttack::Friendly,
                    speed: u.speed,
                };
                assert(spec_apply_cmds(m0, s) == pre.insert(u.e_id, o));
                assert(crate::movement::order_ok(pm, o, w, h));
            },
        }
    }
}

/// Write the commands into the order table, later commands overwriting
/// earlier ones for the same unit.
pub fn apply_commands(orders: &mut Table<Move>, cmds: &Vec<RtsCommand>)
    requires
        old(orders).wf(),
    ensures
        final(orders).wf(),
        final(orders)@ == spec_apply_cmds(old(orders)@, cmds@),
{
    let ghost m0 = orders@;
    let ghost s = cmds@;
    let mut i: usize = 0;
    while i < cmds.len()
        invariant
            orders.wf(),
            cmds@ == s,
            i <= s.len(),
            orders@ == spec_apply_cmds(m0, s.take(i as int)),
        decreases s.len() - i,
    {
        proof {
            assert(s.take(i + 1).drop_last() =~= s.take(i as int));
            assert(s.take(i + 1).last() == s[i as int]);
        }
        match cmds[i] {
            RtsCommand::SimpleMove(u) => {
                orders.insert(
                    u.e_id,
                    Move {
                        behavior: MoveBehavior::Straight,
                        target: MoveTarget::Ground(Pos { x: u.new_x, y: u.new_y, heading: 0 }),
                        attacking: MoveAttack::Friendly,
                        speed: u.speed,
                    },
                );
            },
        }
        i += 1;
    }
    proof {
        assert(s.take(s.len() as int) =~= s);
    }
}

} // verus!
