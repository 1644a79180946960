//! The frames the core exchanges with its embedder: visualization
//! payloads, the per-tick observation for the agent, and the addressed
//! packets the router moves around.

use vstd::prelude::*;
use crate::components::{Color, Pos, Shape};

verus! {

/// One drawable shape of a visualization entity.
#[derive(Clone, Debug, PartialEq, Eq)]
pub struct VizShape {
    pub id: u64,
    pub relative_pos: Pos,
    pub color: Color,
    pub shape: Shape,
    pub delete: bool,
}

/// One entity record of a visualization frame; `pos` is present when the
/// entity moved (or on a full frame), `shapes` only on a full frame.
#[derive(Clone, Debug, PartialEq, Eq)]
pub struct VizEntity {
    pub id: u64,
    pub pos: Option<Pos>,
    pub shapes: Vec<VizShape>,
    pub delete: bool,
}

/// A visualization frame: entity records in ascending id order.
#[derive(Clone, Debug, PartialEq, Eq)]
pub struct Viz {
    pub entities: Vec<VizEntity>,
}

/// The reset marker frame sent before the first visualization frame of
/// an episode.
#[derive(Copy, Clone, Debug, PartialEq, Eq, Structural)]
pub struct VizInit {
    pub test_mode: Option<bool>,
}

/// The per-tick observation: the feature tensor flattened row-major over
/// (cell x, cell y, channel), its dimensions, the aggregate reward, the
/// per-faction rewards, and the terminal flag.  Rewards are micro-reward
/// units.
#[derive(Clone, Debug, PartialEq, Eq)]
pub struct State {
    pub features: Vec<u64>,
    pub feature_array_dims: [usize; 3],
    pub reward: i64,
    pub typed_reward: Vec<(u64, i64)>,
    pub terminal: bool,
}

/// Where a packet comes from or goes to.
#[derive(Clone, Debug, PartialEq, Eq)]
pub enum Endpoint {
    Core,
    Backend,
    Agent,
    Module(String),
}

/// The payloads the core receives and emits.
#[derive(Clone, Debug, PartialEq, Eq)]
pub enum SpecificMsg {
    /// Configuration: the action style switch (true selects action lists).
    Config(bool),
    ResetEnv(bool),
    Action(crate::input::Action),
    Viz(Viz),
    VizInit(VizInit),
    State(State),
    /// A non-fatal error, emitted alongside the normal frames.
    Error(crate::errors::RtsError),
}

/// An addressed frame.
#[derive(Clone, Debug, PartialEq, Eq)]
pub struct ScaiiPacket {
    pub src: Endpoint,
    pub dest: Endpoint,
    pub specific_msg: SpecificMsg,
}

/// Everything the core emits for one driver call.
#[derive(Clone, Debug, PartialEq, Eq)]
pub struct MultiMessage {
    pub packets: Vec<ScaiiPacket>,
}

impl MultiMessage {
    pub fn new() -> (m: MultiMessage)
        ensures
            m.packets@.len() == 0,
    {
        MultiMessage { packets: Vec::new() }
    }
}

/// A packet from the backend to the visualizer module.
pub fn viz_packet(msg: SpecificMsg) -> (p: ScaiiPacket)
    ensures
        p.src == Endpoint::Backend,
        p.dest matches Endpoint::Module(name) && name@ == "viz"@,
        p.specific_msg == msg,
{
    proof {
        reveal_strlit("viz");
    }
    ScaiiPacket {
        src: Endpoint::Backend,
        dest: Endpoint::Module("viz".to_string()),
        specific_msg: msg,
    }
}

/// A packet from the backend to the router core.
pub fn core_packet(msg: SpecificMsg) -> (p: ScaiiPacket)
    ensures
        p.src == Endpoint::Backend,
        p.dest == Endpoint::Core,
        p.specific_msg == msg,
{
    ScaiiPacket { src: Endpoint::Backend, dest: Endpoint::Core, specific_msg: msg }
}

/// A packet from the backend to the agent.
pub fn agent_packet(msg: SpecificMsg) -> (p: ScaiiPacket)
    ensures
        p.src == Endpoint::Backend,
        p.dest == Endpoint::Agent,
        p.specific_msg == msg,
{
    ScaiiPacket { src: Endpoint::Backend, dest: Endpoint::Agent, specific_msg: msg }
}

} // verus!
