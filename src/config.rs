use vstd::prelude::*;
use crate::agent::GhostPolicy;

verus! {

/// Size and obstacle layout of generated worlds, in grid cells.
#[derive(Clone, Copy, Debug, PartialEq, Eq, Structural)]
pub struct WorldGenerationConfig {
    pub width_cells: usize,
    pub height_cells: usize,
    pub num_obstacles: usize,
    pub obstacle_radius_cells: usize,
}

/// How many goblets a world holds, and the largest magnitude of a reward.
#[derive(Clone, Copy, Debug, PartialEq, Eq, Structural)]
pub struct GobletConfig {
    pub number: usize,
    pub max_reward: u32,
}

/// The player's movement noise and the ghost's presence.
///
/// `transition[k]` is the relative weight of moving `k` quarter turns
/// clockwise from the intended direction.
#[derive(Clone, Copy, Debug)]
pub struct AgentConfig {
    pub ghost_policy: Option<GhostPolicy>,
    pub transition: [u32; 4],
}

/// The whole configuration of a simulation.
#[derive(Clone, Copy, Debug)]
pub struct GGConfig {
    pub agent: AgentConfig,
    pub goblets: GobletConfig,
    pub world_generation: WorldGenerationConfig,
    pub generation_seed: Option<u32>,
    pub episode_seed: Option<u32>,
    pub debug: bool,
    pub headless: bool,
}

/// Sum of four weights, as a mathematical integer.
pub open spec fn weight_total(w: [u32; 4]) -> int {
    w[0] as int + w[1] as int + w[2] as int + w[3] as int
}

/// Weights from which a move can be drawn: some weight is positive and
/// their sum fits the weight type.
pub open spec fn weights_usable(w: [u32; 4]) -> bool {
    0 < weight_total(w) <= u32::MAX
}

impl WorldGenerationConfig {
    /// Grid dimensions as (width, height).
    pub fn size(&self) -> (r: (usize, usize))
        ensures
            r == (self.width_cells, self.height_cells),
    {
        (self.width_cells, self.height_cells)
    }

    /// A configuration that generation accepts: a non-empty grid whose
    /// cells can be counted, and radii that can be drawn from `1..=radius`.
    pub open spec fn valid(self) -> bool {
        &&& self.width_cells >= 1
        &&& self.height_cells >= 1
        &&& self.width_cells * self.height_cells <= usize::MAX
        &&& self.num_obstacles > 0 ==> self.obstacle_radius_cells >= 1
    }
}

impl GGConfig {
    /// A configuration from which a board can be generated.
    pub open spec fn generable(self) -> bool {
        &&& self.world_generation.valid()
        &&& self.goblets.max_reward <= i32::MAX
    }
}

impl Default for WorldGenerationConfig {
    fn default() -> (r: Self)
        ensures
            r.width_cells == 20 && r.height_cells == 20,
            r.num_obstacles == 5 && r.obstacle_radius_cells == 3,
    {
        WorldGenerationConfig {
            width_cells: 20,
            height_cells: 20,
            num_obstacles: 5,
            obstacle_radius_cells: 3,
        }
    }
}

impl Default for GobletConfig {
    fn default() -> (r: Self)
        ensures
            r.number == 1 && r.max_reward == 10,
    {
        GobletConfig { number: 1, max_reward: 10 }
    }
}

impl Default for AgentConfig {
    fn default() -> (r: Self)
        ensures
            r.ghost_policy is None,
            r.transition == [0u32, 0, 0, 0],
    {
        AgentConfig { ghost_policy: None, transition: [0, 0, 0, 0] }
    }
}

impl Default for GGConfig {
    fn default() -> (r: Self)
        ensures
            r.agent.ghost_policy is None,
            r.agent.transition == [0u32, 0, 0, 0],
            r.goblets.number == 1 && r.goblets.max_reward == 10,
            r.world_generation.width_cells == 20 && r.world_generation.height_cells == 20,
            r.world_generation.num_obstacles == 5,
            r.world_generation.obstacle_radius_cells == 3,
            r.generation_seed is None && r.episode_seed is None,
            !r.debug && !r.headless,
    {
        GGConfig {
            agent: AgentConfig::default(),
            goblets: GobletConfig::default(),
            world_generation: WorldGenerationConfig::default(),
            generation_seed: None,
            episode_seed: None,
            debug: false,
            headless: false,
        }
    }
}

} // verus!
