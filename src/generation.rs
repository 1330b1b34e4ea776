//! Procedural generation of boards.
use vstd::prelude::*;
use bevy_prng::WyRand;
use crate::board::{cell_index, Board, BoardModel, Goblet};
use crate::config::GGConfig;
use crate::layout::{
    all_cells, border_cell, border_grid, count_open, free_cells, in_circle, interior_cells, mark_cells,
    wall_grid, without_cell,
};
use crate::random::{choose_cells, choose_from, random_between};

verus! {

/// Why a board could not be generated: no free cell was left for an entity
/// the configuration asks for.
#[derive(Clone, Copy, Debug, PartialEq, Eq, Structural)]
pub enum GenerationError {
    NoRoomForAgent,
    NoRoomForGhost,
    NoRoomForGoblet,
}

/// Cells the ghost takes: one when the configuration has a ghost.
pub open spec fn ghost_slots(config: GGConfig) -> int {
    if config.agent.ghost_policy is Some {
        1
    } else {
        0
    }
}

/// Free cells a configuration needs: the agent's, the ghost's, and one for
/// goblets (which may share a cell).
pub open spec fn cells_needed(config: GGConfig) -> int {
    1 + ghost_slots(config) + if config.goblets.number > 0 {
        1int
    } else {
        0int
    }
}

/// Entities placed as generation places them: the agent and the ghost on
/// distinct free cells, the ghost exactly when a policy is configured, and
/// the configured number of goblets on free cells apart from both, with
/// rewards within the configured magnitude.
pub open spec fn placed_well(b: BoardModel, config: GGConfig) -> bool {
    &&& b.wf()
    &&& !b.is_wall(b.agent_position)
    &&& (b.ghost_position is Some) == (config.agent.ghost_policy is Some)
    &&& b.ghost_position matches Some(g) ==> !b.is_wall(g) && g != b.agent_position
    &&& b.goblets.len() == config.goblets.number
    &&& forall|k: int|
        0 <= k < b.goblets.len() ==> {
            let gob = #[trigger] b.goblets[k];
            &&& b.in_bounds(gob.position)
            &&& !b.is_wall(gob.position)
            &&& gob.position != b.agent_position
            &&& b.ghost_position != Some(gob.position)
            &&& -(config.goblets.max_reward as int) <= gob.reward <= config.goblets.max_reward as int
        }
}

/// Walls laid by `obstacles`, each a center and a radius: obstacles with
/// distinct in-bounds centers and radii in `1..=max_radius`, and every cell
/// a wall exactly when it is on the border ring or covered by one of them.
pub open spec fn walls_from_obstacles(
    b: BoardModel,
    obstacles: Seq<((usize, usize), usize)>,
    max_radius: usize,
) -> bool {
    &&& forall|i: int|
        0 <= i < obstacles.len() ==> 1 <= (#[trigger] obstacles[i]).1 <= max_radius && b.in_bounds(
            obstacles[i].0,
        )
    &&& forall|i: int, j: int|
        0 <= i < obstacles.len() && 0 <= j < obstacles.len() && i != j ==> (#[trigger] obstacles[i]).0
            != (#[trigger] obstacles[j]).0
    &&& forall|p: (usize, usize)|
        #![trigger b.is_wall(p)]
        b.in_bounds(p) ==> (b.is_wall(p) == (border_cell(p, b.width, b.height) || exists|i: int|
            0 <= i < obstacles.len() && in_circle(
                p,
                #[trigger] obstacles[i].0,
                obstacles[i].1,
                b.width,
                b.height,
            )))
}

impl Board {
    /// A board of the given size whose walls are the border ring and the
    /// listed cells that lie inside the grid.
    pub fn from_layout(
        width: usize,
        height: usize,
        walls: &Vec<(usize, usize)>,
        agent_position: (usize, usize),
        ghost_position: Option<(usize, usize)>,
        goblets: Vec<Goblet>,
    ) -> (r: Board)
        requires
            width >= 1,
            height >= 1,
            width as int * height as int <= usize::MAX,
            agent_position.0 < width && agent_position.1 < height,
            ghost_position matches Some(g) ==> g.0 < width && g.1 < height,
        ensures
            r@.wf(),
            r.width == width && r.height == height,
            r.agent_position == agent_position,
            r.ghost_position == ghost_position,
            r.goblets@ == goblets@,
            forall|p: (usize, usize)|
                #![trigger r@.is_wall(p)]
                p.0 < width && p.1 < height ==> (r@.is_wall(p) == (border_cell(p, width, height)
                    || walls@.contains(p))),
    {
        let ring = border_grid(width, height);
        let grid = mark_cells(ring, width, height, walls);
        let b = Board { agent_position, ghost_position, goblets, walls: grid, width, height };
        assert forall|p: (usize, usize)| b@.in_bounds(p) implies #[trigger] b@.is_wall(p) == (border_cell(
            p,
            width,
            height,
        ) || walls@.contains(p)) by {
            assert(ring@[cell_index(p, width)] == border_cell(p, width, height));
            assert(grid@[cell_index(p, width)] == (ring@[cell_index(p, width)] || walls@.contains(p)));
        }
        b
    }

    /// Places the agent, the ghost and the goblets at random on the free
    /// cells of `walls`.
    ///
    /// Fails exactly when too few cells are free: with none, there is no room
    /// for the agent; with one and a ghost configured, none for the ghost;
    /// with none left after those and goblets configured, none for goblets.
    pub fn populate(rng: &mut WyRand, width: usize, height: usize, walls: Vec<bool>, config: &GGConfig) -> (r: Result<
        Board,
        crate::generation::GenerationError,
    >)
        requires
            width >= 1,
            height >= 1,
            width as int * height as int <= usize::MAX,
            walls@.len() == width as int * height as int,
            forall|p: (usize, usize)|
                #![trigger cell_index(p, width)]
                p.0 < width && p.1 < height && border_cell(p, width, height) ==> walls@[cell_index(p, width)],
            config.goblets.max_reward <= i32::MAX,
        ensures
            (r is Ok) == (count_open(walls@) >= cells_needed(*config)),
            (r == Err::<Board, GenerationError>(GenerationError::NoRoomForAgent)) == (count_open(walls@) == 0),
            (r == Err::<Board, GenerationError>(GenerationError::NoRoomForGhost)) == (config.agent.ghost_policy is Some
                && count_open(walls@) == 1),
            (r == Err::<Board, GenerationError>(GenerationError::NoRoomForGoblet)) == (config.goblets.number > 0
                && count_open(walls@) == 1 + ghost_slots(*config)),
            r matches Ok(b) ==> {
                &&& placed_well(b@, *config)
                &&& b.walls@ == walls@
                &&& b.width == width && b.height == height
            },
    {
        let ghost model = BoardModel {
            agent_position: (0, 0),
            ghost_position: None,
            goblets: Seq::empty(),
            walls: walls@,
            width,
            height,
        };
        assert forall|p: (usize, usize)| model.in_bounds(p) && model.on_border(p) implies #[trigger] model.is_wall(
            p,
        ) by {
            assert(border_cell(p, width, height));
        }
        let free = free_cells(&walls, width, height);
        let agent_position = match choose_from(rng, free.as_slice()) {
            Some(p) => p,
            None => {
                return Err(GenerationError::NoRoomForAgent);
            },
        };
        let free = without_cell(&free, agent_position);
        let ghost_position = match config.agent.ghost_policy {
            Some(_) => match choose_from(rng, free.as_slice()) {
                Some(p) => Some(p),
                None => {
                    return Err(GenerationError::NoRoomForGhost);
                },
            },
            None => None,
        };
        let free = match ghost_position {
            Some(g) => without_cell(&free, g),
            None => free,
        };
        let max = config.goblets.max_reward;
        let mut goblets: Vec<Goblet> = Vec::new();
        let number = config.goblets.number;
        let mut i: usize = 0;
        while i < number
            invariant
                i <= number,
                number == config.goblets.number,
                max == config.goblets.max_reward,
                max <= i32::MAX,
                goblets@.len() == i,
                forall|q: (usize, usize)|
                    #[trigger] free@.contains(q) ==> q.0 < width && q.1 < height && !walls@[cell_index(q, width)]
                        && q != agent_position && ghost_position != Some(q),
                forall|k: int|
                    0 <= k < goblets@.len() ==> {
                        let gob = #[trigger] goblets@[k];
                        &&& free@.contains(gob.position)
                        &&& -(max as int) <= gob.reward <= max as int
                    },
                free@.len() == count_open(walls@) - 1 - ghost_slots(*config),
                i > 0 ==> free@.len() > 0,
            decreases number - i,
        {
            let position = match choose_from(rng, free.as_slice()) {
                Some(p) => p,
                None => {
                    return Err(GenerationError::NoRoomForGoblet);
                },
            };
            let d = random_between(rng, 0, 2 * (max as usize));
            let reward = (d as i64 - max as i64) as i32;
            goblets.push(Goblet { position, reward });
            i += 1;
        }
        let b = Board { agent_position, ghost_position, goblets, walls, width, height };
        assert forall|p: (usize, usize)| b@.in_bounds(p) && b@.on_border(p) implies #[trigger] b@.is_wall(p) by {
            assert(border_cell(p, width, height));
        }
        Ok(b)
    }

    /// Generates a board: `num_obstacles` distinct obstacle centers, each
    /// with a radius drawn from `1..=obstacle_radius_cells`, then the border
    /// ring, then the agent, the ghost and the goblets on free cells (see
    /// [`Board::populate`]).
    pub fn new(rng: &mut WyRand, config: &GGConfig) -> (r: Result<Board, GenerationError>)
        requires
            config.generable(),
        ensures
            r matches Ok(b) ==> {
                &&& placed_well(b@, *config)
                &&& b.width == config.world_generation.width_cells
                &&& b.height == config.world_generation.height_cells
                &&& exists|obstacles: Seq<((usize, usize), usize)>|
                    obstacles.len() == if config.world_generation.num_obstacles as int <= b.width as int
                        * b.height as int {
                        config.world_generation.num_obstacles as int
                    } else {
                        b.width as int * b.height as int
                    } && #[trigger] walls_from_obstacles(
                        b@,
                        obstacles,
                        config.world_generation.obstacle_radius_cells,
                    )
                &&& config.world_generation.num_obstacles == 0 ==> forall|p: (usize, usize)|
                    #![trigger b@.is_wall(p)]
                    b@.in_bounds(p) ==> (b@.is_wall(p) == border_cell(p, b.width, b.height))
            },
            r == Err::<Board, GenerationError>(GenerationError::NoRoomForGhost) ==> config.agent.ghost_policy is Some,
            r == Err::<Board, GenerationError>(GenerationError::NoRoomForGoblet) ==> config.goblets.number > 0,
            config.world_generation.num_obstacles == 0 ==> ({
                let free = interior_cells(
                    config.world_generation.width_cells,
                    config.world_generation.height_cells,
                );
                &&& (r is Ok) == (free >= cells_needed(*config))
                &&& (r == Err::<Board, GenerationError>(GenerationError::NoRoomForAgent)) == (free == 0)
                &&& (r == Err::<Board, GenerationError>(GenerationError::NoRoomForGhost)) == (
                config.agent.ghost_policy is Some && free == 1)
                &&& (r == Err::<Board, GenerationError>(GenerationError::NoRoomForGoblet)) == (config.goblets.number
                    > 0 && free == 1 + ghost_slots(*config))
            }),
    {
        let width = config.world_generation.width_cells;
        let height = config.world_generation.height_cells;
        let max_radius = config.world_generation.obstacle_radius_cells;
        let cells = all_cells(width, height);
        let centers = choose_cells(rng, &cells, config.world_generation.num_obstacles);
        let mut obstacles: Vec<((usize, usize), usize)> = Vec::new();
        let n = centers.len();
        for k in 0..n
            invariant
                n == centers@.len(),
                n > 0 ==> max_radius >= 1,
                obstacles@.len() == k,
                forall|i: int|
                    0 <= i < obstacles@.len() ==> 1 <= (#[trigger] obstacles@[i]).1 <= max_radius
                        && obstacles@[i].0 == centers@[i],
        {
            let radius = random_between(rng, 1, max_radius);
            obstacles.push((centers[k], radius));
        }
        let walls = wall_grid(width, height, &obstacles);
        let r = Board::populate(rng, width, height, walls, config);
        proof {
            if r is Ok {
                let b = r->Ok_0;
                let obs = obstacles@;
                assert forall|i: int| 0 <= i < obs.len() implies 1 <= (#[trigger] obs[i]).1 <= max_radius
                    && b@.in_bounds(obs[i].0) by {
                    assert(cells@.contains(centers@[i]));
                }
                assert forall|i: int, j: int|
                    0 <= i < obs.len() && 0 <= j < obs.len() && i != j implies (#[trigger] obs[i]).0
                        != (#[trigger] obs[j]).0 by {
                    assert(centers@[i] != centers@[j]);
                }
                assert forall|p: (usize, usize)| #[trigger] b@.in_bounds(p) implies (b@.is_wall(p) == (border_cell(
                    p,
                    b.width,
                    b.height,
                ) || exists|i: int|
                    0 <= i < obs.len() && in_circle(
                        p,
                        #[trigger] obs[i].0,
                        obs[i].1,
                        b.width,
                        b.height,
                    ))) by {
                    assert(walls@[cell_index(p, width)] == b.walls@[cell_index(p, width)]);
                }
                assert(walls_from_obstacles(b@, obs, max_radius));
            }
        }
        r
    }
}

} // verus!
