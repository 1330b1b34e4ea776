use vstd::prelude::*;
use bevy_prng::WyRand;
use crate::agent::{chase, chase_action, Action, GhostPolicy};
use crate::config::GGConfig;
use crate::random::choose_weighted_index;

verus! {

/// A reward cell.
#[derive(Clone, Copy, Debug)]
pub struct Goblet {
    pub position: (usize, usize),
    pub reward: i32,
}

/// The party that moves: the player walks around walls, the ghost does not.
#[derive(Clone, Copy, Debug, PartialEq, Eq, Structural)]
pub enum Agent {
    Player,
    GhostAgent,
}

/// What a cell shows, by precedence: wall, goblet, agent, ghost, nothing.
#[derive(Clone, Copy, Debug, PartialEq, Eq, Structural)]
pub enum EntityType {
    Empty,
    Wall,
    Goblet(i32),
    Agent,
    GhostAgent,
}

/// The grid world: dimensions, positions, goblets and walls.
///
/// `walls` holds one flag per cell in row-major order: cell `(x, y)` is
/// `walls[y * width + x]`.
#[derive(Debug)]
pub struct Board {
    pub agent_position: (usize, usize),
    pub ghost_position: Option<(usize, usize)>,
    pub goblets: Vec<Goblet>,
    pub walls: Vec<bool>,
    pub width: usize,
    pub height: usize,
}

/// The mathematical value of a [`Board`].
pub struct BoardModel {
    pub agent_position: (usize, usize),
    pub ghost_position: Option<(usize, usize)>,
    pub goblets: Seq<Goblet>,
    pub walls: Seq<bool>,
    pub width: usize,
    pub height: usize,
}

/// Row-major place of cell `p` in a grid `w` cells wide.
pub open spec fn cell_index(p: (usize, usize), w: usize) -> int {
    p.1 as int * w as int + p.0 as int
}

/// `v` pulled into `[0, hi]`.
pub open spec fn clamp(v: int, hi: int) -> usize {
    if v < 0 {
        0
    } else if v > hi {
        hi as usize
    } else {
        v as usize
    }
}

/// The reward of the first goblet of `gs` that stands on `p`, if any.
pub open spec fn first_reward_at(gs: Seq<Goblet>, p: (usize, usize)) -> Option<i32>
    decreases gs.len(),
{
    if gs.len() == 0 {
        None
    } else {
        let prev = first_reward_at(gs.drop_last(), p);
        if prev is Some {
            prev
        } else if gs.last().position == p {
            Some(gs.last().reward)
        } else {
            None
        }
    }
}

/// Distinct in-bounds cells have distinct row-major places.
pub proof fn lemma_cell_index_injective(p: (usize, usize), q: (usize, usize), w: usize)
    requires
        p.0 < w,
        q.0 < w,
        cell_index(p, w) == cell_index(q, w),
    ensures
        p == q,
{
    if p.1 < q.1 {
        assert(cell_index(p, w) < cell_index(q, w)) by (nonlinear_arith)
            requires
                p.1 < q.1,
                p.0 < w,
                cell_index(p, w) == p.1 as int * w as int + p.0 as int,
                cell_index(q, w) == q.1 as int * w as int + q.0 as int,
        ;
    } else if q.1 < p.1 {
        assert(cell_index(q, w) < cell_index(p, w)) by (nonlinear_arith)
            requires
                q.1 < p.1,
                q.0 < w,
                cell_index(p, w) == p.1 as int * w as int + p.0 as int,
                cell_index(q, w) == q.1 as int * w as int + q.0 as int,
        ;
    }
}

/// An in-bounds cell has a place inside the grid.
pub proof fn lemma_cell_index_bounds(p: (usize, usize), w: usize, h: usize)
    requires
        p.0 < w,
        p.1 < h,
    ensures
        0 <= cell_index(p, w) < w as int * h as int,
{
    assert(0 <= cell_index(p, w) < w as int * h as int) by (nonlinear_arith)
        requires
            p.0 < w,
            p.1 < h,
            cell_index(p, w) == p.1 as int * w as int + p.0 as int,
    ;
}

impl BoardModel {
    pub open spec fn in_bounds(self, p: (usize, usize)) -> bool {
        p.0 < self.width && p.1 < self.height
    }

    pub open spec fn on_border(self, p: (usize, usize)) -> bool {
        p.0 == 0 || p.1 == 0 || p.0 + 1 == self.width || p.1 + 1 == self.height
    }

    pub open spec fn is_wall(self, p: (usize, usize)) -> bool {
        self.in_bounds(p) && self.walls[cell_index(p, self.width)]
    }

    /// A board the rules can run on: a non-empty grid with one wall flag per
    /// cell, a walled border, and movers inside the grid.
    pub open spec fn wf(self) -> bool {
        &&& self.width >= 1
        &&& self.height >= 1
        &&& self.width * self.height <= usize::MAX
        &&& self.walls.len() == self.width * self.height
        &&& forall|p: (usize, usize)|
            self.in_bounds(p) && self.on_border(p) ==> #[trigger] self.is_wall(p)
        &&& self.in_bounds(self.agent_position)
        &&& self.ghost_position matches Some(g) ==> self.in_bounds(g)
    }

    /// Where a mover at `p` lands when displaced by `a`, clamped to the grid.
    pub open spec fn target(self, p: (usize, usize), a: Action) -> (usize, usize) {
        (
            clamp(p.0 as int + a.delta().0, self.width as int - 1),
            clamp(p.1 as int + a.delta().1, self.height as int - 1),
        )
    }

    /// The board after `mover` takes action `a` with no noise: the player
    /// stays put when its target is a wall, the ghost ignores walls.
    pub open spec fn moved(self, a: Action, mover: Agent) -> BoardModel {
        match mover {
            Agent::Player => {
                let t = self.target(self.agent_position, a);
                if self.is_wall(t) {
                    self
                } else {
                    BoardModel { agent_position: t, ..self }
                }
            },
            Agent::GhostAgent => match self.ghost_position {
                None => self,
                Some(g) => BoardModel { ghost_position: Some(self.target(g, a)), ..self },
            },
        }
    }

    /// Reward of the position: the least `i32` when the ghost has caught the
    /// agent, else the first goblet's reward under the agent, else zero.
    pub open spec fn reward_value(self) -> i32 {
        if self.ghost_position == Some(self.agent_position) {
            i32::MIN
        } else {
            match first_reward_at(self.goblets, self.agent_position) {
                Some(r) => r,
                None => 0,
            }
        }
    }

    /// What cell `p` shows.
    pub open spec fn entity_at(self, p: (usize, usize)) -> EntityType {
        if self.is_wall(p) {
            EntityType::Wall
        } else if let Some(r) = first_reward_at(self.goblets, p) {
            EntityType::Goblet(r)
        } else if self.agent_position == p {
            EntityType::Agent
        } else if self.ghost_position == Some(p) {
            EntityType::GhostAgent
        } else {
            EntityType::Empty
        }
    }

    pub open spec fn with_agent(self, p: (usize, usize)) -> BoardModel {
        BoardModel { agent_position: p, ..self }
    }

    pub open spec fn with_ghost(self, p: (usize, usize)) -> BoardModel {
        BoardModel { ghost_position: Some(p), ..self }
    }
}

/// Relative weight of slipping `k` quarter turns clockwise: the player's
/// configured noise, while the ghost never slips.
pub open spec fn slip_weight(mover: Agent, config: GGConfig, k: int) -> int {
    match mover {
        Agent::Player => config.agent.transition[k] as int,
        Agent::GhostAgent => if k == 0 {
            1
        } else {
            0
        },
    }
}

/// Whether the ghost's presence agrees with the policy that moves it: a
/// ghost exactly when a policy is configured.
pub open spec fn ghost_ready(policy: Option<GhostPolicy>, ghost: Option<(usize, usize)>) -> bool {
    (policy is Some) == (ghost is Some)
}

/// One full turn on `b`: the player tries `action` and slips `slip`
/// quarter turns; unless that ends the episode, the ghost then moves
/// without noise, by `random_move` under the random policy, or towards the
/// agent's new position under the chaser policy.
pub open spec fn turn_result(
    b: BoardModel,
    action: Action,
    slip: nat,
    policy: Option<GhostPolicy>,
    random_move: Action,
) -> BoardModel {
    let after = b.moved(action.spec_rotate(slip), Agent::Player);
    if after.reward_value() != 0 {
        after
    } else {
        match policy {
            None => after,
            Some(GhostPolicy::Random) => after.moved(random_move, Agent::GhostAgent),
            Some(GhostPolicy::Chaser) => after.moved(
                chase(after.agent_position, after.ghost_position.unwrap()),
                Agent::GhostAgent,
            ),
        }
    }
}

impl View for Board {
    type V = BoardModel;

    open spec fn view(&self) -> BoardModel {
        BoardModel {
            agent_position: self.agent_position,
            ghost_position: self.ghost_position,
            goblets: self.goblets@,
            walls: self.walls@,
            width: self.width,
            height: self.height,
        }
    }
}

/// Whether two cells are the same.
pub fn same_cell(a: (usize, usize), b: (usize, usize)) -> (r: bool)
    ensures
        r == (a == b),
{
    a.0 == b.0 && a.1 == b.1
}

/// `v` moved by `d` (one of -1, 0, 1), saturating, then clamped to `[0, hi]`.
fn shift(v: usize, d: i8, hi: usize) -> (r: usize)
    requires
        -1 <= d <= 1,
    ensures
        r == clamp(v as int + d as int, hi as int),
{
    let moved: usize = if d < 0 {
        if v == 0 {
            0
        } else {
            v - 1
        }
    } else if d > 0 {
        if v == usize::MAX {
            v
        } else {
            v + 1
        }
    } else {
        v
    };
    if moved > hi {
        hi
    } else {
        moved
    }
}

impl Board {
    /// Where a mover at `p` lands when displaced by `action`.
    pub fn target(&self, p: (usize, usize), action: Action) -> (r: (usize, usize))
        requires
            self@.wf(),
        ensures
            r == self@.target(p, action),
            self@.in_bounds(r),
    {
        let (dx, dy): (i8, i8) = match action {
            Action::Up => (0, -1),
            Action::Right => (1, 0),
            Action::Down => (0, 1),
            Action::Left => (-1, 0),
        };
        (shift(p.0, dx, self.width - 1), shift(p.1, dy, self.height - 1))
    }

    /// Whether cell `p` is a wall; cells outside the grid are not.
    pub fn is_wall(&self, p: (usize, usize)) -> (r: bool)
        requires
            self@.wf(),
        ensures
            r == self@.is_wall(p),
    {
        if p.0 < self.width && p.1 < self.height {
            proof {
                lemma_cell_index_bounds(p, self.width, self.height);
            }
            self.walls[p.1 * self.width + p.0]
        } else {
            false
        }
    }

    /// The board after `active_player` takes `action` with no noise.
    ///
    /// The player's move is clamped to the grid and refused when it would
    /// end on a wall; the ghost's move is clamped but enters walls.
    pub fn transition_det(&self, action: Action, active_player: Agent) -> (r: Board)
        requires
            self@.wf(),
        ensures
            r@ == self@.moved(action, active_player),
            r@.wf(),
    {
        let mut board = self.duplicate();
        match active_player {
            Agent::Player => {
                let t = self.target(self.agent_position, action);
                if !self.is_wall(t) {
                    board.agent_position = t;
                }
            },
            Agent::GhostAgent => {
                if let Some(g) = self.ghost_position {
                    board.ghost_position = Some(self.target(g, action));
                }
            },
        }
        proof {
            assert forall|p: (usize, usize)|
                board@.in_bounds(p) && board@.on_border(p) implies #[trigger] board@.is_wall(p) by {
                assert(self@.is_wall(p));
            }
        }
        board
    }

    /// The reward of the first goblet standing on `p`, if any.
    pub fn goblet_reward_at(&self, p: (usize, usize)) -> (r: Option<i32>)
        ensures
            r == first_reward_at(self.goblets@, p),
    {
        let mut found: Option<i32> = None;
        let n = self.goblets.len();
        for i in 0..n
            invariant
                n == self.goblets@.len(),
                found == first_reward_at(self.goblets@.take(i as int), p),
        {
            assert(self.goblets@.take(i + 1).drop_last() == self.goblets@.take(i as int));
            let g = self.goblets[i];
            if found.is_none() && same_cell(g.position, p) {
                found = Some(g.reward);
            }
        }
        assert(self.goblets@.take(n as int) == self.goblets@);
        found
    }

    /// The reward of this position (see [`BoardModel::reward_value`]).
    pub fn reward(&self) -> (r: i32)
        ensures
            r == self@.reward_value(),
    {
        let caught = match self.ghost_position {
            Some(g) => same_cell(g, self.agent_position),
            None => false,
        };
        if caught {
            i32::MIN
        } else {
            match self.goblet_reward_at(self.agent_position) {
                Some(r) => r,
                None => 0,
            }
        }
    }

    /// What cell `position` shows.
    pub fn get(&self, position: &(usize, usize)) -> (r: EntityType)
        requires
            self@.wf(),
        ensures
            r == self@.entity_at(*position),
    {
        let p = *position;
        if self.is_wall(p) {
            EntityType::Wall
        } else if let Some(r) = self.goblet_reward_at(p) {
            EntityType::Goblet(r)
        } else if same_cell(self.agent_position, p) {
            EntityType::Agent
        } else {
            match self.ghost_position {
                Some(g) => {
                    if same_cell(g, p) {
                        EntityType::GhostAgent
                    } else {
                        EntityType::Empty
                    }
                },
                None => EntityType::Empty,
            }
        }
    }

    /// The board after `active_player` tries `action` and slips `slip`
    /// quarter turns clockwise from it.
    pub fn transition_with_slip(&self, action: Action, slip: usize, active_player: Agent) -> (r: Board)
        requires
            self@.wf(),
        ensures
            r@ == self@.moved(action.spec_rotate(slip as nat), active_player),
            r@.wf(),
    {
        self.transition_det(action.rotate(slip), active_player)
    }

    /// The board after `active_player` tries `action` under movement noise:
    /// the direction actually taken is `k` quarter turns clockwise from
    /// `action`, with `k` drawn by the mover's weights (see [`slip_weight`]).
    pub fn transition(&self, rng: &mut WyRand, action: Action, active_player: Agent, config: &GGConfig) -> (r: Board)
        requires
            self@.wf(),
            active_player == Agent::Player ==> crate::config::weights_usable(config.agent.transition),
        ensures
            r@.wf(),
            exists|k: nat|
                k < 4 && slip_weight(active_player, *config, k as int) > 0 && r@ == self@.moved(
                    #[trigger] action.spec_rotate(k),
                    active_player,
                ),
            active_player == Agent::GhostAgent ==> r@ == self@.moved(action, active_player),
    {
        let weights: [u32; 4] = match active_player {
            Agent::Player => config.agent.transition,
            Agent::GhostAgent => [1, 0, 0, 0],
        };
        let drawn = choose_weighted_index(rng, &weights);
        let k = drawn.unwrap();
        assert(action.spec_rotate(0) == action);
        self.transition_with_slip(action, k, active_player)
    }

    /// This board with the agent moved to `p`.
    pub fn with_agent(&self, p: (usize, usize)) -> (r: Board)
        ensures
            r@ == self@.with_agent(p),
    {
        let mut b = self.duplicate();
        b.agent_position = p;
        b
    }

    /// This board with the ghost placed at `p`.
    pub fn with_ghost(&self, p: (usize, usize)) -> (r: Board)
        ensures
            r@ == self@.with_ghost(p),
    {
        let mut b = self.duplicate();
        b.ghost_position = Some(p);
        b
    }

    /// One full turn given its random outcomes (see [`turn_result`]).
    pub fn turn(&self, action: Action, slip: usize, policy: Option<GhostPolicy>, random_move: Action) -> (r: Board)
        requires
            self@.wf(),
            ghost_ready(policy, self.ghost_position),
        ensures
            r@ == turn_result(self@, action, slip as nat, policy, random_move),
            r@.wf(),
    {
        let after = self.transition_with_slip(action, slip, Agent::Player);
        if after.reward() != 0 {
            return after;
        }
        let ghost_move = match policy {
            None => {
                return after;
            },
            Some(GhostPolicy::Random) => random_move,
            Some(GhostPolicy::Chaser) => match after.ghost_position {
                Some(g) => chase_action(after.agent_position, g),
                None => random_move,
            },
        };
        after.transition_det(ghost_move, Agent::GhostAgent)
    }

    /// The wall cells, row by row.
    pub fn wall_positions(&self) -> (r: Vec<(usize, usize)>)
        requires
            self@.wf(),
        ensures
            forall|k: int| 0 <= k < r@.len() ==> self@.is_wall(#[trigger] r@[k]),
            forall|p: (usize, usize)| #[trigger] self@.is_wall(p) ==> r@.contains(p),
    {
        let mut r: Vec<(usize, usize)> = Vec::new();
        let w = self.width;
        let n = self.walls.len();
        let mut i: usize = 0;
        while i < n
            invariant
                i <= n,
                self@.wf(),
                w == self.width,
                n == self.walls@.len(),
                forall|k: int| 0 <= k < r@.len() ==> self@.is_wall(#[trigger] r@[k]),
                forall|p: (usize, usize)|
                    #![trigger cell_index(p, w)]
                    self@.is_wall(p) && cell_index(p, w) < i ==> r@.contains(p),
            decreases n - i,
        {
            proof {
                crate::layout::lemma_index_of_cell_at(i as int, self.width, self.height);
            }
            if self.walls[i] {
                let c = (i % w, i / w);
                assert(c == crate::layout::cell_at(i as int, w));
                let ghost before = r@;
                r.push(c);
                proof {
                    assert forall|p: (usize, usize)|
                        #![trigger cell_index(p, w)]
                        self@.is_wall(p) && cell_index(p, w) < i + 1 implies r@.contains(p) by {
                        if cell_index(p, w) == i {
                            lemma_cell_index_injective(p, c, w);
                            assert(r@[before.len() as int] == c);
                        } else {
                            let j = choose|j: int| 0 <= j < before.len() && before[j] == p;
                            assert(r@[j] == p);
                        }
                    }
                }
            } else {
                proof {
                    assert forall|p: (usize, usize)|
                        #![trigger cell_index(p, w)]
                        self@.is_wall(p) && cell_index(p, w) < i + 1 implies r@.contains(p) by {
                        if cell_index(p, w) == i {
                            lemma_cell_index_injective(p, crate::layout::cell_at(i as int, w), w);
                        }
                    }
                }
            }
            i += 1;
        }
        proof {
            assert forall|p: (usize, usize)| #[trigger] self@.is_wall(p) implies r@.contains(p) by {
                lemma_cell_index_bounds(p, self.width, self.height);
                assert(cell_index(p, w) < i);
            }
        }
        r
    }

    /// A copy of this board.
    pub fn duplicate(&self) -> (r: Board)
        ensures
            r@ == self@,
    {
        let goblets = self.goblets.clone();
        let walls = self.walls.clone();
        assert(goblets@ == self.goblets@);
        assert(walls@ == self.walls@);
        Board {
            agent_position: self.agent_position,
            ghost_position: self.ghost_position,
            goblets,
            walls,
            width: self.width,
            height: self.height,
        }
    }
}

impl Clone for Board {
    fn clone(&self) -> (r: Board)
        ensures
            r@ == self@,
    {
        self.duplicate()
    }
}

} // verus!
