//! One episode: the board, its reward, and the episode's own generator.
use vstd::prelude::*;
use bevy_prng::WyRand;
use crate::agent::{Action, GhostPolicy};
use crate::board::{ghost_ready, turn_result, Agent, Board, BoardModel};
use crate::config::{weights_usable, GGConfig};
use crate::random::{choose_from, copy_rng, fresh_seed, seeded_rng};

verus! {

/// An episode's state. Each transition yields a new state.
#[derive(Debug)]
pub struct GameState {
    pub board: Board,
    pub reward: i32,
    pub done: bool,
    pub active_player: Agent,
    pub initial_board: Board,
    pub rng: WyRand,
    pub rng_seed: u64,
    pub config: GGConfig,
}

/// The board of the `j`-th variant of `b` in column-major order: the agent
/// (or, with `move_ghost`, the ghost) placed on cell `(j / height, j % height)`.
pub open spec fn variant(b: BoardModel, j: int, move_ghost: bool) -> BoardModel {
    let p = ((j / b.height as int) as usize, (j % b.height as int) as usize);
    if move_ghost {
        b.with_ghost(p)
    } else {
        b.with_agent(p)
    }
}

impl GameState {
    /// A consistent state: well-formed boards, the reward of the board,
    /// termination exactly on a nonzero reward, and the player to move.
    pub open spec fn wf(&self) -> bool {
        &&& self.board@.wf()
        &&& self.initial_board@.wf()
        &&& self.reward == self.board@.reward_value()
        &&& self.done == (self.reward != 0)
        &&& self.active_player == Agent::Player
    }

    /// `self` is a state of the same episode as `s` on board `b`: same
    /// starting board, configuration and seed, with the reward of `b`.
    pub open spec fn continues(&self, s: &GameState, b: BoardModel) -> bool {
        &&& self.board@ == b
        &&& self.reward == b.reward_value()
        &&& self.done == (self.reward != 0)
        &&& self.active_player == Agent::Player
        &&& self.initial_board@ == s.initial_board@
        &&& self.config == s.config
        &&& self.rng_seed == s.rng_seed
    }

    /// Whether a turn can be taken: a finished episode, or movement weights
    /// that can be drawn from and a ghost that agrees with the policy.
    pub open spec fn playable(&self) -> bool {
        self.done || (weights_usable(self.config.agent.transition) && ghost_ready(
            self.config.agent.ghost_policy,
            self.board.ghost_position,
        ))
    }

    /// A fresh episode on `board` under `config`, seeded with the configured
    /// episode seed, or with a fresh random one when none is configured.
    pub fn new(board: Board, config: GGConfig) -> (r: GameState)
        requires
            board@.wf(),
        ensures
            r.wf(),
            r.board@ == board@,
            r.done == (r.reward != 0),
            board.ghost_position == Some(board.agent_position) ==> r.reward == i32::MIN && r.done,
            r.initial_board@ == board@,
            r.config == config,
            config.episode_seed matches Some(s) ==> r.rng_seed == s as u64,
            r.rng_seed <= u32::MAX,
    {
        let seed: u64 = match config.episode_seed {
            Some(s) => s as u64,
            None => fresh_seed() as u64,
        };
        let reward = board.reward();
        let initial_board = board.duplicate();
        GameState {
            board,
            reward,
            done: reward != 0,
            active_player: Agent::Player,
            initial_board,
            rng: seeded_rng(seed),
            rng_seed: seed,
            config,
        }
    }

    /// This episode moved to board `b`, keeping its generator's state.
    fn successor(&self, b: Board) -> (r: GameState)
        ensures
            r.continues(self, b@),
            r.rng == self.rng,
    {
        let reward = b.reward();
        GameState {
            board: b,
            reward,
            done: reward != 0,
            active_player: Agent::Player,
            initial_board: self.initial_board.duplicate(),
            rng: copy_rng(&self.rng),
            rng_seed: self.rng_seed,
            config: self.config,
        }
    }

    /// This state with its generator re-seeded from `seed`.
    pub fn with_seed(&self, seed: u64) -> (r: GameState)
        ensures
            r.board@ == self.board@,
            r.reward == self.reward,
            r.done == self.done,
            r.active_player == self.active_player,
            r.initial_board@ == self.initial_board@,
            r.config == self.config,
            r.rng_seed == seed,
    {
        GameState {
            board: self.board.duplicate(),
            reward: self.reward,
            done: self.done,
            active_player: self.active_player,
            initial_board: self.initial_board.duplicate(),
            rng: seeded_rng(seed),
            rng_seed: seed,
            config: self.config,
        }
    }

    /// This state with `board` as the board a reset returns to.
    pub fn with_initial_board(self, board: &Board) -> (r: GameState)
        ensures
            r.board@ == self.board@,
            r.reward == self.reward,
            r.done == self.done,
            r.active_player == self.active_player,
            r.initial_board@ == board@,
            r.config == self.config,
            r.rng_seed == self.rng_seed,
            r.rng == self.rng,
    {
        let mut s = self;
        s.initial_board = board.duplicate();
        s
    }

    /// This state under `config`; a configured episode seed also re-seeds
    /// the generator.
    pub fn with_config(self, config: &GGConfig) -> (r: GameState)
        ensures
            r.board@ == self.board@,
            r.reward == self.reward,
            r.done == self.done,
            r.active_player == self.active_player,
            r.initial_board@ == self.initial_board@,
            r.config == *config,
            r.rng_seed == match config.episode_seed {
                Some(s) => s as u64,
                None => self.rng_seed,
            },
            config.episode_seed is None ==> r.rng == self.rng,
    {
        let mut s = self;
        s.config = *config;
        if let Some(seed) = config.episode_seed {
            s.rng = seeded_rng(seed as u64);
            s.rng_seed = seed as u64;
        }
        s
    }

    /// Plays one turn (see [`turn_result`]): the player's move is drawn with
    /// the configured noise; unless it ends the episode, the ghost moves by
    /// its policy. A finished episode is returned unchanged. Only the
    /// generator of `self` advances.
    pub fn transition(&mut self, action: Action) -> (r: GameState)
        requires
            old(self).wf(),
            old(self).playable(),
        ensures
            r.wf(),
            r.continues(old(self), r.board@),
            old(self).done ==> r.board@ == old(self).board@,
            !old(self).done ==> exists|slip: nat, random_move: Action|
                slip < 4 && old(self).config.agent.transition[slip as int] > 0 && r.board@ == #[trigger] turn_result(
                    old(self).board@,
                    action,
                    slip,
                    old(self).config.agent.ghost_policy,
                    random_move,
                ),
            final(self).board@ == old(self).board@,
            final(self).reward == old(self).reward,
            final(self).done == old(self).done,
            final(self).active_player == old(self).active_player,
            final(self).initial_board@ == old(self).initial_board@,
            final(self).config == old(self).config,
            final(self).rng_seed == old(self).rng_seed,
            old(self).done ==> final(self).rng == old(self).rng,
            r.rng == final(self).rng,
    {
        if self.done {
            return self.successor(self.board.duplicate());
        }
        let player_board = self.board.transition(&mut self.rng, action, Agent::Player, &self.config);
        let ghost model = player_board@;
        let ghost slip = choose|k: nat|
            k < 4 && crate::board::slip_weight(Agent::Player, self.config, k as int) > 0 && model
                == self.board@.moved(#[trigger] action.spec_rotate(k), Agent::Player);
        let policy = self.config.agent.ghost_policy;
        let random_move = if player_board.reward() == 0 && policy == Some(GhostPolicy::Random) {
            let actions: Vec<Action> = vec![Action::Up, Action::Right, Action::Down, Action::Left];
            choose_from(&mut self.rng, actions.as_slice()).unwrap()
        } else {
            Action::Up
        };
        let b = match policy {
            None => player_board,
            Some(GhostPolicy::Random) => {
                if player_board.reward() != 0 {
                    player_board
                } else {
                    player_board.transition_det(random_move, Agent::GhostAgent)
                }
            },
            Some(GhostPolicy::Chaser) => {
                if player_board.reward() != 0 {
                    player_board
                } else {
                    match player_board.ghost_position {
                        Some(g) => player_board.transition_det(
                            crate::agent::chase_action(player_board.agent_position, g),
                            Agent::GhostAgent,
                        ),
                        None => player_board,
                    }
                }
            },
        };
        assert(b@ == turn_result(self.board@, action, slip, policy, random_move));
        self.successor(b)
    }

    /// Plays one turn for the player (see [`GameState::transition`]).
    pub fn step(&mut self, action: Action) -> (r: GameState)
        requires
            old(self).wf(),
            old(self).playable(),
        ensures
            r.wf(),
            r.continues(old(self), r.board@),
            old(self).done ==> r.board@ == old(self).board@,
            !old(self).done ==> exists|slip: nat, random_move: Action|
                slip < 4 && old(self).config.agent.transition[slip as int] > 0 && r.board@ == #[trigger] turn_result(
                    old(self).board@,
                    action,
                    slip,
                    old(self).config.agent.ghost_policy,
                    random_move,
                ),
            final(self).board@ == old(self).board@,
            final(self).reward == old(self).reward,
            final(self).done == old(self).done,
            final(self).initial_board@ == old(self).initial_board@,
            final(self).config == old(self).config,
            final(self).rng_seed == old(self).rng_seed,
            old(self).done ==> final(self).rng == old(self).rng,
            r.rng == final(self).rng,
    {
        self.transition(action)
    }

    /// The state the player would reach by taking `action` without noise,
    /// with no ghost move.
    pub fn next_state(&self, action: Action) -> (r: GameState)
        requires
            self.wf(),
        ensures
            r.wf(),
            r.continues(self, self.board@.moved(action, Agent::Player)),
            r.rng == self.rng,
    {
        self.successor(self.board.transition_det(action, Agent::Player))
    }

    /// One state per cell, column by column, with the agent (or, with
    /// `move_ghost`, the ghost) placed on that cell.
    fn variants(&self, move_ghost: bool) -> (r: Vec<GameState>)
        requires
            self.wf(),
        ensures
            r@.len() == self.board.width as int * self.board.height as int,
            forall|j: int|
                0 <= j < r@.len() ==> (#[trigger] r@[j]).wf() && r@[j].rng == self.rng && r@[j].continues(
                    self,
                    variant(self.board@, j, move_ghost),
                ),
    {
        let w = self.board.width;
        let h = self.board.height;
        let mut r: Vec<GameState> = Vec::new();
        let mut x: usize = 0;
        while x < w
            invariant
                x <= w,
                self.wf(),
                w == self.board.width,
                h == self.board.height,
                r@.len() == x as int * h as int,
                forall|j: int|
                    0 <= j < r@.len() ==> (#[trigger] r@[j]).wf() && r@[j].rng == self.rng && r@[j].continues(
                        self,
                        variant(self.board@, j, move_ghost),
                    ),
            decreases w - x,
        {
            let mut y: usize = 0;
            while y < h
                invariant
                    y <= h,
                    x < w,
                    self.wf(),
                    w == self.board.width,
                    h == self.board.height,
                    r@.len() == x as int * h as int + y,
                    forall|j: int|
                        0 <= j < r@.len() ==> (#[trigger] r@[j]).wf() && r@[j].rng == self.rng && r@[j].continues(
                            self,
                            variant(self.board@, j, move_ghost),
                        ),
                decreases h - y,
            {
                let j: Ghost<int> = Ghost(x as int * h as int + y);
                proof {
                    vstd::arithmetic::div_mod::lemma_fundamental_div_mod_converse(
                        j@,
                        h as int,
                        x as int,
                        y as int,
                    );
                }
                let b = if move_ghost {
                    self.board.with_ghost((x, y))
                } else {
                    self.board.with_agent((x, y))
                };
                assert(b@ == variant(self.board@, j@, move_ghost));
                assert forall|p: (usize, usize)| b@.in_bounds(p) && b@.on_border(p) implies #[trigger] b@.is_wall(
                    p,
                ) by {
                    assert(self.board@.is_wall(p));
                }
                let s = self.successor(b);
                r.push(s);
                y += 1;
            }
            assert((x + 1) as int * h as int == x as int * h as int + h) by (nonlinear_arith);
            x += 1;
        }
        r
    }

    /// Every state reachable by relocating one mover: first one per cell with
    /// the agent there, then, when there is a ghost, one per cell with the
    /// ghost there. Cells run column by column.
    pub fn all_states(&self) -> (r: Vec<GameState>)
        requires
            self.wf(),
        ensures
            r@.len() == self.board.width as int * self.board.height as int * if self.board.ghost_position is Some {
                2int
            } else {
                1int
            },
            forall|j: int|
                0 <= j < self.board.width as int * self.board.height as int ==> (#[trigger] r@[j]).wf()
                    && r@[j].rng == self.rng && r@[j].continues(self, variant(self.board@, j, false)),
            self.board.ghost_position is Some ==> forall|j: int|
                0 <= j < self.board.width as int * self.board.height as int ==> (#[trigger] r@[j
                    + self.board.width as int * self.board.height as int]).wf() && r@[j
                    + self.board.width as int * self.board.height as int].rng == self.rng && r@[j
                    + self.board.width as int * self.board.height as int].continues(
                    self,
                    variant(self.board@, j, true),
                ),
    {
        let mut states = self.variants(false);
        if self.board.ghost_position.is_some() {
            let mut ghosts = self.variants(true);
            let ghost first = states@;
            let ghost second = ghosts@;
            states.append(&mut ghosts);
            assert forall|j: int| 0 <= j < second.len() implies #[trigger] states@[j + first.len()] == second[j] by {
            }
        }
        states
    }

    /// A fresh episode from the starting board, with the seed it was given:
    /// the configured episode seed, or a fresh random one.
    pub fn reset(&self) -> (r: (GameState, u64))
        requires
            self.wf(),
        ensures
            r.0.wf(),
            r.0.board@ == self.initial_board@,
            r.0.initial_board@ == self.initial_board@,
            r.0.config == self.config,
            r.0.rng_seed == r.1,
            self.config.episode_seed matches Some(s) ==> r.1 == s as u64,
            r.1 <= u32::MAX,
    {
        let state = GameState::new(self.initial_board.duplicate(), self.config);
        let seed = state.rng_seed;
        (state, seed)
    }
}

impl Clone for GameState {
    fn clone(&self) -> (r: GameState)
        ensures
            r.board@ == self.board@,
            r.reward == self.reward,
            r.done == self.done,
            r.active_player == self.active_player,
            r.initial_board@ == self.initial_board@,
            r.config == self.config,
            r.rng_seed == self.rng_seed,
            r.rng == self.rng,
    {
        GameState {
            board: self.board.duplicate(),
            reward: self.reward,
            done: self.done,
            active_player: self.active_player,
            initial_board: self.initial_board.duplicate(),
            rng: copy_rng(&self.rng),
            rng_seed: self.rng_seed,
            config: self.config,
        }
    }
}

} // verus!
