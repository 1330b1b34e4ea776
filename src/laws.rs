//! Properties that hold across calls and across whole episodes.
use vstd::prelude::*;
use crate::agent::{Action, GhostPolicy};
use crate::board::{ghost_ready, turn_result, Agent, BoardModel};
use crate::game_state::GameState;

verus! {

/// The board after the turns `turns` (each an action, the slip drawn for
/// it, and the ghost's random move), starting from `b`. Once a turn ends the
/// episode, later turns leave the board as it is.
pub open spec fn play(b: BoardModel, policy: Option<GhostPolicy>, turns: Seq<(Action, nat, Action)>) -> BoardModel
    decreases turns.len(),
{
    if turns.len() == 0 {
        b
    } else {
        let prev = play(b, policy, turns.drop_last());
        let t = turns.last();
        if prev.reward_value() != 0 {
            prev
        } else {
            turn_result(prev, t.0, t.1, policy, t.2)
        }
    }
}

/// A player move keeps the board well formed and never leaves the agent on
/// a wall: it either stays where it was or reaches a free cell.
pub proof fn lemma_player_move_avoids_walls(b: BoardModel, a: Action)
    requires
        b.wf(),
        !b.is_wall(b.agent_position),
    ensures
        b.moved(a, Agent::Player).wf(),
        !b.moved(a, Agent::Player).is_wall(b.moved(a, Agent::Player).agent_position),
{
    let m = b.moved(a, Agent::Player);
    assert forall|p: (usize, usize)| m.in_bounds(p) && m.on_border(p) implies #[trigger] m.is_wall(p) by {
        assert(b.is_wall(p));
    }
}

/// A ghost move keeps the board well formed and leaves the agent, the
/// walls and the goblets where they are.
pub proof fn lemma_ghost_move_keeps_rest(b: BoardModel, a: Action)
    requires
        b.wf(),
    ensures
        b.moved(a, Agent::GhostAgent).wf(),
        b.moved(a, Agent::GhostAgent).agent_position == b.agent_position,
        b.moved(a, Agent::GhostAgent).walls == b.walls,
        b.moved(a, Agent::GhostAgent).width == b.width,
        b.moved(a, Agent::GhostAgent).height == b.height,
        (b.moved(a, Agent::GhostAgent).ghost_position is Some) == (b.ghost_position is Some),
{
    let m = b.moved(a, Agent::GhostAgent);
    assert forall|p: (usize, usize)| m.in_bounds(p) && m.on_border(p) implies #[trigger] m.is_wall(p) by {
        assert(b.is_wall(p));
    }
}

/// Whatever the actions and whatever the random draws, an agent that starts
/// off the walls is never on a wall, and the board stays well formed.
pub proof fn lemma_agent_never_on_wall(
    b: BoardModel,
    policy: Option<GhostPolicy>,
    turns: Seq<(Action, nat, Action)>,
)
    requires
        b.wf(),
        !b.is_wall(b.agent_position),
        ghost_ready(policy, b.ghost_position),
    ensures
        play(b, policy, turns).wf(),
        !play(b, policy, turns).is_wall(play(b, policy, turns).agent_position),
        ghost_ready(policy, play(b, policy, turns).ghost_position),
    decreases turns.len(),
{
    if turns.len() > 0 {
        let prev = play(b, policy, turns.drop_last());
        lemma_agent_never_on_wall(b, policy, turns.drop_last());
        let t = turns.last();
        if prev.reward_value() == 0 {
            let after = prev.moved(t.0.spec_rotate(t.1), Agent::Player);
            lemma_player_move_avoids_walls(prev, t.0.spec_rotate(t.1));
            if after.reward_value() == 0 {
                match policy {
                    None => {},
                    Some(GhostPolicy::Random) => {
                        lemma_ghost_move_keeps_rest(after, t.2);
                    },
                    Some(GhostPolicy::Chaser) => {
                        lemma_ghost_move_keeps_rest(
                            after,
                            crate::agent::chase(after.agent_position, after.ghost_position.unwrap()),
                        );
                    },
                }
            }
        }
    }
}

/// Moving the player towards a wall leaves the board unchanged.
pub proof fn lemma_move_into_wall_is_identity(b: BoardModel, a: Action)
    requires
        b.is_wall(b.target(b.agent_position, a)),
    ensures
        b.moved(a, Agent::Player) == b,
{
}

/// When the ghost stands on the agent, the reward is the least `i32`,
/// whatever goblet shares the cell.
pub proof fn lemma_caught_reward(b: BoardModel)
    requires
        b.ghost_position == Some(b.agent_position),
    ensures
        b.reward_value() == i32::MIN,
{
}

/// Every cell of the outer ring of a well-formed board is a wall.
pub proof fn lemma_border_is_walled(b: BoardModel, x: usize, y: usize)
    requires
        b.wf(),
        x < b.width,
        y < b.height,
    ensures
        b.is_wall((x, 0)),
        b.is_wall((x, (b.height - 1) as usize)),
        b.is_wall((0, y)),
        b.is_wall(((b.width - 1) as usize, y)),
{
    assert(b.on_border((x, 0)));
    assert(b.on_border((x, (b.height - 1) as usize)));
    assert(b.on_border((0, y)));
    assert(b.on_border(((b.width - 1) as usize, y)));
}

/// Every consistent episode state is finished exactly when its reward is
/// nonzero; every operation on `GameState` yields such a state.
pub proof fn lemma_done_iff_reward(s: &GameState)
    requires
        s.wf(),
    ensures
        s.done == (s.reward != 0),
{
}

/// A consistent episode state whose ghost stands on the agent has the least
/// `i32` as its reward and is finished, whatever goblet shares the cell.
pub proof fn lemma_caught_state(s: &GameState)
    requires
        s.wf(),
        s.board.ghost_position == Some(s.board.agent_position),
    ensures
        s.reward == i32::MIN,
        s.done,
{
}

} // verus!
