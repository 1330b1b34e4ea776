use bevy_prng::WyRand;
use gg_core::agent::{chase_action, Action, GhostPolicy, Policy};
use gg_core::board::{Agent, Board, EntityType, Goblet};
use gg_core::config::{AgentConfig, GGConfig, GobletConfig, WorldGenerationConfig};
use gg_core::game_state::GameState;
use gg_core::generation::GenerationError;
use gg_core::layout::{all_cells, border_grid, free_cells, get_circle_indices, wall_grid};
use rand::SeedableRng;

fn rng(seed: u64) -> WyRand {
    WyRand::from_seed(seed.to_ne_bytes())
}

fn config(width: usize, height: usize, obstacles: usize, ghost: Option<GhostPolicy>, goblets: usize) -> GGConfig {
    GGConfig {
        agent: AgentConfig { ghost_policy: ghost, transition: [1, 0, 0, 0] },
        goblets: GobletConfig { number: goblets, max_reward: 10 },
        world_generation: WorldGenerationConfig {
            width_cells: width,
            height_cells: height,
            num_obstacles: obstacles,
            obstacle_radius_cells: 2,
        },
        generation_seed: None,
        episode_seed: Some(3),
        debug: false,
        headless: true,
    }
}

fn open_board(agent: (usize, usize), ghost: Option<(usize, usize)>, goblets: Vec<Goblet>) -> Board {
    Board::from_layout(5, 5, &vec![], agent, ghost, goblets)
}

#[test]
fn action_tags_round_trip() {
    for tag in 0u8..4 {
        assert_eq!(Action::from_int(tag).to_int(), tag);
    }
    assert_eq!(Action::from_int(0), Action::Up);
    assert_eq!(Action::from_int(1), Action::Down);
    assert_eq!(Action::from_int(2), Action::Left);
    assert_eq!(Action::from_int(3), Action::Right);
    assert_eq!(u8::from(Action::Right), 3);
    assert_eq!(Action::Left.label(), "Left");
}

#[test]
fn rotation_is_clockwise() {
    assert_eq!(Action::Up.rotate(0), Action::Up);
    assert_eq!(Action::Up.rotate(1), Action::Right);
    assert_eq!(Action::Right.rotate(1), Action::Down);
    assert_eq!(Action::Down.rotate(2), Action::Up);
    assert_eq!(Action::Left.rotate(3), Action::Down);
    assert_eq!(Action::Left.rotate(5), Action::Up);
}

#[test]
fn chaser_prefers_larger_gap_and_vertical_ties() {
    assert_eq!(chase_action((1, 3), (3, 3)), Action::Left);
    assert_eq!(chase_action((4, 3), (1, 2)), Action::Right);
    assert_eq!(chase_action((2, 4), (1, 1)), Action::Down);
    assert_eq!(chase_action((2, 1), (1, 2)), Action::Up);
    assert_eq!(chase_action((2, 2), (2, 2)), Action::Up);
}

#[test]
fn policy_lookup_is_row_major() {
    let policy = Policy(vec![Action::Up, Action::Down, Action::Left, Action::Right, Action::Up, Action::Left]);
    assert_eq!(policy.action_at((1, 1), 3), Action::Up);
    assert_eq!(policy.action_at((2, 1), 3), Action::Left);
    assert_eq!(policy.action_at((2, 0), 3), Action::Left);
}

#[test]
fn open_grid_walls_only_the_border() {
    let b = open_board((1, 1), None, vec![]);
    let walls = b.wall_positions();
    assert_eq!(walls.len(), 16);
    for x in 0..5 {
        assert!(b.is_wall((x, 0)) && b.is_wall((x, 4)));
        assert!(b.is_wall((0, x)) && b.is_wall((4, x)));
    }
    for x in 1..4 {
        for y in 1..4 {
            assert!(!b.is_wall((x, y)));
        }
    }
    assert!(!b.is_wall((7, 7)));
}

#[test]
fn player_walks_right_until_blocked() {
    let board = open_board((1, 1), None, vec![]);
    let mut state = GameState::new(board, config(5, 5, 0, None, 0));
    let mut next = state.step(Action::Right);
    assert_eq!(next.board.agent_position, (2, 1));
    for _ in 0..3 {
        next = next.step(Action::Right);
    }
    assert_eq!(next.board.agent_position, (3, 1));
    let again = next.step(Action::Right);
    assert_eq!(again.board.agent_position, (3, 1));
    assert_eq!(again.board.walls, next.board.walls);
    assert_eq!(again.reward, 0);
    assert!(!again.done);
}

#[test]
fn goblet_ends_episode_and_further_steps_do_nothing() {
    let board = open_board((1, 1), None, vec![Goblet { position: (2, 1), reward: 5 }]);
    let mut state = GameState::new(board, config(5, 5, 0, None, 1));
    let mut done = state.step(Action::Right);
    assert_eq!(done.board.agent_position, (2, 1));
    assert_eq!(done.reward, 5);
    assert!(done.done);
    let after = done.step(Action::Left);
    assert_eq!(after.board.agent_position, (2, 1));
    assert_eq!(after.reward, 5);
    assert!(after.done);
}

#[test]
fn chaser_moves_left_towards_agent() {
    let board = open_board((1, 3), Some((3, 3)), vec![]);
    let moved = board.transition_det(chase_action((1, 3), (3, 3)), Agent::GhostAgent);
    assert_eq!(moved.ghost_position, Some((2, 3)));
    let mut cfg = config(5, 5, 0, Some(GhostPolicy::Chaser), 0);
    cfg.agent.transition = [1, 0, 0, 0];
    let mut state = GameState::new(board, cfg);
    let next = state.step(Action::Up);
    assert_eq!(next.board.agent_position, (1, 2));
    assert_eq!(next.board.ghost_position, Some((2, 3)));
    assert_eq!(next.reward, 0);
}

#[test]
fn too_small_grid_reports_missing_room() {
    let cfg = config(3, 3, 0, Some(GhostPolicy::Chaser), 1);
    let r = Board::new(&mut rng(1), &cfg);
    assert_eq!(r.unwrap_err(), GenerationError::NoRoomForGhost);
    let cfg = config(3, 3, 0, None, 1);
    let r = Board::new(&mut rng(1), &cfg);
    assert_eq!(r.unwrap_err(), GenerationError::NoRoomForGoblet);
    let cfg = config(2, 2, 0, None, 0);
    let r = Board::new(&mut rng(1), &cfg);
    assert_eq!(r.unwrap_err(), GenerationError::NoRoomForAgent);
    let cfg = config(3, 3, 0, None, 0);
    let b = Board::new(&mut rng(1), &cfg).unwrap();
    assert_eq!(b.agent_position, (1, 1));
}

#[test]
fn populate_errors_follow_free_cell_count() {
    let walls = border_grid(4, 3);
    assert_eq!(free_cells(&walls, 4, 3).len(), 2);
    let cfg = config(4, 3, 0, Some(GhostPolicy::Random), 1);
    let r = Board::populate(&mut rng(2), 4, 3, walls.clone(), &cfg);
    assert_eq!(r.unwrap_err(), GenerationError::NoRoomForGoblet);
    let cfg = config(4, 3, 0, Some(GhostPolicy::Random), 0);
    let b = Board::populate(&mut rng(2), 4, 3, walls, &cfg).unwrap();
    let ghost = b.ghost_position.unwrap();
    assert_ne!(ghost, b.agent_position);
    assert!(!b.is_wall(ghost) && !b.is_wall(b.agent_position));
}

#[test]
fn generated_boards_keep_their_promises() {
    for seed in 0..20u64 {
        let mut cfg = config(12, 9, 4, Some(GhostPolicy::Random), 3);
        cfg.goblets.max_reward = 2;
        let b = Board::new(&mut rng(seed), &cfg).unwrap();
        assert_eq!((b.width, b.height), (12, 9));
        for x in 0..12 {
            assert!(b.is_wall((x, 0)) && b.is_wall((x, 8)));
        }
        for y in 0..9 {
            assert!(b.is_wall((0, y)) && b.is_wall((11, y)));
        }
        assert!(!b.is_wall(b.agent_position));
        let ghost = b.ghost_position.unwrap();
        assert!(!b.is_wall(ghost) && ghost != b.agent_position);
        assert_eq!(b.goblets.len(), 3);
        for g in &b.goblets {
            assert!(!b.is_wall(g.position));
            assert!(g.position != b.agent_position && g.position != ghost);
            assert!((-2..=2).contains(&g.reward));
        }
    }
}

#[test]
fn generation_is_reproducible_from_a_seed() {
    let cfg = config(15, 15, 5, Some(GhostPolicy::Chaser), 2);
    let a = Board::new(&mut rng(99), &cfg).unwrap();
    let b = Board::new(&mut rng(99), &cfg).unwrap();
    assert_eq!(a.walls, b.walls);
    assert_eq!(a.agent_position, b.agent_position);
    assert_eq!(a.ghost_position, b.ghost_position);
    assert_eq!(a.goblets.len(), b.goblets.len());
    for (x, y) in a.goblets.iter().zip(b.goblets.iter()) {
        assert_eq!((x.position, x.reward), (y.position, y.reward));
    }
}

#[test]
fn obstacles_add_walls() {
    let cfg = config(20, 20, 5, None, 1);
    let b = Board::new(&mut rng(5), &cfg).unwrap();
    assert!(b.wall_positions().len() > 76);
}

#[test]
fn circle_cells_cover_the_disc() {
    let cells = get_circle_indices((2, 2), 2, 10, 10);
    assert_eq!(
        cells,
        vec![
            (2, 0),
            (1, 1), (2, 1), (3, 1),
            (0, 2), (1, 2), (2, 2), (3, 2), (4, 2),
            (1, 3), (2, 3), (3, 3),
            (2, 4),
        ]
    );
    let single = get_circle_indices((4, 4), 1, 10, 10);
    assert_eq!(single, vec![(4, 3), (3, 4), (4, 4), (5, 4), (4, 5)]);
    let edge = get_circle_indices((0, 0), 3, 4, 4);
    assert_eq!(edge, vec![(0, 0), (1, 0), (2, 0), (0, 1), (1, 1), (2, 1), (0, 2), (1, 2), (2, 2)]);
    let round = get_circle_indices((5, 5), 3, 20, 20);
    assert_eq!(round.len(), 29);
    assert!(round.contains(&(8, 5)) && round.contains(&(5, 2)));
    assert!(round.contains(&(7, 7)));
    let two = get_circle_indices((5, 5), 2, 20, 20);
    assert!(two.contains(&(7, 5)) && two.contains(&(3, 5)));
    let round4 = get_circle_indices((10, 10), 4, 30, 30);
    assert!(!round4.contains(&(13, 13)));
    assert!(round4.contains(&(12, 12)) && round4.contains(&(14, 10)));
    let far = get_circle_indices((8, 8), 3, 10, 10);
    assert!(far.iter().all(|&(x, y)| x < 9 && y < 9));
    assert!(far.contains(&(8, 5)) && !far.contains(&(9, 8)));
}

#[test]
fn wall_grid_combines_border_and_obstacles() {
    let grid = wall_grid(6, 6, &vec![((2, 2), 1)]);
    let walls: usize = grid.iter().filter(|w| **w).count();
    assert_eq!(walls, 25);
    assert!(grid[2 * 6 + 2] && grid[2 * 6 + 3] && grid[3 * 6 + 2]);
    assert!(!grid[3 * 6 + 3]);
    assert_eq!(all_cells(3, 2), vec![(0, 0), (1, 0), (2, 0), (0, 1), (1, 1), (2, 1)]);
}

#[test]
fn obstacle_free_world_has_only_the_ring() {
    let mut cfg = config(5, 5, 0, None, 0);
    cfg.world_generation.obstacle_radius_cells = 3;
    let b = Board::new(&mut rng(77), &cfg).unwrap();
    assert_eq!(b.wall_positions().len(), 16);
    assert!(b.ghost_position.is_none() && b.goblets.is_empty());
    let (x, y) = b.agent_position;
    assert!((1..4).contains(&x) && (1..4).contains(&y));
}

#[test]
fn cells_report_entities_by_precedence() {
    let b = open_board((1, 1), Some((3, 3)), vec![Goblet { position: (2, 2), reward: -4 }, Goblet { position: (2, 2), reward: 7 }]);
    assert_eq!(b.get(&(0, 0)), EntityType::Wall);
    assert_eq!(b.get(&(2, 2)), EntityType::Goblet(-4));
    assert_eq!(b.get(&(1, 1)), EntityType::Agent);
    assert_eq!(b.get(&(3, 3)), EntityType::GhostAgent);
    assert_eq!(b.get(&(1, 3)), EntityType::Empty);
    assert_eq!(b.goblet_reward_at((2, 2)), Some(-4));
    assert_eq!(b.goblet_reward_at((1, 2)), None);
}

#[test]
fn caught_agent_gets_least_reward() {
    let b = open_board((2, 2), Some((2, 2)), vec![Goblet { position: (2, 2), reward: 9 }]);
    assert_eq!(b.reward(), i32::MIN);
    let s = GameState::new(b, config(5, 5, 0, Some(GhostPolicy::Chaser), 1));
    assert_eq!(s.reward, i32::MIN);
    assert!(s.done);
}

#[test]
fn ghost_catching_agent_ends_episode() {
    let board = open_board((1, 2), Some((3, 2)), vec![]);
    let mut state = GameState::new(board, config(5, 5, 0, Some(GhostPolicy::Chaser), 0));
    let next = state.step(Action::Right);
    assert_eq!(next.board.agent_position, (2, 2));
    assert_eq!(next.board.ghost_position, Some((2, 2)));
    assert_eq!(next.reward, i32::MIN);
    assert!(next.done);
}

#[test]
fn player_move_into_wall_keeps_board() {
    let b = Board::from_layout(5, 5, &vec![(2, 1)], (1, 1), None, vec![]);
    let same = b.transition_det(Action::Right, Agent::Player);
    assert_eq!(same.agent_position, (1, 1));
    assert_eq!(same.walls, b.walls);
    let up = b.transition_det(Action::Up, Agent::Player);
    assert_eq!(up.agent_position, (1, 1));
    let down = b.transition_det(Action::Down, Agent::Player);
    assert_eq!(down.agent_position, (1, 2));
}

#[test]
fn ghost_enters_walls_but_stays_in_grid() {
    let b = open_board((2, 2), Some((1, 1)), vec![]);
    let g = b.transition_det(Action::Up, Agent::GhostAgent);
    assert_eq!(g.ghost_position, Some((1, 0)));
    let g = g.transition_det(Action::Up, Agent::GhostAgent);
    assert_eq!(g.ghost_position, Some((1, 0)));
    let g = g.transition_det(Action::Left, Agent::GhostAgent).transition_det(Action::Left, Agent::GhostAgent);
    assert_eq!(g.ghost_position, Some((0, 0)));
    assert_eq!(g.agent_position, (2, 2));
}

#[test]
fn slip_weights_pick_the_direction() {
    let b = open_board((2, 2), None, vec![]);
    let mut cfg = config(5, 5, 0, None, 0);
    cfg.agent.transition = [0, 0, 1, 0];
    let back = b.transition(&mut rng(4), Action::Up, Agent::Player, &cfg);
    assert_eq!(back.agent_position, (2, 3));
    cfg.agent.transition = [0, 1, 0, 0];
    let side = b.transition(&mut rng(4), Action::Up, Agent::Player, &cfg);
    assert_eq!(side.agent_position, (3, 2));
    let ghostly = open_board((2, 2), Some((1, 1)), vec![]);
    let g = ghostly.transition(&mut rng(4), Action::Down, Agent::GhostAgent, &cfg);
    assert_eq!(g.ghost_position, Some((1, 2)));
    assert_eq!(b.transition_with_slip(Action::Left, 1, Agent::Player).agent_position, (2, 1));
}

#[test]
fn noisy_walks_never_end_on_walls() {
    let cfg0 = config(10, 10, 4, Some(GhostPolicy::Random), 0);
    let board = Board::new(&mut rng(17), &cfg0).unwrap();
    let mut cfg = cfg0;
    cfg.agent.transition = [5, 2, 1, 2];
    let mut state = GameState::new(board, cfg);
    let actions = [Action::Up, Action::Left, Action::Down, Action::Right];
    for i in 0..200 {
        let next = state.step(actions[i % 4]);
        assert!(!next.board.is_wall(next.board.agent_position));
        assert_eq!(next.done, next.reward != 0);
        state = next;
    }
}

#[test]
fn same_seed_same_episode() {
    let cfg0 = config(10, 10, 3, Some(GhostPolicy::Random), 2);
    let board = Board::new(&mut rng(8), &cfg0).unwrap();
    let mut cfg = cfg0;
    cfg.agent.transition = [3, 1, 1, 1];
    cfg.episode_seed = Some(1234);
    let mut a = GameState::new(board.clone(), cfg);
    let mut b = GameState::new(board, cfg);
    assert_eq!(a.rng_seed, 1234);
    let actions = [Action::Right, Action::Down, Action::Left, Action::Up, Action::Down];
    for i in 0..60 {
        let na = a.step(actions[i % 5]);
        let nb = b.step(actions[i % 5]);
        assert_eq!(na.board.agent_position, nb.board.agent_position);
        assert_eq!(na.board.ghost_position, nb.board.ghost_position);
        assert_eq!(na.reward, nb.reward);
        a = na;
        b = nb;
    }
}

#[test]
fn all_states_count_and_order() {
    let b = open_board((1, 1), None, vec![Goblet { position: (3, 1), reward: 2 }]);
    let s = GameState::new(b, config(5, 5, 0, None, 1));
    let all = s.all_states();
    assert_eq!(all.len(), 25);
    assert_eq!(all[0].board.agent_position, (0, 0));
    assert_eq!(all[1].board.agent_position, (0, 1));
    assert_eq!(all[5].board.agent_position, (1, 0));
    assert_eq!(all[3 * 5 + 1].reward, 2);
    assert!(all[3 * 5 + 1].done);

    let g = open_board((1, 1), Some((3, 3)), vec![]);
    let s = GameState::new(g, config(5, 5, 0, Some(GhostPolicy::Chaser), 0));
    let all = s.all_states();
    assert_eq!(all.len(), 50);
    assert_eq!(all[25 + 6].board.ghost_position, Some((1, 1)));
    assert_eq!(all[25 + 6].board.agent_position, (1, 1));
    assert_eq!(all[25 + 6].reward, i32::MIN);
    assert_eq!(all[6].board.ghost_position, Some((3, 3)));
}

#[test]
fn next_state_moves_only_the_player() {
    let b = open_board((1, 1), Some((3, 3)), vec![]);
    let s = GameState::new(b, config(5, 5, 0, Some(GhostPolicy::Chaser), 0));
    let n = s.next_state(Action::Down);
    assert_eq!(n.board.agent_position, (1, 2));
    assert_eq!(n.board.ghost_position, Some((3, 3)));
}

#[test]
fn reset_returns_to_start_with_seed() {
    let b = open_board((1, 1), None, vec![]);
    let mut s = GameState::new(b, config(5, 5, 0, None, 0));
    let moved = s.step(Action::Down);
    assert_eq!(moved.board.agent_position, (1, 2));
    let (fresh, seed) = moved.reset();
    assert_eq!(fresh.board.agent_position, (1, 1));
    assert_eq!(seed, 3);
    assert_eq!(fresh.rng_seed, 3);
    let reseeded = fresh.with_seed(11);
    assert_eq!(reseeded.rng_seed, 11);
    let mut cfg = config(5, 5, 0, None, 0);
    cfg.episode_seed = None;
    let unseeded = reseeded.with_config(&cfg);
    assert_eq!(unseeded.rng_seed, 11);
    cfg.episode_seed = Some(21);
    let seeded = unseeded.with_config(&cfg);
    assert_eq!(seeded.rng_seed, 21);
}

#[test]
fn cloned_state_replays_the_same_turns() {
    let cfg0 = config(9, 9, 2, None, 1);
    let board = Board::new(&mut rng(31), &cfg0).unwrap();
    let mut cfg = cfg0;
    cfg.agent.transition = [1, 1, 1, 1];
    let mut a = GameState::new(board, cfg);
    let mut b = a.clone();
    for action in [Action::Up, Action::Right, Action::Down, Action::Down, Action::Left] {
        let na = a.step(action);
        let nb = b.step(action);
        assert_eq!(na.board.agent_position, nb.board.agent_position);
        a = na;
        b = nb;
    }
}

#[test]
fn interior_of_open_grid_is_free() {
    assert_eq!(free_cells(&border_grid(6, 5), 6, 5).len(), 12);
    assert_eq!(free_cells(&border_grid(2, 7), 2, 7).len(), 0);
    let cfg = config(4, 4, 0, Some(GhostPolicy::Random), 5);
    let b = Board::new(&mut rng(12), &cfg).unwrap();
    assert_eq!(b.goblets.len(), 5);
}
