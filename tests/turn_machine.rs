use color_wizard::color::Color;
use color_wizard::combat::{apply_tile_color, update_enemy_color, update_player_color};
use color_wizard::color::RoundColorState;
use color_wizard::delay::EnemyAttackPhase;
use color_wizard::game::{find_spawn_cell, GameState};
use color_wizard::grid::{Cell, GridSize, TileGrid};
use color_wizard::input::{attack_for_keys, next_tile_pos, KeyInput};
use color_wizard::pattern::AttackPattern;
use color_wizard::registry::{spawn_enemy, Faction, Registry};
use color_wizard::turn::TurnState;

fn c(x: u32, y: u32) -> Cell {
    Cell { x, y }
}

fn none() -> KeyInput {
    KeyInput::none()
}

fn up() -> KeyInput {
    KeyInput { arrow_up: true, ..KeyInput::none() }
}

fn w() -> KeyInput {
    KeyInput { key_w: true, ..KeyInput::none() }
}

fn no_cells() -> Vec<Cell> {
    Vec::new()
}

fn player_id(g: &GameState) -> u64 {
    g.units.positions_of(Faction::Player)[0].0
}

fn enemies(g: &GameState) -> Vec<(u64, Cell)> {
    g.units.positions_of(Faction::Enemy)
}

/// Runs colour pick, player change and enemy spawn, ending in MovePlayer.
fn to_move_player(g: &mut GameState, draw: i32, spawn: &Vec<Cell>) {
    g.update_game_logic(&none(), 16, draw, &no_cells());
    assert_eq!(g.turn.turn_state, TurnState::PlayerChange);
    g.update_game_logic(&none(), 16, 0, &no_cells());
    assert_eq!(g.turn.turn_state, TurnState::EnemySpawn);
    g.update_game_logic(&none(), 16, 0, spawn);
    assert_eq!(g.turn.turn_state, TurnState::MovePlayer);
}

#[test]
fn new_game_layout() {
    let g = GameState::new();
    assert_eq!(g.turn.turn_state, TurnState::ColorPick);
    assert_eq!(g.color_state.index, 0);
    assert_eq!(g.grid.size(), GridSize { x: 16, y: 16 });
    assert_eq!(g.units.positions_of(Faction::Player), vec![(0, c(10, 10))]);
    assert!(enemies(&g).is_empty());
}

#[test]
fn full_cycle_returns_to_color_pick() {
    let mut g = GameState::new();
    let mut phases = vec![g.turn.turn_state];
    let mut step = |g: &mut GameState, keys: KeyInput, delta: u64, draw: i32, spawn: &Vec<Cell>| {
        g.update_game_logic(&keys, delta, draw, spawn);
        phases.push(g.turn.turn_state);
    };
    // One reroll.
    step(&mut g, none(), 16, 1, &no_cells());
    assert_eq!(g.color_state.index, 1);
    step(&mut g, none(), 16, 0, &no_cells());
    // One spawn attempt.
    step(&mut g, none(), 16, 0, &vec![c(3, 14)]);
    assert_eq!(enemies(&g), vec![(1, c(3, 14))]);
    // One accepted move, after the entry pause.
    step(&mut g, up(), 16, 0, &no_cells());
    assert_eq!(g.units.positions_of(Faction::Player), vec![(0, c(10, 10))]);
    step(&mut g, up(), 400, 0, &no_cells());
    assert_eq!(g.units.positions_of(Faction::Player), vec![(0, c(10, 11))]);
    // One resolved attack.
    step(&mut g, none(), 16, 0, &no_cells());
    step(&mut g, w(), 16, 0, &no_cells());
    assert_eq!(g.grid.get_color(c(10, 11)), Color::Green);
    // One enemy shift.
    step(&mut g, none(), 16, 0, &no_cells());
    step(&mut g, none(), 400, 0, &no_cells());
    assert_eq!(enemies(&g), vec![(1, c(3, 13))]);
    // One enemy attack: idle, windup start, windup end, cooldown start, cooldown end.
    step(&mut g, none(), 16, 0, &no_cells());
    step(&mut g, none(), 16, 0, &no_cells());
    step(&mut g, none(), 1300, 0, &no_cells());
    assert_eq!(g.grid.get_color(c(3, 11)), Color::Magenta);
    assert_eq!(g.grid.get_color(c(5, 13)), Color::Magenta);
    assert_eq!(g.attack_delay.phase, EnemyAttackPhase::Cooldown);
    step(&mut g, none(), 16, 0, &no_cells());
    step(&mut g, none(), 1300, 0, &no_cells());
    assert_eq!(g.turn.turn_state, TurnState::ColorPick);
    assert_eq!(g.attack_delay.phase, EnemyAttackPhase::Idle);

    assert_eq!(
        phases,
        vec![
            TurnState::ColorPick,
            TurnState::PlayerChange,
            TurnState::EnemySpawn,
            TurnState::MovePlayer,
            TurnState::MovePlayer,
            TurnState::AttackPlayer,
            TurnState::AttackPlayer,
            TurnState::MoveEnemy,
            TurnState::MoveEnemy,
            TurnState::AttackEnemy,
            TurnState::AttackEnemy,
            TurnState::AttackEnemy,
            TurnState::AttackEnemy,
            TurnState::AttackEnemy,
            TurnState::ColorPick,
        ]
    );
    assert_eq!(g.units.positions_of(Faction::Player).len(), 1);
    assert_eq!(enemies(&g).len(), 1);
}

#[test]
fn arrow_up_after_gate_moves_player() {
    let mut g = GameState::new();
    to_move_player(&mut g, 0, &no_cells());
    let id = player_id(&g);
    g.units.move_to(id, c(8, 3));
    // The first tick in the phase starts the pause; a press there is ignored.
    g.update_game_logic(&up(), 16, 0, &no_cells());
    assert_eq!(g.turn.turn_state, TurnState::MovePlayer);
    assert_eq!(g.units.positions_of(Faction::Player), vec![(id, c(8, 3))]);
    g.update_game_logic(&up(), 399, 0, &no_cells());
    assert_eq!(g.turn.turn_state, TurnState::MovePlayer);
    assert_eq!(g.units.positions_of(Faction::Player), vec![(id, c(8, 3))]);
    g.update_game_logic(&up(), 1, 0, &no_cells());
    assert_eq!(g.units.positions_of(Faction::Player), vec![(id, c(8, 4))]);
    assert_eq!(g.turn.turn_state, TurnState::AttackPlayer);
}

#[test]
fn no_key_keeps_waiting_for_a_move() {
    let mut g = GameState::new();
    to_move_player(&mut g, 0, &no_cells());
    g.update_game_logic(&none(), 16, 0, &no_cells());
    for _ in 0..20 {
        g.update_game_logic(&none(), 500, 0, &no_cells());
        assert_eq!(g.turn.turn_state, TurnState::MovePlayer);
    }
    assert_eq!(g.units.positions_of(Faction::Player), vec![(0, c(10, 10))]);
}

#[test]
fn sides_attack_paints_red_and_removes_enemy() {
    let mut g = GameState::new();
    to_move_player(&mut g, 0, &vec![c(3, 14)]);
    let pid = player_id(&g);
    let eid = enemies(&g)[0].0;
    g.units.move_to(pid, c(5, 4));
    g.update_game_logic(&none(), 16, 0, &no_cells());
    g.update_game_logic(&up(), 400, 0, &no_cells());
    assert_eq!(g.units.positions_of(Faction::Player), vec![(pid, c(5, 5))]);
    assert_eq!(g.turn.turn_state, TurnState::AttackPlayer);
    g.units.move_to(eid, c(7, 5));
    assert_eq!(g.color_state.index, 0);
    g.update_game_logic(&w(), 16, 0, &no_cells());
    for cell in [c(5, 5), c(6, 5), c(7, 5), c(4, 5), c(3, 5), c(5, 6), c(5, 7), c(5, 4), c(5, 3)] {
        assert_eq!(g.grid.get_color(cell), Color::Red);
    }
    for cell in [c(6, 6), c(4, 4), c(5, 11), c(11, 5)] {
        assert_eq!(g.grid.get_color(cell), Color::White);
    }
    for cell in [c(10, 5), c(0, 5), c(5, 10), c(5, 0)] {
        assert_eq!(g.grid.get_color(cell), Color::Red);
    }
    assert!(enemies(&g).is_empty());
    assert_eq!(g.turn.turn_state, TurnState::MoveEnemy);
}

#[test]
fn attack_without_key_waits() {
    let mut g = GameState::new();
    to_move_player(&mut g, 2, &no_cells());
    g.update_game_logic(&none(), 16, 0, &no_cells());
    g.update_game_logic(&up(), 400, 0, &no_cells());
    assert_eq!(g.turn.turn_state, TurnState::AttackPlayer);
    g.update_game_logic(&up(), 400, 0, &no_cells());
    assert_eq!(g.turn.turn_state, TurnState::AttackPlayer);
    assert_eq!(g.grid.get_color(c(10, 11)), Color::White);
}

#[test]
fn full_spawn_band_spawns_nothing() {
    let mut g = GameState::new();
    let band: Vec<Cell> = (0..8).map(|x| c(x, 13)).collect();
    for cell in &band {
        spawn_enemy(cell.x, cell.y, &mut g.units);
    }
    assert_eq!(enemies(&g).len(), 8);
    g.update_game_logic(&none(), 16, 0, &no_cells());
    g.update_game_logic(&none(), 16, 0, &no_cells());
    assert_eq!(g.turn.turn_state, TurnState::EnemySpawn);
    g.update_game_logic(&none(), 16, 0, &band);
    assert_eq!(enemies(&g).len(), 8);
    assert_eq!(g.turn.turn_state, TurnState::MovePlayer);
}

#[test]
fn spawn_takes_first_free_candidate() {
    let mut r = Registry::new();
    assert_eq!(spawn_enemy(1, 13, &mut r), Some(0));
    assert_eq!(spawn_enemy(2, 13, &mut r), Some(1));
    let cands = vec![c(1, 13), c(2, 13), c(4, 14), c(5, 14)];
    assert_eq!(find_spawn_cell(&r, &cands), Some(c(4, 14)));
    assert_eq!(find_spawn_cell(&r, &vec![c(1, 13), c(2, 13)]), None);
    assert_eq!(find_spawn_cell(&r, &Vec::new()), None);
}

#[test]
fn enemies_step_down_and_stop_at_row_zero() {
    let mut r = Registry::new();
    let p = r.spawn(Faction::Player, c(4, 4)).unwrap();
    let a = spawn_enemy(3, 1, &mut r).unwrap();
    let b = spawn_enemy(6, 0, &mut r).unwrap();
    r.move_enemies_down();
    assert_eq!(r.positions_of(Faction::Enemy), vec![(a, c(3, 0)), (b, c(6, 0))]);
    assert_eq!(r.positions_of(Faction::Player), vec![(p, c(4, 4))]);
}

#[test]
fn despawn_removes_one_identity_for_good() {
    let mut r = Registry::new();
    let a = spawn_enemy(1, 1, &mut r).unwrap();
    let b = spawn_enemy(2, 2, &mut r).unwrap();
    r.despawn(a);
    assert_eq!(r.positions_of(Faction::Enemy), vec![(b, c(2, 2))]);
    let d = spawn_enemy(1, 1, &mut r).unwrap();
    assert!(d != a && d != b);
    assert!(r.enemy_on(c(1, 1)));
    assert!(!r.enemy_on(c(3, 3)));
}

#[test]
fn enemy_attack_removes_player_on_player_color() {
    let mut g = GameState::new();
    to_move_player(&mut g, 2, &vec![c(10, 14)]);
    g.update_game_logic(&none(), 16, 0, &no_cells());
    // Player steps from (10,10) to (10,11).
    g.update_game_logic(&up(), 400, 0, &no_cells());
    // Diagonal attack misses the enemy at (10,14).
    g.update_game_logic(&KeyInput { key_q: true, ..KeyInput::none() }, 16, 0, &no_cells());
    assert_eq!(enemies(&g).len(), 1);
    g.update_game_logic(&none(), 16, 0, &no_cells());
    g.update_game_logic(&none(), 400, 0, &no_cells());
    assert_eq!(enemies(&g)[0].1, c(10, 13));
    g.update_game_logic(&none(), 16, 0, &no_cells());
    g.update_game_logic(&none(), 16, 0, &no_cells());
    g.update_game_logic(&none(), 1300, 0, &no_cells());
    assert_eq!(g.grid.get_color(c(10, 11)), Color::Yellow);
    assert!(g.units.positions_of(Faction::Player).is_empty());
}

#[test]
fn movement_clamps_to_grid() {
    let size = GridSize { x: 16, y: 16 };
    let right = KeyInput { arrow_right: true, ..KeyInput::none() };
    let left_down = KeyInput { arrow_left: true, arrow_down: true, ..KeyInput::none() };
    assert_eq!(next_tile_pos(c(15, 3), &right, size), c(15, 3));
    assert_eq!(next_tile_pos(c(0, 0), &left_down, size), c(0, 0));
    assert_eq!(next_tile_pos(c(8, 15), &up(), size), c(8, 15));
    let both = KeyInput { arrow_up: true, arrow_down: true, ..KeyInput::none() };
    assert_eq!(next_tile_pos(c(4, 0), &both, size), c(4, 0));
    assert_eq!(next_tile_pos(c(4, 7), &none(), size), c(4, 7));
}

#[test]
fn attack_keys_priority() {
    assert_eq!(attack_for_keys(&none()), None);
    let all = KeyInput { key_q: true, key_w: true, key_e: true, key_r: true, ..KeyInput::none() };
    assert_eq!(attack_for_keys(&all), Some(AttackPattern::Diagonal));
    assert_eq!(attack_for_keys(&KeyInput { key_e: true, key_r: true, ..KeyInput::none() }), Some(AttackPattern::Around));
    assert_eq!(attack_for_keys(&KeyInput { key_r: true, ..KeyInput::none() }), Some(AttackPattern::Ultimate));
}

#[test]
fn apply_tile_color_tolerates_duplicates() {
    let mut g = TileGrid::new(GridSize { x: 4, y: 4 });
    apply_tile_color(vec![c(1, 1), c(1, 1), c(9, 9), c(2, 3)], &mut g, Color::Blue);
    assert_eq!(g.get_color(c(1, 1)), Color::Blue);
    assert_eq!(g.get_color(c(2, 3)), Color::Blue);
    assert_eq!(g.get_color(c(0, 0)), Color::White);
}

#[test]
fn unit_tints_follow_mask() {
    let s = RoundColorState { index: 1 };
    assert_eq!(update_player_color(&s), Color::Magenta);
    assert_eq!(update_enemy_color(&s), Color::Green);
}

#[test]
fn random_ticks_draw_valid_values() {
    let mut seen_index = [false; 3];
    let mut seen_x = std::collections::HashSet::new();
    for _ in 0..200 {
        let mut g = GameState::new();
        g.tick(&none(), 16);
        assert!((0..3).contains(&g.color_state.index));
        seen_index[g.color_state.index as usize] = true;
        g.tick(&none(), 16);
        g.tick(&none(), 16);
        let e = enemies(&g);
        assert_eq!(e.len(), 1);
        let cell = e[0].1;
        assert!(cell.x < 15 && (13..15).contains(&cell.y));
        seen_x.insert(cell.x);
        assert_eq!(g.turn.turn_state, TurnState::MovePlayer);
    }
    assert!(seen_index.iter().all(|&b| b));
    assert!(seen_x.len() > 3);
}

#[test]
fn scripted_round_takes_thirteen_ticks() {
    let mut g = GameState::new();
    let keys = KeyInput { arrow_up: true, key_e: true, ..KeyInput::none() };
    let spawn = vec![c(0, 13), c(1, 13), c(2, 13), c(3, 13), c(4, 13), c(5, 13), c(6, 13), c(7, 13)];
    for tick in 1..=13 {
        g.update_game_logic(&keys, 1300, 2, &spawn);
        if tick < 13 {
            assert!(g.turn.turn_state != TurnState::ColorPick, "round closed early at tick {}", tick);
        }
    }
    assert_eq!(g.turn.turn_state, TurnState::ColorPick);
    assert_eq!(g.color_state.index, 2);
    assert_eq!(g.units.positions_of(Faction::Player), vec![(0, c(10, 11))]);
    assert_eq!(g.grid.get_color(c(10, 11)), Color::Blue);
    assert_eq!(enemies(&g), vec![(1, c(0, 12))]);
}
