use color_wizard::animation::{animate_sprite, AnimationIndices, AnimationTimer};
use color_wizard::color::{masked_color_from_index, player_color_from_index, Color, RoundColorState};
use color_wizard::delay::{EnemyAttackDelay, EnemyAttackPhase, StateEntryDelay, Timer};
use color_wizard::status::{player_color_name, status_text};
use color_wizard::turn::{ApplicationState, GlobalApplicationState, GlobalTurnState, TurnState};

#[test]
fn masked_color_table() {
    assert_eq!(masked_color_from_index(0), Color::Red);
    assert_eq!(masked_color_from_index(1), Color::Green);
    assert_eq!(masked_color_from_index(2), Color::Blue);
    assert_eq!(masked_color_from_index(3), Color::White);
    assert_eq!(masked_color_from_index(-1), Color::White);
}

#[test]
fn player_color_table() {
    assert_eq!(player_color_from_index(0), Color::Cyan);
    assert_eq!(player_color_from_index(1), Color::Magenta);
    assert_eq!(player_color_from_index(2), Color::Yellow);
    assert_eq!(player_color_from_index(7), Color::White);
}

#[test]
fn masked_and_player_colors_are_disjoint_and_pure() {
    for i in 0..3 {
        for j in 0..3 {
            assert_ne!(masked_color_from_index(i), player_color_from_index(j));
        }
        assert_eq!(masked_color_from_index(i), masked_color_from_index(i));
        assert_eq!(player_color_from_index(i), player_color_from_index(i));
    }
}

#[test]
fn round_color_state_defaults_to_red() {
    let s = RoundColorState::default();
    assert_eq!(s.index, 0);
    assert_eq!(s.masked_color(), Color::Red);
    assert_eq!(s.player_color(), Color::Cyan);
}

#[test]
fn reroll_is_uniform_over_three() {
    let mut s = RoundColorState::default();
    let mut counts = [0u32; 3];
    let draws = 10_000;
    for _ in 0..draws {
        s.asign_random_color();
        assert!((0..3).contains(&s.index));
        counts[s.index as usize] += 1;
    }
    let expected = draws as f64 / 3.0;
    let chi: f64 = counts.iter().map(|&n| (n as f64 - expected).powi(2) / expected).sum();
    // 2 degrees of freedom; 13.82 is the 0.1% critical value.
    assert!(chi < 13.82, "counts {:?} chi-square {}", counts, chi);
}

#[test]
fn once_timer_saturates() {
    let mut t = Timer::from_millis(400);
    t.tick(150);
    assert_eq!(t.elapsed_ms, 150);
    assert!(!t.is_finished());
    t.tick(250);
    assert!(t.is_finished());
    t.tick(u64::MAX);
    assert_eq!(t.elapsed_ms, 400);
}

#[test]
fn entry_delay_pauses_once_per_phase() {
    let mut d = StateEntryDelay::new();
    d.on_state_change(TurnState::MovePlayer);
    assert!(!d.wait(1000, 400));
    assert!(!d.wait(399, 400));
    assert!(d.wait(1, 400));
    assert!(d.wait(0, 400));
    d.on_state_change(TurnState::MovePlayer);
    assert!(d.wait(0, 400));
    d.on_state_change(TurnState::MoveEnemy);
    assert!(d.timer.is_none());
    assert!(!d.wait(400, 400));
    assert!(d.wait(400, 400));
}

#[test]
fn zero_delay_is_over_at_once() {
    let mut d = StateEntryDelay::new();
    assert!(d.wait(0, 0));
    assert!(d.timer.is_none());
    let mut a = EnemyAttackDelay::new();
    assert!(a.wait(0, 0));
}

#[test]
fn enemy_attack_delay_drops_finished_timer() {
    let mut a = EnemyAttackDelay::new();
    a.phase = EnemyAttackPhase::Windup;
    assert!(!a.wait(5000, 1300));
    assert!(!a.wait(1000, 1300));
    assert!(a.wait(300, 1300));
    assert!(a.timer.is_none());
    assert!(!a.wait(5000, 1300));
    a.reset();
    assert_eq!(a.phase, EnemyAttackPhase::Idle);
    assert!(a.timer.is_none());
}

#[test]
fn turn_state_defaults_and_changes() {
    let mut t = GlobalTurnState::default();
    assert_eq!(t.turn_state, TurnState::ColorPick);
    t.modify_state(TurnState::AttackEnemy);
    assert_eq!(t.turn_state, TurnState::AttackEnemy);
    assert_eq!(GlobalApplicationState::default().application_state, ApplicationState::Gameplay);
}

#[test]
fn turn_labels() {
    assert_eq!(TurnState::ColorPick.label(), "Color Pick");
    assert_eq!(TurnState::AttackPlayer.label(), "Player Attacks");
    assert_eq!(TurnState::AttackEnemy.label(), "Enemy Attacks");
}

#[test]
fn status_text_variants() {
    let color = RoundColorState { index: 1 };
    let turn = GlobalTurnState { turn_state: TurnState::MoveEnemy };
    assert_eq!(status_text(Some(&color), Some(&turn)), "Move Enemy (Magenta)");
    assert_eq!(status_text(None, Some(&turn)), "Move Enemy");
    assert_eq!(status_text(Some(&RoundColorState { index: 2 }), None), "Status (Yellow)");
    assert_eq!(status_text(Some(&RoundColorState { index: 9 }), None), "Status");
    assert_eq!(player_color_name(0), "Cyan");
    assert_eq!(player_color_name(-2), "");
}

#[test]
fn animation_wraps_frames() {
    let indices = AnimationIndices { first: 0, last: 2 };
    let mut timer = AnimationTimer::from_millis(100);
    let mut frame = 0usize;
    frame = animate_sprite(&indices, &mut timer, 60, frame);
    assert_eq!(frame, 0);
    frame = animate_sprite(&indices, &mut timer, 60, frame);
    assert_eq!(frame, 1);
    assert_eq!(timer.elapsed_ms, 20);
    frame = animate_sprite(&indices, &mut timer, 100, frame);
    assert_eq!(frame, 2);
    frame = animate_sprite(&indices, &mut timer, 250, frame);
    assert_eq!(frame, 0);
    assert_eq!(timer.elapsed_ms, 70);
}
