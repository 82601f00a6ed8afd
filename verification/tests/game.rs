use pristine_grid::game::{command_for_key, GameMode, GameState, InputState, KeyCommand, KeyOutcome};

fn playing() -> GameState {
    let mut g = GameState::new();
    g.start();
    g
}

#[test]
fn new_game_waits_in_attract_mode() {
    let g = GameState::new();
    assert_eq!(g.mode(), GameMode::Attract);
    assert!(!g.paused());
    assert_eq!(g.score(), 0);
    assert_eq!(g.shields(), 5);
    assert_eq!(g.wave(), 1);
    assert_eq!(g.rng(), 0x2084_1986);
    assert_eq!(g.input(), InputState::default());
    assert!(!g.is_running());
}

#[test]
fn start_plays_with_the_next_seed() {
    let g = playing();
    assert_eq!(g.mode(), GameMode::Playing);
    assert_eq!(g.rng(), 0x2084_1986u32.wrapping_add(0x9e37_79b9));
    assert!(g.is_running());
    let mut again = g;
    again.start();
    assert_eq!(again.rng(), 0x2084_1986u32.wrapping_add(0x9e37_79b9).wrapping_add(0x9e37_79b9));
}

#[test]
fn frames_do_nothing_outside_play() {
    let mut g = GameState::new();
    g.update(true, true, 1000);
    assert_eq!(g.mode(), GameMode::Attract);
    assert_eq!(g.score(), 0);
    assert_eq!(g.shields(), 5);
}

#[test]
fn frames_do_nothing_while_paused() {
    let mut g = playing();
    assert_eq!(g.handle_key("p", true), KeyOutcome::Handled);
    assert!(g.paused());
    g.update(true, false, 77);
    assert_eq!(g.score(), 0);
    assert_eq!(g.shields(), 5);
    assert_eq!(g.handle_key("P", true), KeyOutcome::Handled);
    assert!(!g.paused());
}

#[test]
fn distance_scores_and_waves_follow() {
    let mut g = playing();
    g.update(false, false, 1599);
    assert_eq!(g.score(), 1599);
    assert_eq!(g.wave(), 1);
    g.update(false, false, 1);
    assert_eq!(g.score(), 1600);
    assert_eq!(g.wave(), 2);
}

#[test]
fn hits_cost_shields_until_game_over() {
    let mut g = playing();
    for left in (1..5).rev() {
        g.update(true, false, 0);
        assert_eq!(g.shields(), left);
        assert_eq!(g.mode(), GameMode::Playing);
    }
    g.update(true, false, 10);
    assert_eq!(g.shields(), 0);
    assert_eq!(g.mode(), GameMode::GameOver);
    assert_eq!(g.score(), 10);
    g.update(false, true, 10);
    assert_eq!(g.score(), 10);
    assert_eq!(g.shields(), 0);
}

#[test]
fn pickup_on_the_fatal_frame_restores_a_shield_but_not_the_run() {
    let mut g = playing();
    for _ in 0..4 {
        g.update(true, false, 0);
    }
    g.update(true, true, 0);
    assert_eq!(g.mode(), GameMode::GameOver);
    assert_eq!(g.shields(), 1);
    assert_eq!(g.score(), 500);
}

#[test]
fn pickups_score_and_shields_stay_at_most_five() {
    let mut g = playing();
    g.update(false, true, 0);
    assert_eq!(g.score(), 500);
    assert_eq!(g.shields(), 5);
    g.update(true, false, 0);
    g.update(false, true, 0);
    assert_eq!(g.shields(), 5);
    assert_eq!(g.score(), 1000);
}

#[test]
fn score_saturates() {
    let mut g = playing();
    g.update(false, false, u32::MAX - 100);
    g.update(false, true, 0);
    assert_eq!(g.score(), u32::MAX);
    assert_eq!(g.wave(), 1 + u32::MAX / 1600);
    g.update(false, false, 5);
    assert_eq!(g.score(), u32::MAX);
}

#[test]
fn steering_keys_set_and_release() {
    let mut g = GameState::new();
    assert_eq!(g.handle_key("ArrowLeft", true), KeyOutcome::Handled);
    assert_eq!(g.input().steering(), -1);
    assert_eq!(g.handle_key("d", true), KeyOutcome::Handled);
    assert_eq!(g.input().steering(), 0);
    assert_eq!(g.handle_key("a", false), KeyOutcome::Handled);
    assert_eq!(g.input().steering(), 1);
    assert_eq!(g.handle_key("D", false), KeyOutcome::Handled);
    assert_eq!(g.input(), InputState::default());
}

#[test]
fn boost_and_brake_keys() {
    let mut g = playing();
    g.handle_key("W", true);
    assert!(g.input().boost);
    g.handle_key("s", true);
    assert!(!g.input().boost);
    g.handle_key("ArrowUp", true);
    g.handle_key("ArrowDown", false);
    assert!(!g.input().boost);
}

#[test]
fn space_starts_or_boosts() {
    let mut g = GameState::new();
    assert_eq!(g.handle_key(" ", true), KeyOutcome::Started);
    assert_eq!(g.mode(), GameMode::Playing);
    assert!(!g.input().boost);
    assert_eq!(g.handle_key("Spacebar", true), KeyOutcome::Handled);
    assert!(g.input().boost);
    assert_eq!(g.handle_key(" ", false), KeyOutcome::Handled);
    assert!(!g.input().boost);
}

#[test]
fn enter_starts_only_outside_play() {
    let mut g = GameState::new();
    assert_eq!(g.handle_key("Enter", false), KeyOutcome::Handled);
    assert_eq!(g.mode(), GameMode::Attract);
    assert_eq!(g.handle_key("Enter", true), KeyOutcome::Started);
    g.update(false, false, 300);
    assert_eq!(g.handle_key("Enter", true), KeyOutcome::Handled);
    assert_eq!(g.score(), 300);
}

#[test]
fn start_after_game_over_is_fresh() {
    let mut g = playing();
    for _ in 0..5 {
        g.update(true, false, 700);
    }
    assert_eq!(g.mode(), GameMode::GameOver);
    assert_eq!(g.handle_key("Enter", true), KeyOutcome::Started);
    assert_eq!(g.mode(), GameMode::Playing);
    assert_eq!(g.score(), 0);
    assert_eq!(g.shields(), 5);
    assert_eq!(g.wave(), 1);
}

#[test]
fn pause_only_in_play() {
    let mut g = GameState::new();
    assert_eq!(g.handle_key("p", true), KeyOutcome::Handled);
    assert!(!g.paused());
    let mut g = playing();
    g.handle_key("p", false);
    assert!(!g.paused());
    g.handle_key("p", true);
    g.handle_key("p", true);
    assert!(!g.paused());
}

#[test]
fn unbound_keys_are_left_alone() {
    let mut g = playing();
    assert_eq!(g.handle_key("x", true), KeyOutcome::Unbound);
    assert_eq!(g.handle_key("ArrowLeftX", true), KeyOutcome::Unbound);
    assert_eq!(g.handle_key("", true), KeyOutcome::Unbound);
    assert_eq!(g.input(), InputState::default());
    assert!(matches!(command_for_key("Escape"), KeyCommand::Unbound));
    assert!(matches!(command_for_key("Enter"), KeyCommand::Confirm));
}

#[test]
fn pointer_starts_and_boosts() {
    let mut g = GameState::new();
    assert!(g.press_pointer());
    assert_eq!(g.mode(), GameMode::Playing);
    assert!(g.input().boost);
    assert!(!g.press_pointer());
    g.release_pointer();
    assert!(!g.input().boost);
    assert_eq!(g.mode(), GameMode::Playing);
}

#[test]
fn marquee_follows_the_mode() {
    let mut g = GameState::new();
    assert_eq!(g.marquee(), Some("NEON GRID 2084  START"));
    g.start();
    assert_eq!(g.marquee(), None);
    g.handle_key("p", true);
    assert_eq!(g.marquee(), Some("PAUSED"));
    g.handle_key("p", true);
    for _ in 0..5 {
        g.update(true, false, 0);
    }
    assert_eq!(g.marquee(), Some("GAME OVER  START"));
}
