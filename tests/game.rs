use bracket_lib::prelude::RandomNumberGenerator;
use flappy_bird::game::{GameMode, GameState};
use flappy_bird::player::{Key, Player};

fn fresh(seed: u64) -> GameState {
    GameState::new(RandomNumberGenerator::seeded(seed))
}

#[test]
fn confirm_on_menu_starts_playing() {
    let mut g = fresh(1);
    assert_eq!(g.mode, GameMode::Menu);
    assert_eq!(g.player, Player::new(5, 25, 0));
    assert_eq!(g.score, 0);
    assert!(!g.tick(0, Some(Key::Play)));
    assert_eq!(g.mode, GameMode::Playing);
    assert_eq!(g.score, 0);
    assert_eq!(g.player, Player::new(5, 25, 0));
    assert!(g.obstacles.len() >= 2 && g.obstacles.len() <= 5);
    let first = g.obstacles.get(0).x;
    assert!(first >= 100 && first <= 110);
}

#[test]
fn quit_on_menu_and_end_is_reported() {
    let mut g = fresh(2);
    assert!(g.tick(0, Some(Key::Quit)));
    assert_eq!(g.mode, GameMode::Menu);
    assert!(!g.tick(0, Some(Key::Flap)));
    assert_eq!(g.mode, GameMode::Menu);
    g.mode = GameMode::End;
    assert!(g.tick(0, Some(Key::Quit)));
    assert_eq!(g.mode, GameMode::End);
    assert!(!g.tick(0, None));
    assert_eq!(g.mode, GameMode::End);
}

#[test]
fn falling_below_the_screen_ends_the_game() {
    let mut g = fresh(3);
    g.mode = GameMode::Playing;
    g.player.y = 100;
    assert!(!g.tick(0, None));
    assert_eq!(g.mode, GameMode::End);
}

#[test]
fn play_again_restarts_from_scratch() {
    let mut g = fresh(4);
    g.mode = GameMode::End;
    g.score = 12;
    g.player = Player::new(400, 49, 7);
    g.frame_time = 100;
    assert!(!g.tick(0, Some(Key::Play)));
    assert_eq!(g.mode, GameMode::Playing);
    assert_eq!(g.score, 0);
    assert_eq!(g.frame_time, 0);
    assert_eq!(g.player, Player::new(5, 25, 0));
    let first = g.obstacles.get(0).x;
    assert!(first >= 100 && first <= 110);
}

#[test]
fn physics_runs_once_a_frame_has_gathered() {
    let mut g = fresh(5);
    g.tick(0, Some(Key::Play));
    g.tick(20000, None);
    assert_eq!(g.frame_time, 20000);
    assert_eq!(g.player, Player::new(5, 25, 0));
    g.tick(12500, None);
    assert_eq!(g.frame_time, 32500);
    assert_eq!(g.player, Player::new(5, 25, 0));
    g.tick(1, None);
    assert_eq!(g.frame_time, 0);
    assert_eq!(g.player, Player::new(6, 25, 1));
    assert_eq!(g.mode, GameMode::Playing);
}

#[test]
fn keys_while_playing_flap_and_dash() {
    let mut g = fresh(6);
    g.tick(0, Some(Key::Play));
    g.tick(0, Some(Key::Flap));
    assert_eq!(g.player, Player::new(5, 25, -20));
    g.tick(0, Some(Key::Right));
    assert_eq!(g.player, Player::new(11, 25, -20));
    g.tick(0, Some(Key::Left));
    assert_eq!(g.player, Player::new(5, 25, -20));
    g.tick(0, Some(Key::Quit));
    assert_eq!(g.mode, GameMode::Playing);
}

#[test]
fn passing_an_obstacle_scores_one_point() {
    let mut g = fresh(7);
    g.tick(0, Some(Key::Play));
    let first = g.obstacles.get(0);
    g.player = Player::new(first.x + 1, first.gap_y, 0);
    g.tick(0, None);
    assert_eq!(g.score, 1);
    assert_eq!(g.mode, GameMode::Playing);
    g.tick(0, None);
    assert_eq!(g.score, 1);
}

#[test]
fn hitting_an_obstacle_ends_the_game() {
    let mut g = fresh(8);
    g.tick(0, Some(Key::Play));
    let first = g.obstacles.get(0);
    g.player = Player::new(first.x, 0, 0);
    g.tick(0, None);
    assert_eq!(g.mode, GameMode::End);
}

#[test]
fn play_bounds_are_checked() {
    let mut g = fresh(9);
    assert!(g.can_play());
    g.score = u32::MAX;
    assert!(!g.can_play());
    g.score = 0;
    g.player.x = i32::MAX - 100;
    assert!(!g.can_play());
    g.player.x = i32::MIN;
    assert!(!g.can_play());
}
