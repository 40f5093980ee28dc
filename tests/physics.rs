use flappy_bird::player::{Key, Player, FLAP_SPEED, MAX_FALL_SPEED};

#[test]
fn ten_ticks_from_rest_reach_one_cell_per_tick() {
    let mut p = Player::new(5, 25, 0);
    let mut expected_y = 25;
    for _ in 0..10 {
        p.gravity_and_move();
        expected_y += p.whole_velocity();
    }
    assert_eq!(p.v, 10);
    assert_eq!(p.y, expected_y);
    assert_eq!(p.y, 26);
    assert_eq!(p.x, 15);
}

#[test]
fn velocity_is_capped_at_fall_speed() {
    let mut p = Player::new(0, 10, MAX_FALL_SPEED);
    p.gravity_and_move();
    assert_eq!(p, Player::new(1, 12, 20));
    let mut q = Player::new(0, 10, 19);
    q.gravity_and_move();
    assert_eq!(q, Player::new(1, 12, 20));
}

#[test]
fn y_is_clamped_at_zero() {
    let mut p = Player::new(3, 0, FLAP_SPEED);
    p.gravity_and_move();
    assert_eq!(p, Player::new(4, 0, -19));
    let mut q = Player::new(3, 5, -20);
    q.gravity_and_move();
    assert_eq!(q, Player::new(4, 4, -19));
}

#[test]
fn whole_velocity_truncates_toward_zero() {
    assert_eq!(Player::new(0, 0, 19).whole_velocity(), 1);
    assert_eq!(Player::new(0, 0, 9).whole_velocity(), 0);
    assert_eq!(Player::new(0, 0, -9).whole_velocity(), 0);
    assert_eq!(Player::new(0, 0, -19).whole_velocity(), -1);
    assert_eq!(Player::new(0, 0, -20).whole_velocity(), -2);
    assert_eq!(Player::new(0, 0, i32::MIN).whole_velocity(), -214748364);
}

#[test]
fn flap_sets_upward_velocity_whatever_it_was() {
    let mut p = Player::new(7, 30, 20);
    p.flap();
    assert_eq!(p, Player::new(7, 30, -20));
    let mut q = Player::new(7, 30, -50);
    q.flap();
    assert_eq!(q, Player::new(7, 30, -20));
}

#[test]
fn dash_moves_sideways_by_six() {
    let mut p = Player::new(10, 20, 3);
    p.dash(Key::Left);
    assert_eq!(p, Player::new(4, 20, 3));
    p.dash(Key::Right);
    p.dash(Key::Right);
    assert_eq!(p, Player::new(16, 20, 3));
    p.dash(Key::Flap);
    assert_eq!(p, Player::new(16, 20, 3));
    let mut q = Player::new(2, 0, 0);
    q.dash(Key::Left);
    assert_eq!(q.x, -4);
}
