use flapresso::beans::Bean;
use flapresso::beans::BeanEvent;
use flapresso::beans::CELL;
use flapresso::beans::REACH;
use flapresso::fixed::ONE;

const WINDOW_HEIGHT: i64 = 480 * ONE;

#[test]
fn bean_constants_have_their_values() {
    assert_eq!(CELL, 20 * ONE);
    assert_eq!(REACH, 40 * ONE);
}

#[test]
fn events_compare_by_tag() {
    assert_eq!(BeanEvent::Nothing, BeanEvent::Nothing);
    assert_eq!(BeanEvent::Eaten, BeanEvent::Eaten);
    assert_eq!(BeanEvent::OffScreen, BeanEvent::OffScreen);
    assert_ne!(BeanEvent::Nothing, BeanEvent::Eaten);
    assert_ne!(BeanEvent::Eaten, BeanEvent::OffScreen);
    assert_ne!(BeanEvent::OffScreen, BeanEvent::Nothing);
}

#[test]
fn new_bean_keeps_its_values() {
    let bean = Bean::new(ONE, 2 * ONE, 3 * ONE, 4 * ONE);
    assert_eq!(bean.get_x(), ONE);
    assert_eq!(bean.get_y(), 2 * ONE);
    assert_eq!(bean.get_width(), 3 * ONE);
    assert_eq!(bean.get_height(), 4 * ONE);
}

#[test]
fn bean_at_the_player_is_eaten() {
    let player_x = 123 * ONE;
    let player_y = 4_567 * ONE;
    let bean = Bean::new(player_x, player_y + WINDOW_HEIGHT / 2, ONE, ONE);
    assert_eq!(bean.update(player_x, player_y, WINDOW_HEIGHT), BeanEvent::Eaten);
}

#[test]
fn bean_just_above_the_window_is_off_screen() {
    let player_x = 123 * ONE;
    let player_y = 4_567 * ONE;
    let bean = Bean::new(player_x, player_y - WINDOW_HEIGHT / 2 - ONE, ONE, ONE);
    assert_eq!(bean.update(player_x, player_y, WINDOW_HEIGHT), BeanEvent::OffScreen);
}

#[test]
fn bean_just_beyond_reach_is_left_alone() {
    let player_x = 123 * ONE;
    let player_y = 4_567 * ONE;
    let bean = Bean::new(player_x + 40 * ONE + ONE, player_y + WINDOW_HEIGHT / 2, ONE, ONE);
    assert_eq!(bean.update(player_x, player_y, WINDOW_HEIGHT), BeanEvent::Nothing);
}

#[test]
fn hit_box_includes_its_edges() {
    let bean = Bean::new(100 * ONE, 340 * ONE, ONE, ONE);
    // The tested spot is (player_x, player_y + 240).
    assert_eq!(bean.update(100 * ONE, 100 * ONE, WINDOW_HEIGHT), BeanEvent::Eaten);
    assert_eq!(bean.update(60 * ONE, 100 * ONE, WINDOW_HEIGHT), BeanEvent::Eaten);
    assert_eq!(bean.update(60 * ONE - 1, 100 * ONE, WINDOW_HEIGHT), BeanEvent::Nothing);
    assert_eq!(bean.update(100 * ONE + 1, 100 * ONE, WINDOW_HEIGHT), BeanEvent::Nothing);
    assert_eq!(bean.update(100 * ONE, 60 * ONE, WINDOW_HEIGHT), BeanEvent::Eaten);
    assert_eq!(bean.update(100 * ONE, 60 * ONE - 1, WINDOW_HEIGHT), BeanEvent::Nothing);
    assert_eq!(bean.update(100 * ONE, 100 * ONE + 1, WINDOW_HEIGHT), BeanEvent::Nothing);
}

#[test]
fn hit_box_grows_with_the_size() {
    let wide = Bean::new(100 * ONE, 340 * ONE, 2 * ONE, ONE / 2);
    assert_eq!(wide.update(20 * ONE, 100 * ONE, WINDOW_HEIGHT), BeanEvent::Eaten);
    assert_eq!(wide.update(20 * ONE - 1, 100 * ONE, WINDOW_HEIGHT), BeanEvent::Nothing);
    assert_eq!(wide.update(100 * ONE, 80 * ONE, WINDOW_HEIGHT), BeanEvent::Eaten);
    assert_eq!(wide.update(100 * ONE, 80 * ONE - 1, WINDOW_HEIGHT), BeanEvent::Nothing);
}

#[test]
fn bean_without_a_size_is_hit_on_the_spot_only() {
    let bean = Bean::new(100 * ONE, 340 * ONE, 0, 0);
    assert_eq!(bean.update(100 * ONE, 100 * ONE, WINDOW_HEIGHT), BeanEvent::Eaten);
    assert_eq!(bean.update(100 * ONE - 1, 100 * ONE, WINDOW_HEIGHT), BeanEvent::Nothing);
    assert_eq!(bean.update(100 * ONE, 100 * ONE - 1, WINDOW_HEIGHT), BeanEvent::Nothing);
}

#[test]
fn off_screen_starts_half_a_window_above_the_player() {
    let bean = Bean::new(0, 1_000 * ONE, ONE, ONE);
    // The bean goes once it lies above player_y - 240.
    assert_eq!(bean.update(500 * ONE, 1_240 * ONE, WINDOW_HEIGHT), BeanEvent::Nothing);
    assert_eq!(bean.update(500 * ONE, 1_240 * ONE + 1, WINDOW_HEIGHT), BeanEvent::OffScreen);
    assert_eq!(bean.update(0, 5_000 * ONE, WINDOW_HEIGHT), BeanEvent::OffScreen);
}

#[test]
fn off_screen_is_tested_before_contact() {
    // With a window of negative height a bean can be both; it then counts as off screen.
    let bean = Bean::new(0, 0, ONE, ONE);
    assert_eq!(bean.update(0, 0, -40 * ONE), BeanEvent::OffScreen);
    let lower = Bean::new(0, 20 * ONE, ONE, ONE);
    assert_eq!(lower.update(0, 0, -40 * ONE), BeanEvent::Eaten);
}

#[test]
fn update_leaves_the_bean_as_it_is() {
    let bean = Bean::new(ONE, 2 * ONE, 3 * ONE, 4 * ONE);
    let copy = bean;
    bean.update(0, 0, WINDOW_HEIGHT);
    bean.update(ONE, 5_000 * ONE, WINDOW_HEIGHT);
    assert_eq!(bean, copy);
}

#[test]
fn update_saturates_far_out() {
    let bean = Bean::new(i64::MAX, i64::MAX, i64::MAX, i64::MAX);
    assert_eq!(bean.update(i64::MIN, i64::MIN, WINDOW_HEIGHT), BeanEvent::Eaten);
    assert_eq!(bean.update(i64::MIN, i64::MIN, i64::MIN), BeanEvent::Eaten);
    let other = Bean::new(i64::MIN, i64::MIN, ONE, ONE);
    assert_eq!(other.update(i64::MAX, i64::MAX, WINDOW_HEIGHT), BeanEvent::OffScreen);
    assert_eq!(other.update(i64::MAX, i64::MIN, WINDOW_HEIGHT), BeanEvent::Nothing);
}

#[test]
fn from_draws_places_the_bean_by_the_draws() {
    let bean = Bean::from_draws(640 * ONE, 480 * ONE, 1_000 * ONE, 0, 0);
    assert_eq!(bean, Bean::new(0, 1_000 * ONE, ONE, ONE));
    let middle = Bean::from_draws(640 * ONE, 480 * ONE, 1_000 * ONE, 1u64 << 63, 1u64 << 62);
    assert_eq!(middle, Bean::new(310 * ONE, 1_115 * ONE, ONE, ONE));
    let last = Bean::from_draws(640 * ONE, 480 * ONE, 1_000 * ONE, u64::MAX, u64::MAX);
    assert_eq!(last, Bean::new(620 * ONE - 1, 1_460 * ONE - 1, ONE, ONE));
}

#[test]
fn from_draws_in_a_viewport_smaller_than_a_cell() {
    let bean = Bean::from_draws(10 * ONE, 0, 100 * ONE, 1u64 << 63, u64::MAX);
    assert_eq!(bean, Bean::new(-5 * ONE, 80 * ONE, ONE, ONE));
    let same = Bean::from_draws(20 * ONE, 20 * ONE, 100 * ONE, u64::MAX, u64::MAX);
    assert_eq!(same, Bean::new(0, 100 * ONE, ONE, ONE));
}

#[test]
fn from_draws_saturates() {
    let bean = Bean::from_draws(i64::MIN, i64::MAX, i64::MAX, u64::MAX, u64::MAX);
    assert_eq!(bean, Bean::new(i64::MIN + 1024, i64::MAX, ONE, ONE));
}

#[test]
fn random_beans_appear_in_the_spawn_area() {
    let mut count = 0;
    while count < 2_000 {
        let bean = Bean::random(640 * ONE, 480 * ONE, 1_000 * ONE);
        assert!(bean.get_x() >= 0);
        assert!(bean.get_x() < 620 * ONE);
        assert!(bean.get_y() >= 1_000 * ONE);
        assert!(bean.get_y() < 1_460 * ONE);
        assert_eq!(bean.get_width(), ONE);
        assert_eq!(bean.get_height(), ONE);
        count += 1;
    }
}

#[test]
fn random_beans_differ() {
    let first = Bean::random(640 * ONE, 480 * ONE, 0);
    let mut differs = false;
    let mut count = 0;
    while count < 64 {
        let next = Bean::random(640 * ONE, 480 * ONE, 0);
        if next != first {
            differs = true;
        }
        count += 1;
    }
    assert!(differs);
}

#[test]
fn random_beans_cover_the_spawn_area() {
    // Of 4 000 beans some fall into each quarter of the area.
    let mut quarters = [0u32; 4];
    let mut count = 0;
    while count < 4_000 {
        let bean = Bean::random(640 * ONE, 480 * ONE, 0);
        let right = if bean.get_x() >= 310 * ONE { 1 } else { 0 };
        let low = if bean.get_y() >= 230 * ONE { 2 } else { 0 };
        quarters[right + low] += 1;
        count += 1;
    }
    for seen in quarters {
        assert!(seen > 500, "{} beans in one quarter", seen);
    }
}

#[test]
fn random_beans_never_appear_above_the_reference() {
    let mut count = 0;
    while count < 500 {
        let bean = Bean::random(640 * ONE, 20 * ONE, -7 * ONE);
        assert_eq!(bean.get_y(), -7 * ONE);
        let other = Bean::random(20 * ONE, 480 * ONE, 0);
        assert_eq!(other.get_x(), 0);
        count += 1;
    }
}
