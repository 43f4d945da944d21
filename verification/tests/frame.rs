use adventure2d::frame::{
    FrameClock, Step, DRAW_INTERVAL, FPS, MAX_SCREEN_COL, MAX_SCREEN_ROW, ORIGINAL_TILE_SIZE,
    SCALE, SCREEN_HEIGHT, SCREEN_WIDTH, SPRITE_INTERVAL, TILE_SIZE,
};

#[test]
fn screen_is_16_by_12_tiles_of_48_pixels() {
    assert_eq!((ORIGINAL_TILE_SIZE, SCALE, TILE_SIZE), (16, 3, 48));
    assert_eq!((MAX_SCREEN_COL, MAX_SCREEN_ROW), (16, 12));
    assert_eq!((SCREEN_WIDTH, SCREEN_HEIGHT), (768, 576));
}

#[test]
fn frame_lasts_a_sixtieth_of_a_second() {
    assert_eq!(FPS, 60);
    assert_eq!(DRAW_INTERVAL, 16_666_666);
    assert_eq!(SPRITE_INTERVAL, 12);
}

#[test]
fn new_clock_waits() {
    let mut clock = FrameClock::new();
    assert_eq!(clock.next_step(), Step::Wait);
}

#[test]
fn frame_is_due_once_its_time_has_passed() {
    let mut clock = FrameClock::new();
    clock.add_elapsed(DRAW_INTERVAL - 1);
    assert_eq!(clock.next_step(), Step::Wait);
    clock.add_elapsed(1);
    assert_eq!(clock.next_step(), Step::Frame { change_sprite: false });
    assert_eq!(clock.next_step(), Step::Wait);
}

#[test]
fn frames_catch_up_after_a_slow_stretch() {
    let mut clock = FrameClock::new();
    clock.add_elapsed(3 * DRAW_INTERVAL + 5);
    for _ in 0..3 {
        assert_eq!(clock.next_step(), Step::Frame { change_sprite: false });
    }
    assert_eq!(clock.next_step(), Step::Wait);
    // What was left over counts towards the next frame.
    clock.add_elapsed(DRAW_INTERVAL - 5);
    assert_eq!(clock.next_step(), Step::Frame { change_sprite: false });
}

#[test]
fn sprite_changes_in_every_thirteenth_frame() {
    let mut clock = FrameClock::new();
    clock.add_elapsed(40 * DRAW_INTERVAL);
    let mut changes = Vec::new();
    for frame in 0..40 {
        match clock.next_step() {
            Step::Frame { change_sprite: true } => changes.push(frame),
            Step::Frame { change_sprite: false } => {}
            Step::Wait => panic!("a frame was due"),
        }
    }
    assert_eq!(changes, vec![12, 25, 38]);
}

#[test]
fn waiting_counts_no_frame() {
    let mut clock = FrameClock::new();
    clock.add_elapsed(12 * DRAW_INTERVAL);
    for _ in 0..12 {
        assert_eq!(clock.next_step(), Step::Frame { change_sprite: false });
    }
    for _ in 0..5 {
        assert_eq!(clock.next_step(), Step::Wait);
    }
    clock.add_elapsed(DRAW_INTERVAL);
    assert_eq!(clock.next_step(), Step::Frame { change_sprite: true });
}

#[test]
fn can_add_tells_time_that_does_not_fit() {
    let mut clock = FrameClock::new();
    assert!(clock.can_add(u128::MAX));
    clock.add_elapsed(1);
    assert!(!clock.can_add(u128::MAX));
    assert!(clock.can_add(u128::MAX - 1));
}
