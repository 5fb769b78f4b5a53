use sprite_engine::timer::{Timer, FRAME_PERIOD_MICROS, MAX_BACKLOG_MICROS};

fn drain_updates(timer: &mut Timer) -> u32 {
    let mut count = 0;
    while timer.should_update() {
        count += 1;
    }
    count
}

#[test]
fn one_frame_period_triggers_exactly_one_update() {
    let mut timer = Timer::new();
    timer.tick(FRAME_PERIOD_MICROS);
    assert!(timer.should_update());
    assert!(!timer.should_update());
}

#[test]
fn a_ten_second_stall_is_capped_at_thirty_updates() {
    let mut timer = Timer::new();
    timer.tick(10_000_000);
    assert_eq!(drain_updates(&mut timer), 30);
}

#[test]
fn backlog_cap_is_thirty_frame_periods() {
    assert_eq!(MAX_BACKLOG_MICROS, 30 * FRAME_PERIOD_MICROS);
}

#[test]
fn too_little_time_runs_no_update() {
    let mut timer = Timer::new();
    timer.tick(FRAME_PERIOD_MICROS - 1);
    assert_eq!(drain_updates(&mut timer), 0);
    timer.tick(1);
    assert_eq!(drain_updates(&mut timer), 1);
}

#[test]
fn short_ticks_accumulate_across_frames() {
    let mut timer = Timer::new();
    let mut total = 0;
    for _ in 0..10 {
        timer.tick(10_000);
        total += drain_updates(&mut timer);
    }
    // 100_000 microseconds of game time at 16_666 per update.
    assert_eq!(total, 6);
}

#[test]
fn resuming_after_a_stall_returns_to_real_time_pacing() {
    let mut timer = Timer::new();
    timer.tick(10_000_000);
    assert_eq!(drain_updates(&mut timer), 30);
    timer.tick(FRAME_PERIOD_MICROS);
    assert_eq!(drain_updates(&mut timer), 1);
}
