use fixed_timestep::{
    elapsed_nanos, instantaneous_fps, readout_due, InputEvent, LoopDriver, Summary, NS_IN_SEC,
};

fn no_input() -> Vec<Vec<InputEvent>> {
    Vec::new()
}

#[test]
fn nanoseconds_in_a_second() {
    assert_eq!(NS_IN_SEC, 1_000_000_000);
}

#[test]
fn elapsed_nanos_joins_seconds_and_subsecond_part() {
    assert_eq!(elapsed_nanos(0, 0), Some(0));
    assert_eq!(elapsed_nanos(0, 999_999_999), Some(999_999_999));
    assert_eq!(elapsed_nanos(1, 500), Some(1_000_000_500));
    assert_eq!(elapsed_nanos(5, 0), Some(5_000_000_000));
}

#[test]
fn elapsed_nanos_reports_what_does_not_fit() {
    assert_eq!(elapsed_nanos(18_446_744_073, 709_551_615), Some(u64::MAX));
    assert_eq!(elapsed_nanos(18_446_744_073, 709_551_616), None);
    assert_eq!(elapsed_nanos(18_446_744_074, 0), None);
    assert_eq!(elapsed_nanos(u64::MAX, 0), None);
}

#[test]
fn instantaneous_fps_is_the_reciprocal_of_the_loop_time() {
    assert_eq!(instantaneous_fps(16_666_666), Some(60));
    assert_eq!(instantaneous_fps(16_666_667), Some(59));
    assert_eq!(instantaneous_fps(1), Some(1_000_000_000));
    assert_eq!(instantaneous_fps(1_000_000_000), Some(1));
    assert_eq!(instantaneous_fps(1_000_000_001), Some(0));
}

#[test]
fn instantaneous_fps_of_a_zero_length_loop_is_undefined() {
    assert_eq!(instantaneous_fps(0), None);
}

#[test]
fn readout_refreshes_once_a_whole_second_has_passed() {
    assert!(!readout_due(0));
    assert!(!readout_due(999_999_999));
    assert!(readout_due(1_000_000_000));
    assert!(readout_due(u64::MAX));
}

#[test]
fn average_fps_is_undefined_at_zero_simulated_time() {
    let mut d = LoopDriver::new(60).unwrap();
    assert_eq!(d.average_fps(), None);
    d.record_render();
    assert_eq!(d.average_fps(), None);
    assert_eq!(
        d.summary(),
        Summary { physics_steps: 0, render_count: 1, average_fps: None }
    );
}

#[test]
fn average_fps_is_undefined_below_one_simulated_second() {
    let mut d = LoopDriver::new(60).unwrap();
    for _ in 0..60 {
        d.advance(16_666_666, &no_input());
        d.record_render();
    }
    assert_eq!(d.simulation_clock(), 999_999_960);
    assert_eq!(d.average_fps(), None);
    d.advance(16_666_666, &no_input());
    assert_eq!(d.simulation_clock(), 1_016_666_626);
    assert_eq!(d.average_fps(), Some(60));
}

#[test]
fn average_fps_divides_renders_by_whole_simulated_seconds() {
    let mut d = LoopDriver::new(1).unwrap();
    for _ in 0..3 {
        d.advance(1_000_000_000, &no_input());
    }
    for _ in 0..10 {
        d.record_render();
    }
    assert_eq!(d.simulation_clock(), 3_000_000_000);
    assert_eq!(d.average_fps(), Some(3));
    assert_eq!(
        d.summary(),
        Summary { physics_steps: 3, render_count: 10, average_fps: Some(3) }
    );
}

#[test]
fn summary_survives_termination() {
    let mut d = LoopDriver::new(2).unwrap();
    for _ in 0..4 {
        d.advance(500_000_000, &no_input());
        d.record_render();
    }
    d.advance(500_000_000, &vec![vec![InputEvent::Quit]]);
    assert!(d.is_terminated());
    assert_eq!(
        d.summary(),
        Summary { physics_steps: 4, render_count: 4, average_fps: Some(2) }
    );
}
