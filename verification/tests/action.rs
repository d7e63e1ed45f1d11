use fixed_timestep::{Action, Fraction, InputEvent, LoopDriver, Summary};

#[test]
fn fresh_driver_asks_for_a_render() {
    let d = LoopDriver::new(60).unwrap();
    assert_eq!(
        d.next_action(),
        Action::Render(Fraction { numerator: 0, denominator: 16_666_666 })
    );
}

#[test]
fn pending_step_asks_for_input() {
    let mut d = LoopDriver::new(60).unwrap();
    d.accumulate(34_000_000);
    assert_eq!(d.next_action(), Action::DrainInput);
    d.run_frame(&Vec::new());
    assert_eq!(d.next_action(), Action::DrainInput);
    d.run_frame(&Vec::new());
    assert_eq!(
        d.next_action(),
        Action::Render(Fraction { numerator: 666_668, denominator: 16_666_666 })
    );
}

#[test]
fn stop_request_asks_for_exit_without_a_render() {
    let mut d = LoopDriver::new(60).unwrap();
    d.accumulate(20_000_000);
    d.run_frame(&Vec::new());
    d.record_render();
    d.accumulate(40_000_000);
    assert_eq!(d.next_action(), Action::DrainInput);
    d.run_frame(&vec![InputEvent::Quit]);
    let expected = Summary { physics_steps: 1, render_count: 1, average_fps: None };
    assert_eq!(d.next_action(), Action::Exit(expected));
    d.accumulate(40_000_000);
    d.record_render();
    assert_eq!(d.next_action(), Action::Exit(expected));
}

#[test]
fn following_next_action_runs_the_loop_to_its_end() {
    let mut d = LoopDriver::new(10).unwrap();
    let samples: [u64; 4] = [250_000_000, 50_000_000, 400_000_000, 100_000_000];
    let mut frames_seen = 0;
    let mut summary = None;
    'running: for elapsed in samples {
        d.accumulate(elapsed);
        loop {
            match d.next_action() {
                Action::DrainInput => {
                    frames_seen += 1;
                    let events = if frames_seen == 6 { vec![InputEvent::Quit] } else { vec![] };
                    d.run_frame(&events);
                }
                Action::Render(fraction) => {
                    assert!(fraction.numerator < fraction.denominator);
                    d.record_render();
                    break;
                }
                Action::Exit(report) => {
                    summary = Some(report);
                    break 'running;
                }
            }
        }
    }
    assert_eq!(
        summary,
        Some(Summary { physics_steps: 5, render_count: 2, average_fps: None })
    );
    assert_eq!(d.accumulator(), 200_000_000);
}
