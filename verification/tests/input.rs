use fixed_timestep::{drain, InputEvent, KEYCODE_ESCAPE};

#[test]
fn quit_signals_termination() {
    assert!(InputEvent::Quit.is_termination_signal());
}

#[test]
fn escape_key_signals_termination() {
    assert_eq!(KEYCODE_ESCAPE, 27);
    assert!(InputEvent::KeyDown { keycode: Some(27) }.is_termination_signal());
}

#[test]
fn other_events_do_not_signal_termination() {
    assert!(!InputEvent::Other.is_termination_signal());
    assert!(!InputEvent::KeyDown { keycode: None }.is_termination_signal());
    assert!(!InputEvent::KeyDown { keycode: Some(26) }.is_termination_signal());
    assert!(!InputEvent::KeyDown { keycode: Some(28) }.is_termination_signal());
    assert!(!InputEvent::KeyDown { keycode: Some(-27) }.is_termination_signal());
    assert!(!InputEvent::KeyDown { keycode: Some(0) }.is_termination_signal());
}

#[test]
fn drain_of_an_empty_queue_does_not_stop() {
    assert!(!drain(&Vec::new()));
}

#[test]
fn drain_finds_a_stop_request_anywhere_in_the_batch() {
    let quiet = vec![InputEvent::Other, InputEvent::KeyDown { keycode: Some(97) }];
    assert!(!drain(&quiet));
    assert!(drain(&vec![InputEvent::Quit]));
    assert!(drain(&vec![InputEvent::Quit, InputEvent::Other]));
    assert!(drain(&vec![InputEvent::Other, InputEvent::Other, InputEvent::Quit]));
    assert!(drain(&vec![
        InputEvent::Other,
        InputEvent::KeyDown { keycode: Some(27) },
        InputEvent::Other
    ]));
}
