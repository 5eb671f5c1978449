use mycelium::buzzer::{
    worker_step, worker_wait_ms, ToneState, VirtualBuzzer, WorkerEvent, IDLE_WAIT_MS,
};

#[test]
fn beep_stop_lifecycle() {
    let mut buzzer = VirtualBuzzer::new();
    buzzer.beep(440, 1_000);

    assert!(buzzer.is_playing());
    assert_eq!(buzzer.frequency_hz(), 440);
    assert_eq!(buzzer.duration_ms(), 1_000);

    buzzer.stop();
    assert!(!buzzer.is_playing());
}

#[test]
fn new_buzzer_is_silent() {
    let buzzer = VirtualBuzzer::new();
    assert!(!buzzer.is_playing());
    assert_eq!(buzzer.frequency_hz(), 0);
    assert_eq!(buzzer.duration_ms(), 0);
}

#[test]
fn zero_frequency_or_duration_gives_no_tone() {
    let mut buzzer = VirtualBuzzer::new();
    assert!(!buzzer.beep(0, 1_000));
    assert!(!buzzer.is_playing());
    assert!(!buzzer.beep(440, 0));
    assert!(!buzzer.is_playing());
    assert_eq!(buzzer.frequency_hz(), 440);
    assert_eq!(buzzer.duration_ms(), 0);
}

#[test]
fn new_beep_replaces_tone_in_progress() {
    let mut buzzer = VirtualBuzzer::new();
    assert!(buzzer.beep(440, 1_000));
    assert!(buzzer.beep(880, 250));
    assert!(buzzer.is_playing());
    assert_eq!(buzzer.frequency_hz(), 880);
    assert_eq!(buzzer.duration_ms(), 250);
    // A silent request still replaces the tone and stops it.
    assert!(!buzzer.beep(0, 250));
    assert!(!buzzer.is_playing());
}

#[test]
fn pwm_plays_only_with_transitions() {
    let mut buzzer = VirtualBuzzer::new();
    assert!(buzzer.drive_pwm(2_000, true));
    assert!(buzzer.is_playing());
    assert_eq!(buzzer.frequency_hz(), 2_000);
    assert_eq!(buzzer.duration_ms(), 0);

    assert!(!buzzer.drive_pwm(2_000, false));
    assert!(!buzzer.is_playing());
}

#[test]
fn timed_tone_ends_when_worker_times_out() {
    let mut buzzer = VirtualBuzzer::new();
    assert!(buzzer.beep(880, 10));

    let idle = ToneState { frequency_hz: 0, playing: false, deadline_ms: None };
    let begun = worker_step(idle, WorkerEvent::Beep { frequency_hz: 880, duration_ms: Some(10) }, 1_000);
    assert_eq!(begun.set_playing, Some(true));
    assert_eq!(begun.state, ToneState { frequency_hz: 880, playing: true, deadline_ms: Some(1_010) });
    assert!(!begun.exit);
    assert_eq!(worker_wait_ms(begun.state, 1_000), 10);
    assert_eq!(worker_wait_ms(begun.state, 1_004), 6);
    assert_eq!(worker_wait_ms(begun.state, 1_030), 0);

    let ended = worker_step(begun.state, WorkerEvent::Timeout, 1_030);
    assert_eq!(ended.set_playing, Some(false));
    assert_eq!(ended.state, ToneState { frequency_hz: 880, playing: false, deadline_ms: None });
    assert_eq!(worker_wait_ms(ended.state, 1_030), IDLE_WAIT_MS);
    buzzer.tone_elapsed();
    assert!(!buzzer.is_playing());
    assert_eq!(buzzer.frequency_hz(), 880);
}

#[test]
fn untimed_tone_has_no_deadline_and_stop_silences() {
    let idle = ToneState { frequency_hz: 0, playing: false, deadline_ms: None };
    let pwm = worker_step(idle, WorkerEvent::Beep { frequency_hz: 2_000, duration_ms: None }, 5);
    assert_eq!(pwm.state, ToneState { frequency_hz: 2_000, playing: true, deadline_ms: None });
    assert_eq!(worker_wait_ms(pwm.state, 5), 3_600_000);

    let zero = worker_step(idle, WorkerEvent::Beep { frequency_hz: 2_000, duration_ms: Some(0) }, 5);
    assert_eq!(zero.state.deadline_ms, None);

    let stopped = worker_step(pwm.state, WorkerEvent::Stop, 9);
    assert_eq!(stopped.set_playing, None);
    assert_eq!(stopped.state, ToneState { frequency_hz: 2_000, playing: false, deadline_ms: None });
    assert!(!stopped.exit);
}

#[test]
fn worker_exits_when_senders_are_gone() {
    let state = ToneState { frequency_hz: 440, playing: true, deadline_ms: Some(50) };
    let step = worker_step(state, WorkerEvent::Disconnected, 10);
    assert!(step.exit);
    assert_eq!(step.state, state);
    assert_eq!(step.set_playing, None);
}
