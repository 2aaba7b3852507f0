use balabol::audio::{append_bounded, route_frame, VoiceHold, MAX_QUEUED_SAMPLES, VOICE_HOLD_FRAMES};

#[test]
fn voice_stays_active_for_the_hold() {
    let mut hold = VoiceHold::new();
    assert!(!hold.step(false));
    assert!(hold.step(true));
    for _ in 0..VOICE_HOLD_FRAMES {
        assert!(hold.step(false));
    }
    assert!(!hold.step(false));
}

#[test]
fn queues_keep_the_newest_samples() {
    let mut q: Vec<f32> = vec![0.5; MAX_QUEUED_SAMPLES - 2];
    append_bounded(&mut q, &[1.0, 2.0, 3.0, 4.0], MAX_QUEUED_SAMPLES);
    assert_eq!(q.len(), MAX_QUEUED_SAMPLES);
    assert_eq!(q[q.len() - 1], 4.0);
    let mut small: Vec<u8> = vec![1, 2];
    append_bounded(&mut small, &[3], 10);
    assert_eq!(small, vec![1, 2, 3]);
}

#[test]
fn muted_frames_go_nowhere() {
    let r = route_frame(true, true, true, true);
    assert!(!r.echo && !r.transmit);
    let r = route_frame(false, true, true, false);
    assert!(r.echo && !r.transmit);
    assert!(route_frame(false, false, true, true).transmit);
}
