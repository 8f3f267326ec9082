use rusticnes_core::apu::volume_envelope::VolumeEnvelopeState;

fn envelope(volume_register: u8, decay: u8, divider: u8, looping: bool) -> VolumeEnvelopeState {
    let mut e = VolumeEnvelopeState::new();
    e.volume_register = volume_register;
    e.decay = decay;
    e.divider = divider;
    e.looping = looping;
    e.enabled = true;
    e
}

#[test]
fn new_envelope_is_silent() {
    let e = VolumeEnvelopeState::new();
    assert_eq!(e.volume_register, 0);
    assert_eq!(e.decay, 0);
    assert_eq!(e.divider, 0);
    assert!(!e.enabled && !e.looping && !e.start_flag);
    assert_eq!(e.current_volume(), 0);
}

#[test]
fn current_volume_is_decay_when_enabled_else_register() {
    let mut e = envelope(7, 12, 0, false);
    assert_eq!(e.current_volume(), 12);
    e.enabled = false;
    assert_eq!(e.current_volume(), 7);
}

#[test]
fn start_flag_restarts_at_fifteen() {
    let mut e = envelope(3, 2, 1, false);
    e.start_flag = true;
    e.clock();
    assert_eq!(e.decay, 15);
    assert_eq!(e.divider, 3);
    assert!(!e.start_flag);
}

#[test]
fn decay_steps_once_per_period() {
    let mut e = envelope(3, 15, 0, false);
    e.clock();
    assert_eq!((e.decay, e.divider), (14, 3));
    e.clock();
    e.clock();
    e.clock();
    assert_eq!((e.decay, e.divider), (14, 0));
    e.clock();
    assert_eq!((e.decay, e.divider), (13, 3));
}

#[test]
fn decay_stops_at_zero_without_loop() {
    let mut e = envelope(0, 1, 0, false);
    e.clock();
    assert_eq!(e.decay, 0);
    for _ in 0..10 {
        e.clock();
        assert_eq!(e.decay, 0);
    }
}

#[test]
fn decay_loops_back_to_fifteen() {
    let mut e = envelope(0, 0, 0, true);
    e.clock();
    assert_eq!(e.decay, 15);
}

#[test]
fn envelope_save_load_round_trip() {
    let mut e = envelope(9, 4, 2, true);
    e.start_flag = true;
    e.enabled = false;
    let mut buff: Vec<u8> = vec![0x55];
    e.save_state(&mut buff);
    assert_eq!(buff, vec![0x55, 9, 4, 2, 0, 1, 1]);
    let mut loaded = VolumeEnvelopeState::new();
    loaded.load_state(&mut buff);
    assert_eq!(buff, vec![0x55]);
    assert_eq!(loaded.volume_register, 9);
    assert_eq!(loaded.decay, 4);
    assert_eq!(loaded.divider, 2);
    assert!(!loaded.enabled);
    assert!(loaded.looping);
    assert!(loaded.start_flag);
}
