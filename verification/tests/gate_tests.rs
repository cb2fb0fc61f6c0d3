use frame_sequencer::gate::FrameGate;

#[test]
fn fresh_gate_has_seen_nothing() {
    let gate = FrameGate::new(2);
    assert_eq!(gate.watched(), 2);
    assert_eq!(gate.last_seen(), None);
}

#[test]
fn single_fire_per_entry() {
    for watched in 0..3 {
        let mut gate = FrameGate::new(watched);
        assert!(gate.check(Some(watched)));
        for _ in 0..10 {
            assert!(!gate.check(Some(watched)));
        }
    }
}

#[test]
fn rearm_after_leaving() {
    let mut gate = FrameGate::new(1);
    assert!(gate.check(Some(1)));
    assert!(!gate.check(Some(1)));
    assert!(!gate.check(Some(2)));
    assert!(!gate.check(Some(0)));
    assert!(gate.check(Some(1)));
    assert!(!gate.check(Some(1)));
    assert!(!gate.check(None));
    assert!(gate.check(Some(1)));
}

#[test]
fn other_frames_never_fire() {
    let mut gate = FrameGate::new(1);
    assert!(!gate.check(None));
    assert!(!gate.check(Some(0)));
    assert!(!gate.check(Some(2)));
    assert!(!gate.check(Some(usize::MAX)));
}

#[test]
fn check_always_remembers_the_index() {
    let mut gate = FrameGate::new(1);
    gate.check(Some(5));
    assert_eq!(gate.last_seen(), Some(5));
    gate.check(Some(1));
    assert_eq!(gate.last_seen(), Some(1));
    gate.check(None);
    assert_eq!(gate.last_seen(), None);
    assert_eq!(gate.watched(), 1);
}
