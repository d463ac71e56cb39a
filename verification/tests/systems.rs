use tardy::{Frame, Note, System};

fn sample(n: u64) -> Frame {
    Frame::new(n, 60, 70, 200, 100)
}

fn pool_of(n: u64) -> Vec<Frame> {
    (0..n).map(sample).collect()
}

fn held(sys: &System) -> usize {
    sys.pool.len() + sys.slices.iter().map(|s| s.len()).sum::<usize>()
}

fn quips_of(sys: &System, sender: usize) -> Vec<String> {
    sys.relayed
        .iter()
        .filter(|m| m.sender == sender)
        .map(|m| match &m.note {
            Note::Quip(text) => text.clone(),
            _ => panic!("only quips were sent"),
        })
        .collect()
}

#[test]
fn enroll_splits_pool_or_fails_fast() {
    let mut sys = System::setup(pool_of(4), 2);
    assert!(sys.enroll(2));
    assert_eq!(sys.pool.len(), 0);
    assert_eq!(sys.slices.len(), 2);
    assert_eq!(sys.slices[0], vec![sample(3), sample(2)]);
    assert_eq!(sys.slices[1], vec![sample(1), sample(0)]);
    assert!(!sys.enroll(1));
    assert_eq!(sys.slices.len(), 2);
}

#[test]
fn relay_keeps_each_senders_order() {
    // Worker 0 sends A then C; worker 1 sends B in between. The relay sees
    // A before C, whatever stands between them.
    let mut sys = System::setup(pool_of(4), 2);
    assert!(sys.enroll(2));
    sys.send_quip(0, "A".to_string());
    sys.send_quip(1, "B".to_string());
    sys.send_quip(0, "C".to_string());
    sys.dispatch();
    sys.dispatch();
    sys.dispatch();
    assert_eq!(quips_of(&sys, 0), vec!["A".to_string(), "C".to_string()]);
    assert_eq!(quips_of(&sys, 1), vec!["B".to_string()]);
    assert_eq!(sys.relayed.len(), 3);
}

#[test]
fn conservation_across_a_run() {
    // However the steps interleave, pool plus slices never exceeds the pool
    // at set-up.
    let initial = 6;
    let mut sys = System::setup(pool_of(initial as u64), 2);
    assert_eq!(held(&sys), initial);
    assert!(sys.enroll(2));
    assert_eq!(held(&sys), initial);
    sys.send_deed(0); // spends a frame into a message
    assert!(held(&sys) <= initial);
    sys.send_deed(0); // now worker 0 is empty
    sys.send_deed(0); // so this one is a plea
    sys.send_quip(1, "still here".to_string());
    while !sys.queue.is_empty() {
        sys.dispatch();
        assert!(held(&sys) <= initial);
    }
    // the plea moved pool frames into worker 0's slice, conserving the total
    assert_eq!(held(&sys), initial - 2);
}

#[test]
fn reply_reaches_only_the_requester() {
    let mut sys = System::setup(pool_of(6), 2);
    assert!(sys.enroll(2));
    // empty worker 0's slice, then let it plead
    sys.send_deed(0);
    sys.send_deed(0);
    sys.send_deed(0);
    let w1_before = sys.slices[1].clone();
    while !sys.queue.is_empty() {
        sys.dispatch();
    }
    assert_eq!(sys.slices[0], vec![sample(1), sample(0)]);
    assert_eq!(sys.slices[1], w1_before);
}

#[test]
fn exhausted_pool_replies_empty_not_blocking() {
    let mut sys = System::setup(pool_of(2), 2);
    assert!(sys.enroll(1));
    assert_eq!(sys.pool.len(), 0);
    sys.send_deed(0);
    sys.send_deed(0);
    sys.send_deed(0); // slice empty now: a plea
    while !sys.queue.is_empty() {
        sys.dispatch();
    }
    // the plea was answered at once, with nothing to give
    assert_eq!(sys.slices[0].len(), 0);
    assert_eq!(sys.pool.len(), 0);
    assert_eq!(sys.relayed.len(), 2);
}

#[test]
fn deeds_carry_the_newest_frame() {
    let mut sys = System::setup(pool_of(2), 2);
    assert!(sys.enroll(1));
    sys.send_deed(0);
    sys.dispatch();
    // the slice holds [newest, oldest] and a deed spends the slice's last
    match &sys.relayed[0].note {
        Note::Deed(Some(frame)) => assert_eq!(*frame, sample(0)),
        _ => panic!("a stocked worker sends a deed with a frame"),
    }
    sys.send_spoil(0);
    sys.dispatch();
    match &sys.relayed[1].note {
        Note::Deed(None) => {}
        _ => panic!("a spoil carries no frame"),
    }
}
