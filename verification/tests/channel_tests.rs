use aider::channel::EventChannel;

#[test]
fn events_are_delivered_in_send_order() {
    let mut ch: EventChannel<u32> = EventChannel::new();
    for i in 0..5u32 {
        assert!(ch.send(i));
    }
    for i in 0..5u32 {
        assert_eq!(ch.recv(), Some(i));
    }
    assert_eq!(ch.recv(), None);
}

#[test]
fn a_full_queue_refuses_instead_of_dropping() {
    let mut ch: EventChannel<u32> = EventChannel::new();
    for i in 0..32u32 {
        assert!(ch.send(i));
    }
    // the queue is at its bound: the producer is pushed back
    assert!(!ch.send(99));
    assert_eq!(ch.len(), 32);
    // once the consumer drains one slot, the retried send succeeds
    assert_eq!(ch.recv(), Some(0));
    assert!(ch.send(99));
    // every accepted event arrives, in order, none lost or duplicated
    let mut received = Vec::new();
    while let Some(x) = ch.recv() {
        received.push(x);
    }
    let mut expected: Vec<u32> = (1..32).collect();
    expected.push(99);
    assert_eq!(received, expected);
}

#[test]
fn backpressure_with_retries_loses_nothing() {
    let mut ch: EventChannel<u32> = EventChannel::new();
    let offered: Vec<u32> = (0..100).collect();
    let mut received = Vec::new();
    let mut next = 0;
    while received.len() < offered.len() {
        // the producer offers as much as the queue takes...
        while next < offered.len() && ch.send(offered[next]) {
            next += 1;
        }
        // ...then the consumer resumes and drains
        while let Some(x) = ch.recv() {
            received.push(x);
        }
    }
    assert_eq!(received, offered);
}
