use multi_agent::{Error, MessageChannel};

#[test]
fn test_channel_send_receive() {
    let (sender, receiver) = MessageChannel::new(10).split();

    sender.send(42).expect("Failed to send message");
    let messages = receiver.drain();

    assert_eq!(messages.len(), 1);
    assert_eq!(messages[0], 42);
}

#[test]
fn test_channel_capacity_full() {
    let (sender, _receiver) = MessageChannel::new(2).split();

    assert!(sender.send(1).is_ok());
    assert!(sender.send(2).is_ok());

    let result = sender.send(3);
    assert!(result.is_err());
}

#[test]
fn test_channel_drain_multiple() {
    let (sender, receiver) = MessageChannel::new(10).split();

    sender.send(1).unwrap();
    sender.send(2).unwrap();
    sender.send(3).unwrap();

    let messages = receiver.drain();
    assert_eq!(messages, vec![1, 2, 3]);

    let messages2 = receiver.drain();
    assert!(messages2.is_empty());
}

#[test]
fn test_channel_is_empty_is_full() {
    let (sender, receiver) = MessageChannel::new(2).split();

    assert!(sender.is_empty());
    assert!(!sender.is_full());

    sender.send(1).unwrap();
    assert!(!sender.is_empty());
    assert!(!sender.is_full());

    sender.send(2).unwrap();
    assert!(!sender.is_empty());
    assert!(sender.is_full());

    receiver.drain();
    assert!(sender.is_empty());
    assert!(!sender.is_full());
}

#[test]
fn test_channel_lossy_send() {
    let (sender, receiver) = MessageChannel::new(2).split();

    sender.send(1).unwrap();
    sender.send(2).unwrap();

    sender.send_lossy(3);
    sender.send_lossy(4);

    let messages = receiver.drain();
    assert_eq!(messages.len(), 2);
    assert_eq!(messages, vec![1, 2]);
}

#[test]
fn test_channel_pending() {
    let (sender, receiver) = MessageChannel::new(10).split();

    assert_eq!(sender.pending(), 0);

    sender.send(1).unwrap();
    assert_eq!(sender.pending(), 1);

    sender.send(2).unwrap();
    assert_eq!(sender.pending(), 2);

    receiver.drain();
    assert_eq!(sender.pending(), 0);
}

#[test]
fn test_channel_try_recv() {
    let (sender, receiver) = MessageChannel::new(10).split();

    assert_eq!(receiver.try_recv(), None);

    sender.send(42).unwrap();
    assert_eq!(receiver.try_recv(), Some(42));
    assert_eq!(receiver.try_recv(), None);
}

#[test]
fn test_channel_drain_limit() {
    let (sender, receiver) = MessageChannel::new(10).split();

    for i in 0..5 {
        sender.send(i).unwrap();
    }

    let messages = receiver.drain_limit(3);
    assert_eq!(messages.len(), 3);
    assert_eq!(messages, vec![0, 1, 2]);

    let remaining = receiver.drain();
    assert_eq!(remaining, vec![3, 4]);
}

#[test]
fn capacity_two_scenario_on_split_ends() {
    let (sender, receiver) = MessageChannel::new(2).split();
    assert_eq!(sender.send(1), Ok(()));
    assert_eq!(sender.send(2), Ok(()));
    assert_eq!(sender.send(3), Err(Error::MessageChannelFull { capacity: 2 }));
    assert_eq!(receiver.drain(), vec![1, 2]);
    assert_eq!(sender.send(3), Ok(()));
    assert_eq!(receiver.drain(), vec![3]);
}

#[test]
fn capacity_two_scenario_on_whole_channel() {
    let mut channel = MessageChannel::new(2);
    assert_eq!(channel.send(1), Ok(()));
    assert_eq!(channel.send(2), Ok(()));
    assert_eq!(channel.send(3), Err(Error::MessageChannelFull { capacity: 2 }));
    assert_eq!(channel.drain(), vec![1, 2]);
    assert_eq!(channel.send(3), Ok(()));
    assert_eq!(channel.pending(), 1);
}

#[test]
fn sends_within_capacity_drain_in_send_order() {
    let mut channel = MessageChannel::new(5);
    for v in [9, 4, 7, 1, 8] {
        channel.send(v).unwrap();
    }
    assert!(channel.is_full());
    assert_eq!(channel.drain(), vec![9, 4, 7, 1, 8]);
    assert!(channel.is_empty());
    assert_eq!(channel.drain(), Vec::<i32>::new());
}

#[test]
fn sends_beyond_capacity_are_refused() {
    let mut channel = MessageChannel::new(3);
    let results: Vec<bool> = (0..6).map(|v| channel.send(v).is_ok()).collect();
    assert_eq!(results, vec![true, true, true, false, false, false]);
    assert_eq!(channel.drain(), vec![0, 1, 2]);
}

#[test]
fn lossy_send_on_full_channel_leaves_no_trace() {
    let mut channel = MessageChannel::new(1);
    channel.send_lossy("kept");
    channel.send_lossy("dropped");
    assert_eq!(channel.drain(), vec!["kept"]);
    assert_eq!(channel.try_recv(), None);
}

#[test]
fn drain_limit_then_drain_partitions_the_queue() {
    let mut channel = MessageChannel::new(10);
    for v in 10..17 {
        channel.send(v).unwrap();
    }
    let first = channel.drain_limit(4);
    let rest = channel.drain();
    assert_eq!(first, vec![10, 11, 12, 13]);
    assert_eq!(rest, vec![14, 15, 16]);

    channel.send(1).unwrap();
    assert_eq!(channel.drain_limit(5), vec![1]);
    assert_eq!(channel.drain_limit(0), Vec::<i32>::new());
}

#[test]
fn whole_channel_try_recv_takes_oldest() {
    let mut channel = MessageChannel::new(4);
    assert_eq!(channel.try_recv(), None);
    channel.send('a').unwrap();
    channel.send('b').unwrap();
    assert_eq!(channel.try_recv(), Some('a'));
    assert_eq!(channel.pending(), 1);
    assert_eq!(channel.capacity(), Some(4));
}

#[test]
fn zero_capacity_channel_refuses_every_send() {
    let mut channel = MessageChannel::new(0);
    assert!(channel.is_full());
    assert_eq!(channel.send(5), Err(Error::MessageChannelFull { capacity: 0 }));
    assert_eq!(channel.drain(), Vec::<i32>::new());
}

#[test]
fn send_after_receiver_dropped_is_disconnected() {
    let (sender, receiver) = MessageChannel::new(4).split();
    drop(receiver);
    assert_eq!(sender.send(1), Err(Error::MessageChannelDisconnected));
    sender.send_lossy(2);
}

#[test]
fn ends_report_capacity() {
    let (sender, receiver) = MessageChannel::<u8>::new(7).split();
    assert_eq!(sender.capacity(), Some(7));
    assert_eq!(receiver.capacity(), Some(7));
    assert!(receiver.is_empty());
    assert!(!receiver.is_full());
    sender.send(3).unwrap();
    assert_eq!(receiver.pending(), 1);
}

#[test]
fn cloned_sender_shares_the_queue() {
    let (sender, receiver) = MessageChannel::new(4).split();
    let other = sender.clone();
    sender.send(1).unwrap();
    other.send(2).unwrap();
    assert_eq!(receiver.drain(), vec![1, 2]);
}

#[test]
fn large_capacity_channel_is_accepted() {
    let mut channel = MessageChannel::new(100_000);
    assert_eq!(channel.capacity(), Some(100_000));
    assert_eq!(channel.pending(), 0);
    assert!(channel.is_empty());
    assert!(!channel.is_full());
    channel.send(1u8).unwrap();
    let (sender, receiver) = channel.split();
    assert_eq!(sender.capacity(), Some(100_000));
    assert_eq!(receiver.drain(), vec![1]);
}

#[test]
fn pending_never_exceeds_capacity_on_split_ends() {
    let (sender, receiver) = MessageChannel::new(3).split();
    for v in 0..10 {
        sender.send_lossy(v);
        assert!(sender.pending() <= 3);
        assert!(receiver.pending() <= 3);
    }
    assert_eq!(receiver.pending(), 3);
    assert_eq!(receiver.drain(), vec![0, 1, 2]);
}
