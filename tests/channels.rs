use sharing::channel::{Channel, TryRecvError};

#[test]
fn one_producer_in_order_then_closed() {
    let mut ch: Channel<i32> = Channel::new();
    for v in [1, 2, 3] {
        assert!(ch.send(v).is_ok());
    }
    let mut got = Vec::new();
    for _ in 0..3 {
        got.push(ch.try_recv().unwrap());
    }
    assert_eq!(got, vec![1, 2, 3]);
    assert_eq!(ch.try_recv(), Err(TryRecvError::Empty));
    ch.drop_sender();
    assert_eq!(ch.try_recv(), Err(TryRecvError::Closed));
}

#[test]
fn queued_messages_outlive_the_producers() {
    let mut ch: Channel<&str> = Channel::new();
    ch.send("hi").ok().unwrap();
    ch.drop_sender();
    assert!(!ch.has_senders());
    assert_eq!(ch.try_recv(), Ok("hi"));
    assert_eq!(ch.try_recv(), Err(TryRecvError::Closed));
}

#[test]
fn send_after_consumer_gone_hands_value_back() {
    let mut ch: Channel<String> = Channel::new();
    ch.send(String::from("kept")).ok().unwrap();
    ch.drop_receiver();
    assert_eq!(ch.len(), 0);
    match ch.send(String::from("hi")) {
        Err(e) => assert_eq!(e.0, "hi"),
        Ok(()) => panic!("the consumer is gone"),
    }
}

#[test]
fn many_producers_each_in_order() {
    let m: u32 = 4;
    let k: u32 = 25;
    let mut ch: Channel<(u32, u32)> = Channel::new();
    for _ in 1..m {
        ch.clone_sender();
    }
    assert_eq!(ch.sender_count(), m as usize);
    // Producers take turns in an uneven pattern; the consumer drains now and then.
    let mut next = vec![0u32; m as usize];
    let mut received = Vec::new();
    let mut turn: u32 = 0;
    while next.iter().any(|&n| n < k) {
        let p = (turn * 7 + turn / 3) % m;
        if next[p as usize] < k {
            ch.send((p, next[p as usize])).ok().unwrap();
            next[p as usize] += 1;
            if next[p as usize] == k {
                ch.drop_sender();
            }
        }
        if turn % 5 == 0 {
            if let Ok(msg) = ch.try_recv() {
                received.push(msg);
            }
        }
        turn += 1;
    }
    loop {
        match ch.try_recv() {
            Ok(msg) => received.push(msg),
            Err(e) => {
                assert_eq!(e, TryRecvError::Closed);
                break;
            }
        }
    }
    assert_eq!(received.len(), (m * k) as usize);
    for p in 0..m {
        let mine: Vec<u32> = received.iter().filter(|x| x.0 == p).map(|x| x.1).collect();
        assert_eq!(mine, (0..k).collect::<Vec<u32>>());
    }
}
