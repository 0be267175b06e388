use aiurgaze::fanout::FanOut;
use aiurgaze::relay::{
    next_backoff_ms, relay_upstream_frame, should_retry, DecodeError, Direction, RelayAction, RelayEvent,
    RelaySession, RelayState,
};

#[test]
fn undecodable_frame_is_still_forwarded() {
    let mut fanout: FanOut<String> = FanOut::new(4);
    let sub = fanout.subscribe();
    let frame = vec![0xff, 0x00, 0x13, 0x37];
    let out = relay_upstream_frame(&mut fanout, frame.clone(), Err(DecodeError::Malformed));
    assert_eq!(out, frame);
    assert!(fanout.receive(sub).is_none());
}

#[test]
fn responses_reach_subscribers_in_frame_order() {
    let mut fanout: FanOut<String> = FanOut::new(8);
    let sub = fanout.subscribe();
    for (i, name) in ["a", "b", "c"].iter().enumerate() {
        let out = relay_upstream_frame(&mut fanout, vec![i as u8], Ok(name.to_string()));
        assert_eq!(out, vec![i as u8]);
    }
    let got: Vec<(u64, String)> = std::iter::from_fn(|| fanout.receive(sub)).map(|d| (d.seq, d.response)).collect();
    assert_eq!(got, vec![(0, "a".to_string()), (1, "b".to_string()), (2, "c".to_string())]);
}

#[test]
fn a_lagging_subscriber_loses_the_oldest() {
    let mut fanout: FanOut<u32> = FanOut::new(2);
    let slow = fanout.subscribe();
    let late;
    fanout.publish(10);
    late = fanout.subscribe();
    fanout.publish(11);
    fanout.publish(12);
    let seqs: Vec<u64> = std::iter::from_fn(|| fanout.receive(slow)).map(|d| d.seq).collect();
    assert_eq!(seqs, vec![1, 2]);
    let seqs: Vec<u32> = std::iter::from_fn(|| fanout.receive(late)).map(|d| d.response).collect();
    assert_eq!(seqs, vec![11, 12]);
    fanout.unsubscribe(late);
    fanout.publish(13);
    assert!(fanout.receive(late).is_none());
    assert_eq!(fanout.receive(slow).unwrap().response, 13);
}

#[test]
fn session_runs_through_its_states() {
    let mut s = RelaySession::new();
    assert_eq!(s.step(RelayEvent::Start), RelayAction::ConnectUpstream);
    assert_eq!(s.step(RelayEvent::UpstreamConnected), RelayAction::Listen);
    assert_eq!(s.step(RelayEvent::ClientAccepted), RelayAction::Bridge);
    assert_eq!(s.state(), RelayState::Bridging);
    let end = RelayEvent::LoopEnded { direction: Direction::ServerToClient, error: true };
    assert_eq!(s.step(end), RelayAction::Teardown { direction: Direction::ServerToClient, error: true });
    assert_eq!(s.state(), RelayState::Closed);
    assert_eq!(s.step(RelayEvent::Start), RelayAction::Ignore);
}

#[test]
fn upstream_retries_are_bounded() {
    let mut s = RelaySession::new();
    s.step(RelayEvent::Start);
    for _ in 0..5 {
        assert_eq!(s.step(RelayEvent::UpstreamFailed), RelayAction::RetryAfter { secs: 2 });
    }
    assert_eq!(s.step(RelayEvent::UpstreamFailed), RelayAction::GiveUp);
    assert_eq!(s.state(), RelayState::Closed);
}

#[test]
fn backoff_doubles_up_to_the_cap() {
    assert_eq!(next_backoff_ms(200), 400);
    assert_eq!(next_backoff_ms(1600), 3000);
    assert_eq!(next_backoff_ms(3000), 3000);
    assert!(should_retry(1, 5));
    assert!(!should_retry(5, 5));
}
