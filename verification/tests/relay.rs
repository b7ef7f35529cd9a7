use msbe::relay::{Relay, RelayAction, RelayEvent, RelayStep, Side};

#[test]
fn steps_cycle_in_order() {
    let mut s = RelayStep::FillToUpstream;
    let mut seen = vec![];
    for _ in 0..5 {
        seen.push(s);
        s = s.next();
    }
    assert_eq!(
        seen,
        vec![
            RelayStep::FillToUpstream,
            RelayStep::DrainToUpstream,
            RelayStep::FillToDownstream,
            RelayStep::DrainToDownstream,
            RelayStep::FillToUpstream,
        ]
    );
    assert_eq!(RelayStep::FillToUpstream.stream(), Side::Downstream);
    assert_eq!(RelayStep::DrainToUpstream.stream(), Side::Upstream);
    assert_eq!(RelayStep::FillToDownstream.stream(), Side::Upstream);
    assert_eq!(RelayStep::DrainToDownstream.stream(), Side::Downstream);
    assert!(RelayStep::FillToDownstream.is_fill());
    assert!(!RelayStep::DrainToDownstream.is_fill());
}

#[test]
fn bytes_cross_in_both_directions() {
    let mut r = Relay::<16>::new();
    assert_eq!(r.current(), RelayStep::FillToUpstream);
    assert_eq!(r.fill_room(), 15);
    assert_eq!(r.handle(RelayEvent::Received(b"ping".to_vec())), RelayAction::Continue);
    assert_eq!(r.current(), RelayStep::DrainToUpstream);
    assert_eq!(r.pending(), b"ping".to_vec());
    assert_eq!(r.handle(RelayEvent::Sent(3)), RelayAction::Continue);
    assert_eq!(r.current(), RelayStep::FillToDownstream);
    assert_eq!(r.handle(RelayEvent::Received(b"pong".to_vec())), RelayAction::Continue);
    assert_eq!(r.pending(), b"pong".to_vec());
    assert_eq!(r.handle(RelayEvent::Sent(4)), RelayAction::Continue);
    // Back to the first step; one byte bound upstream is still waiting.
    assert_eq!(r.current(), RelayStep::FillToUpstream);
    assert_eq!(r.handle(RelayEvent::WouldBlock), RelayAction::Continue);
    assert_eq!(r.pending(), b"g".to_vec());
}

#[test]
fn failure_shuts_down_the_stream_the_step_used() {
    let mut r = Relay::<8>::new();
    assert_eq!(r.handle(RelayEvent::Failed), RelayAction::Shutdown(Side::Downstream));
    assert_eq!(r.handle(RelayEvent::Failed), RelayAction::Shutdown(Side::Upstream));
    assert_eq!(r.handle(RelayEvent::Failed), RelayAction::Shutdown(Side::Upstream));
    assert_eq!(r.handle(RelayEvent::Failed), RelayAction::Shutdown(Side::Downstream));
    assert_eq!(r.current(), RelayStep::FillToUpstream);
}

#[test]
fn each_side_receives_a_prefix_of_what_the_other_sent() {
    let mut r = Relay::<6>::new();
    let client: Vec<u8> = (0..30).collect();
    let server: Vec<u8> = (100..130).collect();
    let (mut from_client, mut from_server) = (0usize, 0usize);
    let (mut to_upstream, mut to_downstream): (Vec<u8>, Vec<u8>) = (vec![], vec![]);
    for turn in 0..400usize {
        let step = r.current();
        let event = match step {
            RelayStep::FillToUpstream => {
                let n = r.fill_room().min(client.len() - from_client).min(turn / 4 % 4 + 1);
                from_client += n;
                RelayEvent::Received(client[from_client - n..from_client].to_vec())
            }
            RelayStep::FillToDownstream => {
                let n = r.fill_room().min(server.len() - from_server).min(turn / 4 % 3 + 1);
                from_server += n;
                RelayEvent::Received(server[from_server - n..from_server].to_vec())
            }
            RelayStep::DrainToUpstream => {
                let p = r.pending();
                let k = p.len().min(turn / 4 % 2 + 1);
                to_upstream.extend_from_slice(&p[..k]);
                RelayEvent::Sent(k)
            }
            RelayStep::DrainToDownstream => {
                let p = r.pending();
                let k = p.len().min(turn / 4 % 5);
                to_downstream.extend_from_slice(&p[..k]);
                RelayEvent::Sent(k)
            }
        };
        assert_eq!(r.handle(event), RelayAction::Continue);
        assert_eq!(&client[..to_upstream.len()], &to_upstream[..]);
        assert_eq!(&server[..to_downstream.len()], &to_downstream[..]);
    }
    assert_eq!(to_upstream, client);
    assert_eq!(to_downstream, server);
}
