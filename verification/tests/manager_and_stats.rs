use telepathy::manager::{
    classify_locality, on_connection_established, route_incoming_stream, select_best_connection,
    stays_dialer, BringUp, BringUpEvent, BringUpStep, ConnectionDecision, ConnectionState,
    IpAddress, Locality, PeerState,
};
use telepathy::output::{output_accounting, output_step, OutputStep};
use telepathy::peer::PeerId;
use telepathy::processing::{samples_to_bytes, ProcessorMessage, FRAME_SIZE};
use telepathy::relay::{RelayEvent, RelayNode, RelayStep};
use telepathy::stats::{final_statistics, LevelWindow, StatisticsCollector};

fn conn(id: u64, relayed: bool, latency_ms: Option<u64>) -> ConnectionState {
    ConnectionState { id, latency_ms, relayed, remote_address: None, retries: 0 }
}

#[test]
fn localities_classify_by_address_range() {
    assert_eq!(classify_locality(&Some(IpAddress::V4(127, 0, 0, 1))), Locality::Loopback);
    assert_eq!(classify_locality(&Some(IpAddress::V4(10, 1, 2, 3))), Locality::Lan);
    assert_eq!(classify_locality(&Some(IpAddress::V4(172, 16, 0, 1))), Locality::Lan);
    assert_eq!(classify_locality(&Some(IpAddress::V4(172, 32, 0, 1))), Locality::Public);
    assert_eq!(classify_locality(&Some(IpAddress::V4(192, 168, 1, 1))), Locality::Lan);
    assert_eq!(classify_locality(&Some(IpAddress::V4(169, 254, 0, 1))), Locality::Lan);
    assert_eq!(classify_locality(&Some(IpAddress::V4(8, 8, 8, 8))), Locality::Public);

    let mut v6 = [0u8; 16];
    v6[15] = 1;
    assert_eq!(classify_locality(&Some(IpAddress::V6(v6))), Locality::Loopback);
    let mut ula = [0u8; 16];
    ula[0] = 0xfd;
    assert_eq!(classify_locality(&Some(IpAddress::V6(ula))), Locality::Lan);
    let mut ll = [0u8; 16];
    ll[0] = 0xfe;
    ll[1] = 0x80;
    assert_eq!(classify_locality(&Some(IpAddress::V6(ll))), Locality::Lan);
    let mut public = [0u8; 16];
    public[0] = 0x20;
    assert_eq!(classify_locality(&Some(IpAddress::V6(public))), Locality::Public);
    assert_eq!(classify_locality(&None), Locality::Unknown);
}

#[test]
fn selection_prefers_direct_over_relayed() {
    // The relayed connection is faster, but direct still wins.
    let conns = vec![conn(1, true, Some(5)), conn(2, false, Some(80))];
    assert_eq!(select_best_connection(&conns), Some(1));
}

#[test]
fn selection_prefers_lower_latency_within_a_class() {
    let conns = vec![conn(1, false, Some(80)), conn(2, false, Some(20)), conn(3, false, None)];
    assert_eq!(select_best_connection(&conns), Some(1));
}

#[test]
fn selection_prefers_nearer_addresses() {
    let mut lan = conn(1, false, Some(50));
    lan.remote_address = Some(IpAddress::V4(192, 168, 1, 9));
    let mut wan = conn(2, false, Some(5));
    wan.remote_address = Some(IpAddress::V4(8, 8, 8, 8));
    assert_eq!(select_best_connection(&vec![wan, lan]), Some(1));
}

#[test]
fn selection_breaks_full_ties_deterministically() {
    let conns = vec![conn(7, false, Some(10)), conn(3, false, Some(10))];
    assert_eq!(select_best_connection(&conns), Some(1));
    assert_eq!(select_best_connection(&Vec::new()), None);
}

#[test]
fn peer_state_gates_selection_on_latencies_and_relay() {
    let mut state = PeerState::dialer();
    assert!(!state.ready_to_select());
    state.connections.push(conn(1, true, None));
    assert!(state.latencies_missing());
    assert!(!state.ready_to_select());
    assert!(state.record_latency(1, 42));
    assert!(!state.record_latency(9, 42));
    assert!(!state.latencies_missing());
    // All candidates are relayed and hole punching has not failed yet.
    assert!(state.relayed_only());
    assert!(!state.ready_to_select());
    state.dcutr_failed = true;
    assert!(state.ready_to_select());
    // A direct candidate makes the set selectable without the fallback.
    state.dcutr_failed = false;
    state.connections.push(conn(2, false, Some(7)));
    assert!(!state.relayed_only());
    assert!(state.ready_to_select());
}

#[test]
fn removing_connections_empties_the_peer_state() {
    let mut state = PeerState::non_dialer(conn(1, false, None));
    state.connections.push(conn(2, true, None));
    assert!(!state.remove_connection(1));
    assert!(state.remove_connection(2));
    assert_eq!(state.connections.len(), 0);
}

#[test]
fn the_larger_peer_stays_the_dialer() {
    let small = PeerId::from_bytes(vec![1, 0]);
    let large = PeerId::from_bytes(vec![2, 0]);
    assert!(stays_dialer(&large, &small));
    assert!(!stays_dialer(&small, &large));
}

#[test]
fn new_connections_route_by_peer_standing() {
    assert_eq!(
        on_connection_established(true, false, true, false, None, true, false),
        ConnectionDecision::IgnoreRelay
    );
    assert_eq!(
        on_connection_established(false, true, true, false, None, true, false),
        ConnectionDecision::IgnoreExistingSession
    );
    assert_eq!(
        on_connection_established(false, false, false, false, None, true, false),
        ConnectionDecision::DisconnectUnknown
    );
    assert_eq!(
        on_connection_established(false, false, false, true, None, true, false),
        ConnectionDecision::TrackNewNonDialer
    );
    assert_eq!(
        on_connection_established(false, false, true, false, Some(true), true, true),
        ConnectionDecision::TrackConnection { switch_to_non_dialer: true }
    );
    assert_eq!(
        on_connection_established(false, false, true, false, Some(true), false, true),
        ConnectionDecision::TrackConnection { switch_to_non_dialer: false }
    );
    assert_eq!(
        on_connection_established(false, false, true, false, None, false, false),
        ConnectionDecision::Ignore
    );
}

#[test]
fn relay_advertises_the_last_observed_address() {
    let mut relay = RelayNode::new();
    match relay.handle(RelayEvent::IdentifyReceived { observed_addr: vec![1, 2, 3] }) {
        RelayStep::AddExternalAddress(a) => assert_eq!(a, vec![1, 2, 3]),
        _ => panic!("expected an external address"),
    }
    assert!(matches!(relay.handle(RelayEvent::Other), RelayStep::Ignore));
    assert!(matches!(
        relay.handle(RelayEvent::NewListenAddr { addr: vec![9] }),
        RelayStep::LogListenAddress(_)
    ));
    match relay.handle(RelayEvent::IdentifyReceived { observed_addr: vec![7, 7] }) {
        RelayStep::AddExternalAddress(a) => assert_eq!(a, vec![7, 7]),
        _ => panic!("expected an external address"),
    }
}

#[test]
fn level_window_reports_a_share_of_its_maximum() {
    let mut w = LevelWindow::new();
    assert_eq!(w.level_from_window(0), 0);
    assert_eq!(w.level_from_window(200), 1000);
    assert_eq!(w.level_from_window(50), 250);
    // Below one percent of the maximum the level is squelched to zero.
    assert_eq!(w.level_from_window(1), 0);
    w.decay();
    assert_eq!(w.level_from_window(100), 1000);
}

#[test]
fn collector_ticks_snapshot_the_counters() {
    let mut c = StatisticsCollector::new();
    let s = c.tick(120, 60, 35, 9_000, 8_000, 480);
    assert_eq!(s.input_level, 1000);
    assert_eq!(s.output_level, 1000);
    assert_eq!(s.latency, 35);
    assert_eq!(s.upload_bandwidth, 9_000);
    assert_eq!(s.download_bandwidth, 8_000);
    assert_eq!(s.loss, 480);
    let s = c.tick(60, 30, 35, 9_000, 8_000, 0);
    assert_eq!(s.input_level, 500);
    assert_eq!(s.output_level, 500);
    assert_eq!(final_statistics().input_level, 0);
    assert_eq!(final_statistics().loss, 0);
}

#[test]
fn output_processor_decides_per_frame() {
    let frame = vec![7i16; FRAME_SIZE];
    let msg = ProcessorMessage::Samples(frame.clone());
    assert!(matches!(output_step(true, false, msg.clone()), OutputStep::Skip));
    assert!(matches!(output_step(false, true, msg.clone()), OutputStep::CountLoss));
    match output_step(false, false, msg) {
        OutputStep::Play(s) => assert_eq!(s, frame),
        _ => panic!("expected playback"),
    }
    // Wire bytes decode back to the same samples.
    match output_step(false, false, ProcessorMessage::Data(samples_to_bytes(&frame))) {
        OutputStep::Play(s) => assert_eq!(s, frame),
        _ => panic!("expected playback"),
    }
    // A wrong-sized frame is dropped without loss.
    let bad = ProcessorMessage::Samples(vec![7i16; 100]);
    let step = output_step(false, false, bad);
    assert!(matches!(step, OutputStep::DropBadLength));
    assert_eq!(output_accounting(&step, 10), 10);
    assert_eq!(output_accounting(&OutputStep::CountLoss, 10), 490);
}

#[test]
fn bring_up_completes_after_both_identify_exchanges() {
    let mut b = BringUp::new();
    assert_eq!(b.on_event(&BringUpEvent::Benign), BringUpStep::Waiting);
    assert_eq!(b.on_event(&BringUpEvent::IdentifySent), BringUpStep::Waiting);
    assert_eq!(b.on_event(&BringUpEvent::Benign), BringUpStep::Waiting);
    assert_eq!(b.on_event(&BringUpEvent::IdentifyReceived), BringUpStep::Complete);

    let mut b = BringUp::new();
    assert_eq!(b.on_event(&BringUpEvent::Unexpected), BringUpStep::Failed);

    // Sub-streams reach a session only while it wants one.
    assert!(route_incoming_stream(true, true));
    assert!(!route_incoming_stream(true, false));
    assert!(!route_incoming_stream(false, true));
}
