use mycelium::radio::TxWindow;
use mycelium::radio_schedule::TxScheduler;

fn window(timestamp_ms: u64, airtime_ms: u32) -> TxWindow {
    TxWindow { timestamp_ms, airtime_ms }
}

#[test]
fn scheduled_transmitter_is_busy_and_overlapping_send_is_rejected() {
    let mut bus = TxScheduler::new();
    bus.register_node("alice");

    assert!(bus.broadcast("alice", 1_000, 100));
    assert!(!bus.is_send_complete("alice", 1_099));
    assert!(!bus.broadcast("alice", 1_099, 100));
    assert!(bus.is_send_complete("alice", 1_100));
    assert!(bus.broadcast("alice", 1_100, 100));
}

#[test]
fn unknown_radio_cannot_send_and_is_never_complete() {
    let mut bus = TxScheduler::new();
    assert!(!bus.broadcast("ghost", 0, 10));
    assert!(!bus.is_send_complete("ghost", 1_000));
    assert!(bus.transmissions().is_empty());

    bus.register_node("ghost");
    assert!(bus.is_send_complete("ghost", 0));
    bus.unregister_node("ghost");
    assert!(!bus.broadcast("ghost", 0, 10));
}

#[test]
fn reregistering_a_radio_makes_it_idle() {
    let mut bus = TxScheduler::new();
    bus.register_node("alice");
    assert!(bus.broadcast("alice", 1_000, 500));
    bus.register_node("alice");
    assert!(bus.is_send_complete("alice", 0));
    assert!(bus.broadcast("alice", 1_200, 10));
    assert_eq!(bus.transmissions().len(), 2);
}

#[test]
fn busy_window_end_saturates() {
    let mut bus = TxScheduler::new();
    bus.register_node("alice");
    assert!(bus.broadcast("alice", u64::MAX - 5, 100));
    assert!(!bus.is_send_complete("alice", u64::MAX - 1));
    assert!(bus.is_send_complete("alice", u64::MAX));
}

#[test]
fn packet_is_handed_over_only_at_end_of_airtime() {
    let mut bus = TxScheduler::new();
    bus.register_node("alice");
    assert!(bus.broadcast("alice", 1_000, 100));

    assert!(bus.tick(1_099).is_empty());
    let done = bus.tick(1_100);
    assert_eq!(done.len(), 1);
    assert_eq!(done[0].node_id, "alice");
    assert_eq!(done[0].window, window(1_000, 100));
    assert!(!done[0].finalized);
    // Delivered once only, and no longer needed by anything on air.
    assert!(bus.tick(5_000).is_empty());
    assert!(bus.transmissions().is_empty());
}

#[test]
fn finished_packet_is_kept_while_an_overlapping_one_is_on_air() {
    let mut bus = TxScheduler::new();
    bus.register_node("alice");
    bus.register_node("bob");
    assert!(bus.broadcast("alice", 1_000, 100));
    assert!(bus.broadcast("bob", 1_050, 100));

    let first = bus.tick(1_100);
    assert_eq!(first.len(), 1);
    assert_eq!(first[0].node_id, "alice");
    // Alice's packet overlaps Bob's, which is still on air: both stay.
    let held = bus.transmissions();
    assert_eq!(held.len(), 2);
    assert!(held[0].finalized);
    assert!(!held[1].finalized);

    let second = bus.tick(1_150);
    assert_eq!(second.len(), 1);
    assert_eq!(second[0].node_id, "bob");
    assert!(bus.transmissions().is_empty());
}

#[test]
fn finished_packet_without_overlap_is_dropped_at_once() {
    let mut bus = TxScheduler::new();
    bus.register_node("alice");
    bus.register_node("bob");
    assert!(bus.broadcast("alice", 1_000, 100));
    assert!(bus.broadcast("bob", 1_100, 100));

    let done = bus.tick(1_100);
    assert_eq!(done.len(), 1);
    // Touching intervals do not overlap, so Alice's record goes.
    let held = bus.transmissions();
    assert_eq!(held.len(), 1);
    assert_eq!(held[0].node_id, "bob");
}

#[test]
fn zero_airtime_packet_completes_at_its_start_and_overlaps_nothing() {
    let mut bus = TxScheduler::new();
    bus.register_node("alice");
    bus.register_node("bob");
    assert!(bus.broadcast("bob", 990, 100));
    assert!(bus.broadcast("alice", 1_000, 0));
    assert!(bus.is_send_complete("alice", 1_000));
    let done = bus.tick(1_000);
    assert_eq!(done.len(), 1);
    assert_eq!(done[0].node_id, "alice");
    assert_eq!(bus.transmissions().len(), 1);
}
