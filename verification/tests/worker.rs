use dnet_p2p::properties::DnetServiceProperties;
use dnet_p2p::udp::{UdpDiscovery, UdpMessage};
use dnet_p2p::worker::{UdpCommand, UdpWorker, WorkerAction, WorkerEvent};

fn props(instance: &str) -> DnetServiceProperties {
    DnetServiceProperties::new(false, instance.to_string(), "h".to_string(), 1, 2, "10.0.0.1".to_string())
}

const SEC: u128 = 1_000_000_000;

#[test]
fn commands_drive_the_worker() {
    let mut w = UdpWorker::new(props("me"), false, UdpDiscovery::new(None, None, None));
    assert!(matches!(w.step(WorkerEvent::Command(UdpCommand::BroadcastNow)), WorkerAction::BroadcastProperties));
    assert!(matches!(w.step(WorkerEvent::Command(UdpCommand::UpdateProperties(props("renamed")))), WorkerAction::Nothing));
    assert_eq!(w.properties().instance, "renamed");
    match w.step(WorkerEvent::Command(UdpCommand::BroadcastRemove("gone".to_string()))) {
        WorkerAction::BroadcastRemove(name) => assert_eq!(name, "gone"),
        other => panic!("unexpected {:?}", other),
    }
    assert!(matches!(w.step(WorkerEvent::Command(UdpCommand::Shutdown)), WorkerAction::Exit));
    assert!(matches!(w.step(WorkerEvent::CommandsClosed), WorkerAction::Exit));
    assert!(matches!(w.step(WorkerEvent::ReceiveFailed), WorkerAction::Backoff));
}

#[test]
fn passive_worker_never_broadcasts_properties() {
    let mut w = UdpWorker::new(props("me"), true, UdpDiscovery::new(None, None, None));
    assert!(matches!(w.step(WorkerEvent::BroadcastTick), WorkerAction::Nothing));
    assert!(matches!(w.step(WorkerEvent::Command(UdpCommand::BroadcastNow)), WorkerAction::Nothing));
    assert!(matches!(w.step(WorkerEvent::Command(UdpCommand::BroadcastRemove("me".to_string()))), WorkerAction::BroadcastRemove(_)));
}

#[test]
fn received_messages_are_handed_on_and_timed_out() {
    let mut w = UdpWorker::new(props("me"), false, UdpDiscovery::new(None, None, None));
    match w.step(WorkerEvent::Received(UdpMessage::Update(props("peer")), SEC)) {
        WorkerAction::Message(UdpMessage::Update(p)) => assert_eq!(p.instance, "peer"),
        other => panic!("unexpected {:?}", other),
    }
    assert!(matches!(w.step(WorkerEvent::CleanupTick(5 * SEC)), WorkerAction::Nothing));
    match w.step(WorkerEvent::CleanupTick(11 * SEC)) {
        WorkerAction::PeersTimedOut(names) => assert_eq!(names, vec!["peer".to_string()]),
        other => panic!("unexpected {:?}", other),
    }
    assert!(matches!(w.step(WorkerEvent::CleanupTick(11 * SEC)), WorkerAction::Nothing));
}

#[test]
fn default_settings() {
    let d = UdpDiscovery::new(None, Some("abc"), Some("7"));
    assert_eq!(d.port(), 37021);
    assert_eq!(d.broadcast_interval(), 3);
    assert_eq!(d.cleanup_interval(), 7);
    assert_eq!(d.peer_timeout(), 9);
    assert_eq!(UdpDiscovery::DEFAULT_PEER_TIMEOUT, 3 * UdpDiscovery::DEFAULT_BROADCAST_INTERVAL);
}
