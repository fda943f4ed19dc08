use dnet_p2p::properties::DnetServiceProperties;
use dnet_p2p::service::{DnetService, ServiceAction, ServiceEvent};
use dnet_p2p::udp::{UdpDiscovery, UdpMessage};

fn props(instance: &str, is_manager: bool) -> DnetServiceProperties {
    DnetServiceProperties::new(
        is_manager,
        instance.to_string(),
        "127.0.0.1".to_string(),
        8080,
        50501,
        "192.168.1.2".to_string(),
    )
}

fn service(instance: &str, is_manager: bool, is_passive: bool) -> DnetService {
    DnetService::new(props(instance, is_manager), is_passive, UdpDiscovery::new(None, None, None))
}

const SEC: u128 = 1_000_000_000;

#[test]
fn peer_announcement_is_stored() {
    let mut svc = service("me", false, false);
    svc.handle_udp_announcement(props("peer", false));
    let stored = svc.peer_props().get(&"peer".to_string()).unwrap();
    assert_eq!(stored.instance, "peer");
    assert_eq!(svc.peer_props().len(), 1);
}

#[test]
fn own_announcement_stores_own_properties() {
    let mut svc = service("me", false, false);
    svc.set_is_busy(true);
    let mut echo = props("me", false);
    echo.host = "10.0.0.9".to_string();
    svc.handle_udp_announcement(echo);
    let stored = svc.peer_props().get(&"me".to_string()).unwrap();
    assert_eq!(stored.host, "127.0.0.1");
    assert!(stored.is_busy);
}

#[test]
fn passive_service_stores_peer_with_own_name() {
    let mut svc = service("me", false, true);
    let mut other = props("me", false);
    other.host = "10.0.0.9".to_string();
    svc.handle_udp_announcement(other);
    assert_eq!(svc.peer_props().get(&"me".to_string()).unwrap().host, "10.0.0.9");
}

#[test]
fn manager_ignores_other_manager() {
    let mut svc = service("boss", true, false);
    svc.handle_udp_announcement(props("rival", true));
    assert_eq!(svc.peer_props().len(), 0);
    svc.handle_udp_announcement(props("worker", false));
    assert_eq!(svc.peer_props().len(), 1);
}

#[test]
fn worker_stores_manager() {
    let mut svc = service("w", false, false);
    svc.handle_udp_announcement(props("boss", true));
    assert!(svc.peer_props().get(&"boss".to_string()).unwrap().is_manager);
}

#[test]
fn set_is_busy_changes_status() {
    let mut svc = service("me", false, false);
    assert!(!svc.properties().is_busy);
    svc.set_is_busy(true);
    assert!(svc.properties().is_busy);
    svc.set_is_busy(true);
    assert!(svc.properties().is_busy);
    svc.set_is_busy(false);
    assert!(!svc.properties().is_busy);
}

#[test]
fn passive_service_keeps_busy_status() {
    let mut svc = service("me", false, true);
    svc.set_is_busy(true);
    assert!(!svc.properties().is_busy);
}

#[test]
fn broadcast_tick_depends_on_passivity() {
    let mut active = service("a", false, false);
    assert!(matches!(active.step(ServiceEvent::BroadcastTick), ServiceAction::BroadcastProperties));
    let mut passive = service("p", false, true);
    assert!(matches!(passive.step(ServiceEvent::BroadcastTick), ServiceAction::Continue));
}

#[test]
fn cancellation_stops() {
    let mut svc = service("a", false, false);
    assert!(matches!(svc.step(ServiceEvent::Cancelled), ServiceAction::Stop));
}

#[test]
fn stale_peers_are_dropped_on_cleanup() {
    let mut svc = service("me", false, false);
    svc.step(ServiceEvent::Message(UdpMessage::Update(props("a", false)), 0));
    svc.step(ServiceEvent::Message(UdpMessage::Update(props("b", false)), 5 * SEC));
    assert_eq!(svc.peer_props().len(), 2);
    // default timeout is 9 s: at 10 s "a" is stale, "b" is not
    svc.step(ServiceEvent::CleanupTick(10 * SEC));
    assert!(!svc.peer_props().contains_key(&"a".to_string()));
    assert!(svc.peer_props().contains_key(&"b".to_string()));
    // exactly 9 s after "b" it is still kept
    svc.step(ServiceEvent::CleanupTick(14 * SEC));
    assert!(svc.peer_props().contains_key(&"b".to_string()));
    svc.step(ServiceEvent::CleanupTick(14 * SEC + 1));
    assert_eq!(svc.peer_props().len(), 0);
}

#[test]
fn remove_message_forgets_peer() {
    let mut svc = service("me", false, false);
    svc.step(ServiceEvent::Message(UdpMessage::Update(props("a", false)), 0));
    svc.step(ServiceEvent::Message(UdpMessage::Remove("a".to_string()), 1));
    assert_eq!(svc.peer_props().len(), 0);
}

#[test]
fn peer_timeout_setting_is_used() {
    let mut svc = DnetService::new(props("me", false), false, UdpDiscovery::new(Some("1"), None, None));
    svc.step(ServiceEvent::Message(UdpMessage::Update(props("a", false)), 0));
    svc.step(ServiceEvent::CleanupTick(2 * SEC));
    assert_eq!(svc.peer_props().len(), 0);
}
