use dnet_p2p::gossip::{publish_status, receive_status, PublishOutcome, ReceiveOutcome};

#[test]
fn publish_codes() {
    assert_eq!(publish_status(PublishOutcome::Published), 0);
    assert_eq!(publish_status(PublishOutcome::InsufficientPeers), -1);
    assert_eq!(publish_status(PublishOutcome::MessageTooLarge), -2);
    assert_eq!(publish_status(PublishOutcome::Failed), -3);
}

#[test]
fn receive_codes() {
    let mut buf = [0u8; 4];
    assert_eq!(receive_status(&ReceiveOutcome::Message(b"hi".to_vec()), &mut buf), 2);
    assert_eq!(&buf, b"hi\0\0");
    assert_eq!(receive_status(&ReceiveOutcome::Message(b"too long".to_vec()), &mut buf), -1);
    assert_eq!(&buf, b"hi\0\0");
    assert_eq!(receive_status(&ReceiveOutcome::Message(vec![]), &mut buf), 0);
    assert_eq!(receive_status(&ReceiveOutcome::Closed, &mut buf), -1);
    assert_eq!(receive_status(&ReceiveOutcome::TimedOut, &mut buf), -1);
    assert_eq!(&buf, b"hi\0\0");
}
