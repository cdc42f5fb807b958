use testbench::clients::Broadcaster;
use testbench::messages::{clear_message, export_message, packet_message, update_message};
use testbench::session::{handle, CloseReason, SessionAction, SessionEvent};

#[test]
fn messages_have_their_texts() {
    assert_eq!(
        packet_message("2024-01-02 03:04:05", "0A0B0C0D0E0F", "TEST"),
        r#"{"timestamp": "2024-01-02 03:04:05", "barcode": "0A0B0C0D0E0F", "status": "TEST"}"#
    );
    assert_eq!(
        update_message("0A0B0C0D0E0F", "2024-01-02 03:04:05", "OK"),
        r#"{"action": "update", "barcode": "0A0B0C0D0E0F", "timestamp": "2024-01-02 03:04:05", "status": "OK"}"#
    );
    assert_eq!(export_message(), r#"{"action": "export_csv"}"#);
    assert_eq!(clear_message(), r#"{"action": "clear_database"}"#);
}

#[test]
fn messages_of_different_fields_differ() {
    assert_ne!(packet_message("a", "b", "c"), packet_message("b", "a", "c"));
    assert_ne!(packet_message("a", "b", "c"), update_message("b", "a", "c"));
    assert_ne!(export_message(), clear_message());
}

#[test]
fn every_client_gets_every_message() {
    let mut b = Broadcaster::new();
    assert_eq!(b.client_count(), 0);
    assert_eq!(b.deliveries("m"), vec![]);
    b.connect(7);
    b.connect(3);
    assert_eq!(b.client_count(), 2);
    assert_eq!(b.deliveries("m"), vec![(7, "m".to_string()), (3, "m".to_string())]);
}

#[test]
fn a_client_that_left_gets_no_message() {
    let mut b = Broadcaster::new();
    b.connect(7);
    b.connect(3);
    b.connect(7);
    b.connect(5);
    b.disconnect(7);
    assert_eq!(b.deliveries("m"), vec![(3, "m".to_string()), (5, "m".to_string())]);
    b.disconnect(7);
    assert_eq!(b.client_count(), 2);
    b.connect(9);
    b.disconnect(9);
    assert_eq!(b.deliveries("m"), vec![(3, "m".to_string()), (5, "m".to_string())]);
}

#[test]
fn sessions_register_and_leave() {
    assert!(matches!(handle(SessionEvent::Started), SessionAction::Connect));
    assert!(matches!(handle(SessionEvent::Stopped), SessionAction::Disconnect));
}

#[test]
fn sessions_echo_and_pass_on() {
    match handle(SessionEvent::Text("hello".to_string())) {
        SessionAction::SendText(s) => assert_eq!(s, "hello"),
        other => panic!("{:?}", other),
    }
    match handle(SessionEvent::Broadcast("news".to_string())) {
        SessionAction::SendText(s) => assert_eq!(s, "news"),
        other => panic!("{:?}", other),
    }
    assert!(matches!(handle(SessionEvent::Other), SessionAction::Ignore));
}

#[test]
fn sessions_close_with_the_reason_of_the_client() {
    let reason = CloseReason { code: 1000, description: Some("bye".to_string()) };
    match handle(SessionEvent::Close(Some(reason))) {
        SessionAction::CloseAndStop(Some(r)) => {
            assert_eq!(r.code, 1000);
            assert_eq!(r.description, Some("bye".to_string()));
        }
        other => panic!("{:?}", other),
    }
    assert!(matches!(handle(SessionEvent::Close(None)), SessionAction::CloseAndStop(None)));
}
