use ros_slave::errors::{ServerError, TransportError};
use ros_slave::msg::MessageType;
use ros_slave::slave::Slave;

fn int32_type() -> MessageType {
    MessageType {
        name: String::from("std_msgs/Int32"),
        md5sum: String::from("da5909fbe378aeaf85e547e830cc1bb7"),
        definition: String::from("int32 data"),
    }
}

fn string_type() -> MessageType {
    MessageType {
        name: String::from("std_msgs/String"),
        md5sum: String::from("992ce8a1687cec8c8bd883ec73ca41d1"),
        definition: String::from("string data"),
    }
}

fn fresh_slave() -> Slave {
    Slave::new("http://127.0.0.1:11311/", "http://127.0.0.1:8000/", "/testnode")
}

#[test]
fn publish_then_peer_request() {
    let mut slave = fresh_slave();
    let stream = slave
        .add_publication("127.0.0.1", "/chatter", int32_type(), Ok(4545))
        .unwrap();
    assert_eq!(stream.topic, "/chatter");
    assert_eq!(stream.hostname, "127.0.0.1");
    assert_eq!(stream.port, 4545);

    let pubs = slave.get_publications();
    assert_eq!(pubs.len(), 1);
    assert_eq!(pubs[0].0, "/chatter");
    assert_eq!(pubs[0].1, "std_msgs/Int32");

    let reply = slave.request_topic("/peer", "/chatter", &vec![String::from("TCPROS")]);
    assert_eq!(reply.code, 1);
    let endpoint = reply.endpoint.unwrap();
    assert_eq!(endpoint.protocol, "TCPROS");
    assert_eq!(endpoint.host, "127.0.0.1");
    assert_eq!(endpoint.port, 4545);
    assert!(endpoint.port > 0);
}

#[test]
fn duplicate_publication_is_idempotent() {
    let mut slave = fresh_slave();
    let first = slave
        .add_publication("127.0.0.1", "/chatter", int32_type(), Ok(4545))
        .unwrap();
    let second = slave
        .add_publication("127.0.0.1", "/chatter", int32_type(), Ok(9999))
        .unwrap();
    assert_eq!(first.hostname, second.hostname);
    assert_eq!(first.port, second.port);
    assert_eq!(second.port, 4545);

    let pubs = slave.get_publications();
    assert_eq!(pubs.len(), 1);
    assert_eq!(pubs[0].0, "/chatter");
}

#[test]
fn duplicate_publication_ignores_failed_bind() {
    let mut slave = fresh_slave();
    slave
        .add_publication("127.0.0.1", "/chatter", int32_type(), Ok(4545))
        .unwrap();
    let second = slave.add_publication(
        "127.0.0.1",
        "/chatter",
        int32_type(),
        Err(TransportError { message: String::from("address already in use") }),
    );
    let stream = second.unwrap();
    assert_eq!(stream.port, 4545);
}

#[test]
fn failed_bind_leaves_table_unchanged() {
    let mut slave = fresh_slave();
    let result = slave.add_publication(
        "127.0.0.1",
        "/chatter",
        int32_type(),
        Err(TransportError { message: String::from("address already in use") }),
    );
    match result {
        Err(e) => assert_eq!(e.message, "address already in use"),
        Ok(_) => panic!("a failed bind must surface its transport error"),
    }
    assert_eq!(slave.get_publications().len(), 0);
}

#[test]
fn publication_table_tracks_adds_and_removes() {
    let mut slave = fresh_slave();
    slave
        .add_publication("127.0.0.1", "/a", int32_type(), Ok(4101))
        .unwrap();
    slave
        .add_publication("127.0.0.1", "/b", string_type(), Ok(4102))
        .unwrap();
    slave.remove_publication("/a");
    slave.remove_publication("/missing");

    let pubs = slave.get_publications();
    assert_eq!(pubs.len(), 1);
    assert_eq!(pubs[0].0, "/b");
    assert_eq!(pubs[0].1, "std_msgs/String");
    assert!(!slave.is_publishing("/a"));
    assert!(slave.is_publishing("/b"));
}

#[test]
fn duplicate_subscription_fails() {
    let mut slave = fresh_slave();
    assert!(slave.add_subscription("/t", int32_type(), 1).is_ok());
    let second = slave.add_subscription("/t", int32_type(), 2);
    match second {
        Err(ServerError::Critical(_)) => {}
        _ => panic!("a duplicate subscription must fail with a critical error"),
    }

    let subs = slave.get_subscriptions();
    assert_eq!(subs.len(), 1);
    assert_eq!(subs[0].0, "/t");
    assert_eq!(slave.deliver_target("/t"), Some(1));
}

#[test]
fn duplicate_subscription_error_text() {
    let mut slave = fresh_slave();
    slave.add_subscription("/t", int32_type(), 1).unwrap();
    let err = slave.add_subscription("/t", string_type(), 2).unwrap_err();
    assert_eq!(err.message(), "Could not add duplicate subscription to topic");
}

#[test]
fn publisher_update_additivity() {
    let mut slave = fresh_slave();
    slave.add_subscription("/t", int32_type(), 7).unwrap();

    let first = slave.add_publishers_to_subscription(
        "/t",
        &vec![String::from("http://peer1:123/")],
    );
    assert_eq!(first, vec![String::from("http://peer1:123/")]);

    let second = slave
        .publisher_update(
            "/master",
            "/t",
            &vec![String::from("http://peer1:123/"), String::from("http://peer2:456/")],
        )
        .unwrap();
    assert_eq!(second, vec![String::from("http://peer2:456/")]);
}

#[test]
fn publisher_update_dedupes_incoming_uris() {
    let mut slave = fresh_slave();
    slave.add_subscription("/t", int32_type(), 7).unwrap();
    let connect = slave.add_publishers_to_subscription(
        "/t",
        &vec![
            String::from("http://peer1:123/"),
            String::from("http://peer1:123/"),
            String::from("http://peer2:456/"),
        ],
    );
    assert_eq!(
        connect,
        vec![String::from("http://peer1:123/"), String::from("http://peer2:456/")]
    );
}

#[test]
fn publisher_update_for_unknown_topic_is_ignored() {
    let mut slave = fresh_slave();
    let connect = slave
        .publisher_update("/master", "/never", &vec![String::from("http://peer1:123/")])
        .unwrap();
    assert!(connect.is_empty());
    assert_eq!(slave.get_subscriptions().len(), 0);
}

#[test]
fn publisher_update_rejects_empty_topic() {
    let mut slave = fresh_slave();
    let result = slave.publisher_update("/master", "", &vec![String::from("http://peer1:123/")]);
    match result {
        Err(ServerError::Protocol(_)) => {}
        _ => panic!("an empty topic name must be a protocol error"),
    }
}

#[test]
fn removed_subscription_gets_nothing() {
    let mut slave = fresh_slave();
    slave.add_subscription("/t", int32_type(), 7).unwrap();
    slave
        .add_publishers_to_subscription("/t", &vec![String::from("http://peer1:123/")]);
    slave.remove_subscription("/t");

    assert_eq!(slave.deliver_target("/t"), None);
    let connect = slave
        .publisher_update("/master", "/t", &vec![String::from("http://peer2:456/")])
        .unwrap();
    assert!(connect.is_empty());
    assert_eq!(slave.get_subscriptions().len(), 0);
}

#[test]
fn unknown_topic_request_is_soft_miss() {
    let slave = fresh_slave();
    let reply = slave.request_topic("/peer", "/x", &vec![String::from("TCPROS")]);
    assert_eq!(reply.code, 0);
    assert!(reply.endpoint.is_none());
}

#[test]
fn unsupported_protocols_are_soft_miss() {
    let mut slave = fresh_slave();
    slave
        .add_publication("127.0.0.1", "/chatter", int32_type(), Ok(4545))
        .unwrap();
    let reply = slave.request_topic("/peer", "/chatter", &vec![String::from("UDPROS")]);
    assert_eq!(reply.code, 0);
    assert!(reply.endpoint.is_none());

    let mixed = slave.request_topic(
        "/peer",
        "/chatter",
        &vec![String::from("UDPROS"), String::from("TCPROS")],
    );
    assert_eq!(mixed.code, 1);
}

#[test]
fn teardown_makes_stream_handles_inert() {
    let mut slave = fresh_slave();
    let stream = slave
        .add_publication("127.0.0.1", "/chatter", int32_type(), Ok(4545))
        .unwrap();
    let copy = stream.clone();
    assert!(slave.stream_is_live(&stream));
    assert!(slave.stream_is_live(&copy));

    slave.shutdown();
    assert!(!slave.stream_is_live(&stream));
    assert!(!slave.stream_is_live(&copy));
    assert_eq!(slave.get_publications().len(), 0);
    assert_eq!(slave.get_subscriptions().len(), 0);
}

#[test]
fn removing_publication_makes_its_streams_inert() {
    let mut slave = fresh_slave();
    let stream = slave
        .add_publication("127.0.0.1", "/chatter", int32_type(), Ok(4545))
        .unwrap();
    slave.remove_publication("/chatter");
    assert!(!slave.stream_is_live(&stream));

    let revived = slave
        .add_publication("127.0.0.1", "/chatter", int32_type(), Ok(6001))
        .unwrap();
    assert!(!slave.stream_is_live(&stream));
    assert!(slave.stream_is_live(&revived));
}

#[test]
fn uri_is_constant_across_lifetime() {
    let mut slave = fresh_slave();
    assert_eq!(slave.uri(), "http://127.0.0.1:8000/");
    assert_eq!(slave.name(), "/testnode");
    assert_eq!(slave.master_uri(), "http://127.0.0.1:11311/");

    slave
        .add_publication("127.0.0.1", "/chatter", int32_type(), Ok(4545))
        .unwrap();
    slave.add_subscription("/t", int32_type(), 1).unwrap();
    slave
        .add_publishers_to_subscription("/t", &vec![String::from("http://peer1:123/")]);
    slave.remove_publication("/chatter");
    slave.remove_subscription("/t");
    assert_eq!(slave.uri(), "http://127.0.0.1:8000/");

    slave.shutdown();
    assert_eq!(slave.uri(), "http://127.0.0.1:8000/");
    assert_eq!(slave.name(), "/testnode");
}

#[test]
fn snapshots_list_both_tables() {
    let mut slave = fresh_slave();
    slave
        .add_publication("127.0.0.1", "/out", int32_type(), Ok(4545))
        .unwrap();
    slave.add_subscription("/in", string_type(), 3).unwrap();

    let pubs = slave.get_publications();
    assert_eq!(pubs, vec![(String::from("/out"), String::from("std_msgs/Int32"))]);
    let subs = slave.get_subscriptions();
    assert_eq!(subs, vec![(String::from("/in"), String::from("std_msgs/String"))]);
}
