use mip_client::client::internals::encode_frame;
use mip_client::{
    create_client, get_frame_type_name, ClientEvent, FrameFlags, FrameType, MIPClient,
    MIPClientOptions, MIPError, PingStep,
};

fn connected_client() -> MIPClient {
    let mut c = MIPClient::new(MIPClientOptions::default().client_id("me"));
    assert!(c.begin_connect());
    c.connection_opened();
    c
}

#[test]
fn default_options() {
    let o = MIPClientOptions::default();
    assert_eq!(o.client_id, "");
    assert_eq!(o.host, "127.0.0.1");
    assert_eq!(o.port, 9000);
    assert!(o.auto_reconnect);
    assert_eq!(o.reconnect_delay_ms, 3000);
    assert_eq!(o.max_reconnect_attempts, 10);
    assert_eq!(o.ping_interval_ms, 0);
}

#[test]
fn option_builders() {
    let o = MIPClientOptions::default()
        .client_id("abc")
        .host("10.0.0.1")
        .port(1234)
        .auto_reconnect(false)
        .reconnect_delay_ms(5)
        .max_reconnect_attempts(2)
        .ping_interval_ms(30000);
    assert_eq!(o.client_id, "abc");
    assert_eq!(o.host, "10.0.0.1");
    assert_eq!(o.port, 1234);
    assert!(!o.auto_reconnect);
    assert_eq!(o.reconnect_delay_ms, 5);
    assert_eq!(o.max_reconnect_attempts, 2);
    assert_eq!(o.ping_interval_ms, 30000);
}

#[test]
fn error_texts() {
    assert_eq!(MIPError::Connection("refused".into()).describe(), "Connection error: refused");
    assert_eq!(MIPError::Io("broken pipe".into()).describe(), "IO error: broken pipe");
    assert_eq!(MIPError::NotConnected.describe(), "Client not connected");
    assert_eq!(MIPError::InvalidMagic(1234).describe(), "Invalid magic number: 1234");
    assert_eq!(MIPError::Protocol("bad".into()).describe(), "Protocol error: bad");
    assert_eq!(
        MIPError::MaxReconnectAttempts(5).describe(),
        "Max reconnection attempts (5) reached"
    );
    assert_eq!(MIPError::ServerError("no".into()).describe(), "Server error: no");
}

#[test]
fn frame_type_names() {
    assert_eq!(get_frame_type_name(FrameType::Hello), "HELLO");
    assert_eq!(get_frame_type_name(FrameType::Subscribe), "SUBSCRIBE");
    assert_eq!(get_frame_type_name(FrameType::Unsubscribe), "UNSUBSCRIBE");
    assert_eq!(get_frame_type_name(FrameType::Publish), "PUBLISH");
    assert_eq!(get_frame_type_name(FrameType::Event), "EVENT");
    assert_eq!(get_frame_type_name(FrameType::Ack), "ACK");
    assert_eq!(get_frame_type_name(FrameType::Error), "ERROR");
    assert_eq!(get_frame_type_name(FrameType::Ping), "PING");
    assert_eq!(get_frame_type_name(FrameType::Pong), "PONG");
    assert_eq!(get_frame_type_name(FrameType::Close), "CLOSE");
}

#[test]
fn new_client_is_idle() {
    let c = create_client();
    assert!(!c.is_connected());
    assert!(!c.is_running());
    assert_eq!(c.client_id(), "");
    assert_eq!(c.msg_id_counter(), 0);
    assert_eq!(c.reconnect_attempts(), 0);
    assert_eq!(c.options().port, 9000);
}

#[test]
fn sends_refused_when_not_connected() {
    let mut c = create_client();
    assert_eq!(c.subscribe("t", true, 100), Err(MIPError::NotConnected));
    assert_eq!(c.unsubscribe("t", false, 100), Err(MIPError::NotConnected));
    assert_eq!(c.publish("t", "m", FrameFlags::none(), 100), Err(MIPError::NotConnected));
    assert_eq!(c.ping(100), Err(MIPError::NotConnected));
    assert_eq!(
        c.send_raw_frame(FrameType::Event, &[1], FrameFlags::none(), 100),
        Err(MIPError::NotConnected)
    );
    assert_eq!(c.msg_id_counter(), 0);
}

#[test]
fn subscribe_builds_frame_and_counts_ids() {
    let mut c = connected_client();
    let (id, frame) = c.subscribe("news", true, 1_000).unwrap();
    assert_eq!(id, 1_000);
    assert_eq!(frame, encode_frame(FrameType::Subscribe, b"news", FrameFlags::ack_required(), 1_000));
    let (id2, frame2) = c.unsubscribe("news", false, 1_000).unwrap();
    assert_eq!(id2, 1_001);
    assert_eq!(frame2, encode_frame(FrameType::Unsubscribe, b"news", FrameFlags::none(), 1_001));
    assert_eq!(c.msg_id_counter(), 2);
}

#[test]
fn publish_and_ping_frames() {
    let mut c = connected_client();
    let (id, frame) = c.publish("t", "hello", FrameFlags::urgent(), 50).unwrap();
    assert_eq!(id, 50);
    let payload = vec![0, 1, b't', b'h', b'e', b'l', b'l', b'o'];
    assert_eq!(frame, encode_frame(FrameType::Publish, &payload, FrameFlags::urgent(), 50));
    let (pid, pframe) = c.ping(60).unwrap();
    assert_eq!(pid, 61);
    assert_eq!(pframe, encode_frame(FrameType::Ping, &[], FrameFlags::none(), 61));
}

#[test]
fn connect_steps() {
    let mut c = MIPClient::new(MIPClientOptions::default().client_id("me"));
    assert!(c.begin_connect());
    assert!(c.is_running());
    assert!(!c.is_connected());
    assert_eq!(c.connection_opened(), vec![ClientEvent::Connect]);
    assert!(c.is_connected());
    let (id, hello) = c.hello_frame(7).unwrap();
    assert_eq!(id, 7);
    assert_eq!(hello, encode_frame(FrameType::Hello, b"me", FrameFlags::none(), 7));
    assert_eq!(c.finish_connect(Ok(id)), Ok(()));
    assert_eq!(c.client_id(), "7");
    assert!(!c.begin_connect());
}

#[test]
fn failed_hello_disconnects() {
    let mut c = connected_client();
    assert_eq!(c.finish_connect(Err(MIPError::NotConnected)), Err(MIPError::NotConnected));
    assert!(!c.is_connected());
    assert!(!c.is_running());
}

#[test]
fn disconnect_steps() {
    let mut c = connected_client();
    let plan = c.begin_disconnect(5);
    assert!(plan.stop_writer);
    assert_eq!(
        plan.close_frame,
        Some(encode_frame(FrameType::Close, &[], FrameFlags::none(), 5))
    );
    assert!(!c.options().auto_reconnect);
    assert!(!c.is_running());
    assert_eq!(c.finish_disconnect(), vec![ClientEvent::Disconnect]);
    assert!(!c.is_connected());
    assert_eq!(c.finish_disconnect(), vec![]);
    assert_eq!(c.subscribe("t", true, 9), Err(MIPError::NotConnected));

    let mut idle = create_client();
    let plan = idle.begin_disconnect(5);
    assert_eq!(plan.close_frame, None);
    assert!(!plan.stop_writer);
}

#[test]
fn ping_timer() {
    let mut c = MIPClient::new(MIPClientOptions::default().ping_interval_ms(250));
    assert_eq!(c.ping_interval(), Some(250));
    assert_eq!(c.ping_tick(1), PingStep::Stop);
    assert!(c.begin_connect());
    c.connection_opened();
    assert_eq!(
        c.ping_tick(10),
        PingStep::Send(encode_frame(FrameType::Ping, &[], FrameFlags::none(), 10))
    );
    c.stop();
    assert_eq!(c.ping_tick(11), PingStep::Stop);
    assert_eq!(create_client().ping_interval(), None);
}

#[test]
fn reconnection_attempts_up_to_the_maximum() {
    let mut c = MIPClient::new(MIPClientOptions::default().max_reconnect_attempts(2).reconnect_delay_ms(40));
    assert!(c.begin_connect());
    c.connection_opened();
    let lost = c.connection_lost();
    assert_eq!(lost.events, vec![ClientEvent::Disconnect, ClientEvent::Reconnecting(1)]);
    assert_eq!(lost.retry_delay_ms, Some(40));
    assert!(!c.is_connected());
    let lost = c.connection_lost();
    assert_eq!(lost.events, vec![ClientEvent::Reconnecting(2)]);
    let lost = c.connection_lost();
    assert_eq!(lost.events, vec![ClientEvent::Error(MIPError::MaxReconnectAttempts(2))]);
    assert_eq!(lost.retry_delay_ms, None);
    c.connection_opened();
    assert_eq!(c.reconnect_attempts(), 0);
}

#[test]
fn no_reconnection_when_off_or_stopped() {
    let mut c = MIPClient::new(MIPClientOptions::default().auto_reconnect(false));
    assert!(c.begin_connect());
    c.connection_opened();
    let lost = c.connection_lost();
    assert_eq!(lost.events, vec![ClientEvent::Disconnect]);
    assert_eq!(lost.retry_delay_ms, None);

    let mut c = connected_client();
    c.stop();
    let lost = c.connection_lost();
    assert_eq!(lost.events, vec![ClientEvent::Disconnect]);
    assert_eq!(c.reconnect_attempts(), 0);
}

#[test]
fn unlimited_reconnection_with_zero_maximum() {
    let mut c = MIPClient::new(MIPClientOptions::default().max_reconnect_attempts(0));
    assert!(c.begin_connect());
    for n in 1..=20u32 {
        let lost = c.connection_lost();
        assert_eq!(lost.events, vec![ClientEvent::Reconnecting(n)]);
    }
}

#[test]
fn published_message_is_delivered_to_a_reader() {
    let mut c = connected_client();
    let (_, mut frame) = c.publish("chat/1", "salut ✓", FrameFlags::none(), 3).unwrap();
    let events = mip_client::client::internals::handle_data(&mut frame);
    assert_eq!(events.len(), 2);
    match &events[1] {
        ClientEvent::Message(m) => {
            assert_eq!(m.topic, "chat/1");
            assert_eq!(m.message, "salut ✓");
            assert_eq!(m.header.msg_id, 3);
        }
        other => panic!("unexpected event {:?}", other),
    }
}

#[test]
fn disconnect_reports_once_when_loss_seen_first() {
    let mut c = connected_client();
    let _ = c.begin_disconnect(5);
    let lost = c.connection_lost();
    assert_eq!(lost.events, vec![ClientEvent::Disconnect]);
    assert_eq!(lost.retry_delay_ms, None);
    assert_eq!(c.finish_disconnect(), vec![]);
}

#[test]
fn raw_frames_match_publish_and_ping() {
    let mut a = connected_client();
    let mut b = connected_client();
    let raw_payload = vec![0, 2, b'h', b'i', b'y', b'o'];
    assert_eq!(
        a.publish("hi", "yo", FrameFlags::urgent(), 40),
        b.send_raw_frame(FrameType::Publish, &raw_payload, FrameFlags::urgent(), 40)
    );
    assert_eq!(a.ping(41), b.send_raw_frame(FrameType::Ping, &[], FrameFlags::none(), 41));
    assert_eq!(a.msg_id_counter(), b.msg_id_counter());
}

#[test]
fn read_failure_reports_io_error() {
    assert_eq!(
        mip_client::client::internals::read_error_events("connection reset".to_string()),
        vec![ClientEvent::Error(MIPError::Io("connection reset".to_string()))]
    );
}
