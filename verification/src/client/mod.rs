//! The client: its connection state machine, events and frame handling.
//!
//! [`MIPClient`] holds the client's state as plain values and decides, step by step, what
//! the connection should do; the caller performs the network work (connecting, sending the
//! frames it is handed, sleeping) and reports back.
use vstd::prelude::*;
use vstd::string::*;

use crate::protocol::header::{FrameFlags, FrameType, Header};
use crate::text::{decimal, decimal_string};
use internals::{
    lemma_outgoing_frame_fields,
    build_header, build_publish_payload, encode_frame, lemma_drain_one_frame, lemma_parse_published,
    outgoing_frame, publish_payload, spec_build_header, spec_drain, spec_item_events,
    spec_items_events, StreamItemView,
};
use types::MessageView;
use types::{ErrorView, OptionsView};

pub mod events;
pub mod internals;
pub mod types;

pub use events::{ClientEvent, EventView};
pub use types::{MIPClientOptions, MIPError, MIPMessage, MIPResult};

verus! {

// ============================================================================
// MIP Client
// ============================================================================

/// The state of a MIP client connection.
pub struct MIPClient {
    client_id: String,
    options: MIPClientOptions,
    connected: bool,
    running: bool,
    msg_id_counter: u64,
    reconnect_attempts: u64,
    channel_open: bool,
}

/// The mathematical value of a [`MIPClient`].
pub struct ClientView {
    /// The client id: from the options at first, then the id of the HELLO message.
    pub client_id: Seq<char>,
    pub options: OptionsView,
    /// Whether the connection is up.
    pub connected: bool,
    /// Whether the client is meant to keep running (set on connect, cleared on disconnect).
    pub running: bool,
    /// How many message ids have been handed out (wrapping).
    pub msg_id_counter: u64,
    /// How many reconnections have been scheduled since the last successful connect (wrapping).
    pub reconnect_attempts: u64,
    /// Whether there is a channel to the sending side of the connection.
    pub channel_open: bool,
}

impl View for MIPClient {
    type V = ClientView;

    closed spec fn view(&self) -> ClientView {
        ClientView {
            client_id: self.client_id@,
            options: self.options@,
            connected: self.connected,
            running: self.running,
            msg_id_counter: self.msg_id_counter,
            reconnect_attempts: self.reconnect_attempts,
            channel_open: self.channel_open,
        }
    }
}

/// The counter value after one more id was handed out.
pub open spec fn next_count(c: u64) -> u64 {
    if c == u64::MAX {
        0
    } else {
        (c + 1) as u64
    }
}

/// Whether a frame can be handed to the connection.
pub open spec fn can_send(s: ClientView) -> bool {
    s.channel_open && s.connected
}

/// Whether the id of a frame sent now fits in 64 bits.
pub open spec fn id_fits(s: ClientView, timestamp_micros: u64) -> bool {
    timestamp_micros + s.msg_id_counter <= u64::MAX
}

/// What sending a frame gives: `NotConnected` (and no change) when there is no channel or no
/// connection; otherwise the new message id (the timestamp plus the counter) and the frame's
/// bytes, with the counter advanced.
pub open spec fn send_outcome(
    s: ClientView,
    frame_type: FrameType,
    payload: Seq<u8>,
    flags: FrameFlags,
    timestamp_micros: u64,
) -> (Result<(u64, Seq<u8>), ErrorView>, ClientView) {
    if !can_send(s) {
        (Err(ErrorView::NotConnected), s)
    } else {
        let id = (timestamp_micros + s.msg_id_counter) as u64;
        (
            Ok((id, outgoing_frame(frame_type, payload, flags, id))),
            ClientView { msg_id_counter: next_count(s.msg_id_counter), ..s },
        )
    }
}

/// The view of a send result.
pub open spec fn send_result_view(r: MIPResult<(u64, Vec<u8>)>) -> Result<(u64, Seq<u8>), ErrorView> {
    match r {
        Ok((id, frame)) => Ok((id, frame@)),
        Err(e) => Err(e@),
    }
}

/// The flags of a subscription request.
pub open spec fn ack_flags(require_ack: bool) -> FrameFlags {
    if require_ack {
        FrameFlags { bits: 1 }
    } else {
        FrameFlags { bits: 0 }
    }
}

fn flags_for(require_ack: bool) -> (f: FrameFlags)
    ensures
        f == ack_flags(require_ack),
{
    if require_ack {
        FrameFlags::ack_required()
    } else {
        FrameFlags::none()
    }
}

/// What the caller does to take the connection down.
#[derive(Debug, PartialEq, Eq)]
pub struct DisconnectPlan {
    /// A CLOSE frame to send first, if any.
    pub close_frame: Option<Vec<u8>>,
    /// Whether to tell the sending side to flush and shut down.
    pub stop_writer: bool,
}

/// What the ping timer does on a tick.
#[derive(Debug, PartialEq, Eq)]
pub enum PingStep {
    /// The client is no longer connected or running: the timer stops.
    Stop,
    /// Send this PING frame.
    Send(Vec<u8>),
}

/// What follows the loss of the connection: events to report, and the delay before the
/// reconnection attempt if one is scheduled.
#[derive(Debug, PartialEq, Eq)]
pub struct LostOutcome {
    pub events: Vec<ClientEvent>,
    pub retry_delay_ms: Option<u64>,
}

/// The events that ending the connection on request reports: a disconnect when the
/// connection was up.
pub open spec fn disconnect_events(s: ClientView) -> Seq<EventView> {
    if s.connected {
        seq![EventView::Disconnect]
    } else {
        seq![]
    }
}

/// Whether a connection loss schedules a reconnection attempt.
pub open spec fn retries(s: ClientView) -> bool {
    s.options.auto_reconnect && s.running
}

/// The number of the reconnection attempt a connection loss schedules.
pub open spec fn attempt_number(s: ClientView) -> int {
    (s.reconnect_attempts as u32) + 1
}

/// Whether that attempt is within the allowed number (0 allows any number).
pub open spec fn attempt_allowed(s: ClientView) -> bool {
    s.options.max_reconnect_attempts == 0 || attempt_number(s) <= s.options.max_reconnect_attempts
}

/// The events a connection loss reports: a disconnect if the connection was up; then, when
/// reconnection is on and the client runs, either the attempt's number or, past the maximum,
/// a `MaxReconnectAttempts` error.
pub open spec fn lost_events(s: ClientView) -> Seq<EventView> {
    let first: Seq<EventView> = if s.connected {
        seq![EventView::Disconnect]
    } else {
        seq![]
    };
    if retries(s) {
        if attempt_allowed(s) {
            first + seq![EventView::Reconnecting(attempt_number(s) as u32)]
        } else {
            first + seq![
                EventView::Error(ErrorView::MaxReconnectAttempts(s.options.max_reconnect_attempts)),
            ]
        }
    } else {
        first
    }
}

/// The state after a connection loss.
pub open spec fn lost_state(s: ClientView) -> ClientView {
    ClientView {
        connected: false,
        reconnect_attempts: if retries(s) {
            next_count(s.reconnect_attempts)
        } else {
            s.reconnect_attempts
        },
        ..s
    }
}

impl MIPClient {
    /// A client with the given options, not connected.
    pub fn new(options: MIPClientOptions) -> (c: Self)
        ensures
            c@ == (ClientView {
                client_id: options@.client_id,
                options: options@,
                connected: false,
                running: false,
                msg_id_counter: 0,
                reconnect_attempts: 0,
                channel_open: false,
            }),
    {
        let client_id = options.client_id.clone();
        MIPClient {
            client_id,
            options,
            connected: false,
            running: false,
            msg_id_counter: 0,
            reconnect_attempts: 0,
            channel_open: false,
        }
    }

    /// Check if the client is connected
    pub fn is_connected(&self) -> (r: bool)
        ensures
            r == self@.connected,
    {
        self.connected
    }

    /// Whether the client is meant to keep running.
    pub fn is_running(&self) -> (r: bool)
        ensures
            r == self@.running,
    {
        self.running
    }

    /// The client's options.
    pub fn options(&self) -> (o: &MIPClientOptions)
        ensures
            o@ == self@.options,
    {
        &self.options
    }

    /// The client's id.
    pub fn client_id(&self) -> (id: &String)
        ensures
            id@ == self@.client_id,
    {
        &self.client_id
    }

    /// Whether there is a channel to the sending side of the connection.
    pub fn has_channel(&self) -> (r: bool)
        ensures
            r == self@.channel_open,
    {
        self.channel_open
    }

    /// How many message ids have been handed out.
    pub fn msg_id_counter(&self) -> (c: u64)
        ensures
            c == self@.msg_id_counter,
    {
        self.msg_id_counter
    }

    /// How many reconnections have been scheduled since the last successful connect.
    pub fn reconnect_attempts(&self) -> (n: u64)
        ensures
            n == self@.reconnect_attempts,
    {
        self.reconnect_attempts
    }

    /// Builds a frame to hand to the connection, with a new message id made from the
    /// current time in microseconds. Fails with `NotConnected` when there is no channel to the
    /// connection or the client is not connected.
    pub fn send_frame(
        &mut self,
        frame_type: FrameType,
        payload: &[u8],
        flags: FrameFlags,
        timestamp_micros: u64,
    ) -> (r: MIPResult<(u64, Vec<u8>)>)
        requires
            can_send(old(self)@) ==> id_fits(old(self)@, timestamp_micros),
        ensures
            send_result_view(r) == send_outcome(
                old(self)@,
                frame_type,
                payload@,
                flags,
                timestamp_micros,
            ).0,
            final(self)@ == send_outcome(
                old(self)@,
                frame_type,
                payload@,
                flags,
                timestamp_micros,
            ).1,
    {
        if !self.channel_open {
            return Err(MIPError::NotConnected);
        }
        if !self.connected {
            return Err(MIPError::NotConnected);
        }
        let msg_id = internals::generate_msg_id(self.msg_id_counter, timestamp_micros);
        self.msg_id_counter = if self.msg_id_counter == u64::MAX {
            0
        } else {
            self.msg_id_counter + 1
        };
        let frame = encode_frame(frame_type, payload, flags, msg_id);
        Ok((msg_id, frame))
    }

    /// Subscribe to a topic
    pub fn subscribe(&mut self, topic: &str, require_ack: bool, timestamp_micros: u64) -> (r:
        MIPResult<(u64, Vec<u8>)>)
        requires
            can_send(old(self)@) ==> id_fits(old(self)@, timestamp_micros),
        ensures
            send_result_view(r) == send_outcome(
                old(self)@,
                FrameType::Subscribe,
                topic.spec_bytes(),
                ack_flags(require_ack),
                timestamp_micros,
            ).0,
            final(self)@ == send_outcome(
                old(self)@,
                FrameType::Subscribe,
                topic.spec_bytes(),
                ack_flags(require_ack),
                timestamp_micros,
            ).1,
    {
        let flags = flags_for(require_ack);
        self.send_frame(FrameType::Subscribe, topic.as_bytes(), flags, timestamp_micros)
    }

    /// Unsubscribe from a topic
    pub fn unsubscribe(&mut self, topic: &str, require_ack: bool, timestamp_micros: u64) -> (r:
        MIPResult<(u64, Vec<u8>)>)
        requires
            can_send(old(self)@) ==> id_fits(old(self)@, timestamp_micros),
        ensures
            send_result_view(r) == send_outcome(
                old(self)@,
                FrameType::Unsubscribe,
                topic.spec_bytes(),
                ack_flags(require_ack),
                timestamp_micros,
            ).0,
            final(self)@ == send_outcome(
                old(self)@,
                FrameType::Unsubscribe,
                topic.spec_bytes(),
                ack_flags(require_ack),
                timestamp_micros,
            ).1,
    {
        let flags = flags_for(require_ack);
        self.send_frame(FrameType::Unsubscribe, topic.as_bytes(), flags, timestamp_micros)
    }

    /// Publish a message to a topic
    pub fn publish(&mut self, topic: &str, message: &str, flags: FrameFlags, timestamp_micros: u64) -> (r:
        MIPResult<(u64, Vec<u8>)>)
        requires
            can_send(old(self)@) ==> id_fits(old(self)@, timestamp_micros),
        ensures
            send_result_view(r) == send_outcome(
                old(self)@,
                FrameType::Publish,
                publish_payload(topic.spec_bytes(), message.spec_bytes()),
                flags,
                timestamp_micros,
            ).0,
            final(self)@ == send_outcome(
                old(self)@,
                FrameType::Publish,
                publish_payload(topic.spec_bytes(), message.spec_bytes()),
                flags,
                timestamp_micros,
            ).1,
    {
        let payload = build_publish_payload(topic, message);
        self.send_frame(FrameType::Publish, payload.as_slice(), flags, timestamp_micros)
    }

    /// Send a ping to the server
    pub fn ping(&mut self, timestamp_micros: u64) -> (r: MIPResult<(u64, Vec<u8>)>)
        requires
            can_send(old(self)@) ==> id_fits(old(self)@, timestamp_micros),
        ensures
            send_result_view(r) == send_outcome(
                old(self)@,
                FrameType::Ping,
                Seq::<u8>::empty(),
                FrameFlags { bits: 0 },
                timestamp_micros,
            ).0,
            final(self)@ == send_outcome(
                old(self)@,
                FrameType::Ping,
                Seq::<u8>::empty(),
                FrameFlags { bits: 0 },
                timestamp_micros,
            ).1,
    {
        let empty: Vec<u8> = Vec::new();
        assert(empty@ =~= Seq::<u8>::empty());
        self.send_frame(FrameType::Ping, empty.as_slice(), FrameFlags::none(), timestamp_micros)
    }

    /// Send raw frame (advanced usage)
    pub fn send_raw_frame(
        &mut self,
        frame_type: FrameType,
        payload: &[u8],
        flags: FrameFlags,
        timestamp_micros: u64,
    ) -> (r: MIPResult<(u64, Vec<u8>)>)
        requires
            can_send(old(self)@) ==> id_fits(old(self)@, timestamp_micros),
        ensures
            send_result_view(r) == send_outcome(
                old(self)@,
                frame_type,
                payload@,
                flags,
                timestamp_micros,
            ).0,
            final(self)@ == send_outcome(
                old(self)@,
                frame_type,
                payload@,
                flags,
                timestamp_micros,
            ).1,
    {
        self.send_frame(frame_type, payload, flags, timestamp_micros)
    }
}

impl MIPClient {
    /// First step of connecting: when already connected there is nothing to do (`false`);
    /// otherwise the client is marked running and the caller opens the connection (`true`).
    pub fn begin_connect(&mut self) -> (proceed: bool)
        ensures
            proceed == !old(self)@.connected,
            proceed ==> final(self)@ == (ClientView { running: true, ..old(self)@ }),
            !proceed ==> final(self)@ == old(self)@,
    {
        if self.connected {
            return false;
        }
        self.running = true;
        true
    }

    /// The connection is open and a channel to its sending side exists: the client is
    /// connected, its reconnection count starts over, and a connect is reported (before the
    /// HELLO frame is sent).
    pub fn connection_opened(&mut self) -> (events: Vec<ClientEvent>)
        ensures
            final(self)@ == (ClientView {
                channel_open: true,
                connected: true,
                reconnect_attempts: 0,
                ..old(self)@
            }),
            events::events_view(events@) == seq![EventView::Connect],
    {
        self.channel_open = true;
        self.connected = true;
        self.reconnect_attempts = 0;
        let mut events: Vec<ClientEvent> = Vec::new();
        events.push(ClientEvent::Connect);
        assert(events::events_view(events@) =~= seq![EventView::Connect]);
        events
    }

    /// The HELLO frame that introduces the client, carrying the configured client id.
    pub fn hello_frame(&mut self, timestamp_micros: u64) -> (r: MIPResult<(u64, Vec<u8>)>)
        requires
            can_send(old(self)@) ==> id_fits(old(self)@, timestamp_micros),
        ensures
            send_result_view(r) == send_outcome(
                old(self)@,
                FrameType::Hello,
                vstd::utf8::encode_utf8(old(self)@.options.client_id),
                FrameFlags { bits: 0 },
                timestamp_micros,
            ).0,
            final(self)@ == send_outcome(
                old(self)@,
                FrameType::Hello,
                vstd::utf8::encode_utf8(old(self)@.options.client_id),
                FrameFlags { bits: 0 },
                timestamp_micros,
            ).1,
    {
        let client_id = self.options.client_id.clone();
        let payload = client_id.as_str().as_bytes();
        self.send_frame(FrameType::Hello, payload, FrameFlags::none(), timestamp_micros)
    }

    /// Last step of connecting, given what handing over the HELLO frame gave: on failure the
    /// client is marked disconnected and stopped and the error is returned; on success the
    /// client id becomes the decimal text of the HELLO message's id.
    pub fn finish_connect(&mut self, hello: MIPResult<u64>) -> (r: MIPResult<()>)
        ensures
            match hello {
                Ok(id) => r is Ok && final(self)@ == (ClientView {
                    client_id: decimal(id as nat),
                    ..old(self)@
                }),
                Err(e) => r matches Err(e2) && e2@ == e@ && final(self)@ == (ClientView {
                    connected: false,
                    running: false,
                    ..old(self)@
                }),
            },
    {
        match hello {
            Err(e) => {
                self.connected = false;
                self.running = false;
                Err(e)
            },
            Ok(id) => {
                self.client_id = decimal_string(id);
                Ok(())
            },
        }
    }

    /// First step of disconnecting: reconnection is switched off and the client stops.
    /// When a channel exists, the caller sends the CLOSE frame (present when the client is
    /// connected) and then tells the sending side to shut down.
    pub fn begin_disconnect(&mut self, timestamp_micros: u64) -> (plan: DisconnectPlan)
        requires
            can_send(old(self)@) ==> id_fits(old(self)@, timestamp_micros),
        ensures
            plan.stop_writer == old(self)@.channel_open,
            can_send(old(self)@) ==> {
                let id = (timestamp_micros + old(self)@.msg_id_counter) as u64;
                &&& plan.close_frame matches Some(f) && f@ == outgoing_frame(
                    FrameType::Close,
                    Seq::<u8>::empty(),
                    FrameFlags { bits: 0 },
                    id,
                )
                &&& final(self)@.msg_id_counter == next_count(old(self)@.msg_id_counter)
            },
            !can_send(old(self)@) ==> plan.close_frame is None && final(self)@.msg_id_counter
                == old(self)@.msg_id_counter,
            !old(self)@.connected ==> plan.close_frame is None,
            final(self)@ == (ClientView {
                options: OptionsView { auto_reconnect: false, ..old(self)@.options },
                running: false,
                msg_id_counter: final(self)@.msg_id_counter,
                ..old(self)@
            }),
    {
        self.options.auto_reconnect = false;
        self.running = false;
        if !self.channel_open {
            return DisconnectPlan { close_frame: None, stop_writer: false };
        }
        let mut close_frame: Option<Vec<u8>> = None;
        if self.connected {
            let msg_id = internals::generate_msg_id(self.msg_id_counter, timestamp_micros);
            self.msg_id_counter = if self.msg_id_counter == u64::MAX {
                0
            } else {
                self.msg_id_counter + 1
            };
            let header = build_header(FrameType::Close, 0, FrameFlags::none(), msg_id);
            let frame = header.encode();
            assert(frame@ =~= outgoing_frame(
                FrameType::Close,
                Seq::<u8>::empty(),
                FrameFlags { bits: 0 },
                msg_id,
            ));
            close_frame = Some(frame);
        }
        DisconnectPlan { close_frame, stop_writer: true }
    }

    /// Last step of disconnecting, once the connection's tasks are done: the client is not
    /// connected and has no channel. Ending a live connection reports a disconnect; when the
    /// connection was already down (and its loss already reported), nothing is reported.
    pub fn finish_disconnect(&mut self) -> (events: Vec<ClientEvent>)
        ensures
            final(self)@ == (ClientView { connected: false, channel_open: false, ..old(self)@ }),
            events::events_view(events@) == disconnect_events(old(self)@),
    {
        let mut events: Vec<ClientEvent> = Vec::new();
        if self.connected {
            events.push(ClientEvent::Disconnect);
        }
        self.connected = false;
        self.channel_open = false;
        assert(events::events_view(events@) =~= disconnect_events(old(self)@));
        events
    }

    /// Stops the client (as when it is dropped).
    pub fn stop(&mut self)
        ensures
            final(self)@ == (ClientView { running: false, ..old(self)@ }),
    {
        self.running = false;
    }

    /// The connection was lost (the peer closed it or reading failed): the client is not
    /// connected; the events to report and whether and after what delay to reconnect follow
    /// [`lost_events`].
    pub fn connection_lost(&mut self) -> (r: LostOutcome)
        requires
            retries(old(self)@) ==> (old(self)@.reconnect_attempts as u32) < u32::MAX,
        ensures
            events::events_view(r.events@) == lost_events(old(self)@),
            r.retry_delay_ms == (if retries(old(self)@) && attempt_allowed(old(self)@) {
                Some(old(self)@.options.reconnect_delay_ms)
            } else {
                None
            }),
            final(self)@ == lost_state(old(self)@),
    {
        let ghost s = self@;
        let was_connected = self.connected;
        self.connected = false;
        let mut events: Vec<ClientEvent> = Vec::new();
        if was_connected {
            events.push(ClientEvent::Disconnect);
        }
        let mut retry_delay_ms: Option<u64> = None;
        if self.options.auto_reconnect && self.running {
            let previous = self.reconnect_attempts;
            self.reconnect_attempts = if previous == u64::MAX {
                0
            } else {
                previous + 1
            };
            let current = (previous as u32) + 1;
            let max_attempts = self.options.max_reconnect_attempts;
            if max_attempts == 0 || current <= max_attempts {
                events.push(ClientEvent::Reconnecting(current));
                retry_delay_ms = Some(self.options.reconnect_delay_ms);
            } else {
                events.push(ClientEvent::Error(MIPError::MaxReconnectAttempts(max_attempts)));
            }
        }
        assert(events::events_view(events@) =~= lost_events(s));
        LostOutcome { events, retry_delay_ms }
    }

    /// The ping interval in milliseconds, or `None` when automatic pings are off (interval 0).
    pub fn ping_interval(&self) -> (r: Option<u64>)
        ensures
            r == (if self@.options.ping_interval_ms == 0 {
                None
            } else {
                Some(self@.options.ping_interval_ms)
            }),
    {
        if self.options.ping_interval_ms == 0 {
            None
        } else {
            Some(self.options.ping_interval_ms)
        }
    }

    /// A tick of the ping timer: stop once the client is not connected or not running;
    /// otherwise a PING frame with a new message id.
    pub fn ping_tick(&mut self, timestamp_micros: u64) -> (step: PingStep)
        requires
            old(self)@.connected && old(self)@.running ==> id_fits(old(self)@, timestamp_micros),
        ensures
            !(old(self)@.connected && old(self)@.running) ==> step is Stop && final(self)@ == old(
                self,
            )@,
            old(self)@.connected && old(self)@.running ==> {
                let id = (timestamp_micros + old(self)@.msg_id_counter) as u64;
                &&& step matches PingStep::Send(f) && f@ == outgoing_frame(
                    FrameType::Ping,
                    Seq::<u8>::empty(),
                    FrameFlags { bits: 0 },
                    id,
                )
                &&& final(self)@ == (ClientView {
                    msg_id_counter: next_count(old(self)@.msg_id_counter),
                    ..old(self)@
                })
            },
    {
        if !self.connected || !self.running {
            return PingStep::Stop;
        }
        let msg_id = internals::generate_msg_id(self.msg_id_counter, timestamp_micros);
        self.msg_id_counter = if self.msg_id_counter == u64::MAX {
            0
        } else {
            self.msg_id_counter + 1
        };
        let header = build_header(FrameType::Ping, 0, FrameFlags::none(), msg_id);
        let frame = header.encode();
        assert(frame@ =~= outgoing_frame(
            FrameType::Ping,
            Seq::<u8>::empty(),
            FrameFlags { bits: 0 },
            msg_id,
        ));
        PingStep::Send(frame)
    }
}

// ============================================================================
// Utility Functions
// ============================================================================

/// The name of a frame type.
pub open spec fn frame_type_name(frame_type: FrameType) -> Seq<char> {
    match frame_type {
        FrameType::Hello => "HELLO"@,
        FrameType::Subscribe => "SUBSCRIBE"@,
        FrameType::Unsubscribe => "UNSUBSCRIBE"@,
        FrameType::Publish => "PUBLISH"@,
        FrameType::Event => "EVENT"@,
        FrameType::Ack => "ACK"@,
        FrameType::Error => "ERROR"@,
        FrameType::Ping => "PING"@,
        FrameType::Pong => "PONG"@,
        FrameType::Close => "CLOSE"@,
    }
}

/// Get the name of a frame type
pub fn get_frame_type_name(frame_type: FrameType) -> (name: &'static str)
    ensures
        name@ == frame_type_name(frame_type),
{
    match frame_type {
        FrameType::Hello => "HELLO",
        FrameType::Subscribe => "SUBSCRIBE",
        FrameType::Unsubscribe => "UNSUBSCRIBE",
        FrameType::Publish => "PUBLISH",
        FrameType::Event => "EVENT",
        FrameType::Ack => "ACK",
        FrameType::Error => "ERROR",
        FrameType::Ping => "PING",
        FrameType::Pong => "PONG",
        FrameType::Close => "CLOSE",
    }
}

/// Create a new MIP client with default options
pub fn create_client() -> (c: MIPClient)
    ensures
        c@ == (ClientView {
            client_id: ""@,
            options: types::default_options(),
            connected: false,
            running: false,
            msg_id_counter: 0,
            reconnect_attempts: 0,
            channel_open: false,
        }),
{
    MIPClient::new(MIPClientOptions::default())
}

// ============================================================================
// Laws
// ============================================================================

/// Two frames sent one after the other get different message ids, the second larger than the
/// first, as long as the clock does not go back.
pub proof fn lemma_ids_increase(
    s: ClientView,
    ft1: FrameType,
    p1: Seq<u8>,
    f1: FrameFlags,
    t1: u64,
    ft2: FrameType,
    p2: Seq<u8>,
    f2: FrameFlags,
    t2: u64,
)
    requires
        can_send(s),
        id_fits(s, t1),
        t1 <= t2,
        id_fits(send_outcome(s, ft1, p1, f1, t1).1, t2),
        s.msg_id_counter < u64::MAX,
    ensures
        send_outcome(s, ft1, p1, f1, t1).0 matches Ok((id1, _)) && send_outcome(
            send_outcome(s, ft1, p1, f1, t1).1,
            ft2,
            p2,
            f2,
            t2,
        ).0 matches Ok((id2, _)) && id1 < id2,
{
}

/// An outgoing frame whose payload length fits in 32 bits is read back, on its own, as one
/// frame with the header it was built with and its payload, leaving nothing buffered.
pub proof fn lemma_outgoing_frame_read_back(
    frame_type: FrameType,
    payload: Seq<u8>,
    flags: FrameFlags,
    msg_id: u64,
)
    requires
        payload.len() <= u32::MAX,
    ensures
        spec_drain(outgoing_frame(frame_type, payload, flags, msg_id)) == (
            seq![
                StreamItemView::Frame(
                    spec_build_header(frame_type, payload.len() as u32, flags, msg_id),
                    payload,
                ),
            ],
            Seq::<u8>::empty(),
        ),
{
    let h = spec_build_header(frame_type, payload.len() as u32, flags, msg_id);
    let bytes = outgoing_frame(frame_type, payload, flags, msg_id);
    assert(bytes + Seq::<u8>::empty() =~= bytes);
    lemma_drain_one_frame(h, payload, Seq::<u8>::empty());
    reveal(spec_drain);
    assert(spec_drain(Seq::<u8>::empty()) == (Seq::<StreamItemView>::empty(), Seq::<u8>::empty()));
    assert(seq![StreamItemView::Frame(h, payload)] + Seq::<StreamItemView>::empty() =~= seq![
        StreamItemView::Frame(h, payload),
    ]);
}

/// A PUBLISH frame as [`MIPClient::publish`] builds it, when read, reports the raw frame and
/// then a message with the same topic and text, provided the topic's UTF-8 encoding fits the
/// 16-bit length field and the payload fits the 32-bit length field.
pub proof fn lemma_published_message_delivered(
    topic: Seq<char>,
    message: Seq<char>,
    flags: FrameFlags,
    msg_id: u64,
)
    requires
        vstd::utf8::encode_utf8(topic).len() <= u16::MAX,
        publish_payload(vstd::utf8::encode_utf8(topic), vstd::utf8::encode_utf8(message)).len()
            <= u32::MAX,
    ensures
        ({
            let payload = publish_payload(
                vstd::utf8::encode_utf8(topic),
                vstd::utf8::encode_utf8(message),
            );
            let h = spec_build_header(FrameType::Publish, payload.len() as u32, flags, msg_id);
            spec_items_events(
                spec_drain(outgoing_frame(FrameType::Publish, payload, flags, msg_id)).0,
            ) == seq![
                EventView::Frame(h, payload),
                EventView::Message(MessageView { header: h, topic, message }),
            ]
        }),
{
    let payload = publish_payload(vstd::utf8::encode_utf8(topic), vstd::utf8::encode_utf8(message));
    let h = spec_build_header(FrameType::Publish, payload.len() as u32, flags, msg_id);
    lemma_parse_published(h, topic, message);
    lemma_publish_frame_events(h, payload, MessageView { header: h, topic, message });
}

proof fn lemma_publish_frame_events(h: Header, payload: Seq<u8>, m: MessageView)
    requires
        h.frame_type == FrameType::Publish,
        h.payload_length == payload.len(),
        internals::spec_parse_message(h, payload) == Some(m),
    ensures
        spec_items_events(spec_drain(internals::frame_bytes(h, payload)).0) == seq![
            EventView::Frame(h, payload),
            EventView::Message(m),
        ],
{
    let item = StreamItemView::Frame(h, payload);
    lemma_single_frame_drain(h, payload);
    lemma_single_item_events(item);
    lemma_publish_events(h, payload, m);
}

proof fn lemma_single_frame_drain(h: Header, payload: Seq<u8>)
    requires
        h.payload_length == payload.len(),
    ensures
        spec_drain(internals::frame_bytes(h, payload)).0 == seq![StreamItemView::Frame(h, payload)],
{
    reveal(spec_drain);
    lemma_drain_one_frame(h, payload, Seq::<u8>::empty());
    assert(internals::frame_bytes(h, payload) + Seq::<u8>::empty() =~= internals::frame_bytes(
        h,
        payload,
    ));
    assert(seq![StreamItemView::Frame(h, payload)] + Seq::<StreamItemView>::empty() =~= seq![
        StreamItemView::Frame(h, payload),
    ]);
}

proof fn lemma_publish_events(h: Header, payload: Seq<u8>, m: MessageView)
    requires
        h.frame_type == FrameType::Publish,
        internals::spec_parse_message(h, payload) == Some(m),
    ensures
        spec_item_events(StreamItemView::Frame(h, payload)) == seq![
            EventView::Frame(h, payload),
            EventView::Message(m),
        ],
{
    assert(internals::spec_frame_events(h, payload) =~= seq![
        EventView::Frame(h, payload),
        EventView::Message(m),
    ]);
}

proof fn lemma_single_item_events(item: StreamItemView)
    ensures
        spec_items_events(seq![item]) == spec_item_events(item),
{
    let items = seq![item];
    assert(items.drop_last() =~= Seq::<StreamItemView>::empty());
    assert(spec_items_events(items.drop_last()) =~= Seq::<EventView>::empty());
    assert(spec_items_events(items) =~= spec_item_events(item));
}

/// Once disconnected, every send is refused with `NotConnected` and changes nothing.
pub proof fn lemma_no_send_after_disconnect(
    s: ClientView,
    frame_type: FrameType,
    payload: Seq<u8>,
    flags: FrameFlags,
    timestamp_micros: u64,
)
    ensures
        ({
            let d = ClientView { connected: false, channel_open: false, ..s };
            send_outcome(d, frame_type, payload, flags, timestamp_micros) == (
                Err::<(u64, Seq<u8>), ErrorView>(ErrorView::NotConnected),
                d,
            )
        }),
{
}

/// With a maximum of 0 every reconnection attempt is allowed; with a positive maximum an
/// attempt is allowed exactly while fewer than the maximum have been scheduled.
pub proof fn lemma_reconnect_limit(s: ClientView)
    requires
        s.reconnect_attempts < u32::MAX,
    ensures
        s.options.max_reconnect_attempts == 0 ==> attempt_allowed(s),
        s.options.max_reconnect_attempts > 0 ==> (attempt_allowed(s) <==> s.reconnect_attempts
            < s.options.max_reconnect_attempts),
        attempt_number(s) == s.reconnect_attempts + 1,
{
}

/// A connection taken down on request reports exactly one disconnect, whether the loss of
/// the connection is noticed while it is being taken down or not at all.
pub proof fn lemma_disconnect_reported_once(s: ClientView)
    requires
        s.connected,
    ensures
        ({
            let down = ClientView {
                options: OptionsView { auto_reconnect: false, ..s.options },
                running: false,
                ..s
            };
            &&& disconnect_events(down) == seq![EventView::Disconnect]
            &&& lost_events(down) + disconnect_events(lost_state(down)) == seq![
                EventView::Disconnect,
            ]
        }),
{
    let down = ClientView {
        options: OptionsView { auto_reconnect: false, ..s.options },
        running: false,
        ..s
    };
    assert(lost_events(down) + disconnect_events(lost_state(down)) =~= seq![
        EventView::Disconnect,
    ]);
}

/// Two frames that differ at most in their message id: same length, same bytes outside the
/// id field (offsets 16 to 23).
pub open spec fn same_up_to_msg_id(f1: Seq<u8>, f2: Seq<u8>) -> bool {
    &&& f1.len() == f2.len()
    &&& forall|i: int| 0 <= i < f1.len() && !(16 <= i < 24) ==> #[trigger] f1[i] == f2[i]
}

/// Outgoing frames of the same type, payload and flags differ at most in their message id.
pub proof fn lemma_outgoing_same_up_to_msg_id(
    frame_type: FrameType,
    payload: Seq<u8>,
    flags: FrameFlags,
    id1: u64,
    id2: u64,
)
    ensures
        same_up_to_msg_id(
            outgoing_frame(frame_type, payload, flags, id1),
            outgoing_frame(frame_type, payload, flags, id2),
        ),
{
    let h1 = spec_build_header(frame_type, payload.len() as u32, flags, id1);
    let h2 = spec_build_header(frame_type, payload.len() as u32, flags, id2);
    let f1 = outgoing_frame(frame_type, payload, flags, id1);
    let f2 = outgoing_frame(frame_type, payload, flags, id2);
    assert(f1.subrange(0, 16) =~= f2.subrange(0, 16));
    assert(f1.subrange(24, f1.len() as int) =~= f2.subrange(24, f2.len() as int));
    assert forall|i: int| 0 <= i < f1.len() && !(16 <= i < 24) implies #[trigger] f1[i] == f2[i] by {
        if i < 16 {
            assert(f1[i] == f1.subrange(0, 16)[i]);
            assert(f2[i] == f2.subrange(0, 16)[i]);
        } else {
            assert(f1[i] == f1.subrange(24, f1.len() as int)[i - 24]);
            assert(f2[i] == f2.subrange(24, f2.len() as int)[i - 24]);
        }
    }
}

/// Sending a raw PUBLISH frame whose payload is the topic's length, the topic and the
/// message, from a client in the same state as one that calls [`MIPClient::publish`] (at
/// whatever time each call is made), gives the same success or failure, the same next state,
/// and a frame that differs at most in its message id; likewise a raw PING frame with no
/// payload and no flags and [`MIPClient::ping`].
pub proof fn lemma_raw_frames_match_shortcuts(
    s: ClientView,
    topic: Seq<u8>,
    message: Seq<u8>,
    raw_payload: Seq<u8>,
    flags: FrameFlags,
    t1: u64,
    t2: u64,
)
    requires
        raw_payload == crate::protocol::header::be16(topic.len() as u16) + topic + message,
    ensures
        ({
            let raw = send_outcome(s, FrameType::Publish, raw_payload, flags, t1);
            let short = send_outcome(
                s,
                FrameType::Publish,
                publish_payload(topic, message),
                flags,
                t2,
            );
            &&& raw.1 == short.1
            &&& (raw.0 is Ok <==> short.0 is Ok)
            &&& raw.0 is Err ==> raw.0 == short.0
            &&& raw.0 matches Ok((_, f1)) ==> (short.0 matches Ok((_, f2)) && same_up_to_msg_id(
                f1,
                f2,
            ))
        }),
        ({
            let raw = send_outcome(
                s,
                FrameType::Ping,
                Seq::<u8>::empty(),
                FrameFlags::spec_none(),
                t1,
            );
            let short = send_outcome(
                s,
                FrameType::Ping,
                Seq::<u8>::empty(),
                FrameFlags { bits: 0 },
                t2,
            );
            &&& raw.1 == short.1
            &&& (raw.0 is Ok <==> short.0 is Ok)
            &&& raw.0 is Err ==> raw.0 == short.0
            &&& raw.0 matches Ok((_, f1)) ==> (short.0 matches Ok((_, f2)) && same_up_to_msg_id(
                f1,
                f2,
            ))
        }),
{
    let id1 = (t1 + s.msg_id_counter) as u64;
    let id2 = (t2 + s.msg_id_counter) as u64;
    lemma_outgoing_same_up_to_msg_id(
        FrameType::Publish,
        publish_payload(topic, message),
        flags,
        id1,
        id2,
    );
    lemma_outgoing_same_up_to_msg_id(
        FrameType::Ping,
        Seq::<u8>::empty(),
        FrameFlags { bits: 0 },
        id1,
        id2,
    );
}

/// A send succeeds only on a connected client with a channel; otherwise it is refused with
/// `NotConnected` and the client is left as it was.
pub proof fn lemma_sends_need_connection(
    s: ClientView,
    frame_type: FrameType,
    payload: Seq<u8>,
    flags: FrameFlags,
    timestamp_micros: u64,
)
    ensures
        send_outcome(s, frame_type, payload, flags, timestamp_micros).0 is Ok ==> s.connected
            && s.channel_open,
        !s.connected || !s.channel_open ==> send_outcome(
            s,
            frame_type,
            payload,
            flags,
            timestamp_micros,
        ) == (Err::<(u64, Seq<u8>), ErrorView>(ErrorView::NotConnected), s),
{
}

/// After the connection is lost, every send is refused with `NotConnected` and changes
/// nothing, until the connection is opened again.
pub proof fn lemma_no_send_after_loss(
    s: ClientView,
    frame_type: FrameType,
    payload: Seq<u8>,
    flags: FrameFlags,
    timestamp_micros: u64,
)
    ensures
        !lost_state(s).connected,
        send_outcome(lost_state(s), frame_type, payload, flags, timestamp_micros) == (
            Err::<(u64, Seq<u8>), ErrorView>(ErrorView::NotConnected),
            lost_state(s),
        ),
{
}

/// On a connected client with a channel, a send gives the id `timestamp + counter` and a frame
/// made of a header that decodes to the requested frame type and flags, version 1, message
/// kind 1, the payload's length and that id, followed by the payload; the counter moves on by
/// one (wrapping to 0) and nothing else changes.
pub proof fn lemma_sent_frame(
    s: ClientView,
    frame_type: FrameType,
    payload: Seq<u8>,
    flags: FrameFlags,
    timestamp_micros: u64,
)
    requires
        s.connected,
        s.channel_open,
        timestamp_micros + s.msg_id_counter <= u64::MAX,
    ensures
        ({
            let out = send_outcome(s, frame_type, payload, flags, timestamp_micros);
            &&& out.0 matches Ok((id, f)) && {
                &&& id == timestamp_micros + s.msg_id_counter
                &&& f.len() == 24 + payload.len()
                &&& f.subrange(24, f.len() as int) == payload
                &&& f[5] == flags.bits
                &&& crate::protocol::header::spec_decode_header(f) == Ok::<
                    Header,
                    crate::protocol::header::HeaderError,
                >(
                    Header {
                        version: 1u8,
                        flags,
                        frame_type,
                        message_kind: 1u16,
                        payload_length: payload.len() as u32,
                        msg_id: id,
                    },
                )
            }
            &&& out.1 == ClientView {
                msg_id_counter: if s.msg_id_counter == u64::MAX {
                    0u64
                } else {
                    (s.msg_id_counter + 1) as u64
                },
                ..s
            }
        }),
{
    let id = (timestamp_micros + s.msg_id_counter) as u64;
    lemma_outgoing_frame_fields(frame_type, payload, flags, id);
}

/// What a connection loss reports and leaves: a disconnect first exactly when the connection
/// was up; then, when reconnection is on and the client runs, attempt number `n + 1` after `n`
/// scheduled attempts while `n + 1` is within the maximum (0 meaning no maximum), and past it
/// a `MaxReconnectAttempts` error naming the maximum, the count of scheduled attempts growing
/// by one either way; otherwise nothing more and the count unchanged. The client is left
/// disconnected, everything else as it was.
pub proof fn lemma_connection_loss(s: ClientView)
    requires
        s.reconnect_attempts < u32::MAX,
    ensures
        ({
            let e = lost_events(s);
            let t = lost_state(s);
            let n = s.reconnect_attempts;
            let max = s.options.max_reconnect_attempts;
            let on = s.options.auto_reconnect && s.running;
            &&& s.connected ==> e[0] == EventView::Disconnect
            &&& !s.connected ==> forall|i: int| 0 <= i < e.len() ==> !(#[trigger] e[i] is Disconnect)
            &&& on && (max == 0 || n + 1 <= max) ==> e.len() == (if s.connected {
                2int
            } else {
                1int
            }) && e.last() == EventView::Reconnecting((n + 1) as u32)
            &&& on && max != 0 && n + 1 > max ==> e.len() == (if s.connected {
                2int
            } else {
                1int
            }) && e.last() == EventView::Error(ErrorView::MaxReconnectAttempts(max))
            &&& !on ==> e.len() == (if s.connected {
                1int
            } else {
                0int
            })
            &&& t.reconnect_attempts == (if on {
                n + 1
            } else {
                n as int
            })
            &&& t == ClientView { connected: false, reconnect_attempts: t.reconnect_attempts, ..s }
        }),
{
}

} // verus!
