//! What the client reports to its user: one event per callback kind.
use vstd::prelude::*;

use crate::protocol::header::Header;
use super::types::{ErrorView, MIPError, MIPMessage, MessageView};

verus! {

/// An event the client reports; each variant is delivered to the callbacks registered for it.
#[derive(Debug, PartialEq, Eq)]
pub enum ClientEvent {
    /// Connected to the server.
    Connect,
    /// Disconnected from the server.
    Disconnect,
    /// A reconnection attempt, with its number.
    Reconnecting(u32),
    /// A PUBLISH or EVENT message was received.
    Message(MIPMessage),
    /// An EVENT message was received.
    Event(MIPMessage),
    /// An ACK was received for the given message id.
    Ack(u64),
    /// A PONG was received.
    Pong,
    /// An error occurred.
    Error(MIPError),
    /// A raw frame was received (header and payload).
    Frame(Header, Vec<u8>),
}

/// The mathematical value of a [`ClientEvent`].
pub enum EventView {
    Connect,
    Disconnect,
    Reconnecting(u32),
    Message(MessageView),
    Event(MessageView),
    Ack(u64),
    Pong,
    Error(ErrorView),
    Frame(Header, Seq<u8>),
}

impl View for ClientEvent {
    type V = EventView;

    open spec fn view(&self) -> EventView {
        match self {
            ClientEvent::Connect => EventView::Connect,
            ClientEvent::Disconnect => EventView::Disconnect,
            ClientEvent::Reconnecting(n) => EventView::Reconnecting(*n),
            ClientEvent::Message(m) => EventView::Message(m@),
            ClientEvent::Event(m) => EventView::Event(m@),
            ClientEvent::Ack(id) => EventView::Ack(*id),
            ClientEvent::Pong => EventView::Pong,
            ClientEvent::Error(e) => EventView::Error(e@),
            ClientEvent::Frame(h, p) => EventView::Frame(*h, p@),
        }
    }
}

/// The views of a sequence of events.
pub open spec fn events_view(events: Seq<ClientEvent>) -> Seq<EventView> {
    events.map_values(|e: ClientEvent| e@)
}

} // verus!
