//! Verified core of a client for the MIP (MSIP) publish/subscribe protocol: the frame
//! header format, the framing of the received byte stream, the dispatch of received frames
//! to events, and the client's connection state machine.

pub mod client;
pub mod protocol;
pub mod text;

pub use client::{
    create_client, get_frame_type_name, ClientEvent, DisconnectPlan, LostOutcome, MIPClient,
    MIPClientOptions, MIPError, MIPMessage, MIPResult, PingStep,
};
pub use protocol::header::{
    FrameFlags, FrameType, Header, HeaderError, HEADER_SIZE, MSG_KIND_EVENT, MSIP_MAGIC,
    MSIP_VERSION,
};
