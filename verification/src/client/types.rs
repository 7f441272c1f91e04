//! Errors, configuration and received messages.
use vstd::prelude::*;
use vstd::string::*;

use crate::protocol::header::Header;
use crate::text::{decimal, decimal_string};

verus! {

// ============================================================================
// Error Types
// ============================================================================

/// MIP client errors.
#[derive(Debug, PartialEq, Eq)]
pub enum MIPError {
    /// The connection to the server could not be made.
    Connection(String),
    /// Reading from the connection failed; carries the I/O error's text.
    Io(String),
    /// The client is not connected.
    NotConnected,
    /// A frame did not start with the magic number; carries the four bytes read.
    InvalidMagic(u32),
    /// A frame header could not be decoded.
    Protocol(String),
    /// Reconnection gave up after the given maximum number of attempts.
    MaxReconnectAttempts(u32),
    /// The server sent an error frame with this text.
    ServerError(String),
}

/// The mathematical value of a [`MIPError`].
pub enum ErrorView {
    Connection(Seq<char>),
    Io(Seq<char>),
    NotConnected,
    InvalidMagic(u32),
    Protocol(Seq<char>),
    MaxReconnectAttempts(u32),
    ServerError(Seq<char>),
}

impl View for MIPError {
    type V = ErrorView;

    open spec fn view(&self) -> ErrorView {
        match self {
            MIPError::Connection(s) => ErrorView::Connection(s@),
            MIPError::Io(s) => ErrorView::Io(s@),
            MIPError::NotConnected => ErrorView::NotConnected,
            MIPError::InvalidMagic(m) => ErrorView::InvalidMagic(*m),
            MIPError::Protocol(s) => ErrorView::Protocol(s@),
            MIPError::MaxReconnectAttempts(n) => ErrorView::MaxReconnectAttempts(*n),
            MIPError::ServerError(s) => ErrorView::ServerError(s@),
        }
    }
}

/// The human-readable text of an error.
pub open spec fn error_text(e: ErrorView) -> Seq<char> {
    match e {
        ErrorView::Connection(s) => "Connection error: "@ + s,
        ErrorView::Io(s) => "IO error: "@ + s,
        ErrorView::NotConnected => "Client not connected"@,
        ErrorView::InvalidMagic(m) => "Invalid magic number: "@ + decimal(m as nat),
        ErrorView::Protocol(s) => "Protocol error: "@ + s,
        ErrorView::MaxReconnectAttempts(n) => "Max reconnection attempts ("@ + decimal(n as nat)
            + ") reached"@,
        ErrorView::ServerError(s) => "Server error: "@ + s,
    }
}

impl MIPError {
    /// The human-readable text of this error.
    pub fn describe(&self) -> (text: String)
        ensures
            text@ == error_text(self@),
    {
        match self {
            MIPError::Connection(s) => String::from_str("Connection error: ").concat(s.as_str()),
            MIPError::Io(s) => String::from_str("IO error: ").concat(s.as_str()),
            MIPError::NotConnected => String::from_str("Client not connected"),
            MIPError::InvalidMagic(m) => {
                let digits = decimal_string(*m as u64);
                String::from_str("Invalid magic number: ").concat(digits.as_str())
            },
            MIPError::Protocol(s) => String::from_str("Protocol error: ").concat(s.as_str()),
            MIPError::MaxReconnectAttempts(n) => {
                let digits = decimal_string(*n as u64);
                String::from_str("Max reconnection attempts (").concat(digits.as_str()).concat(
                    ") reached",
                )
            },
            MIPError::ServerError(s) => String::from_str("Server error: ").concat(s.as_str()),
        }
    }
}

impl Clone for MIPError {
    fn clone(&self) -> (r: Self)
        ensures
            r@ == self@,
    {
        match self {
            MIPError::Connection(s) => MIPError::Connection(s.clone()),
            MIPError::Io(s) => MIPError::Io(s.clone()),
            MIPError::NotConnected => MIPError::NotConnected,
            MIPError::InvalidMagic(m) => MIPError::InvalidMagic(*m),
            MIPError::Protocol(s) => MIPError::Protocol(s.clone()),
            MIPError::MaxReconnectAttempts(n) => MIPError::MaxReconnectAttempts(*n),
            MIPError::ServerError(s) => MIPError::ServerError(s.clone()),
        }
    }
}

/// Result type for MIP operations.
pub type MIPResult<T> = Result<T, MIPError>;

// ============================================================================
// Configuration Options
// ============================================================================

/// Configuration options for the MIP client.
#[derive(Debug)]
pub struct MIPClientOptions {
    /// Client identifier, sent in the HELLO frame
    pub client_id: String,
    /// Server host address
    pub host: String,
    /// Server port number
    pub port: u16,
    /// Auto-reconnect on disconnect
    pub auto_reconnect: bool,
    /// Reconnect delay in milliseconds
    pub reconnect_delay_ms: u64,
    /// Maximum reconnection attempts (0 = infinite)
    pub max_reconnect_attempts: u32,
    /// Ping interval in milliseconds (0 = disabled)
    pub ping_interval_ms: u64,
}

/// The mathematical value of [`MIPClientOptions`].
pub struct OptionsView {
    pub client_id: Seq<char>,
    pub host: Seq<char>,
    pub port: u16,
    pub auto_reconnect: bool,
    pub reconnect_delay_ms: u64,
    pub max_reconnect_attempts: u32,
    pub ping_interval_ms: u64,
}

impl View for MIPClientOptions {
    type V = OptionsView;

    open spec fn view(&self) -> OptionsView {
        OptionsView {
            client_id: self.client_id@,
            host: self.host@,
            port: self.port,
            auto_reconnect: self.auto_reconnect,
            reconnect_delay_ms: self.reconnect_delay_ms,
            max_reconnect_attempts: self.max_reconnect_attempts,
            ping_interval_ms: self.ping_interval_ms,
        }
    }
}

/// The default options: an empty client id, `127.0.0.1:9000`, auto-reconnect on with a
/// 3000 ms delay and at most 10 attempts, no automatic ping.
pub open spec fn default_options() -> OptionsView {
    OptionsView {
        client_id: ""@,
        host: "127.0.0.1"@,
        port: 9000,
        auto_reconnect: true,
        reconnect_delay_ms: 3000,
        max_reconnect_attempts: 10,
        ping_interval_ms: 0,
    }
}

impl Default for MIPClientOptions {
    fn default() -> (r: Self)
        ensures
            r@ == default_options(),
    {
        MIPClientOptions {
            client_id: String::from_str(""),
            host: String::from_str("127.0.0.1"),
            port: 9000,
            auto_reconnect: true,
            reconnect_delay_ms: 3000,
            max_reconnect_attempts: 10,
            ping_interval_ms: 0,
        }
    }
}

impl Clone for MIPClientOptions {
    fn clone(&self) -> (r: Self)
        ensures
            r@ == self@,
    {
        MIPClientOptions {
            client_id: self.client_id.clone(),
            host: self.host.clone(),
            port: self.port,
            auto_reconnect: self.auto_reconnect,
            reconnect_delay_ms: self.reconnect_delay_ms,
            max_reconnect_attempts: self.max_reconnect_attempts,
            ping_interval_ms: self.ping_interval_ms,
        }
    }
}

impl MIPClientOptions {
    /// Set the client identifier
    pub fn client_id(self, client_id: &str) -> (r: Self)
        ensures
            r@ == (OptionsView { client_id: client_id@, ..self@ }),
    {
        let mut s = self;
        s.client_id = String::from_str(client_id);
        s
    }

    /// Set the host address
    pub fn host(self, host: &str) -> (r: Self)
        ensures
            r@ == (OptionsView { host: host@, ..self@ }),
    {
        let mut s = self;
        s.host = String::from_str(host);
        s
    }

    /// Set the port number
    pub fn port(self, port: u16) -> (r: Self)
        ensures
            r@ == (OptionsView { port, ..self@ }),
    {
        let mut s = self;
        s.port = port;
        s
    }

    /// Set auto-reconnect option
    pub fn auto_reconnect(self, enabled: bool) -> (r: Self)
        ensures
            r@ == (OptionsView { auto_reconnect: enabled, ..self@ }),
    {
        let mut s = self;
        s.auto_reconnect = enabled;
        s
    }

    /// Set reconnect delay in milliseconds
    pub fn reconnect_delay_ms(self, delay: u64) -> (r: Self)
        ensures
            r@ == (OptionsView { reconnect_delay_ms: delay, ..self@ }),
    {
        let mut s = self;
        s.reconnect_delay_ms = delay;
        s
    }

    /// Set maximum reconnection attempts
    pub fn max_reconnect_attempts(self, attempts: u32) -> (r: Self)
        ensures
            r@ == (OptionsView { max_reconnect_attempts: attempts, ..self@ }),
    {
        let mut s = self;
        s.max_reconnect_attempts = attempts;
        s
    }

    /// Set ping interval in milliseconds
    pub fn ping_interval_ms(self, interval: u64) -> (r: Self)
        ensures
            r@ == (OptionsView { ping_interval_ms: interval, ..self@ }),
    {
        let mut s = self;
        s.ping_interval_ms = interval;
        s
    }
}

// ============================================================================
// Message Types
// ============================================================================

/// Received message event.
#[derive(Debug, PartialEq, Eq)]
pub struct MIPMessage {
    /// Frame header
    pub header: Header,
    /// Topic name
    pub topic: String,
    /// Message content
    pub message: String,
}

/// The mathematical value of a [`MIPMessage`].
pub struct MessageView {
    pub header: Header,
    pub topic: Seq<char>,
    pub message: Seq<char>,
}

impl View for MIPMessage {
    type V = MessageView;

    open spec fn view(&self) -> MessageView {
        MessageView { header: self.header, topic: self.topic@, message: self.message@ }
    }
}

impl Clone for MIPMessage {
    fn clone(&self) -> (r: Self)
        ensures
            r@ == self@,
    {
        MIPMessage { header: self.header, topic: self.topic.clone(), message: self.message.clone() }
    }
}

} // verus!
