use vstd::prelude::*;
use vstd::string::StringExecFns;

verus! {

/// What a registry operation, or the I/O around it, can fail with.
#[derive(Clone, Debug, PartialEq, Eq)]
pub enum McpError {
    /// `connect` on an identifier that already names a session or a reservation.
    AlreadyConnected(String),
    /// `disconnect`, `list_tools` or `call_tool` on an identifier with no live session.
    NotConnected(String),
    /// The server process could not be spawned; the text is the launcher's reason.
    LaunchFailure(String),
    /// The process was spawned but the protocol handshake failed.
    HandshakeFailure(String),
    /// A live session failed at the transport level during a call.
    ProtocolError(String),
}

/// The text that `McpError::message` returns.
pub open spec fn message_of(e: McpError) -> Seq<char> {
    match e {
        McpError::AlreadyConnected(id) => "Client with id '"@ + id@ + "' already connected"@,
        McpError::NotConnected(id) => "Client with id '"@ + id@ + "' not connected"@,
        McpError::LaunchFailure(d) => "failed to launch server: "@ + d@,
        McpError::HandshakeFailure(d) => "handshake with server failed: "@ + d@,
        McpError::ProtocolError(d) => "protocol error: "@ + d@,
    }
}

impl McpError {
    /// A human-readable description of the error.
    pub fn message(&self) -> (r: String)
        ensures
            r@ == message_of(*self),
    {
        match self {
            McpError::AlreadyConnected(id) => {
                let mut r = String::from_str("Client with id '");
                r.append(id.as_str());
                r.append("' already connected");
                r
            },
            McpError::NotConnected(id) => {
                let mut r = String::from_str("Client with id '");
                r.append(id.as_str());
                r.append("' not connected");
                r
            },
            McpError::LaunchFailure(d) => {
                let mut r = String::from_str("failed to launch server: ");
                r.append(d.as_str());
                r
            },
            McpError::HandshakeFailure(d) => {
                let mut r = String::from_str("handshake with server failed: ");
                r.append(d.as_str());
                r
            },
            McpError::ProtocolError(d) => {
                let mut r = String::from_str("protocol error: ");
                r.append(d.as_str());
                r
            },
        }
    }
}

} // verus!
