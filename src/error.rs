//! What can go wrong in a session.
use vstd::prelude::*;

verus! {

/// The failures a session reports to the operator.
#[derive(Debug, Clone, Copy, PartialEq, Eq, Structural)]
pub enum SessionError {
    /// A read returned no bytes: the peer closed the connection. Ends the session.
    ConnectionClosed,
    /// A frame was not text, or not of the expected shape. Ends the current command.
    MalformedFrame,
    /// Operator input broke the command grammar or the username rule. Asks again.
    ValidationRejected,
    /// The peer answered the current command negatively. Ends the current command.
    ServerRejected,
    /// A local file could not be opened, read or written. Ends the current command.
    LocalIo,
}

impl SessionError {
    /// Whether the session must end on this failure.
    pub fn is_fatal(&self) -> (r: bool)
        ensures
            r <==> *self == SessionError::ConnectionClosed,
    {
        match self {
            SessionError::ConnectionClosed => true,
            _ => false,
        }
    }
}

} // verus!
