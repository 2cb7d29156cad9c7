//! Username negotiation: the decisions of the handshake, step by step.
//!
//! The caller asks the operator for a line while the handshake is
//! `Prompting` or `Rejected`, sends the username it is handed, and reports the
//! peer's answer or the closing of the connection.
use vstd::prelude::*;
use crate::error::SessionError;
use crate::response::ServerResponse;
use crate::text::{chars_of, string_of, trim, trim_bounds};
use crate::username::{valid_username, validate_username};

verus! {

/// Where the handshake stands.
#[derive(Debug, Clone, Copy, PartialEq, Eq, Structural)]
pub enum Phase {
    /// Waiting for the operator to type a username.
    Prompting,
    /// A username was sent; waiting for the peer's answer.
    Sent,
    /// The peer accepted the username. Final.
    Accepted,
    /// The peer refused the username; the operator is asked again.
    Rejected,
    /// The connection closed. Final.
    Closed,
}

/// The handshake's state: its phase and the last username offered.
pub struct Handshake {
    phase: Phase,
    username: String,
}

pub struct HandshakeView {
    pub phase: Phase,
    pub username: Seq<char>,
}

impl View for Handshake {
    type V = HandshakeView;

    closed spec fn view(&self) -> HandshakeView {
        HandshakeView { phase: self.phase, username: self.username@ }
    }
}

/// The handshake waits for a line from the operator.
pub open spec fn wants_line(p: Phase) -> bool {
    p == Phase::Prompting || p == Phase::Rejected
}

impl Handshake {
    pub fn new() -> (r: Handshake)
        ensures
            r@.phase == Phase::Prompting,
            r@.username.len() == 0,
    {
        Handshake { phase: Phase::Prompting, username: String::new() }
    }

    pub fn phase(&self) -> (r: Phase)
        ensures
            r == self@.phase,
    {
        self.phase
    }

    /// The last username offered.
    pub fn username(&self) -> (r: &String)
        ensures
            r@ == self@.username,
    {
        &self.username
    }

    /// The operator typed `line`. Returns the username to send, its surrounding
    /// whitespace removed, if it satisfies the username rule; otherwise `None`,
    /// and the rule is to be shown and a line asked for again.
    pub fn on_line(&mut self, line: &str) -> (r: Option<String>)
        requires
            wants_line(old(self)@.phase),
        ensures
            r is Some <==> valid_username(trim(line@)),
            r matches Some(u) ==> u@ == trim(line@) && final(self)@ == (HandshakeView {
                phase: Phase::Sent,
                username: u@,
            }),
            r is None ==> final(self)@ == (HandshakeView {
                phase: Phase::Prompting,
                ..old(self)@
            }),
    {
        let v = chars_of(line);
        let (a, b) = trim_bounds(&v, 0, v.len());
        assert(v@.subrange(0, v.len() as int) == v@);
        let candidate = string_of(&v, a, b);
        if validate_username(candidate.as_str()) {
            self.phase = Phase::Sent;
            self.username = candidate.clone();
            Some(candidate)
        } else {
            self.phase = Phase::Prompting;
            None
        }
    }

    /// The peer answered the username. `UsernameOk` ends the handshake with the
    /// accepted username; any other answer is a refusal, to be shown with its
    /// reason before a line is asked for again.
    pub fn on_reply(&mut self, reply: &ServerResponse) -> (r: Result<String, SessionError>)
        requires
            old(self)@.phase == Phase::Sent,
        ensures
            final(self)@.username == old(self)@.username,
            reply@ is UsernameOk ==> final(self)@.phase == Phase::Accepted && (r matches Ok(u)
                && u@ == old(self)@.username),
            !(reply@ is UsernameOk) ==> final(self)@.phase == Phase::Rejected && r == Err::<
                String,
                SessionError,
            >(SessionError::ServerRejected),
    {
        match reply {
            ServerResponse::UsernameOk => {
                self.phase = Phase::Accepted;
                Ok(self.username.clone())
            },
            _ => {
                self.phase = Phase::Rejected;
                Err(SessionError::ServerRejected)
            },
        }
    }

    /// The connection closed: the handshake ends, and so does the session.
    pub fn on_closed(&mut self) -> (r: SessionError)
        ensures
            final(self)@ == (HandshakeView { phase: Phase::Closed, ..old(self)@ }),
            r == SessionError::ConnectionClosed,
    {
        self.phase = Phase::Closed;
        SessionError::ConnectionClosed
    }
}

} // verus!
