//! The session dispatcher's decisions: what a line of input asks for, and what
//! to do with the peer's answer to a command.
use vstd::prelude::*;
use crate::command::{
    command_text, encode, parse, parse_spec, validate, well_formed, Command, CommandView,
};
use crate::response::{ResponseView, ServerResponse};
use crate::text::{chars_of, equals_at, trim, trim_bounds};

verus! {

/// What to do with one line of operator input.
#[derive(Debug, Clone, PartialEq, Eq)]
pub enum LinePlan {
    /// End the session.
    Exit,
    /// The line breaks the command grammar: report it, send nothing.
    Reject,
    /// Send the command's text and wait for the answer.
    Send(Command, String),
}

pub open spec fn exit_word() -> Seq<char> {
    seq!['e', 'x', 'i', 't']
}

/// Decides what a line of operator input asks for.
pub fn plan_line(line: &str) -> (r: LinePlan)
    ensures
        trim(line@) == exit_word() ==> r is Exit,
        trim(line@) != exit_word() && !well_formed(parse_spec(line@)) ==> r is Reject,
        trim(line@) != exit_word() && well_formed(parse_spec(line@)) ==> (r matches LinePlan::Send(
            c,
            t,
        ) && c@ == parse_spec(line@) && t@ == command_text(c@)),
{
    let v = chars_of(line);
    let (a, b) = trim_bounds(&v, 0, v.len());
    assert(v@.subrange(0, v.len() as int) == v@);
    if equals_at(&v, a, b, &vec!['e', 'x', 'i', 't']) {
        return LinePlan::Exit;
    }
    let command = parse(line);
    if !validate(&command) {
        return LinePlan::Reject;
    }
    let text = encode(&command);
    LinePlan::Send(command, text)
}

/// What follows the peer's answer to a command.
#[derive(Debug, Clone, Copy, PartialEq, Eq, Structural)]
pub enum Next {
    /// The offer was registered: upload the file.
    Upload,
    /// The offer was accepted: download the file.
    Download,
    /// Show the connected users the answer lists.
    ShowUsers,
    /// Show the pending offers the answer lists.
    ShowRequests,
    /// The command is done.
    Finished,
    /// The peer refused or did not understand the command: report the answer.
    Rejected,
}

/// What follows the answer `r` to the command `c`.
pub open spec fn next_step(c: CommandView, r: ResponseView) -> Next {
    match c {
        CommandView::Glide { .. } => if r is GlideRequestSent {
            Next::Upload
        } else {
            Next::Rejected
        },
        CommandView::Accept(_) => if r is OkSuccess {
            Next::Download
        } else {
            Next::Rejected
        },
        CommandView::Refuse(_) => if r is OkSuccess {
            Next::Finished
        } else {
            Next::Rejected
        },
        CommandView::List => if r is ConnectedUsers {
            Next::ShowUsers
        } else {
            Next::Rejected
        },
        CommandView::Requests => if r is IncomingRequests {
            Next::ShowRequests
        } else {
            Next::Rejected
        },
        CommandView::Unknown(_) => Next::Rejected,
    }
}

/// Decides what follows the peer's answer to a command.
pub fn dispatch(command: &Command, reply: &ServerResponse) -> (r: Next)
    ensures
        r == next_step(command@, reply@),
{
    match command {
        Command::Glide { .. } => match reply {
            ServerResponse::GlideRequestSent => Next::Upload,
            _ => Next::Rejected,
        },
        Command::Accept(_) => match reply {
            ServerResponse::OkSuccess => Next::Download,
            _ => Next::Rejected,
        },
        Command::Refuse(_) => match reply {
            ServerResponse::OkSuccess => Next::Finished,
            _ => Next::Rejected,
        },
        Command::List => match reply {
            ServerResponse::ConnectedUsers(_) => Next::ShowUsers,
            _ => Next::Rejected,
        },
        Command::Requests => match reply {
            ServerResponse::IncomingRequests(_) => Next::ShowRequests,
            _ => Next::Rejected,
        },
        Command::Unknown(_) => Next::Rejected,
    }
}

} // verus!
