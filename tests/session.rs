use glide::command::Command;
use glide::error::SessionError;
use glide::handshake::{Handshake, Phase};
use glide::response::ServerResponse;
use glide::session::{dispatch, plan_line, LinePlan, Next};

#[test]
fn exit_line_ends_the_session() {
    assert_eq!(plan_line("  exit "), LinePlan::Exit);
}

#[test]
fn malformed_line_is_rejected_locally() {
    assert_eq!(plan_line("ok bob"), LinePlan::Reject);
    assert_eq!(plan_line("dance"), LinePlan::Reject);
}

#[test]
fn valid_line_is_sent_as_command_text() {
    assert_eq!(
        plan_line(" glide  notes.txt  @bob"),
        LinePlan::Send(
            Command::Glide { path: "notes.txt".to_string(), to: "bob".to_string() },
            "glide notes.txt @bob".to_string()
        )
    );
    assert_eq!(plan_line("list"), LinePlan::Send(Command::List, "list".to_string()));
}

#[test]
fn dispatch_decides_from_command_and_reply() {
    let g = Command::Glide { path: "a".to_string(), to: "b".to_string() };
    assert_eq!(dispatch(&g, &ServerResponse::GlideRequestSent), Next::Upload);
    assert_eq!(dispatch(&g, &ServerResponse::UnknownCommand), Next::Rejected);
    let ok = Command::Accept("b".to_string());
    assert_eq!(dispatch(&ok, &ServerResponse::OkSuccess), Next::Download);
    assert_eq!(dispatch(&ok, &ServerResponse::Failure("x".to_string())), Next::Rejected);
    let no = Command::Refuse("b".to_string());
    assert_eq!(dispatch(&no, &ServerResponse::OkSuccess), Next::Finished);
    assert_eq!(dispatch(&Command::List, &ServerResponse::ConnectedUsers(vec![])), Next::ShowUsers);
    assert_eq!(dispatch(&Command::List, &ServerResponse::OkSuccess), Next::Rejected);
    assert_eq!(
        dispatch(&Command::Requests, &ServerResponse::IncomingRequests(vec![])),
        Next::ShowRequests
    );
    assert_eq!(dispatch(&Command::Unknown("x".to_string()), &ServerResponse::OkSuccess), Next::Rejected);
}

#[test]
fn handshake_accepts_after_rejection() {
    let mut h = Handshake::new();
    assert_eq!(h.phase(), Phase::Prompting);
    assert_eq!(h.on_line(".bad"), None);
    assert_eq!(h.phase(), Phase::Prompting);
    assert_eq!(h.on_line("  alice \n"), Some("alice".to_string()));
    assert_eq!(h.phase(), Phase::Sent);
    assert_eq!(h.on_reply(&ServerResponse::UsernameTaken), Err(SessionError::ServerRejected));
    assert_eq!(h.phase(), Phase::Rejected);
    assert_eq!(h.on_line("bob"), Some("bob".to_string()));
    assert_eq!(h.on_reply(&ServerResponse::UsernameOk), Ok("bob".to_string()));
    assert_eq!(h.phase(), Phase::Accepted);
    assert_eq!(h.username(), "bob");
}

#[test]
fn handshake_aborts_on_closed_connection() {
    let mut h = Handshake::new();
    assert_eq!(h.on_line("carol"), Some("carol".to_string()));
    assert_eq!(h.on_closed(), SessionError::ConnectionClosed);
    assert_eq!(h.phase(), Phase::Closed);
}
