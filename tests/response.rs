use glide::error::SessionError;
use glide::response::{classify, classify_text, encode_response, IncomingRequest, ServerResponse};

fn req(from: &str, file: &str) -> IncomingRequest {
    IncomingRequest { from_username: from.to_string(), filename: file.to_string() }
}

#[test]
fn unknown_tag_classifies_as_unknown_command() {
    assert_eq!(classify_text("WHATEVER"), ServerResponse::UnknownCommand);
    assert_eq!(classify_text("hello there\nmore"), ServerResponse::UnknownCommand);
    assert_eq!(classify_text(""), ServerResponse::UnknownCommand);
}

#[test]
fn bytes_that_are_not_text_are_a_malformed_frame() {
    assert_eq!(classify(&[0xff, 0xfe]), Err(SessionError::MalformedFrame));
    assert_eq!(classify(b"USERS\nbo\xffb"), Err(SessionError::MalformedFrame));
}

#[test]
fn unknown_tag_bytes_classify_as_unknown_command() {
    assert_eq!(classify(b"HELLO"), Ok(ServerResponse::UnknownCommand));
}

#[test]
fn plain_tags_classify() {
    assert_eq!(classify(b"USERNAME_OK").unwrap(), ServerResponse::UsernameOk);
    assert_eq!(classify(b"USERNAME_TAKEN").unwrap(), ServerResponse::UsernameTaken);
    assert_eq!(classify(b"USERNAME_INVALID").unwrap(), ServerResponse::UsernameInvalid);
    assert_eq!(classify(b"GLIDE_REQUEST_SENT").unwrap(), ServerResponse::GlideRequestSent);
    assert_eq!(classify(b"OK_SUCCESS").unwrap(), ServerResponse::OkSuccess);
    assert_eq!(classify(b"UNKNOWN_COMMAND").unwrap(), ServerResponse::UnknownCommand);
}

#[test]
fn users_classify_as_list_of_names() {
    assert_eq!(
        classify(b"USERS\nalice\nbob").unwrap(),
        ServerResponse::ConnectedUsers(vec!["alice".to_string(), "bob".to_string()])
    );
    assert_eq!(classify(b"USERS").unwrap(), ServerResponse::ConnectedUsers(vec![]));
}

#[test]
fn requests_classify_as_sender_and_file() {
    assert_eq!(
        classify(b"REQUESTS\nalice:a.txt\nbob:b:c.txt").unwrap(),
        ServerResponse::IncomingRequests(vec![req("alice", "a.txt"), req("bob", "b:c.txt")])
    );
}

#[test]
fn request_without_colon_classifies_as_unknown_command() {
    assert_eq!(classify(b"REQUESTS\nalice").unwrap(), ServerResponse::UnknownCommand);
}

#[test]
fn failure_keeps_reason() {
    assert_eq!(classify(b"FAILED\nno such user").unwrap(), ServerResponse::Failure("no such user".to_string()));
    assert_eq!(classify(b"FAILED").unwrap(), ServerResponse::Failure(String::new()));
}

#[test]
fn responses_round_trip_through_text() {
    let rs = vec![
        ServerResponse::UsernameOk,
        ServerResponse::UsernameTaken,
        ServerResponse::UsernameInvalid,
        ServerResponse::GlideRequestSent,
        ServerResponse::OkSuccess,
        ServerResponse::UnknownCommand,
        ServerResponse::ConnectedUsers(vec![]),
        ServerResponse::ConnectedUsers(vec![String::new()]),
        ServerResponse::ConnectedUsers(vec!["a".to_string(), "b c".to_string()]),
        ServerResponse::IncomingRequests(vec![]),
        ServerResponse::IncomingRequests(vec![req("alice", "x:y.txt"), req("", "")]),
        ServerResponse::Failure("line one\nline two".to_string()),
        ServerResponse::Failure(String::new()),
    ];
    for r in rs {
        let text = encode_response(&r);
        assert_eq!(classify(text.as_bytes()), Ok(r), "{}", text);
    }
}

#[test]
fn encode_response_writes_tag_and_lines() {
    assert_eq!(
        encode_response(&ServerResponse::ConnectedUsers(vec!["a".to_string(), "b".to_string()])),
        "USERS\na\nb"
    );
    assert_eq!(
        encode_response(&ServerResponse::IncomingRequests(vec![req("a", "f.txt")])),
        "REQUESTS\na:f.txt"
    );
    assert_eq!(encode_response(&ServerResponse::Failure("why".to_string())), "FAILED\nwhy");
}
