//! The peer's answers: their wire text and how received text is classified.
//!
//! An answer is a tag, then, for the tags that carry data, a line break and
//! the data: one user name per line for `USERS`, one `<sender>:<filename>`
//! per line for `REQUESTS`, a free-form reason for `FAILED`.
use vstd::prelude::*;
use crate::error::SessionError;
use crate::text::{
    chars_of, equals_at, find_char, index_of, join_on, lacks, lemma_index_of_after,
    lemma_index_of_none, lemma_split_join, split_chars, split_on, string_of,
    text_of_bytes,
};

verus! {

/// An offer of a file that waits for this user's answer.
#[derive(Debug, Clone, PartialEq, Eq)]
pub struct IncomingRequest {
    pub from_username: String,
    pub filename: String,
}

pub struct RequestView {
    pub from: Seq<char>,
    pub filename: Seq<char>,
}

impl View for IncomingRequest {
    type V = RequestView;

    open spec fn view(&self) -> RequestView {
        RequestView { from: self.from_username@, filename: self.filename@ }
    }
}

/// What the peer answered.
#[derive(Debug, Clone, PartialEq, Eq)]
pub enum ServerResponse {
    UsernameOk,
    UsernameTaken,
    UsernameInvalid,
    GlideRequestSent,
    OkSuccess,
    /// The peer did not understand the command, or sent what this client
    /// cannot interpret.
    UnknownCommand,
    ConnectedUsers(Vec<String>),
    IncomingRequests(Vec<IncomingRequest>),
    /// A failure, with the peer's reason.
    Failure(String),
}

pub enum ResponseView {
    UsernameOk,
    UsernameTaken,
    UsernameInvalid,
    GlideRequestSent,
    OkSuccess,
    UnknownCommand,
    ConnectedUsers(Seq<Seq<char>>),
    IncomingRequests(Seq<RequestView>),
    Failure(Seq<char>),
}

impl View for ServerResponse {
    type V = ResponseView;

    open spec fn view(&self) -> ResponseView {
        match self {
            ServerResponse::UsernameOk => ResponseView::UsernameOk,
            ServerResponse::UsernameTaken => ResponseView::UsernameTaken,
            ServerResponse::UsernameInvalid => ResponseView::UsernameInvalid,
            ServerResponse::GlideRequestSent => ResponseView::GlideRequestSent,
            ServerResponse::OkSuccess => ResponseView::OkSuccess,
            ServerResponse::UnknownCommand => ResponseView::UnknownCommand,
            ServerResponse::ConnectedUsers(v) => ResponseView::ConnectedUsers(
                v@.map_values(|s: String| s@),
            ),
            ServerResponse::IncomingRequests(v) => ResponseView::IncomingRequests(
                v@.map_values(|r: IncomingRequest| r@),
            ),
            ServerResponse::Failure(m) => ResponseView::Failure(m@),
        }
    }
}

pub open spec fn tag_username_ok() -> Seq<char> {
    "USERNAME_OK"@
}

pub open spec fn tag_username_taken() -> Seq<char> {
    "USERNAME_TAKEN"@
}

pub open spec fn tag_username_invalid() -> Seq<char> {
    "USERNAME_INVALID"@
}

pub open spec fn tag_glide_request_sent() -> Seq<char> {
    "GLIDE_REQUEST_SENT"@
}

pub open spec fn tag_ok_success() -> Seq<char> {
    "OK_SUCCESS"@
}

pub open spec fn tag_unknown_command() -> Seq<char> {
    "UNKNOWN_COMMAND"@
}

pub open spec fn tag_users() -> Seq<char> {
    "USERS"@
}

pub open spec fn tag_requests() -> Seq<char> {
    "REQUESTS"@
}

pub open spec fn tag_failed() -> Seq<char> {
    "FAILED"@
}

/// The tags this client recognises.
pub open spec fn known_tag(t: Seq<char>) -> bool {
    t == tag_username_ok() || t == tag_username_taken() || t == tag_username_invalid() || t
        == tag_glide_request_sent() || t == tag_ok_success() || t == tag_unknown_command() || t
        == tag_users() || t == tag_requests() || t == tag_failed()
}

/// The tag of an answer: its text up to the first line break.
pub open spec fn tag_of(s: Seq<char>) -> Seq<char> {
    s.subrange(0, index_of(s, '\n') as int)
}

/// The data of an answer: its text after the first line break, if any.
pub open spec fn data_of(s: Seq<char>) -> Seq<char> {
    let k = index_of(s, '\n');
    if k < s.len() {
        s.subrange(k as int + 1, s.len() as int)
    } else {
        Seq::empty()
    }
}

/// The lines of an answer's data: none where there is no line break.
pub open spec fn data_lines(s: Seq<char>) -> Seq<Seq<char>> {
    if index_of(s, '\n') < s.len() {
        split_on(data_of(s), '\n')
    } else {
        Seq::empty()
    }
}

/// The text of one pending offer.
pub open spec fn request_line(r: RequestView) -> Seq<char> {
    r.from + seq![':'] + r.filename
}

/// The offer a line denotes: sender up to the first `':'`, then file name.
pub open spec fn request_of(line: Seq<char>) -> RequestView {
    let k = index_of(line, ':');
    RequestView {
        from: line.subrange(0, k as int),
        filename: line.subrange(k as int + 1, line.len() as int),
    }
}

/// Every line holds a `':'`.
pub open spec fn all_have_colon(ls: Seq<Seq<char>>) -> bool {
    forall|i: int| 0 <= i < ls.len() ==> index_of(#[trigger] ls[i], ':') < ls[i].len()
}

/// What an answer's text means. A tag that is not recognised, and offers
/// without a `':'`, mean `UnknownCommand`.
pub open spec fn classify_spec(s: Seq<char>) -> ResponseView {
    let tag = tag_of(s);
    if tag == tag_username_ok() {
        ResponseView::UsernameOk
    } else if tag == tag_username_taken() {
        ResponseView::UsernameTaken
    } else if tag == tag_username_invalid() {
        ResponseView::UsernameInvalid
    } else if tag == tag_glide_request_sent() {
        ResponseView::GlideRequestSent
    } else if tag == tag_ok_success() {
        ResponseView::OkSuccess
    } else if tag == tag_users() {
        ResponseView::ConnectedUsers(data_lines(s))
    } else if tag == tag_requests() {
        if all_have_colon(data_lines(s)) {
            ResponseView::IncomingRequests(data_lines(s).map_values(|l: Seq<char>| request_of(l)))
        } else {
            ResponseView::UnknownCommand
        }
    } else if tag == tag_failed() {
        ResponseView::Failure(data_of(s))
    } else {
        ResponseView::UnknownCommand
    }
}

/// A line break before each line, or nothing where there are no lines.
pub open spec fn lines_after(fs: Seq<Seq<char>>) -> Seq<char> {
    if fs.len() == 0 {
        Seq::empty()
    } else {
        seq!['\n'] + join_on(fs, '\n')
    }
}

/// The text of an answer.
pub open spec fn response_text(r: ResponseView) -> Seq<char> {
    match r {
        ResponseView::UsernameOk => tag_username_ok(),
        ResponseView::UsernameTaken => tag_username_taken(),
        ResponseView::UsernameInvalid => tag_username_invalid(),
        ResponseView::GlideRequestSent => tag_glide_request_sent(),
        ResponseView::OkSuccess => tag_ok_success(),
        ResponseView::UnknownCommand => tag_unknown_command(),
        ResponseView::ConnectedUsers(names) => tag_users() + lines_after(names),
        ResponseView::IncomingRequests(rs) => tag_requests() + lines_after(
            rs.map_values(|q: RequestView| request_line(q)),
        ),
        ResponseView::Failure(m) => tag_failed() + seq!['\n'] + m,
    }
}

/// An answer whose data can be told apart in its text: no line break inside a
/// name, a sender or a file name, and no `':'` inside a sender.
pub open spec fn well_formed_response(r: ResponseView) -> bool {
    match r {
        ResponseView::ConnectedUsers(names) => forall|i: int|
            0 <= i < names.len() ==> lacks(#[trigger] names[i], '\n'),
        ResponseView::IncomingRequests(rs) => forall|i: int|
            0 <= i < rs.len() ==> lacks(#[trigger] rs[i].from, '\n') && lacks(rs[i].from, ':')
                && lacks(rs[i].filename, '\n'),
        _ => true,
    }
}

/// The lines of the data of the answer `v`, whose first line break is at `k`.
fn data_lines_at(v: &Vec<char>, k: usize) -> (r: Vec<String>)
    requires
        k <= v.len(),
        k == index_of(v@, '\n'),
    ensures
        r@.map_values(|x: String| x@) == data_lines(v@),
{
    if k < v.len() {
        split_chars(v, k + 1, v.len(), '\n')
    } else {
        let r: Vec<String> = Vec::new();
        assert(r@.map_values(|x: String| x@) == Seq::<Seq<char>>::empty());
        r
    }
}

/// The offers that `lines` denote, if every line holds a `':'`.
fn requests_of(lines: &Vec<String>) -> (r: Option<Vec<IncomingRequest>>)
    ensures
        r is Some <==> all_have_colon(lines@.map_values(|x: String| x@)),
        r matches Some(rs) ==> rs@.map_values(|q: IncomingRequest| q@) == lines@.map_values(
            |x: String| x@,
        ).map_values(|l: Seq<char>| request_of(l)),
{
    let ghost ls = lines@.map_values(|x: String| x@);
    let mut out: Vec<IncomingRequest> = Vec::new();
    let mut i: usize = 0;
    while i < lines.len()
        invariant
            i <= lines.len(),
            ls == lines@.map_values(|x: String| x@),
            forall|j: int| 0 <= j < i ==> index_of(#[trigger] ls[j], ':') < ls[j].len(),
            out@.map_values(|q: IncomingRequest| q@) == ls.take(i as int).map_values(
                |l: Seq<char>| request_of(l),
            ),
        decreases lines.len() - i,
    {
        let lc = chars_of(lines[i].as_str());
        let m = lc.len();
        let j = find_char(&lc, 0, m, ':');
        assert(lc@.subrange(0, m as int) == lc@);
        assert(ls[i as int] == lc@);
        if j == m {
            return None;
        }
        let q = IncomingRequest { from_username: string_of(&lc, 0, j), filename: string_of(&lc, j + 1, m) };
        let ghost before = out@.map_values(|q: IncomingRequest| q@);
        out.push(q);
        assert(out@.map_values(|q: IncomingRequest| q@) == before.push(q@));
        assert(ls.take(i + 1) == ls.take(i as int).push(ls[i as int]));
        assert(ls.take(i + 1).map_values(|l: Seq<char>| request_of(l)) == ls.take(
            i as int,
        ).map_values(|l: Seq<char>| request_of(l)).push(request_of(ls[i as int])));
        i = i + 1;
    }
    assert(ls.take(i as int) == ls);
    Some(out)
}

/// Classifies the text of one answer.
pub fn classify_text(text: &str) -> (r: ServerResponse)
    ensures
        r@ == classify_spec(text@),
{
    let v = chars_of(text);
    let n = v.len();
    let k = find_char(&v, 0, n, '\n');
    assert(v@.subrange(0, n as int) == v@);
    if equals_at(&v, 0, k, &chars_of("USERNAME_OK")) {
        ServerResponse::UsernameOk
    } else if equals_at(&v, 0, k, &chars_of("USERNAME_TAKEN")) {
        ServerResponse::UsernameTaken
    } else if equals_at(&v, 0, k, &chars_of("USERNAME_INVALID")) {
        ServerResponse::UsernameInvalid
    } else if equals_at(&v, 0, k, &chars_of("GLIDE_REQUEST_SENT")) {
        ServerResponse::GlideRequestSent
    } else if equals_at(&v, 0, k, &chars_of("OK_SUCCESS")) {
        ServerResponse::OkSuccess
    } else if equals_at(&v, 0, k, &chars_of("USERS")) {
        ServerResponse::ConnectedUsers(data_lines_at(&v, k))
    } else if equals_at(&v, 0, k, &chars_of("REQUESTS")) {
        match requests_of(&data_lines_at(&v, k)) {
            Some(rs) => ServerResponse::IncomingRequests(rs),
            None => ServerResponse::UnknownCommand,
        }
    } else if equals_at(&v, 0, k, &chars_of("FAILED")) {
        if k < n {
            ServerResponse::Failure(string_of(&v, k + 1, n))
        } else {
            ServerResponse::Failure(String::new())
        }
    } else {
        ServerResponse::UnknownCommand
    }
}

/// Classifies the bytes of one read. Bytes that are not UTF-8 text are a
/// malformed frame; any text is classified.
pub fn classify(bytes: &[u8]) -> (r: Result<ServerResponse, SessionError>)
    ensures
        vstd::utf8::valid_utf8(bytes@) ==> (r matches Ok(resp) && resp@ == classify_spec(
            vstd::utf8::decode_utf8(bytes@),
        )),
        !vstd::utf8::valid_utf8(bytes@) ==> (r matches Err(e) && e == SessionError::MalformedFrame),
{
    match text_of_bytes(bytes) {
        Some(t) => Ok(classify_text(t)),
        None => Err(SessionError::MalformedFrame),
    }
}

proof fn lemma_join_push(fs: Seq<Seq<char>>, x: Seq<char>, c: char)
    requires
        fs.len() > 0,
    ensures
        join_on(fs.push(x), c) == join_on(fs, c) + seq![c] + x,
    decreases fs.len(),
{
    let g = fs.push(x);
    assert(g.drop_first() == fs.drop_first().push(x));
    if fs.len() == 1 {
        assert(join_on(g.drop_first(), c) == x);
    } else {
        lemma_join_push(fs.drop_first(), x, c);
    }
}

proof fn lemma_lines_after_push(fs: Seq<Seq<char>>, x: Seq<char>)
    ensures
        lines_after(fs.push(x)) == lines_after(fs) + seq!['\n'] + x,
{
    if fs.len() == 0 {
        assert(fs.push(x) == seq![x]);
    } else {
        lemma_join_push(fs, x, '\n');
    }
}

/// `acc` followed by a line break and each of `fs`.
fn append_lines(acc: String, fs: &Vec<String>) -> (r: String)
    ensures
        r@ == acc@ + lines_after(fs@.map_values(|x: String| x@)),
{
    let ghost fv = fs@.map_values(|x: String| x@);
    let ghost start = acc@;
    let mut out = acc;
    let mut i: usize = 0;
    proof {
        reveal_strlit("\n");
        assert(fv.take(0) == Seq::<Seq<char>>::empty());
        assert(out@ == start + lines_after(fv.take(0)));
    }
    while i < fs.len()
        invariant
            i <= fs.len(),
            fv == fs@.map_values(|x: String| x@),
            out@ == start + lines_after(fv.take(i as int)),
        decreases fs.len() - i,
    {
        out = out.concat("\n").concat(fs[i].as_str());
        proof {
            reveal_strlit("\n");
            assert(fv.take(i + 1) == fv.take(i as int).push(fv[i as int]));
            lemma_lines_after_push(fv.take(i as int), fv[i as int]);
        }
        i = i + 1;
    }
    assert(fv.take(i as int) == fv);
    out
}

/// The text of an answer, as the peer sends it.
pub fn encode_response(response: &ServerResponse) -> (r: String)
    ensures
        r@ == response_text(response@),
{
    proof {
        reveal_strlit("USERNAME_OK");
        reveal_strlit("USERNAME_TAKEN");
        reveal_strlit("USERNAME_INVALID");
        reveal_strlit("GLIDE_REQUEST_SENT");
        reveal_strlit("OK_SUCCESS");
        reveal_strlit("UNKNOWN_COMMAND");
        reveal_strlit("USERS");
        reveal_strlit("REQUESTS");
        reveal_strlit("FAILED\n");
        reveal_strlit("FAILED");
        reveal_strlit(":");
    }
    match response {
        ServerResponse::UsernameOk => String::from_str("USERNAME_OK"),
        ServerResponse::UsernameTaken => String::from_str("USERNAME_TAKEN"),
        ServerResponse::UsernameInvalid => String::from_str("USERNAME_INVALID"),
        ServerResponse::GlideRequestSent => String::from_str("GLIDE_REQUEST_SENT"),
        ServerResponse::OkSuccess => String::from_str("OK_SUCCESS"),
        ServerResponse::UnknownCommand => String::from_str("UNKNOWN_COMMAND"),
        ServerResponse::ConnectedUsers(names) => append_lines(String::from_str("USERS"), names),
        ServerResponse::IncomingRequests(rs) => {
            let ghost rv = rs@.map_values(|q: IncomingRequest| q@);
            let mut lines: Vec<String> = Vec::new();
            let mut i: usize = 0;
            while i < rs.len()
                invariant
                    i <= rs.len(),
                    rv == rs@.map_values(|q: IncomingRequest| q@),
                    lines@.map_values(|x: String| x@) == rv.take(i as int).map_values(
                        |q: RequestView| request_line(q),
                    ),
                decreases rs.len() - i,
            {
                let line = rs[i].from_username.clone().concat(":").concat(
                    rs[i].filename.as_str(),
                );
                let ghost before = lines@.map_values(|x: String| x@);
                lines.push(line);
                proof {
                    reveal_strlit(":");
                    assert(rv[i as int] == rs@[i as int]@);
                    assert(line@ == request_line(rv[i as int]));
                    assert(lines@.map_values(|x: String| x@) == before.push(line@));
                    assert(rv.take(i + 1) == rv.take(i as int).push(rv[i as int]));
                    assert(rv.take(i + 1).map_values(|q: RequestView| request_line(q)) == rv.take(
                        i as int,
                    ).map_values(|q: RequestView| request_line(q)).push(request_line(rv[i as int])));
                }
                i = i + 1;
            }
            assert(rv.take(i as int) == rv);
            append_lines(String::from_str("REQUESTS"), &lines)
        },
        ServerResponse::Failure(m) => String::from_str("FAILED\n").concat(m.as_str()),
    }
}

/// An answer whose tag this client does not recognise means `UnknownCommand`:
/// classification degrades, it never fails.
pub proof fn lemma_unrecognised_tag(s: Seq<char>)
    requires
        !known_tag(tag_of(s)),
    ensures
        classify_spec(s) == ResponseView::UnknownCommand,
{
}

proof fn lemma_tags_lack_break()
    ensures
        lacks(tag_username_ok(), '\n'),
        lacks(tag_username_taken(), '\n'),
        lacks(tag_username_invalid(), '\n'),
        lacks(tag_glide_request_sent(), '\n'),
        lacks(tag_ok_success(), '\n'),
        lacks(tag_unknown_command(), '\n'),
        lacks(tag_users(), '\n'),
        lacks(tag_requests(), '\n'),
        lacks(tag_failed(), '\n'),
        tag_username_ok().len() == 11,
        tag_username_taken().len() == 14,
        tag_username_invalid().len() == 16,
        tag_glide_request_sent().len() == 18,
        tag_ok_success().len() == 10,
        tag_unknown_command().len() == 15,
        tag_users().len() == 5,
        tag_requests().len() == 8,
        tag_failed().len() == 6,
{
    reveal_strlit("USERNAME_OK");
    reveal_strlit("USERNAME_TAKEN");
    reveal_strlit("USERNAME_INVALID");
    reveal_strlit("GLIDE_REQUEST_SENT");
    reveal_strlit("OK_SUCCESS");
    reveal_strlit("UNKNOWN_COMMAND");
    reveal_strlit("USERS");
    reveal_strlit("REQUESTS");
    reveal_strlit("FAILED");
}

proof fn lemma_bare_tag(tag: Seq<char>)
    requires
        lacks(tag, '\n'),
    ensures
        tag_of(tag) == tag,
        index_of(tag, '\n') == tag.len(),
{
    lemma_index_of_none(tag, '\n');
    assert(tag.subrange(0, tag.len() as int) == tag);
}

proof fn lemma_tagged(tag: Seq<char>, rest: Seq<char>)
    requires
        lacks(tag, '\n'),
    ensures
        tag_of(tag + seq!['\n'] + rest) == tag,
        index_of(tag + seq!['\n'] + rest, '\n') < (tag + seq!['\n'] + rest).len(),
        data_of(tag + seq!['\n'] + rest) == rest,
{
    let s = tag + seq!['\n'] + rest;
    lemma_index_of_after(tag, rest, '\n');
    assert(s.subrange(0, tag.len() as int) == tag);
    assert(s.subrange(tag.len() as int + 1, s.len() as int) == rest);
}

proof fn lemma_lines_round_trip(tag: Seq<char>, fs: Seq<Seq<char>>)
    requires
        lacks(tag, '\n'),
        forall|i: int| 0 <= i < fs.len() ==> lacks(#[trigger] fs[i], '\n'),
    ensures
        tag_of(tag + lines_after(fs)) == tag,
        data_lines(tag + lines_after(fs)) == fs,
{
    if fs.len() == 0 {
        assert(tag + lines_after(fs) == tag);
        lemma_bare_tag(tag);
    } else {
        let j = join_on(fs, '\n');
        assert(tag + lines_after(fs) == tag + seq!['\n'] + j);
        lemma_tagged(tag, j);
        lemma_split_join(fs, '\n');
    }
}

proof fn lemma_request_round_trip(q: RequestView)
    requires
        lacks(q.from, ':'),
    ensures
        index_of(request_line(q), ':') < request_line(q).len(),
        request_of(request_line(q)) == q,
{
    let l = request_line(q);
    lemma_index_of_after(q.from, q.filename, ':');
    assert(l.subrange(0, q.from.len() as int) == q.from);
    assert(l.subrange(q.from.len() as int + 1, l.len() as int) == q.filename);
}

/// Every answer whose data can be told apart in its text is classified back
/// to itself.
pub proof fn lemma_response_round_trip(r: ResponseView)
    requires
        well_formed_response(r),
    ensures
        classify_spec(response_text(r)) == r,
{
    lemma_tags_lack_break();
    match r {
        ResponseView::ConnectedUsers(names) => {
            lemma_lines_round_trip(tag_users(), names);
        },
        ResponseView::IncomingRequests(rs) => {
            let ls = rs.map_values(|q: RequestView| request_line(q));
            assert forall|i: int| 0 <= i < ls.len() implies lacks(#[trigger] ls[i], '\n') by {
                let q = rs[i];
                assert(ls[i] == q.from + seq![':'] + q.filename);
                assert forall|j: int| 0 <= j < ls[i].len() implies #[trigger] ls[i][j] != '\n' by {
                    if j < q.from.len() {
                        assert(ls[i][j] == q.from[j]);
                    } else if j > q.from.len() {
                        assert(ls[i][j] == q.filename[j - q.from.len() - 1]);
                    }
                }
            }
            lemma_lines_round_trip(tag_requests(), ls);
            assert forall|i: int| 0 <= i < ls.len() implies index_of(#[trigger] ls[i], ':')
                < ls[i].len() by {
                lemma_request_round_trip(rs[i]);
            }
            let back = ls.map_values(|l: Seq<char>| request_of(l));
            assert(back == rs) by {
                assert forall|i: int| 0 <= i < rs.len() implies #[trigger] back[i] == rs[i] by {
                    lemma_request_round_trip(rs[i]);
                }
            }
        },
        ResponseView::Failure(m) => {
            lemma_tagged(tag_failed(), m);
        },
        ResponseView::UsernameOk => {
            lemma_bare_tag(tag_username_ok());
        },
        ResponseView::UsernameTaken => {
            lemma_bare_tag(tag_username_taken());
        },
        ResponseView::UsernameInvalid => {
            lemma_bare_tag(tag_username_invalid());
        },
        ResponseView::GlideRequestSent => {
            lemma_bare_tag(tag_glide_request_sent());
        },
        ResponseView::OkSuccess => {
            lemma_bare_tag(tag_ok_success());
        },
        ResponseView::UnknownCommand => {
            lemma_bare_tag(tag_unknown_command());
        },
    }
}

/// The same, from the bytes that the answer's text is sent as.
pub proof fn lemma_response_bytes_round_trip(r: ResponseView)
    requires
        well_formed_response(r),
    ensures
        vstd::utf8::valid_utf8(vstd::utf8::encode_utf8(response_text(r))),
        classify_spec(vstd::utf8::decode_utf8(vstd::utf8::encode_utf8(response_text(r)))) == r,
{
    vstd::utf8::encode_utf8_valid_utf8(response_text(r));
    vstd::utf8::encode_utf8_decode_utf8(response_text(r));
    lemma_response_round_trip(r);
}

} // verus!
