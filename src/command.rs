//! The operator's commands: their grammar, local validation and wire text.
use vstd::prelude::*;
use crate::text::{
    chars_of, equals_at, is_space, is_space_spec, is_trimmed, lemma_trim_end_of_trimmed,
    lemma_trim_start_of_trimmed, no_space, starts_with, starts_with_at, string_of, trim,
    trim_bounds,
};

verus! {

/// One line of operator input, parsed.
#[derive(Debug, Clone, PartialEq, Eq)]
pub enum Command {
    /// Offer the file at `path` to the user `to`.
    Glide { path: String, to: String },
    /// Accept the pending offer of the given user.
    Accept(String),
    /// Refuse the pending offer of the given user.
    Refuse(String),
    /// Ask for the connected users.
    List,
    /// Ask for the pending offers.
    Requests,
    /// A line that the grammar does not accept, as it was typed.
    Unknown(String),
}

/// The view of a command: its fields as character sequences.
pub enum CommandView {
    Glide { path: Seq<char>, to: Seq<char> },
    Accept(Seq<char>),
    Refuse(Seq<char>),
    List,
    Requests,
    Unknown(Seq<char>),
}

impl View for Command {
    type V = CommandView;

    open spec fn view(&self) -> CommandView {
        match self {
            Command::Glide { path, to } => CommandView::Glide { path: path@, to: to@ },
            Command::Accept(t) => CommandView::Accept(t@),
            Command::Refuse(t) => CommandView::Refuse(t@),
            Command::List => CommandView::List,
            Command::Requests => CommandView::Requests,
            Command::Unknown(t) => CommandView::Unknown(t@),
        }
    }
}

pub open spec fn kw_list() -> Seq<char> {
    seq!['l', 'i', 's', 't']
}

pub open spec fn kw_reqs() -> Seq<char> {
    seq!['r', 'e', 'q', 's']
}

pub open spec fn kw_glide() -> Seq<char> {
    seq!['g', 'l', 'i', 'd', 'e']
}

pub open spec fn kw_ok() -> Seq<char> {
    seq!['o', 'k']
}

pub open spec fn kw_no() -> Seq<char> {
    seq!['n', 'o']
}

/// The index of the last whitespace character of `t`, or -1.
pub open spec fn last_space(t: Seq<char>) -> int
    decreases t.len(),
{
    if t.len() == 0 {
        -1
    } else if is_space_spec(t.last()) {
        t.len() - 1
    } else {
        last_space(t.drop_last())
    }
}

/// For a trimmed line `t` that starts with a keyword of length `kw` followed by
/// whitespace and ends with a token `@<user>`: what lies between, trimmed, and
/// the user.
pub open spec fn split_target(t: Seq<char>, kw: int) -> Option<(Seq<char>, Seq<char>)> {
    if 0 <= kw < t.len() && is_space_spec(t[kw]) {
        let k = last_space(t);
        let tok = t.subrange(k + 1, t.len() as int);
        if tok.len() >= 2 && tok[0] == '@' {
            Some((trim(t.subrange(kw, k)), tok.drop_first()))
        } else {
            None
        }
    } else {
        None
    }
}

/// The command a trimmed line `t` denotes when it begins with the keyword `kw`
/// followed by a target: `glide` wants a path before the user token, `ok` and
/// `no` want nothing there.
pub open spec fn targeted(t: Seq<char>, kw: Seq<char>) -> Option<CommandView> {
    if !starts_with(t, kw) {
        None
    } else {
        match split_target(t, kw.len() as int) {
            Some((middle, user)) => if kw == kw_glide() && middle.len() > 0 {
                Some(CommandView::Glide { path: middle, to: user })
            } else if kw == kw_ok() && middle.len() == 0 {
                Some(CommandView::Accept(user))
            } else if kw == kw_no() && middle.len() == 0 {
                Some(CommandView::Refuse(user))
            } else {
                None
            },
            None => None,
        }
    }
}

/// The command that a line of operator input denotes.
pub open spec fn parse_spec(text: Seq<char>) -> CommandView {
    let t = trim(text);
    if t == kw_list() {
        CommandView::List
    } else if t == kw_reqs() {
        CommandView::Requests
    } else if targeted(t, kw_glide()) is Some {
        targeted(t, kw_glide()).unwrap()
    } else if targeted(t, kw_ok()) is Some {
        targeted(t, kw_ok()).unwrap()
    } else if targeted(t, kw_no()) is Some {
        targeted(t, kw_no()).unwrap()
    } else {
        CommandView::Unknown(text)
    }
}

/// A user token: not empty, no whitespace.
pub open spec fn is_user_token(u: Seq<char>) -> bool {
    u.len() > 0 && no_space(u)
}

/// A command that the grammar gives back unchanged from its own text.
pub open spec fn well_formed(c: CommandView) -> bool {
    match c {
        CommandView::Glide { path, to } => path.len() > 0 && is_trimmed(path) && is_user_token(
            to,
        ),
        CommandView::Accept(to) => is_user_token(to),
        CommandView::Refuse(to) => is_user_token(to),
        CommandView::List => true,
        CommandView::Requests => true,
        CommandView::Unknown(_) => false,
    }
}

/// The text a command is written as, on the connection and at the prompt.
pub open spec fn command_text(c: CommandView) -> Seq<char> {
    match c {
        CommandView::Glide { path, to } => kw_glide() + seq![' '] + path + seq![' ', '@'] + to,
        CommandView::Accept(to) => kw_ok() + seq![' ', '@'] + to,
        CommandView::Refuse(to) => kw_no() + seq![' ', '@'] + to,
        CommandView::List => kw_list(),
        CommandView::Requests => kw_reqs(),
        CommandView::Unknown(t) => t,
    }
}

proof fn lemma_last_space_at(t: Seq<char>, k: int)
    requires
        0 <= k < t.len(),
        is_space_spec(t[k]),
        no_space(t.subrange(k + 1, t.len() as int)),
    ensures
        last_space(t) == k,
    decreases t.len(),
{
    if k < t.len() - 1 {
        assert(t.subrange(k + 1, t.len() as int)[t.len() - k - 2] == t.last());
        assert(t.drop_last().subrange(k + 1, t.len() - 1) == t.subrange(k + 1, t.len() - 1));
        assert(no_space(t.drop_last().subrange(k + 1, t.len() - 1))) by {
            assert forall|i: int| 0 <= i < t.len() - 1 - (k + 1) implies !is_space_spec(
                #[trigger] t.drop_last().subrange(k + 1, t.len() - 1)[i],
            ) by {
                assert(t.subrange(k + 1, t.len() as int)[i] == t[k + 1 + i]);
            }
        }
        lemma_last_space_at(t.drop_last(), k);
    }
}

proof fn lemma_last_space_ge(t: Seq<char>, j: int)
    requires
        0 <= j < t.len(),
        is_space_spec(t[j]),
    ensures
        j <= last_space(t) < t.len(),
    decreases t.len(),
{
    if j < t.len() - 1 && !is_space_spec(t.last()) {
        assert(t.drop_last()[j] == t[j]);
        lemma_last_space_ge(t.drop_last(), j);
    }
}

proof fn lemma_no_last_space(t: Seq<char>)
    requires
        no_space(t),
    ensures
        last_space(t) == -1,
    decreases t.len(),
{
    if t.len() > 0 {
        assert(t.drop_last().len() < t.len());
        assert(no_space(t.drop_last())) by {
            assert forall|i: int| 0 <= i < t.len() - 1 implies !is_space_spec(
                #[trigger] t.drop_last()[i],
            ) by {
                assert(t.drop_last()[i] == t[i]);
            }
        }
        lemma_no_last_space(t.drop_last());
    }
}

/// The index `a + last_space(v[a..b])`, or `b` when there is none.
fn find_last_space(v: &Vec<char>, a: usize, b: usize) -> (r: usize)
    requires
        a <= b <= v.len(),
    ensures
        a <= r <= b,
        r < b ==> r - a == last_space(v@.subrange(a as int, b as int)),
        r == b ==> last_space(v@.subrange(a as int, b as int)) == -1,
{
    let ghost t = v@.subrange(a as int, b as int);
    let mut j: usize = b;
    while j > a
        invariant
            a <= j <= b <= v.len(),
            t == v@.subrange(a as int, b as int),
            forall|k: int| j <= k < b ==> !is_space_spec(#[trigger] v@[k]),
        decreases j - a,
    {
        if is_space(v[j - 1]) {
            proof {
                assert(no_space(t.subrange(j - a, t.len() as int))) by {
                    assert forall|i: int| 0 <= i < t.len() - (j - a) implies !is_space_spec(
                        #[trigger] t.subrange(j - a, t.len() as int)[i],
                    ) by {
                        assert(t.subrange(j - a, t.len() as int)[i] == v@[j + i]);
                    }
                }
                lemma_last_space_at(t, j - 1 - a);
            }
            return j - 1;
        }
        j = j - 1;
    }
    proof {
        assert(no_space(t)) by {
            assert forall|i: int| 0 <= i < t.len() implies !is_space_spec(#[trigger] t[i]) by {
                assert(t[i] == v@[a + i]);
            }
        }
        lemma_no_last_space(t);
    }
    b
}

/// For the trimmed line `v[a..b]` and a keyword length `kw`: the bounds of the
/// text between the keyword and the user token, trimmed, and the start of the
/// user, as `split_target` describes.
fn split_target_at(v: &Vec<char>, a: usize, b: usize, kw: usize) -> (r: Option<
    (usize, usize, usize),
>)
    requires
        a <= b <= v.len(),
    ensures
        r is Some <==> split_target(v@.subrange(a as int, b as int), kw as int) is Some,
        r matches Some((p, q, u)) ==> {
            let s = split_target(v@.subrange(a as int, b as int), kw as int)->0;
            &&& p <= q <= v.len()
            &&& u <= b
            &&& v@.subrange(p as int, q as int) == s.0
            &&& v@.subrange(u as int, b as int) == s.1
        },
{
    let ghost t = v@.subrange(a as int, b as int);
    if kw >= b - a || !is_space(v[a + kw]) {
        return None;
    }
    let k = find_last_space(v, a, b);
    assert(t[kw as int] == v@[a + kw]);
    proof {
        lemma_last_space_ge(t, kw as int);
    }
    if k == b {
        return None;
    }
    let ghost tok = t.subrange(k - a + 1, t.len() as int);
    if b - k < 3 || v[k + 1] != '@' {
        assert(b - k >= 3 ==> tok[0] == v@[k + 1]);
        return None;
    }
    assert(tok[0] == v@[k + 1]);
    assert(tok.drop_first() == v@.subrange(k + 2, b as int));
    let (p, q) = trim_bounds(v, a + kw, k);
    assert(t.subrange(kw as int, k - a) == v@.subrange(a + kw, k as int));
    Some((p, q, k + 2))
}

/// Parses one line of operator input.
pub fn parse(text: &str) -> (r: Command)
    ensures
        r@ == parse_spec(text@),
{
    let v = chars_of(text);
    let (a, b) = trim_bounds(&v, 0, v.len());
    assert(v@.subrange(0, v.len() as int) == v@);
    let ghost t = v@.subrange(a as int, b as int);
    if equals_at(&v, a, b, &vec!['l', 'i', 's', 't']) {
        return Command::List;
    }
    if equals_at(&v, a, b, &vec!['r', 'e', 'q', 's']) {
        return Command::Requests;
    }
    if starts_with_at(&v, a, b, &vec!['g', 'l', 'i', 'd', 'e']) {
        if let Some((p, q, u)) = split_target_at(&v, a, b, 5) {
            if p < q {
                return Command::Glide { path: string_of(&v, p, q), to: string_of(&v, u, b) };
            }
        }
    }
    if starts_with_at(&v, a, b, &vec!['o', 'k']) {
        if let Some((p, q, u)) = split_target_at(&v, a, b, 2) {
            if p == q {
                return Command::Accept(string_of(&v, u, b));
            }
        }
    }
    if starts_with_at(&v, a, b, &vec!['n', 'o']) {
        if let Some((p, q, u)) = split_target_at(&v, a, b, 2) {
            if p == q {
                return Command::Refuse(string_of(&v, u, b));
            }
        }
    }
    Command::Unknown(string_of(&v, 0, v.len()))
}

/// Whether `s` is a user token: not empty, no whitespace.
fn user_token(s: &String) -> (r: bool)
    ensures
        r == is_user_token(s@),
{
    let v = chars_of(s.as_str());
    if v.len() == 0 {
        return false;
    }
    let mut i: usize = 0;
    while i < v.len()
        invariant
            v@ == s@,
            i <= v.len(),
            forall|j: int| 0 <= j < i ==> !is_space_spec(#[trigger] v@[j]),
        decreases v.len() - i,
    {
        if is_space(v[i]) {
            return false;
        }
        i = i + 1;
    }
    true
}

/// Whether a command would come back unchanged from its own text: the local
/// check made before anything is sent.
pub fn validate(command: &Command) -> (r: bool)
    ensures
        r == well_formed(command@),
{
    match command {
        Command::Glide { path, to } => {
            let p = chars_of(path.as_str());
            p.len() > 0 && !is_space(p[0]) && !is_space(p[p.len() - 1]) && user_token(to)
        },
        Command::Accept(to) => user_token(to),
        Command::Refuse(to) => user_token(to),
        Command::List => true,
        Command::Requests => true,
        Command::Unknown(_) => false,
    }
}

/// The text of a command, as it is sent to the peer.
pub fn encode(command: &Command) -> (r: String)
    ensures
        r@ == command_text(command@),
{
    proof {
        reveal_strlit("glide ");
        reveal_strlit(" @");
        reveal_strlit("ok @");
        reveal_strlit("no @");
        reveal_strlit("list");
        reveal_strlit("reqs");
    }
    match command {
        Command::Glide { path, to } => {
            let r = String::from_str("glide ").concat(path.as_str()).concat(" @").concat(
                to.as_str(),
            );
            assert(r@ == kw_glide() + seq![' '] + path@ + seq![' ', '@'] + to@);
            r
        },
        Command::Accept(to) => String::from_str("ok @").concat(to.as_str()),
        Command::Refuse(to) => String::from_str("no @").concat(to.as_str()),
        Command::List => String::from_str("list"),
        Command::Requests => String::from_str("reqs"),
        Command::Unknown(t) => t.clone(),
    }
}

proof fn lemma_last_space_after(t: Seq<char>)
    ensures
        -1 <= last_space(t) < t.len(),
        forall|i: int| last_space(t) < i < t.len() ==> !is_space_spec(#[trigger] t[i]),
    decreases t.len(),
{
    if t.len() > 0 && !is_space_spec(t.last()) {
        lemma_last_space_after(t.drop_last());
        assert forall|i: int| last_space(t) < i < t.len() implies !is_space_spec(
            #[trigger] t[i],
        ) by {
            if i < t.len() - 1 {
                assert(t.drop_last()[i] == t[i]);
            }
        }
    }
}

proof fn lemma_target_is_token(t: Seq<char>, kw: int)
    requires
        split_target(t, kw) is Some,
    ensures
        is_user_token(split_target(t, kw).unwrap().1),
        is_trimmed(split_target(t, kw).unwrap().0),
{
    lemma_last_space_after(t);
    let k = last_space(t);
    let tok = t.subrange(k + 1, t.len() as int);
    let u = tok.drop_first();
    assert forall|i: int| 0 <= i < u.len() implies !is_space_spec(#[trigger] u[i]) by {
        assert(u[i] == t[k + 2 + i]);
    }
    crate::text::lemma_trim_is_trimmed(t.subrange(kw, k));
}

/// Every line that parses to a command other than `Unknown` gives a command
/// that passes the local check.
pub proof fn lemma_parsed_commands_validate(text: Seq<char>)
    ensures
        !(parse_spec(text) is Unknown) ==> well_formed(parse_spec(text)),
{
    let t = trim(text);
    if split_target(t, 5) is Some {
        lemma_target_is_token(t, 5);
    }
    if split_target(t, 2) is Some {
        lemma_target_is_token(t, 2);
    }
}

proof fn lemma_trim_one_space(p: Seq<char>)
    requires
        is_trimmed(p),
    ensures
        trim(seq![' '] + p) == p,
{
    assert((seq![' '] + p).drop_first() == p);
    lemma_trim_start_of_trimmed(p);
    lemma_trim_end_of_trimmed(p);
}

proof fn lemma_tail_no_space(s: Seq<char>, k: int, u: Seq<char>)
    requires
        0 <= k < s.len(),
        s.subrange(k + 1, s.len() as int) == seq!['@'] + u,
        no_space(u),
    ensures
        no_space(s.subrange(k + 1, s.len() as int)),
{
    let tail = s.subrange(k + 1, s.len() as int);
    assert forall|i: int| 0 <= i < tail.len() implies !is_space_spec(#[trigger] tail[i]) by {
        if i > 0 {
            assert(tail[i] == u[i - 1]);
        }
    }
}

/// Every command that passes the local check comes back unchanged from the
/// text it is sent as.
pub proof fn lemma_command_round_trip(c: CommandView)
    requires
        well_formed(c),
    ensures
        parse_spec(command_text(c)) == c,
{
    let s = command_text(c);
    match c {
        CommandView::Glide { path, to } => {
            let k = (path.len() + 6) as int;
            assert(s[0] == 'g');
            assert(s.last() == to.last());
            lemma_trim_start_of_trimmed(s);
            lemma_trim_end_of_trimmed(s);
            assert(s.subrange(0, 5) == kw_glide());
            assert(s[5] == ' ');
            assert(s[k] == ' ');
            assert(s.subrange(k + 1, s.len() as int) == seq!['@'] + to);
            lemma_tail_no_space(s, k, to);
            lemma_last_space_at(s, k);
            assert((seq!['@'] + to).drop_first() == to);
            assert(s.subrange(5, k) == seq![' '] + path);
            lemma_trim_one_space(path);
            assert(s != kw_list() && s != kw_reqs());
        },
        CommandView::Accept(to) => {
            assert(s[0] == 'o');
            assert(s.last() == to.last());
            lemma_trim_start_of_trimmed(s);
            lemma_trim_end_of_trimmed(s);
            assert(s.subrange(0, 2) == kw_ok());
            assert(s[2] == ' ');
            assert(s.subrange(3, s.len() as int) == seq!['@'] + to);
            lemma_tail_no_space(s, 2, to);
            lemma_last_space_at(s, 2);
            assert((seq!['@'] + to).drop_first() == to);
            assert(s.subrange(2, 2) == Seq::<char>::empty());
            assert(!starts_with(s, kw_glide())) by {
                if s.len() >= 5 {
                    assert(s.subrange(0, 5)[0] != kw_glide()[0]);
                }
            }
            assert(s != kw_list() && s != kw_reqs()) by {
                assert(s[0] != kw_list()[0] && s[0] != kw_reqs()[0]);
            }
        },
        CommandView::Refuse(to) => {
            assert(s[0] == 'n');
            assert(s.last() == to.last());
            lemma_trim_start_of_trimmed(s);
            lemma_trim_end_of_trimmed(s);
            assert(s.subrange(0, 2) == kw_no());
            assert(s[2] == ' ');
            assert(s.subrange(3, s.len() as int) == seq!['@'] + to);
            lemma_tail_no_space(s, 2, to);
            lemma_last_space_at(s, 2);
            assert((seq!['@'] + to).drop_first() == to);
            assert(s.subrange(2, 2) == Seq::<char>::empty());
            assert(!starts_with(s, kw_glide())) by {
                if s.len() >= 5 {
                    assert(s.subrange(0, 5)[0] != kw_glide()[0]);
                }
            }
            assert(!starts_with(s, kw_ok())) by {
                assert(s.subrange(0, 2)[0] != kw_ok()[0]);
            }
            assert(s != kw_list() && s != kw_reqs()) by {
                assert(s[0] != kw_list()[0] && s[0] != kw_reqs()[0]);
            }
        },
        CommandView::List => {
            lemma_trim_start_of_trimmed(s);
            lemma_trim_end_of_trimmed(s);
        },
        CommandView::Requests => {
            lemma_trim_start_of_trimmed(s);
            lemma_trim_end_of_trimmed(s);
            assert(s[0] != kw_list()[0]);
        },
        CommandView::Unknown(_) => {},
    }
}

/// The local check accepts exactly the commands, other than `Unknown`, that
/// come back unchanged from the text they are sent as.
pub proof fn lemma_validate_is_round_trip(c: CommandView)
    ensures
        well_formed(c) <==> (!(c is Unknown) && parse_spec(command_text(c)) == c),
{
    if well_formed(c) {
        lemma_command_round_trip(c);
    } else if !(c is Unknown) && parse_spec(command_text(c)) == c {
        lemma_parsed_commands_validate(command_text(c));
    }
}

} // verus!
