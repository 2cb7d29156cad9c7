use glide::command::{encode, parse, validate, Command};

fn glide(path: &str, to: &str) -> Command {
    Command::Glide { path: path.to_string(), to: to.to_string() }
}

#[test]
fn parse_glide_with_path_and_user() {
    assert_eq!(parse("glide notes.txt @bob"), glide("notes.txt", "bob"));
}

#[test]
fn parse_glide_with_spaces_in_path() {
    assert_eq!(parse("  glide  my notes.txt   @bob "), glide("my notes.txt", "bob"));
}

#[test]
fn parse_glide_without_path_is_unknown() {
    assert_eq!(parse("glide @bob"), Command::Unknown("glide @bob".to_string()));
}

#[test]
fn parse_ok_without_at_fails_validation() {
    let c = parse("ok bob");
    assert_eq!(c, Command::Unknown("ok bob".to_string()));
    assert!(!validate(&c));
}

#[test]
fn parse_ok_and_no_with_user() {
    assert_eq!(parse("ok @bob"), Command::Accept("bob".to_string()));
    assert_eq!(parse("no   @carl"), Command::Refuse("carl".to_string()));
}

#[test]
fn parse_list_and_reqs() {
    assert_eq!(parse("list"), Command::List);
    assert_eq!(parse("  reqs\t"), Command::Requests);
}

#[test]
fn parse_other_text_is_unknown() {
    assert_eq!(parse("help"), Command::Unknown("help".to_string()));
    assert_eq!(parse("listx"), Command::Unknown("listx".to_string()));
    assert_eq!(parse("ok @bob extra"), Command::Unknown("ok @bob extra".to_string()));
    assert_eq!(parse(""), Command::Unknown(String::new()));
}

#[test]
fn parsed_commands_validate() {
    for line in ["list", "reqs", "glide a b @c", "ok @x", "no @y"] {
        assert!(validate(&parse(line)), "{}", line);
    }
}

#[test]
fn validate_rejects_malformed_values() {
    assert!(!validate(&glide("", "bob")));
    assert!(!validate(&glide(" a", "bob")));
    assert!(!validate(&glide("a", "")));
    assert!(!validate(&glide("a", "b c")));
    assert!(!validate(&Command::Accept(String::new())));
    assert!(!validate(&Command::Unknown("list".to_string())));
}

#[test]
fn encode_writes_grammar_text() {
    assert_eq!(encode(&glide("notes.txt", "bob")), "glide notes.txt @bob");
    assert_eq!(encode(&Command::Accept("bob".to_string())), "ok @bob");
    assert_eq!(encode(&Command::Refuse("bob".to_string())), "no @bob");
    assert_eq!(encode(&Command::List), "list");
    assert_eq!(encode(&Command::Requests), "reqs");
}

#[test]
fn commands_round_trip_through_text() {
    let cs = vec![
        glide("notes.txt", "bob"),
        glide("a b  c", "@d"),
        Command::Accept("bob".to_string()),
        Command::Refuse("ünï".to_string()),
        Command::List,
        Command::Requests,
    ];
    for c in cs {
        assert!(validate(&c));
        assert_eq!(parse(&encode(&c)), c);
    }
}
