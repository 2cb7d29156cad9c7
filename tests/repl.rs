use glide::repl::{output_rows, Key, KeyEffect, Repl};

fn started() -> Repl {
    let mut r = Repl::new();
    r.start();
    r
}

fn typed(r: &mut Repl, s: &str) {
    for c in s.chars() {
        r.handle_key_event(Key::Char(c), false);
    }
}

fn line(r: &Repl) -> String {
    r.get_buffer().iter().collect()
}

#[test]
fn typing_fills_the_buffer() {
    let mut r = started();
    typed(&mut r, "hi");
    assert_eq!(line(&r), "hi");
    assert_eq!(r.cursor_pos(), 2);
}

#[test]
fn insert_and_backspace_at_cursor() {
    let mut r = started();
    typed(&mut r, "ac");
    r.handle_key_event(Key::Left, false);
    typed(&mut r, "b");
    assert_eq!(line(&r), "abc");
    assert_eq!(r.cursor_pos(), 2);
    r.handle_key_event(Key::Backspace, false);
    assert_eq!(line(&r), "ac");
    assert_eq!(r.cursor_pos(), 1);
}

#[test]
fn cursor_stays_within_line() {
    let mut r = started();
    r.dec_cursor_pos(3);
    assert_eq!(r.cursor_pos(), 0);
    r.inc_cursor_pos(1);
    assert_eq!(r.cursor_pos(), 0);
    typed(&mut r, "x");
    r.inc_cursor_pos(1);
    assert_eq!(r.cursor_pos(), 1);
}

#[test]
fn enter_submits_and_history_recalls() {
    let mut r = started();
    typed(&mut r, "first");
    assert_eq!(r.handle_key_event(Key::Enter, false), KeyEffect::Submit(Ok("first".to_string())));
    assert_eq!(line(&r), "");
    r.handle_key_event(Key::Up, false);
    assert_eq!(line(&r), "first");
    assert_eq!(r.cursor_pos(), 5);
    r.handle_key_event(Key::Up, false);
    assert_eq!(line(&r), "first");
    r.handle_key_event(Key::Down, false);
    assert_eq!(line(&r), "");
}

#[test]
fn editing_a_history_line_copies_it() {
    let mut r = started();
    typed(&mut r, "abc");
    r.handle_key_event(Key::Enter, false);
    r.inc_buffer_idx();
    typed(&mut r, "d");
    assert_eq!(line(&r), "abcd");
    r.dec_buffer_idx();
    assert_eq!(line(&r), "abcd");
}

#[test]
fn clone_buffer_shows_the_copy() {
    let mut r = started();
    typed(&mut r, "one");
    r.handle_key_event(Key::Enter, false);
    r.inc_buffer_idx();
    r.clone_buffer();
    r.dec_buffer_idx();
    assert_eq!(line(&r), "one");
}

#[test]
fn error_line_gives_error() {
    let mut r = started();
    typed(&mut r, " error ");
    assert_eq!(r.process_buffer(), Err("This is a big bad error!".to_string()));
    assert_eq!(
        r.handle_key_event(Key::Enter, false),
        KeyEffect::Submit(Err("This is a big bad error!".to_string()))
    );
}

#[test]
fn get_mut_buffer_edits_shown_line() {
    let mut r = started();
    r.get_mut_buffer().push('z');
    assert_eq!(line(&r), "z");
}

#[test]
fn control_keys_quit_and_clear() {
    let mut r = started();
    r.set_cur_input_row(7);
    assert_eq!(r.handle_key_event(Key::CtrlL, false), KeyEffect::Clear);
    assert_eq!(r.cur_input_row(), 0);
    assert!(!r.quit());
    r.handle_key_event(Key::CtrlC, false);
    assert!(r.quit());
}

#[test]
fn typing_on_last_row_scrolls() {
    let mut r = started();
    r.set_cur_input_row(10);
    assert_eq!(r.handle_key_event(Key::Char('a'), true), KeyEffect::Scroll);
    assert_eq!(r.cur_input_row(), 9);
}

#[test]
fn cursor_position_wraps_on_screen() {
    let mut r = started();
    r.set_cur_input_row(3);
    typed(&mut r, "abcdefgh");
    assert_eq!(r.cursor_screen_pos(80), (10, 3));
    assert_eq!(r.cursor_screen_pos(4), (2, 5));
}

#[test]
fn output_rows_rounds_up() {
    assert_eq!(output_rows(0, 80), 0);
    assert_eq!(output_rows(80, 80), 1);
    assert_eq!(output_rows(81, 80), 2);
}

#[test]
fn new_editor_has_empty_history_until_started() {
    let r = Repl::new();
    assert_eq!(r.cursor_pos(), 0);
    assert_eq!(r.cur_input_row(), 0);
    assert!(!r.quit());
    let mut r = r;
    r.start();
    assert_eq!(line(&r), "");
}
