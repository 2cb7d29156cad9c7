//! The state of the interactive line editor: the line being typed, the
//! history of earlier lines and the cursor. Drawing on the terminal is the
//! caller's; every key press is handed here and answered with what to draw.
use vstd::prelude::*;
use crate::text::{skip_space, skip_space_back, string_of, trim};

verus! {

/// A key press, as the editor tells keys apart.
#[derive(Debug, Clone, Copy, PartialEq, Eq, Structural)]
pub enum Key {
    Char(char),
    Backspace,
    Enter,
    Up,
    Down,
    Left,
    Right,
    /// Control and `c`: leave the editor.
    CtrlC,
    /// Control and `l`: clear the screen.
    CtrlL,
    Other,
}

/// What the caller draws after a key press, before the input line.
#[derive(Debug, PartialEq, Eq)]
pub enum KeyEffect {
    /// Only the input line changed.
    Redraw,
    /// Clear the screen and draw from its top.
    Clear,
    /// The input sits on the last row: scroll one line first.
    Scroll,
    /// A line was entered: show its output, or its error.
    Submit(Result<String, String>),
}

/// The editor's state.
pub struct Repl {
    /// The line being edited first, then earlier lines, latest first. A `Vec`
    /// rather than a `VecDeque`: `get_mut_buffer` hands out one line to change
    /// in place, and only `Vec` has that access specified.
    buffer_history: Vec<Vec<char>>,
    /// Which line of the history is shown.
    buffer_idx: usize,
    /// The cursor's place in the shown line.
    cursor_pos: u16,
    /// The screen row of the input line.
    cur_input_row: u16,
    quit: bool,
}

pub struct ReplView {
    pub history: Seq<Seq<char>>,
    pub idx: nat,
    pub cursor: nat,
    pub row: nat,
    pub quit: bool,
}

impl View for Repl {
    type V = ReplView;

    closed spec fn view(&self) -> ReplView {
        ReplView {
            history: self.buffer_history@.map_values(|b: Vec<char>| b@),
            idx: self.buffer_idx as nat,
            cursor: self.cursor_pos as nat,
            row: self.cur_input_row as nat,
            quit: self.quit,
        }
    }
}

/// The history is not empty, the shown line is one of it, and the cursor and
/// the input row fit in a `u16`.
pub open spec fn repl_inv(v: ReplView) -> bool {
    &&& v.history.len() >= 1
    &&& v.idx < v.history.len()
    &&& v.cursor <= u16::MAX
    &&& v.row <= u16::MAX
}

/// The shown line.
pub open spec fn shown(v: ReplView) -> Seq<char> {
    v.history[v.idx as int]
}

pub open spec fn sat_add_u16(a: nat, n: nat) -> nat {
    if a + n > u16::MAX {
        u16::MAX as nat
    } else {
        a + n
    }
}

pub open spec fn sat_sub(a: nat, n: nat) -> nat {
    if a >= n {
        (a - n) as nat
    } else {
        0
    }
}

/// A length as a `u16`, its high bits dropped.
pub open spec fn len_u16(s: Seq<char>) -> nat {
    (s.len() as u16) as nat
}

/// The cursor moved right by `n`, where it is not already past the line's end.
pub open spec fn cursor_right(v: ReplView, n: nat) -> ReplView {
    if v.cursor < shown(v).len() {
        ReplView { cursor: sat_add_u16(v.cursor, n), ..v }
    } else {
        v
    }
}

/// The cursor moved left by `n`, stopping at the start.
pub open spec fn cursor_left(v: ReplView, n: nat) -> ReplView {
    ReplView { cursor: sat_sub(v.cursor, n), ..v }
}

/// One line further back in the history, where there is one, with the cursor
/// at its end.
pub open spec fn history_back(v: ReplView) -> ReplView {
    if v.idx + 1 < v.history.len() {
        ReplView { idx: v.idx + 1, cursor: len_u16(v.history[v.idx as int + 1]), ..v }
    } else {
        v
    }
}

/// One line nearer in the history, stopping at the line being edited, with the
/// cursor at its end.
pub open spec fn history_forward(v: ReplView) -> ReplView {
    let i = sat_sub(v.idx, 1);
    ReplView { idx: i, cursor: len_u16(v.history[i as int]), ..v }
}

/// The shown line copied over the line being edited, which is then shown.
pub open spec fn adopt_shown(v: ReplView) -> ReplView {
    ReplView { history: v.history.update(0, shown(v)), idx: 0, ..v }
}

/// A printable key or backspace, applied to the line being edited.
pub open spec fn after_input(v: ReplView, key: Key, at_last_row: bool) -> ReplView {
    let w = if v.idx != 0 {
        adopt_shown(v)
    } else {
        v
    };
    let line = w.history[0];
    match key {
        Key::Char(c) => {
            let pos = if w.cursor <= line.len() {
                w.cursor
            } else {
                line.len()
            };
            let row = if at_last_row {
                sat_sub(w.row, 1)
            } else {
                w.row
            };
            cursor_right(
                ReplView { history: w.history.update(0, line.insert(pos as int, c)), row, ..w },
                1,
            )
        },
        Key::Backspace => if line.len() > 0 && w.cursor != 0 && w.cursor <= line.len() {
            cursor_left(
                ReplView { history: w.history.update(0, line.remove(w.cursor - 1)), ..w },
                1,
            )
        } else {
            w
        },
        _ => w,
    }
}

/// The text of the line marked as an error.
pub open spec fn error_word() -> Seq<char> {
    seq!['e', 'r', 'r', 'o', 'r']
}

/// A line entered: a new empty line to edit goes in front of the history.
pub open spec fn after_enter(v: ReplView) -> ReplView {
    let w = if trim(shown(v)).len() > 0 && v.idx > 1 {
        adopt_shown(v)
    } else {
        v
    };
    ReplView { history: seq![Seq::<char>::empty()] + w.history, idx: 0, cursor: 0, ..w }
}

/// The state after a key press.
pub open spec fn after_key(v: ReplView, key: Key, at_last_row: bool) -> ReplView {
    match key {
        Key::CtrlC => ReplView { quit: true, ..v },
        Key::CtrlL => ReplView { row: 0, ..v },
        Key::Char(_) => after_input(v, key, at_last_row),
        Key::Backspace => after_input(v, key, at_last_row),
        Key::Enter => after_enter(v),
        Key::Up => history_back(v),
        Key::Down => history_forward(v),
        Key::Left => cursor_left(v, 1),
        Key::Right => cursor_right(v, 1),
        Key::Other => v,
    }
}

impl Repl {
    /// An editor with an empty history; `start` opens the first line.
    pub fn new() -> (r: Repl)
        ensures
            r@ == (ReplView {
                history: Seq::<Seq<char>>::empty(),
                idx: 0,
                cursor: 0,
                row: 0,
                quit: false,
            }),
    {
        let r = Repl {
            buffer_history: Vec::new(),
            buffer_idx: 0,
            cursor_pos: 0,
            cur_input_row: 0,
            quit: false,
        };
        assert(r@.history == Seq::<Seq<char>>::empty());
        r
    }

    /// Opens an empty line to edit in front of the history, as the editor does
    /// once when it starts running.
    pub fn start(&mut self)
        ensures
            final(self)@ == (ReplView {
                history: seq![Seq::<char>::empty()] + old(self)@.history,
                ..old(self)@
            }),
            old(self)@.idx <= old(self)@.history.len() ==> repl_inv(final(self)@),
    {
        let ghost before = self.buffer_history@;
        self.buffer_history.insert(0, Vec::new());
        assert(self.buffer_history@.map_values(|x: Vec<char>| x@) =~= seq![Seq::<char>::empty()]
            + before.map_values(|x: Vec<char>| x@));
    }

    pub fn cursor_pos(&self) -> (r: u16)
        ensures
            r == self@.cursor,
    {
        self.cursor_pos
    }

    pub fn cur_input_row(&self) -> (r: u16)
        ensures
            r == self@.row,
    {
        self.cur_input_row
    }

    /// Whether the operator asked to leave.
    pub fn quit(&self) -> (r: bool)
        ensures
            r == self@.quit,
    {
        self.quit
    }

    /// Records the screen row where the input line now starts.
    pub fn set_cur_input_row(&mut self, row: u16)
        ensures
            final(self)@ == (ReplView { row: row as nat, ..old(self)@ }),
    {
        self.cur_input_row = row;
    }

    pub fn inc_cursor_pos(&mut self, n: u16)
        requires
            repl_inv(old(self)@),
        ensures
            final(self)@ == cursor_right(old(self)@, n as nat),
    {
        if (self.cursor_pos as usize) < self.get_buffer().len() {
            self.cursor_pos = self.cursor_pos.saturating_add(n);
        }
    }

    pub fn dec_cursor_pos(&mut self, n: u16)
        ensures
            final(self)@ == cursor_left(old(self)@, n as nat),
    {
        self.cursor_pos = self.cursor_pos.saturating_sub(n);
    }

    /// The shown line.
    pub fn get_buffer(&self) -> (r: &Vec<char>)
        requires
            repl_inv(self@),
        ensures
            r@ == shown(self@),
    {
        &self.buffer_history[self.buffer_idx]
    }

    /// The shown line, to change in place.
    pub fn get_mut_buffer(&mut self) -> (r: &mut Vec<char>)
        requires
            repl_inv(old(self)@),
        ensures
            r@ == shown(old(self)@),
            final(self)@ == (ReplView {
                history: old(self)@.history.update(old(self)@.idx as int, final(r)@),
                ..old(self)@
            }),
    {
        let ghost before = self.buffer_history@;
        let i = self.buffer_idx;
        let r = &mut self.buffer_history[i];
        assert(before.map_values(|b: Vec<char>| b@).update(i as int, final(r)@)
            =~= before.update(i as int, *final(r)).map_values(|b: Vec<char>| b@));
        r
    }

    pub fn inc_buffer_idx(&mut self)
        requires
            repl_inv(old(self)@),
        ensures
            final(self)@ == history_back(old(self)@),
    {
        if self.buffer_idx < self.buffer_history.len() - 1 {
            self.buffer_idx += 1;
            self.cursor_pos = self.get_buffer().len() as u16;
        }
    }

    pub fn dec_buffer_idx(&mut self)
        requires
            repl_inv(old(self)@),
        ensures
            final(self)@ == history_forward(old(self)@),
    {
        self.buffer_idx = self.buffer_idx.saturating_sub(1);
        self.cursor_pos = self.get_buffer().len() as u16;
    }

    /// Copies the shown line over the line being edited, and shows that.
    pub fn clone_buffer(&mut self)
        requires
            repl_inv(old(self)@),
        ensures
            final(self)@ == adopt_shown(old(self)@),
    {
        let copy = self.get_buffer().clone();
        assert(copy@ == shown(self@));
        let ghost before = self.buffer_history@;
        self.buffer_history.set(0, copy);
        assert(self@.history =~= before.map_values(|b: Vec<char>| b@).update(0, copy@));
        self.buffer_idx = 0;
    }

    /// What entering the shown line gives: an error for the line `error`, the
    /// line itself otherwise.
    pub fn process_buffer(&self) -> (r: Result<String, String>)
        requires
            repl_inv(self@),
        ensures
            trim(shown(self@)) == error_word() ==> (r matches Err(e) && e@
                == "This is a big bad error!"@),
            trim(shown(self@)) != error_word() ==> (r matches Ok(o) && o@ == shown(self@)),
    {
        let b = self.get_buffer();
        let lo = skip_space(b, 0, b.len());
        let hi = skip_space_back(b, lo, b.len());
        assert(b@.subrange(0, b.len() as int) == b@);
        if crate::text::equals_at(b, lo, hi, &vec!['e', 'r', 'r', 'o', 'r']) {
            Err(String::from_str("This is a big bad error!"))
        } else {
            Ok(string_of(b, 0, b.len()))
        }
    }

    /// A printable key or backspace: edits the line being edited, first copying
    /// the shown history line over it. `at_last_row` tells that the cursor is on
    /// the screen's last row, so that the input line moves up one row.
    pub fn handle_input(&mut self, key: Key, at_last_row: bool)
        requires
            repl_inv(old(self)@),
            key is Char || key is Backspace,
        ensures
            repl_inv(final(self)@),
            final(self)@ == after_input(old(self)@, key, at_last_row),
    {
        if self.buffer_idx != 0 {
            self.clone_buffer();
        }
        let ghost w = self@;
        match key {
            Key::Char(c) => {
                if at_last_row {
                    self.cur_input_row = self.cur_input_row.saturating_sub(1);
                }
                let len = self.get_buffer().len();
                let pos: usize = if (self.cursor_pos as usize) <= len {
                    self.cursor_pos as usize
                } else {
                    len
                };
                let b = self.get_mut_buffer();
                b.insert(pos, c);
                self.inc_cursor_pos(1);
            },
            Key::Backspace => {
                let len = self.get_buffer().len();
                if len > 0 && self.cursor_pos != 0 && (self.cursor_pos as usize) <= len {
                    let pos = self.cursor_pos as usize - 1;
                    let b = self.get_mut_buffer();
                    b.remove(pos);
                    self.dec_cursor_pos(1);
                }
            },
            _ => {},
        }
    }

    /// Enter: returns what the shown line gives, and puts a new empty line in
    /// front of the history to edit.
    pub fn handle_enter(&mut self) -> (r: Result<String, String>)
        requires
            repl_inv(old(self)@),
        ensures
            repl_inv(final(self)@),
            final(self)@ == after_enter(old(self)@),
            trim(shown(old(self)@)) == error_word() ==> (r matches Err(e) && e@
                == "This is a big bad error!"@),
            trim(shown(old(self)@)) != error_word() ==> (r matches Ok(o) && o@ == shown(
                old(self)@,
            )),
    {
        let output = self.process_buffer();
        let b = self.get_buffer();
        let lo = skip_space(b, 0, b.len());
        let hi = skip_space_back(b, lo, b.len());
        assert(b@.subrange(0, b.len() as int) == b@);
        if lo < hi && self.buffer_idx > 1 {
            self.clone_buffer();
        }
        let ghost before = self.buffer_history@;
        self.buffer_history.insert(0, Vec::new());
        assert(self.buffer_history@.map_values(|x: Vec<char>| x@) =~= seq![Seq::<char>::empty()]
            + before.map_values(|x: Vec<char>| x@));
        self.cursor_pos = 0;
        self.buffer_idx = 0;
        output
    }

    /// Applies a key press, and tells what to draw.
    pub fn handle_key_event(&mut self, key: Key, at_last_row: bool) -> (r: KeyEffect)
        requires
            repl_inv(old(self)@),
        ensures
            repl_inv(final(self)@),
            final(self)@ == after_key(old(self)@, key, at_last_row),
            key is CtrlL ==> r == KeyEffect::Clear,
            key is Char && at_last_row ==> r == KeyEffect::Scroll,
            key is Enter ==> r is Submit,
            !(key is CtrlL) && !(key is Char && at_last_row) && !(key is Enter) ==> r
                == KeyEffect::Redraw,
    {
        match key {
            Key::CtrlC => {
                self.quit = true;
                KeyEffect::Redraw
            },
            Key::CtrlL => {
                self.cur_input_row = 0;
                KeyEffect::Clear
            },
            Key::Char(_) => {
                self.handle_input(key, at_last_row);
                if at_last_row {
                    KeyEffect::Scroll
                } else {
                    KeyEffect::Redraw
                }
            },
            Key::Backspace => {
                self.handle_input(key, at_last_row);
                KeyEffect::Redraw
            },
            Key::Enter => KeyEffect::Submit(self.handle_enter()),
            Key::Up => {
                self.inc_buffer_idx();
                KeyEffect::Redraw
            },
            Key::Down => {
                self.dec_buffer_idx();
                KeyEffect::Redraw
            },
            Key::Left => {
                self.dec_cursor_pos(1);
                KeyEffect::Redraw
            },
            Key::Right => {
                self.inc_cursor_pos(1);
                KeyEffect::Redraw
            },
            Key::Other => KeyEffect::Redraw,
        }
    }

    /// Where the cursor stands on a screen `cols` columns wide, after the
    /// two-character prompt: its column and its row.
    pub fn cursor_screen_pos(&self, cols: u16) -> (r: (u16, u16))
        requires
            cols > 0,
        ensures
            r.0 == (2 + self@.cursor) % (cols as nat),
            r.1 == sat_add_u16(self@.row, (2 + self@.cursor) / (cols as nat)),
    {
        let at: u32 = 2 + self.cursor_pos as u32;
        let col = (at % cols as u32) as u16;
        let down = at / cols as u32;
        let row: u32 = self.cur_input_row as u32 + down;
        if row > u16::MAX as u32 {
            (col, u16::MAX)
        } else {
            (col, row as u16)
        }
    }
}

/// The number of screen rows that `len` characters of output fill, `width` to
/// a row.
pub fn output_rows(len: usize, width: u16) -> (r: usize)
    requires
        width > 0,
    ensures
        r == crate::transfer::chunk_count_spec(len as nat, width as nat),
{
    let q = len / width as usize;
    if len % width as usize != 0 {
        assert(q < usize::MAX) by {
            if width == 1 {
                assert(len % 1 == 0);
            } else {
                assert(len / (width as usize) <= len / 2) by {
                    vstd::arithmetic::div_mod::lemma_div_is_ordered_by_denominator(
                        len as int,
                        2,
                        width as int,
                    );
                }
            }
        }
        q + 1
    } else {
        q
    }
}

} // verus!
