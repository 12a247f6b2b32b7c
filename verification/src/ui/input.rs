//! A line of text under edition, by way of `tui_input`.

use ratatui::crossterm::event::{Event, KeyCode as Code, KeyEvent as Press, KeyModifiers as Held};
use tui_input::backend::crossterm::EventHandler;
use tui_input::Input;
use vstd::prelude::*;

use crate::key::{KeyCode, KeyEvent};
use crate::message::Text;

verus! {

/// The line editor of `tui_input`.
#[verifier::external_type_specification]
#[verifier::external_body]
pub struct ExInput(tui_input::Input);

/// What a line editor holds: the text, how many of its characters stand before the cursor, the text
/// that was cut last, and whether the last edit was a cut, so that the next one adds to it.
#[verifier::ext_equal]
pub struct Line {
    pub text: Text,
    pub cursor: nat,
    pub cut: Text,
    pub cutting: bool,
}

/// What a line editor holds.
pub uninterp spec fn line_of(input: tui_input::Input) -> Line;

impl Line {
    /// A text with the cursor behind it.
    pub open spec fn fresh(text: Text) -> Line {
        Line { text, cursor: text.len(), cut: Seq::empty(), cutting: false }
    }

    /// No text; what was cut stays.
    pub open spec fn cleared(self) -> Line {
        Line { text: Seq::empty(), cursor: 0, ..self }
    }

    /// `c` typed at the cursor.
    pub open spec fn typed(self, c: char) -> Line {
        Line {
            text: self.text.take(self.cursor as int).push(c) + self.text.skip(self.cursor as int),
            cursor: self.cursor + 1,
            cutting: false,
            ..self
        }
    }
}

/// The character that a key types, if it types one: without modifiers, or with shift alone.
pub open spec fn types(key: KeyEvent) -> Option<char> {
    match key.code {
        KeyCode::Char(c) => if key.modifiers.bits <= 1 { Some(c) } else { None },
        _ => None,
    }
}

/// What a key that types no character makes of a line.
pub uninterp spec fn edited(line: Line, key: KeyEvent) -> Line;

/// What a key makes of a line.
pub open spec fn pressed(line: Line, key: KeyEvent) -> Line {
    match types(key) {
        Some(c) => line.typed(c),
        None => edited(line, key),
    }
}

/// A character that is typed at the end of a line goes to its end, and the cursor behind it.
pub proof fn law_typing_at_the_end_appends(line: Line, key: KeyEvent)
    requires
        line.cursor == line.text.len(),
        types(key) is Some,
    ensures
        pressed(line, key).text == line.text.push(types(key)->0),
        pressed(line, key).cursor == pressed(line, key).text.len(),
{
    assert(line.text.take(line.cursor as int) =~= line.text);
    assert(pressed(line, key).text =~= line.text.push(types(key)->0));
}

/// `tui_input::Input::new`: the value, with the cursor behind it and nothing cut.
pub assume_specification[ tui_input::Input::new ](value: String) -> (r: tui_input::Input)
    ensures
        line_of(r) == Line::fresh(value@),
;

/// `tui_input::Input::reset`: an empty value with the cursor at its start; what was cut stays.
pub assume_specification[ tui_input::Input::reset ](it: &mut tui_input::Input)
    ensures
        line_of(*final(it)) == line_of(*old(it)).cleared(),
;

/// `tui_input::Input::value`: the text.
pub assume_specification[ tui_input::Input::value ](it: &tui_input::Input) -> (r: &str)
    ensures
        r@ == line_of(*it).text,
;

/// How many columns of the screen the first `cursor` characters of a text take.
pub uninterp spec fn columns(text: Text, cursor: nat) -> nat;

/// `tui_input::Input::visual_cursor`: the columns before the cursor, which depend on the text and
/// the cursor alone.
pub assume_specification[ tui_input::Input::visual_cursor ](it: &tui_input::Input) -> (r: usize)
    ensures
        r == columns(line_of(*it).text, line_of(*it).cursor),
;

/// Calls `handle_event` of `tui_input` with a key press.  What it makes of the line depends on what
/// the line holds and on the key; a plain character is typed at the cursor.
#[verifier::external_body]
pub(crate) fn handle_key(input: &mut Input, key: KeyEvent)
    ensures
        line_of(*final(input)) == (match types(key) {
            Some(c) => line_of(*old(input)).typed(c),
            None => edited(line_of(*old(input)), key),
        }),
{
    let code = match key.code {
        KeyCode::Char(c) => Code::Char(c), KeyCode::Enter => Code::Enter,
        KeyCode::Esc => Code::Esc, KeyCode::Backspace => Code::Backspace,
        KeyCode::Delete => Code::Delete, KeyCode::Tab => Code::Tab,
        KeyCode::BackTab => Code::BackTab, KeyCode::Up => Code::Up,
        KeyCode::Down => Code::Down, KeyCode::Left => Code::Left,
        KeyCode::Right => Code::Right, KeyCode::Home => Code::Home,
        KeyCode::End => Code::End, KeyCode::PageUp => Code::PageUp,
        KeyCode::PageDown => Code::PageDown, KeyCode::Other => Code::Null,
    };
    input.handle_event(&Event::Key(Press::new(code, Held::from_bits_truncate(key.modifiers.bits))));
}

/// A key types its character without modifiers or with shift; with control or alt it types nothing,
/// nor does a key that is no character.
pub proof fn law_what_keys_type(key: KeyEvent, c: char)
    ensures
        key.code == KeyCode::Char(c) && (key.modifiers.bits == 0 || key.modifiers.bits == 1) ==> types(key) == Some(c),
        key.modifiers.has_control() || key.modifiers.bits >= 4 ==> types(key) is None,
        key.code !is Char ==> types(key) is None,
{
}

/// A character goes between what stands before the cursor and what stands behind it, and the cursor
/// goes behind the character; what was cut stays.
pub proof fn law_typing_goes_to_the_cursor(before: Text, after: Text, cut: Text, cutting: bool, key: KeyEvent, c: char)
    requires
        types(key) == Some(c),
    ensures
        ({
            let line = pressed(Line { text: before + after, cursor: before.len(), cut, cutting }, key);
            &&& line.text == before + seq![c] + after
            &&& line.cursor == before.len() + 1
            &&& line.cut == cut
        }),
{
    let all = before + after;
    assert(all.take(before.len() as int) =~= before);
    assert(all.skip(before.len() as int) =~= after);
    assert(before.push(c) =~= before + seq![c]);
}

} // verus!
