//! A form of several lines of text.
//!
//! While it is open it takes every key: `tab` and the arrows change the field, `enter` submits,
//! `esc` cancels, and everything else edits the field in focus.

use tui_input::Input;
use vstd::prelude::*;

use crate::key::{KeyCode, KeyEvent};
use crate::message::Text;
use crate::ui::input;
use crate::ui::input::handle_key;
use crate::ui::input::Line;

verus! {

/// What a key asks of the owner of the form.
#[derive(Clone, Copy, Debug, PartialEq, Eq, Structural)]
pub enum FormOutcome {
    /// Nothing: the form is still being edited.
    Editing,
    /// To read the values and act on them.
    Submit,
    /// To close the form.
    Cancel,
}

/// One field of a form.
pub struct FormField {
    pub label: String,
    pub input: Input,
}

impl FormField {
    /// Label and contents.
    pub open spec fn model(self) -> (Text, Line) {
        (self.label@, input::line_of(self.input))
    }
}

pub struct Form {
    pub title: String,
    pub fields: Vec<FormField>,
    pub focus: usize,
    pub error: Option<String>,
}

/// The state of a form.
#[verifier::ext_equal]
pub struct FormModel {
    pub title: Text,
    pub fields: Seq<(Text, Line)>,
    pub focus: usize,
    pub error: Option<Text>,
}

/// The lines of a form, before anything is typed.
pub open spec fn fresh_fields(fields: Seq<(Text, Text)>) -> Seq<(Text, Line)> {
    Seq::new(fields.len(), |i: int| (fields[i].0, Line::fresh(fields[i].1)))
}

/// The field after `focus`, the first after the last.
pub open spec fn field_after(focus: usize, n: nat) -> usize {
    if focus + 1 >= n {
        0
    } else {
        (focus + 1) as usize
    }
}

/// The field before `focus`, the last before the first.
pub open spec fn field_before(focus: usize, n: nat) -> usize {
    if n == 0 {
        0
    } else if focus == 0 || focus > n {
        (n - 1) as usize
    } else {
        (focus - 1) as usize
    }
}

/// Keys that a form announces.
pub open spec fn form_hints() -> Seq<(Text, Text)> {
    seq![("tab"@, "campo"@), ("enter"@, "enviar"@), ("esc"@, "cancelar"@)]
}

impl FormModel {
    /// A form before anything is typed.
    pub open spec fn fresh(title: Text, fields: Seq<(Text, Text)>) -> FormModel {
        FormModel { title, fields: fresh_fields(fields), focus: 0, error: None }
    }

    /// The texts of the fields.
    pub open spec fn values(self) -> Seq<Text> {
        Seq::new(self.fields.len(), |i: int| self.fields[i].1.text)
    }

    /// The text of a field, empty where there is no such field.
    pub open spec fn value(self, i: int) -> Text {
        if 0 <= i < self.fields.len() {
            self.fields[i].1.text
        } else {
            Seq::empty()
        }
    }

    /// The field in focus edited by a key; that forgets the error.
    pub open spec fn edited(self, key: KeyEvent) -> FormModel {
        FormModel {
            fields: if self.focus < self.fields.len() {
                let (label, line) = self.fields[self.focus as int];
                self.fields.update(self.focus as int, (label, input::pressed(line, key)))
            } else {
                self.fields
            },
            error: None,
            ..self
        }
    }

    pub open spec fn keyed(self, key: KeyEvent) -> (FormModel, FormOutcome) {
        match key.code {
            KeyCode::Esc => (self, FormOutcome::Cancel),
            KeyCode::Enter => (self, FormOutcome::Submit),
            KeyCode::Tab | KeyCode::Down => (
                FormModel { focus: field_after(self.focus, self.fields.len()), ..self },
                FormOutcome::Editing,
            ),
            KeyCode::BackTab | KeyCode::Up => (
                FormModel { focus: field_before(self.focus, self.fields.len()), ..self },
                FormOutcome::Editing,
            ),
            _ => (self.edited(key), FormOutcome::Editing),
        }
    }
}

impl Form {
    pub open spec fn model(self) -> FormModel {
        FormModel {
            title: self.title@,
            fields: Seq::new(self.fields@.len(), |i: int| self.fields@[i].model()),
            focus: self.focus,
            error: self.error.deep_view(),
        }
    }

    /// A form with a title, and the labels and first values of its fields.
    pub fn new(title: &str, fields: Vec<(&str, &str)>) -> (r: Self)
        ensures
            r.model() == FormModel::fresh(title@, fields.deep_view()),
    {
        let mut made: Vec<FormField> = Vec::new();
        let mut i: usize = 0;
        while i < fields.len()
            invariant
                i <= fields@.len(),
                made@.len() == i,
                forall|k: int| 0 <= k < i ==> (#[trigger] made@[k]).model() == fresh_fields(fields.deep_view())[k],
            decreases fields@.len() - i,
        {
            let (label, value) = fields[i];
            made.push(FormField { label: label.to_string(), input: Input::new(value.to_string()) });
            i = i + 1;
        }
        let r = Form { title: title.to_string(), fields: made, focus: 0, error: None };
        proof {
            assert(r.model().fields =~= fresh_fields(fields.deep_view()));
        }
        r
    }

    /// Reacts to a key and says what it asks for.
    pub fn on_key(&mut self, key: KeyEvent) -> (r: FormOutcome)
        ensures
            (final(self).model(), r) == old(self).model().keyed(key),
    {
        let n: usize = self.fields.len();
        match key.code {
            KeyCode::Esc => FormOutcome::Cancel,
            KeyCode::Enter => FormOutcome::Submit,
            KeyCode::Tab | KeyCode::Down => {
                self.focus = if n == 0 || self.focus >= n - 1 { 0 } else { self.focus + 1 };
                FormOutcome::Editing
            },
            KeyCode::BackTab | KeyCode::Up => {
                self.focus = if n == 0 {
                    0
                } else if self.focus == 0 || self.focus > n {
                    n - 1
                } else {
                    self.focus - 1
                };
                FormOutcome::Editing
            },
            _ => {
                let at: usize = self.focus;
                if at < n {
                    handle_key(&mut self.fields[at].input, key);
                }
                self.error = None;
                proof {
                    assert(self.model().fields =~= old(self).model().edited(key).fields);
                }
                FormOutcome::Editing
            },
        }
    }

    /// The texts of the fields.
    pub fn values(&self) -> (r: Vec<String>)
        ensures
            r.deep_view() == self.model().values(),
    {
        let mut out: Vec<String> = Vec::new();
        let mut i: usize = 0;
        while i < self.fields.len()
            invariant
                i <= self.fields@.len(),
                out@.len() == i,
                forall|k: int| 0 <= k < i ==> (#[trigger] out@[k])@ == self.model().values()[k],
            decreases self.fields@.len() - i,
        {
            out.push(self.fields[i].input.value().to_string());
            i = i + 1;
        }
        proof {
            assert(out.deep_view() =~= self.model().values());
        }
        out
    }

    /// The text of a field, empty where there is no such field.
    pub fn value(&self, i: usize) -> (r: String)
        ensures
            r@ == self.model().value(i as int),
    {
        if i < self.fields.len() {
            self.fields[i].input.value().to_string()
        } else {
            String::new()
        }
    }

    /// Shows an error under the fields, until something is edited.
    pub fn set_error(&mut self, msg: &str)
        ensures
            final(self).model() == (FormModel { error: Some(msg@), ..old(self).model() }),
    {
        self.error = Some(msg.to_string());
    }

    pub fn hints(&self) -> (r: Vec<(&'static str, &'static str)>)
        ensures
            r.deep_view() == form_hints(),
    {
        vec![("tab", "campo"), ("enter", "enviar"), ("esc", "cancelar")]
    }
}

/// The focus stays on a field, whatever key is pressed.
pub proof fn law_focus_stays_on_a_field(m: FormModel, key: KeyEvent)
    requires
        m.focus < m.fields.len() <= usize::MAX,
    ensures
        m.keyed(key).0.focus < m.keyed(key).0.fields.len(),
        m.keyed(key).0.fields.len() == m.fields.len(),
{
}

/// Going to the next field and back leaves the form as it was.
pub proof fn law_next_and_back(m: FormModel, next: KeyEvent, back: KeyEvent)
    requires
        m.focus < m.fields.len() <= usize::MAX,
        next.code == KeyCode::Tab,
        back.code == KeyCode::BackTab,
    ensures
        m.keyed(next).0.keyed(back).0 == m,
{
}

/// A key edits no field but the one in focus, and never a label.
pub proof fn law_only_the_field_in_focus_is_edited(m: FormModel, key: KeyEvent, i: int)
    requires
        0 <= i < m.fields.len(),
    ensures
        m.keyed(key).0.fields[i].0 == m.fields[i].0,
        i != m.focus ==> m.keyed(key).0.fields[i] == m.fields[i],
{
}

/// Typing a character forgets the error.
pub proof fn law_typing_forgets_the_error(m: FormModel, key: KeyEvent)
    requires
        key.code is Char,
    ensures
        m.keyed(key).0.error is None,
{
}

/// A form starts with the labels and the values that it was given, on its first field, without an
/// error.
pub proof fn law_a_form_starts_with_its_values(title: Text, fields: Seq<(Text, Text)>, i: int)
    requires
        0 <= i < fields.len(),
    ensures
        FormModel::fresh(title, fields).title == title,
        FormModel::fresh(title, fields).values().len() == fields.len(),
        FormModel::fresh(title, fields).fields[i].0 == fields[i].0,
        FormModel::fresh(title, fields).value(i) == fields[i].1,
        FormModel::fresh(title, fields).fields[i].1.cursor == fields[i].1.len(),
        FormModel::fresh(title, fields).focus == 0,
        FormModel::fresh(title, fields).error is None,
{
}

/// The values of a form are those of its fields, one by one; beyond them there is nothing.
pub proof fn law_values_are_those_of_the_fields(m: FormModel, i: int)
    ensures
        m.values().len() == m.fields.len(),
        0 <= i < m.fields.len() ==> m.values()[i] == m.value(i) && m.value(i) == m.fields[i].1.text,
        i < 0 || i >= m.fields.len() ==> m.value(i).len() == 0,
{
}

/// `Enter` submits and `Esc` cancels, with the form as it stands; no other key does either.
pub proof fn law_enter_submits_and_esc_cancels(m: FormModel, key: KeyEvent)
    ensures
        m.keyed(key).1 == FormOutcome::Submit <==> key.code == KeyCode::Enter,
        m.keyed(key).1 == FormOutcome::Cancel <==> key.code == KeyCode::Esc,
        key.code == KeyCode::Enter || key.code == KeyCode::Esc ==> m.keyed(key).0 == m,
        m.keyed(key).0.title == m.title,
{
}

/// `Tab` and `Down` go to the field below, from the last one to the first; `BackTab` and `Up` go the
/// other way.  Neither changes a field.
pub proof fn law_fields_are_gone_through(m: FormModel, key: KeyEvent)
    requires
        m.focus < m.fields.len() <= usize::MAX,
    ensures
        ({
            let down = key.code == KeyCode::Tab || key.code == KeyCode::Down;
            let up = key.code == KeyCode::BackTab || key.code == KeyCode::Up;
            let n = m.keyed(key).0;
            &&& down || up ==> n == (FormModel { focus: n.focus, ..m })
            &&& down && m.focus + 1 < m.fields.len() ==> n.focus == m.focus + 1
            &&& down && m.focus + 1 == m.fields.len() ==> n.focus == 0
            &&& up && m.focus > 0 ==> n.focus + 1 == m.focus
            &&& up && m.focus == 0 ==> n.focus + 1 == m.fields.len()
        }),
{
}

/// A character goes to the end of the field in focus where the cursor stands there.
pub proof fn law_typing_fills_the_field_in_focus(m: FormModel, c: char, key: KeyEvent)
    requires
        m.focus < m.fields.len(),
        m.fields[m.focus as int].1.cursor == m.fields[m.focus as int].1.text.len(),
        key.code == KeyCode::Char(c),
        key.modifiers.bits == 0,
    ensures
        m.keyed(key).0.value(m.focus as int) == m.value(m.focus as int).push(c),
        m.keyed(key).0.focus == m.focus,
{
    input::law_typing_at_the_end_appends(m.fields[m.focus as int].1, key);
}

} // verus!
