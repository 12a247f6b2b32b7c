use awsdeck::key::{KeyCode, KeyEvent, KeyModifiers};
use awsdeck::ui::form::{Form, FormOutcome};

fn k(code: KeyCode) -> KeyEvent {
    KeyEvent::new(code, KeyModifiers::none())
}

fn ch(c: char) -> KeyEvent {
    KeyEvent::new(KeyCode::Char(c), KeyModifiers::none())
}

fn form() -> Form {
    Form::new("enviar", vec![("source", "src"), ("detail", "{}")])
}

#[test]
fn tab_cycles_focus_and_typing_edits_focused_field() {
    let mut f = form();
    assert_eq!(f.values(), vec!["src", "{}"]);
    assert_eq!(f.on_key(ch('X')), FormOutcome::Editing);
    assert_eq!(f.values()[0], "srcX");
    assert_eq!(f.on_key(k(KeyCode::Tab)), FormOutcome::Editing);
    f.on_key(ch('!'));
    assert_eq!(f.values()[1], "{}!");
    assert_eq!(f.values()[0], "srcX", "el primer campo no cambió");
}

#[test]
fn enter_submits_and_esc_cancels() {
    let mut f = form();
    assert_eq!(f.on_key(k(KeyCode::Enter)), FormOutcome::Submit);
    assert_eq!(f.on_key(k(KeyCode::Esc)), FormOutcome::Cancel);
}

#[test]
fn set_error_clears_on_edit() {
    let mut f = form();
    f.set_error("detail no es JSON");
    assert!(f.error.is_some());
    f.on_key(ch('x'));
    assert!(f.error.is_none(), "editar limpia el error");
}
