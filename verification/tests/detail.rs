use awsdeck::key::{KeyCode, KeyEvent, KeyModifiers};
use awsdeck::ui::detail::{pretty_or_raw, DetailPanel};

fn k(code: KeyCode) -> KeyEvent {
    KeyEvent::new(code, KeyModifiers::none())
}

#[test]
fn esc_and_enter_close_other_keys_scroll() {
    let mut p = DetailPanel::new("t", "raw");
    assert!(!p.on_key(k(KeyCode::Char('j'))), "j scrollea, no cierra");
    assert!(!p.on_key(k(KeyCode::Char('G'))), "G no cierra");
    assert!(p.on_key(k(KeyCode::Esc)), "esc cierra");
    assert!(p.on_key(k(KeyCode::Enter)), "enter cierra");
}

#[test]
fn content_returns_raw_for_copy() {
    let p = DetailPanel::new("t", r#"{"a":1}"#);
    assert_eq!(p.content(), r#"{"a":1}"#, "copia el crudo, no el pretty");
}

#[test]
fn pretty_or_raw_prettifies_only_json() {
    assert!(
        pretty_or_raw(r#"{"a":1}"#).contains('\n'),
        "JSON → multilínea"
    );
    assert_eq!(pretty_or_raw("texto plano"), "texto plano");
}
