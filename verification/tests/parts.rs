use awsdeck::action::{is_mutating, Action};
use awsdeck::key::{KeyCode, KeyEvent, KeyModifiers};
use awsdeck::list::{blank_msg, empty_msg, filtered, pick, ListState};
use awsdeck::message::{ErrorKind, QueueAttrsDto, QueueDto};
use awsdeck::ui::command_bar::{hint_line, Role};
use awsdeck::ui::detail::{pretty_or_raw, DetailPanel};
use awsdeck::ui::form::{Form, FormOutcome};
use awsdeck::views::registry::Registry;
use awsdeck::views::tool::Tool;
use awsdeck::views::{logs::LogsView, sqs::SqsView};

fn k(code: KeyCode) -> KeyEvent {
    KeyEvent::new(code, KeyModifiers::none())
}

fn queue(name: &str) -> QueueDto {
    QueueDto { name: name.to_string(), url: name.to_string(), is_fifo: false }
}

// --- lists -----------------------------------------------------------------------------------

#[test]
fn a_selection_stays_in_its_list() {
    let mut s = ListState::new(Some(0));
    s.up(3);
    assert_eq!(s.selected(), Some(0));
    s.down(3);
    s.down(3);
    s.down(3);
    assert_eq!(s.selected(), Some(2));
    s.clamp(2);
    assert_eq!(s.selected(), Some(1));
    s.clamp(0);
    assert_eq!(s.selected(), None);
}

#[test]
fn down_and_up_undo_each_other() {
    let mut s = ListState::new(Some(1));
    s.down(5);
    s.up(5);
    assert_eq!(s.selected(), Some(1));
}

#[test]
fn the_ends_of_a_list_are_one_key_away() {
    let mut s = ListState::new(Some(1));
    s.to_edge(4, true);
    assert_eq!(s.selected(), Some(3));
    s.to_edge(4, false);
    assert_eq!(s.selected(), Some(0));
    s.to_edge(0, true);
    assert_eq!(s.selected(), None);
}

#[test]
fn a_filter_shows_each_match_once() {
    let queues = vec![queue("orders"), queue("payments"), queue("orders-dlq")];
    assert_eq!(filtered(&queues, ""), [0, 1, 2]);
    let shown = filtered(&queues, "ORD");
    assert_eq!(shown.len(), 2);
    assert!(shown.contains(&0) && shown.contains(&2));
    assert_eq!(pick(&queues, "pay", Some(0)).map(|q| q.name.as_str()), Some("payments"));
    assert!(pick(&queues, "pay", Some(1)).is_none());
    assert!(pick(&queues, "", None).is_none());
}

#[test]
fn an_empty_list_says_why() {
    assert_eq!(empty_msg(true, "x"), blank_msg(true, "", "nada"));
    assert_ne!(empty_msg(false, "x"), empty_msg(false, ""));
    assert_eq!(blank_msg(false, "", "nada"), "nada");
}

// --- actions and records ---------------------------------------------------------------------

#[test]
fn only_changes_need_consent() {
    assert!(is_mutating(&Action::PurgeQueue { queue_url: "u".to_string() }));
    assert!(is_mutating(&Action::RedriveDlq { queue_url: "u".to_string() }));
    assert!(is_mutating(&Action::RedriveExecution { execution_arn: "a".to_string() }));
    assert!(!is_mutating(&Action::LoadQueues));
    assert!(!is_mutating(&Action::Quit));
}

#[test]
fn the_case_of_a_failure_does_not_matter() {
    assert_eq!(ErrorKind::classify("RATE EXCEEDED"), ErrorKind::classify("rate exceeded"));
    assert_eq!(ErrorKind::classify("Connection Timed Out"), ErrorKind::Network);
    for kind in [ErrorKind::Throttle, ErrorKind::Network] {
        assert!(kind.retryable() && kind.hint().is_some());
    }
}

#[test]
fn a_queue_without_attributes_has_no_dead_letters() {
    let attrs = QueueAttrsDto::default();
    assert!(!attrs.has_dlq() && !attrs.is_dlq());
}

// --- views by name ---------------------------------------------------------------------------

#[test]
fn views_are_activated_by_name() {
    let mut r: Registry<Tool> = Registry::new();
    assert!(r.active().is_none());
    r.register(Tool::Logs(LogsView::new()));
    r.register(Tool::Sqs(SqsView::new()));
    assert_eq!(r.ids(), ["logs", "sqs"]);
    assert_eq!(r.metas().len(), 2);
    assert!(r.activate("sqs"));
    assert!(matches!(r.active(), Some(Tool::Sqs(_))));
    assert!(!r.activate("nope"));
    assert!(matches!(r.active_mut(), Some(Tool::Sqs(_))), "an unknown name changes nothing");
}

// --- panels and forms ------------------------------------------------------------------------

#[test]
fn json_is_indented_in_a_panel() {
    assert_eq!(pretty_or_raw("[1,{\"a\":null}]"), "[\n  1,\n  {\n    \"a\": null\n  }\n]");
    assert_eq!(pretty_or_raw("[1,"), "[1,");
}

#[test]
fn a_panel_does_not_scroll_past_its_text() {
    let mut p = DetailPanel::new("t", "a\nb\nc");
    for _ in 0..9 {
        assert!(!p.on_key(k(KeyCode::Down)));
    }
    assert_eq!(p.settle(), "a\nb\nc");
    let bottom = p.scroll;
    assert!(bottom <= 2);
    for _ in 0..9 {
        p.on_key(k(KeyCode::Up));
    }
    assert_eq!(p.scroll, 0);
    p.settle_on("one line");
    assert_eq!(p.scroll, 0);
    assert!(!p.hints().is_empty());
}

fn form() -> Form {
    Form::new("t", vec![("a", "x"), ("b", ""), ("c", "z")])
}

#[test]
fn the_focus_goes_round_and_back() {
    let mut f = form();
    assert!(matches!(f.on_key(k(KeyCode::BackTab)), FormOutcome::Editing));
    f.on_key(k(KeyCode::Char('!')));
    assert_eq!(f.values(), ["x", "", "z!"]);
    f.on_key(k(KeyCode::Tab));
    f.on_key(k(KeyCode::Char('?')));
    assert_eq!(f.values(), ["x?", "", "z!"]);
    assert_eq!(f.value(1), "");
    assert_eq!(f.value(9), "");
}

#[test]
fn keys_edit_at_the_cursor() {
    let mut f = form();
    for code in [KeyCode::Char('y'), KeyCode::Left, KeyCode::Char('1'), KeyCode::Home, KeyCode::Char('0')] {
        f.on_key(k(code));
    }
    assert_eq!(f.value(0), "0x1y");
    f.on_key(k(KeyCode::Delete));
    f.on_key(k(KeyCode::End));
    f.on_key(k(KeyCode::Backspace));
    assert_eq!(f.value(0), "01");
    f.on_key(KeyEvent::new(KeyCode::Char('u'), KeyModifiers::control()));
    assert_eq!(f.value(0), "");
}

#[test]
fn typing_forgets_the_error_of_a_form() {
    let mut f = form();
    f.set_error("no");
    assert_eq!(f.error.as_deref(), Some("no"));
    f.on_key(k(KeyCode::Char('a')));
    assert!(f.error.is_none());
    assert!(!f.hints().is_empty());
}

#[test]
fn hints_stand_with_their_roles() {
    let line = hint_line("", &vec![("x", "do")]);
    let text: String = line.iter().map(|(_, s)| s.as_str()).collect();
    assert!(text.starts_with(" x do  · : cmd  "));
    assert_eq!(line[1].0, Role::Key);
    let filtered = hint_line("abc", &vec![("x", "do")]);
    let text: String = filtered.iter().map(|(_, s)| s.as_str()).collect();
    assert_eq!(text, " filtro: abc   (/ editar · esc limpiar)");
    assert_eq!(filtered[1].0, Role::Strong);
}
