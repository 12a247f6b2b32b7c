use awsdeck::action::Action;
use awsdeck::app::{App, Command, MenuRow, Mode, Screen, SEARCH_DELAY};
use awsdeck::aws::context::{Env, ProfileEntry};
use awsdeck::config::State;
use awsdeck::effects::mock::mock_answer;
use awsdeck::key::{KeyCode, KeyEvent, KeyModifiers};
use awsdeck::message::{Envelope, ErrorKind, EventBusDto, Message, QueueDto};
use awsdeck::ui::command_bar::Footer;
use awsdeck::views::events::EventsView;
use awsdeck::views::logs::LogsView;
use awsdeck::views::sqs::SqsView;
use awsdeck::views::tool::Tool;
use awsdeck::views::Registry;

fn deck() -> App<Tool> {
    let mut registry = Registry::new();
    registry.register(Tool::Logs(LogsView::new()));
    registry.register(Tool::Sqs(SqsView::new()));
    registry.register(Tool::Events(EventsView::new()));
    App::new(Env::new("prod", "eu-west-1"), registry)
}

fn press(app: &mut App<Tool>, code: KeyCode) {
    app.on_key(KeyEvent::new(code, KeyModifiers::none()));
}

fn command(app: &mut App<Tool>, cmd: &str) {
    press(app, KeyCode::Char(':'));
    for c in cmd.chars() {
        press(app, KeyCode::Char(c));
    }
    press(app, KeyCode::Enter);
}

/// Answers every request with made-up data until none is left; what else was asked for comes back.
fn settle(app: &mut App<Tool>) -> Vec<Command> {
    let mut rest = Vec::new();
    loop {
        let commands = app.take_commands();
        if commands.is_empty() {
            return rest;
        }
        let env = app.env.clone();
        for c in commands {
            match c {
                Command::Effect { action, epoch } => {
                    if let Some(e) = mock_answer(&env, action, epoch) {
                        app.on_envelope(e);
                    }
                }
                other => rest.push(other),
            }
        }
    }
}

fn queues(names: &[&str]) -> Message {
    Message::QueuesLoaded(
        names
            .iter()
            .map(|n| QueueDto { name: n.to_string(), url: format!("https://sqs/1/{n}"), is_fifo: false })
            .collect(),
    )
}

fn at_queues(names: &[&str]) -> App<Tool> {
    let mut app = deck();
    command(&mut app, "sqs");
    app.take_commands();
    let epoch = app.epoch;
    app.on_envelope(Envelope::new(epoch, queues(names)));
    app
}

fn status(app: &App<Tool>) -> (bool, &str) {
    let s = app.status.as_ref().expect("a status");
    (s.error, s.text.as_str())
}

// --- defaults --------------------------------------------------------------------------------

#[test]
fn set_asks_for_a_default_to_be_written() {
    let mut app = deck();
    command(&mut app, "set default_region  us-west-2 ");
    assert_eq!(status(&app), (false, "config: default_region = us-west-2"));
    match app.take_commands().as_slice() {
        [Command::SetDefault { key, value }] => {
            assert_eq!((key.as_str(), value.as_str()), ("default_region", "us-west-2"));
        }
        other => panic!("{other:?}"),
    }
}

#[test]
fn set_refuses_what_is_no_default() {
    for cmd in ["set", "set default_region", "set color blue"] {
        let mut app = deck();
        command(&mut app, cmd);
        assert!(status(&app).0, "{cmd}");
        assert!(app.take_commands().is_empty(), "{cmd}");
    }
}

// --- favourites and recent resources ---------------------------------------------------------

#[test]
fn a_star_marks_and_unmarks_the_selected_resource() {
    let mut app = at_queues(&["orders", "payments"]);
    press(&mut app, KeyCode::Down);
    press(&mut app, KeyCode::Char('*'));
    assert_eq!(status(&app), (false, "★ favorito: payments"));
    assert!(matches!(app.take_commands().as_slice(), [Command::SaveState]));
    let favs = app.state.favorites_for("prod", "eu-west-1");
    assert_eq!((favs[0].view_id.as_str(), favs[0].key.as_str()), ("sqs", "https://sqs/1/payments"));
    assert!(favs[0].is_favorite);
    press(&mut app, KeyCode::Char('*'));
    assert_eq!(status(&app), (false, "favorito quitado: payments"));
    assert!(!app.state.favorites_for("prod", "eu-west-1")[0].is_favorite);
}

#[test]
fn the_menu_opens_what_it_remembers() {
    let mut app = deck();
    command(&mut app, "events");
    app.take_commands();
    let epoch = app.epoch;
    let buses = vec![EventBusDto { arn: "arn:b".to_string(), name: "shop".to_string() }];
    app.on_envelope(Envelope::new(epoch, Message::EventBusesLoaded { buses, more: false }));
    press(&mut app, KeyCode::Enter);
    assert!(app.take_commands().iter().any(|c| matches!(c, Command::SaveState)));
    command(&mut app, "menu");
    assert_eq!(app.screen, Screen::Menu);
    let rows = app.menu_rows();
    assert_eq!(rows.len(), 4);
    assert!(matches!(&rows[0], MenuRow::Tool { id, .. } if id == "logs"));
    assert!(matches!(&rows[3], MenuRow::Remembered(f) if f.key == "shop" && !f.is_favorite));
    press(&mut app, KeyCode::End);
    app.take_commands();
    press(&mut app, KeyCode::Enter);
    assert_eq!(app.screen, Screen::View);
    let asked = app.take_commands();
    assert!(asked.iter().any(|c| matches!(
        c,
        Command::Effect { action: Action::LoadRules { event_bus_name }, .. } if event_bus_name == "shop"
    )));
}

#[test]
fn favourites_come_before_recent_resources() {
    let mut app = deck();
    let mut state = State::default();
    state.toggle_favorite("prod", "eu-west-1", "logs", "g", "g");
    state.record_recent("prod", "eu-west-1", "sqs", "q", "q");
    state.record_recent("dev", "eu-west-1", "sqs", "other", "other");
    app.load_state(state);
    let rows = app.menu_rows();
    assert_eq!(rows.len(), 5);
    assert!(matches!(&rows[3], MenuRow::Remembered(f) if f.key == "g" && f.is_favorite));
    assert!(matches!(&rows[4], MenuRow::Remembered(f) if f.key == "q" && !f.is_favorite));
}

// --- mutations -------------------------------------------------------------------------------

#[test]
fn a_purge_goes_by_write_mode_and_consent() {
    let mut app = at_queues(&["orders"]);
    press(&mut app, KeyCode::Enter);
    settle(&mut app);
    press(&mut app, KeyCode::Char('p'));
    assert!(status(&app).0);
    assert!(app.confirm.is_none() && app.take_commands().is_empty());

    press(&mut app, KeyCode::Esc);
    command(&mut app, "write");
    press(&mut app, KeyCode::Char('p'));
    assert!(app.confirm.is_some());
    assert!(app.take_commands().is_empty(), "nothing leaves before the consent");
    press(&mut app, KeyCode::Char('x'));
    assert!(app.confirm.is_some(), "that is no answer");
    press(&mut app, KeyCode::Char('y'));
    assert!(app.confirm.is_none());
    let epoch = app.epoch;
    match app.take_commands().as_slice() {
        [Command::Effect { action: Action::PurgeQueue { queue_url }, epoch: e }] => {
            assert_eq!((queue_url.as_str(), *e), ("https://sqs/1/orders", epoch));
        }
        other => panic!("{other:?}"),
    }
}

#[test]
fn after_a_mutation_what_it_changed_is_loaded() {
    let mut app = at_queues(&["orders"]);
    let epoch = app.epoch;
    app.on_envelope(Envelope::new(epoch, Message::QueuePurged { queue_url: "u".to_string() }));
    assert!(matches!(
        app.take_commands().as_slice(),
        [Command::Effect { action: Action::LoadQueueDetail { .. }, .. }]
    ));
}

// --- environments ----------------------------------------------------------------------------

#[test]
fn another_environment_starts_over() {
    let mut app = at_queues(&["orders"]);
    command(&mut app, "write");
    let before = app.epoch;
    command(&mut app, "region us-east-1");
    assert_eq!(app.env, Env::new("prod", "us-east-1"));
    assert!(app.epoch != before && !app.write_mode && app.account.is_none() && app.filter.is_empty());
    assert_eq!(app.state.last_region.as_deref(), Some("us-east-1"));
    let asked = app.take_commands();
    assert!(matches!(&asked[0], Command::UseEnv(env) if env.region == "us-east-1"));
    assert!(asked.iter().any(|c| matches!(c, Command::Effect { action: Action::VerifyIdentity, .. })));
    assert!(asked.iter().any(|c| matches!(c, Command::Effect { action: Action::LoadQueues, .. })));
    app.on_envelope(Envelope::new(before, Message::IdentityLoaded { account_id: "1".to_string() }));
    assert!(app.account.is_none(), "a late answer does not count");
    let epoch = app.epoch;
    app.on_envelope(Envelope::new(epoch, Message::IdentityLoaded { account_id: "1".to_string() }));
    assert_eq!(app.account.as_deref(), Some("1"));
}

#[test]
fn control_e_asks_for_the_profiles() {
    let mut app = deck();
    app.on_key(KeyEvent::new(KeyCode::Char('e'), KeyModifiers::control()));
    assert!(matches!(app.take_commands().as_slice(), [Command::ListProfiles]));
    app.open_picker(Vec::new());
    assert!(app.picker.is_none() && status(&app).0);
    app.open_picker(vec![ProfileEntry { name: "dev".to_string(), region: None }]);
    press(&mut app, KeyCode::Enter);
    assert_eq!(app.env, Env::new("dev", "eu-west-1"));
}

// --- errors ----------------------------------------------------------------------------------

#[test]
fn an_error_outlasts_keys_until_esc() {
    let mut app = at_queues(&["a", "b"]);
    let epoch = app.epoch;
    let e = Message::Error { kind: ErrorKind::Auth, detail: "caducada".to_string() };
    app.on_envelope(Envelope::new(epoch, e));
    press(&mut app, KeyCode::Down);
    press(&mut app, KeyCode::Char('?'));
    press(&mut app, KeyCode::Char('?'));
    assert_eq!(status(&app), (true, "caducada"));
    assert_eq!(app.error_kind, Some(ErrorKind::Auth));
    press(&mut app, KeyCode::Esc);
    assert!(app.status.is_none() && app.error_kind.is_none());
    assert_eq!(app.screen, Screen::View, "the view did not hear of it");
}

#[test]
fn a_copy_is_reported() {
    let mut app = deck();
    app.on_copied("x", None);
    assert_eq!(status(&app), (false, "copiado: x"));
    app.on_copied("x", Some("no display".to_string()));
    assert_eq!(status(&app), (true, "no se pudo copiar: no display"));
}

// --- filters ---------------------------------------------------------------------------------

#[test]
fn typing_a_filter_narrows_and_asks_later() {
    let mut app = at_queues(&["orders", "payments"]);
    press(&mut app, KeyCode::Char('/'));
    press(&mut app, KeyCode::Char('p'));
    assert_eq!(app.filter, "p");
    assert_eq!(app.search_deadline, Some(SEARCH_DELAY));
    assert!(matches!(app.take_commands().as_slice(), [Command::ScheduleSearch]));
    match app.footer_state() {
        Footer::Input { prefix, value, cursor } => assert_eq!((prefix, value.as_str(), cursor), ('/', "p", 1)),
        other => panic!("{other:?}"),
    }
    app.fire_search_now();
    assert_eq!(app.search_deadline, None);
    press(&mut app, KeyCode::Esc);
    assert_eq!(app.mode, Mode::Normal);
    assert!(app.filter.is_empty());
}

#[test]
fn wide_characters_take_two_columns() {
    let mut app = deck();
    press(&mut app, KeyCode::Char(':'));
    press(&mut app, KeyCode::Char('語'));
    match app.footer_state() {
        Footer::Input { cursor, .. } => assert_eq!(cursor, 2),
        other => panic!("{other:?}"),
    }
}

#[test]
fn log_lines_are_searched_in_any_case() {
    let mut app = deck();
    command(&mut app, "logs");
    settle(&mut app);
    press(&mut app, KeyCode::Enter);
    settle(&mut app);
    press(&mut app, KeyCode::Enter);
    settle(&mut app);
    let all = lines(&app);
    assert!(all > 0);
    app.filter = "zzz".to_string();
    press(&mut app, KeyCode::Char('/'));
    for _ in 0..3 {
        press(&mut app, KeyCode::Backspace);
    }
    for c in "ERROR".chars() {
        press(&mut app, KeyCode::Char(c));
    }
    let upper = lines(&app);
    for _ in 0..5 {
        press(&mut app, KeyCode::Backspace);
    }
    for c in "error".chars() {
        press(&mut app, KeyCode::Char(c));
    }
    assert_eq!(lines(&app), upper);
    assert!(upper <= all);
}

fn lines(app: &App<Tool>) -> usize {
    match app.registry.active() {
        Some(Tool::Logs(v)) => v.visible_len(),
        _ => panic!("another view"),
    }
}

// --- input for a view alone ------------------------------------------------------------------

#[test]
fn a_form_gets_every_key() {
    let mut app = deck();
    command(&mut app, "events");
    settle(&mut app);
    press(&mut app, KeyCode::Char('S'));
    press(&mut app, KeyCode::Char('q'));
    press(&mut app, KeyCode::Char(':'));
    assert!(!app.should_quit);
    assert_eq!(app.mode, Mode::Normal);
    press(&mut app, KeyCode::Esc);
    press(&mut app, KeyCode::Char('q'));
    assert!(app.should_quit);
}

#[test]
fn titles_name_what_is_on_screen() {
    let mut app = deck();
    assert_eq!(app.title(), "menú");
    command(&mut app, "sqs");
    assert!(!app.title().is_empty());
    assert_ne!(app.title(), "menú");
    match app.footer_state() {
        Footer::Hints { filter, view } => assert!(filter.is_empty() && !view.is_empty()),
        other => panic!("{other:?}"),
    }
}
