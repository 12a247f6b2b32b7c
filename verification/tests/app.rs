use std::cell::Cell;
use std::rc::Rc;

use awsdeck::action::{Action, ViewContext};
use awsdeck::app::{App, Command, Mode, Picker, Screen};
use awsdeck::aws::context::{Env, ProfileEntry};
use awsdeck::effects::mock::mock_answer;
use awsdeck::key::{KeyCode, KeyEvent, KeyModifiers};
use awsdeck::message::{Envelope, ErrorKind, LogWindow, Message, Text};
use awsdeck::views::{DeckView, HintTexts, Registry, Step};

/// A view that counts what reaches it.  Its contract is not called when it runs.
struct Probe {
    activations: Rc<Cell<u32>>,
    contexts: Rc<Cell<u32>>,
    keys: Rc<Cell<u32>>,
    /// A command that it answers with `Quit`.
    claims: Option<&'static str>,
    /// Every key takes it to another level.
    drills: bool,
    /// What it offers as a favourite.
    favorite: Option<(String, String)>,
    /// It wants every key.
    raw: bool,
}

impl Probe {
    fn quiet() -> Self {
        Probe {
            activations: Rc::new(Cell::new(0)),
            contexts: Rc::new(Cell::new(0)),
            keys: Rc::new(Cell::new(0)),
            claims: None,
            drills: false,
            favorite: None,
            raw: false,
        }
    }
}

impl DeckView for Probe {
    type Model = ();

    fn model(&self) {}

    fn wf(&self) -> bool {
        true
    }

    fn id_text(_m: ()) -> Text {
        unreachable!()
    }

    fn description_text(_m: ()) -> Text {
        unreachable!()
    }

    fn title_text(_m: ()) -> Text {
        unreachable!()
    }

    fn activated(_m: ()) -> Step<()> {
        unreachable!()
    }

    fn opened(_m: (), _context: ViewContext<Text>) -> Step<()> {
        unreachable!()
    }

    fn keyed(_m: (), _key: KeyEvent) -> Step<()> {
        unreachable!()
    }

    fn informed(_m: (), _message: Message) {}

    fn narrowed(_m: (), _filter: Text) {}

    fn searched(_m: (), _query: Text) -> Step<()> {
        unreachable!()
    }

    fn commanded(_m: (), _cmd: Text) -> Step<()> {
        unreachable!()
    }

    fn ticked(_m: ()) -> Step<()> {
        unreachable!()
    }

    fn takes_raw_input(_m: ()) -> bool {
        unreachable!()
    }

    fn favorite(_m: ()) -> Option<(Text, Text)> {
        unreachable!()
    }

    fn hint_texts(_m: ()) -> HintTexts {
        unreachable!()
    }

    fn at_root(_m: ()) -> bool {
        unreachable!()
    }

    fn law_esc_at_root_goes_back(_m: (), _key: KeyEvent) {}

    fn id(&self) -> &'static str {
        "logs"
    }

    fn description(&self) -> &'static str {
        ""
    }

    fn title(&self) -> String {
        "logs".to_string()
    }

    fn on_activate(&mut self) -> Vec<Action> {
        self.activations.set(self.activations.get() + 1);
        Vec::new()
    }

    fn on_context(&mut self, _context: &ViewContext) -> Vec<Action> {
        self.contexts.set(self.contexts.get() + 1);
        Vec::new()
    }

    fn on_key(&mut self, _key: KeyEvent) -> Vec<Action> {
        self.keys.set(self.keys.get() + 1);
        if self.drills {
            vec![Action::ClearFilter]
        } else {
            Vec::new()
        }
    }

    fn on_message(&mut self, _message: &Message) {}

    fn set_filter(&mut self, _filter: &str) {}

    fn search(&mut self, _query: &str) -> Vec<Action> {
        Vec::new()
    }

    fn on_command(&mut self, cmd: &str) -> Vec<Action> {
        if self.claims == Some(cmd) {
            vec![Action::Quit]
        } else {
            Vec::new()
        }
    }

    fn on_tick(&mut self) -> Vec<Action> {
        Vec::new()
    }

    fn wants_raw_input(&self) -> bool {
        self.raw
    }

    fn selected_favorite(&self) -> Option<(String, String)> {
        self.favorite.clone()
    }

    fn hints(&self) -> Vec<(&'static str, &'static str)> {
        Vec::new()
    }
}

fn test_app() -> App<Probe> {
    App::new(Env::new("dev", "us-east-1"), Registry::new())
}

fn app_with(view: Probe) -> App<Probe> {
    let mut registry = Registry::new();
    registry.register(view);
    App::new(Env::new("default", "us-east-1"), registry)
}

fn app_with_counting_view() -> (App<Probe>, Rc<Cell<u32>>, Rc<Cell<u32>>) {
    let view = Probe::quiet();
    let activations = view.activations.clone();
    let keys = view.keys.clone();
    (app_with(view), activations, keys)
}

fn app_with_command_view() -> App<Probe> {
    app_with(Probe {
        claims: Some("die"),
        ..Probe::quiet()
    })
}

/// The answer to the first request that left the application.
fn first_answer(app: &mut App<Probe>) -> Option<Envelope> {
    let env = app.env.clone();
    app.take_commands().into_iter().find_map(|command| match command {
        Command::Effect { action, epoch } => mock_answer(&env, action, epoch),
        _ => None,
    })
}

fn ch(c: char) -> KeyEvent {
    KeyEvent::new(KeyCode::Char(c), KeyModifiers::none())
}

fn type_command(app: &mut App<Probe>, cmd: &str) {
    app.on_key(ch(':'));
    for c in cmd.chars() {
        app.on_key(ch(c));
    }
    app.on_key(KeyEvent::new(KeyCode::Enter, KeyModifiers::none()));
}

#[test]
fn q_quits() {
    let mut app = test_app();
    app.on_key(ch('q'));
    assert!(app.should_quit);
}

#[test]
fn command_quit_quits() {
    let mut app = test_app();
    type_command(&mut app, "q");
    assert!(app.should_quit);
}

#[test]
fn unknown_command_sets_error() {
    let mut app = test_app();
    type_command(&mut app, "nope");
    let status = app.status.as_ref().expect("debe haber status");
    assert!(status.error);
    assert!(status.text.contains("desconocido"));
}

#[test]
fn activate_with_context_calls_on_context_not_on_activate() {
    let activated = Rc::new(Cell::new(0));
    let contexts = Rc::new(Cell::new(0));
    let env = Env::new("default", "us-east-1");
    let mut registry = Registry::new();
    registry.register(Probe {
        activations: activated.clone(),
        contexts: contexts.clone(),
        ..Probe::quiet()
    });
    let mut app = App::new(env, registry);

    app.dispatch(Action::ActivateViewWithContext {
        id: "logs".to_string(),
        context: ViewContext::LogGroupTail {
            group: "/aws/lambda/Fn".to_string(),
            window: LogWindow::Last(3_600_000),
        },
    });

    assert!(matches!(app.screen, Screen::View), "la vista queda activa");
    assert_eq!(contexts.get(), 1, "se entregó el contexto vía on_context");
    assert_eq!(activated.get(), 0, "no se llamó on_activate en el handoff");
}

#[test]
fn command_routes_to_active_view() {
    let mut app = app_with_command_view();
    type_command(&mut app, "die");
    assert!(app.should_quit, "el comando de la vista se despachó");
}

#[test]
fn command_not_claimed_by_view_falls_back_to_activate() {
    let mut app = app_with_command_view();
    type_command(&mut app, "nope");
    let status = app.status.as_ref().expect("status");
    assert!(status.error && status.text.contains("desconocido"));
}

#[test]
fn clear_filter_action_empties_filter() {
    let mut app = test_app();
    app.filter = "order".to_string();
    app.dispatch(Action::ClearFilter);
    assert!(app.filter.is_empty(), "ClearFilter vacía el filtro del App");
}

#[test]
fn drill_within_view_clears_app_filter() {
    let env = Env::new("default", "us-east-1");
    let mut registry = Registry::new();
    registry.register(Probe {
        drills: true,
        ..Probe::quiet()
    });
    let mut app = App::new(env, registry);
    type_command(&mut app, "logs");
    app.filter = "order".to_string();
    app.on_key(ch('x'));
    assert!(
        app.filter.is_empty(),
        "drillear limpia el filtro heredado del nivel anterior"
    );
}

fn profile(name: &str, region: Option<&str>) -> ProfileEntry {
    ProfileEntry {
        name: name.to_string(),
        region: region.map(str::to_string),
    }
}

#[test]
fn picker_selected_env_uses_region_or_falls_back() {
    let mut p = Picker::new(vec![
        profile("prod", Some("eu-west-1")),
        profile("dev", None),
    ]);
    let current = Env::new("default", "us-east-1");
    assert_eq!(
        p.selected_env(&current),
        Some(Env::new("prod", "eu-west-1"))
    );
    p.move_selection(1);
    assert_eq!(p.selected_env(&current), Some(Env::new("dev", "us-east-1")));
}

#[test]
fn picker_enter_switches_env_and_bumps_epoch() {
    let mut app = test_app();
    app.picker = Some(Picker::new(vec![profile("prod", Some("eu-west-1"))]));
    assert_eq!(app.epoch, 0);

    app.on_key(KeyEvent::new(KeyCode::Enter, KeyModifiers::none()));

    assert!(app.picker.is_none(), "el picker se cierra al elegir");
    assert_eq!(app.epoch, 1, "el switch sube el epoch");
    assert_eq!(app.env, Env::new("prod", "eu-west-1"));
}

#[test]
fn picker_esc_closes_without_switching() {
    let mut app = test_app();
    app.picker = Some(Picker::new(vec![profile("prod", None)]));
    app.on_key(KeyEvent::new(KeyCode::Esc, KeyModifiers::none()));
    assert!(app.picker.is_none());
    assert_eq!(app.epoch, 0, "esc no cambia de ambiente");
}

#[test]
fn preselect_picks_matching_profile_else_keeps_first() {
    let cur = Env::new("x", "us-east-1");
    let mut p = Picker::new(vec![
        profile("dev", None),
        profile("prod", Some("eu-west-1")),
        profile("stage", None),
    ]);
    p.preselect("prod");
    assert_eq!(p.selected_env(&cur), Some(Env::new("prod", "eu-west-1")));
    p.preselect("nope");
    assert_eq!(p.selected_env(&cur), Some(Env::new("prod", "eu-west-1")));
}

#[test]
fn startup_picker_esc_lands_on_menu() {
    let (mut app, activations, _keys) = app_with_counting_view();
    app.picker = Some(Picker::new(vec![profile("dev", None)]));
    app.awaiting_startup_env = true;

    app.on_key(KeyEvent::new(KeyCode::Esc, KeyModifiers::none()));

    assert!(app.picker.is_none());
    assert!(!app.awaiting_startup_env);
    assert!(matches!(app.screen, Screen::Menu), "aterriza en el menú");
    assert_eq!(app.epoch, 0, "esc no cambia de ambiente");
    assert_eq!(activations.get(), 0, "el menú no activa ninguna vista");
}

#[test]
fn startup_picker_enter_switches_env_lands_on_menu() {
    let (mut app, activations, _keys) = app_with_counting_view();
    app.picker = Some(Picker::new(vec![profile("prod", Some("eu-west-1"))]));
    app.awaiting_startup_env = true;

    app.on_key(KeyEvent::new(KeyCode::Enter, KeyModifiers::none()));

    assert!(app.picker.is_none());
    assert!(!app.awaiting_startup_env);
    assert_eq!(app.epoch, 1);
    assert_eq!(app.env, Env::new("prod", "eu-west-1"));
    assert!(
        matches!(app.screen, Screen::Menu),
        "tras elegir ambiente, al menú"
    );
    assert_eq!(activations.get(), 0, "el menú no activa ninguna vista");
}

#[test]
fn starts_on_menu() {
    let app = test_app();
    assert!(matches!(app.screen, Screen::Menu));
}

#[test]
fn menu_enter_activates_selected_view() {
    let (mut app, activations, _keys) = app_with_counting_view();
    assert!(matches!(app.screen, Screen::Menu));
    app.on_key(KeyEvent::new(KeyCode::Enter, KeyModifiers::none()));
    assert!(matches!(app.screen, Screen::View));
    assert_eq!(activations.get(), 1, "enter en el menú activa la vista");
}

#[test]
fn menu_command_returns_home() {
    let (mut app, _activations, _keys) = app_with_counting_view();
    app.on_key(KeyEvent::new(KeyCode::Enter, KeyModifiers::none()));
    assert!(matches!(app.screen, Screen::View));
    type_command(&mut app, "menu");
    assert!(matches!(app.screen, Screen::Menu));
}

#[test]
fn back_action_returns_to_menu() {
    let (mut app, _activations, _keys) = app_with_counting_view();
    app.on_key(KeyEvent::new(KeyCode::Enter, KeyModifiers::none()));
    assert!(matches!(app.screen, Screen::View));
    app.dispatch(Action::Back);
    assert!(matches!(app.screen, Screen::Menu), "Back vuelve al menú");
}

#[test]
fn filter_mode_arrows_navigate_view_without_leaving() {
    let (mut app, _activations, keys) = app_with_counting_view();
    app.on_key(KeyEvent::new(KeyCode::Enter, KeyModifiers::none()));
    app.on_key(ch('/'));
    assert!(matches!(app.mode, Mode::Filter));
    let before = keys.get();

    app.on_key(KeyEvent::new(KeyCode::Down, KeyModifiers::none()));

    assert!(
        matches!(app.mode, Mode::Filter),
        "navegar no sale del filtro"
    );
    assert_eq!(keys.get(), before + 1, "la flecha llega a la vista activa");
    assert!(
        app.search_deadline.is_none(),
        "la flecha no reprograma la búsqueda server-side"
    );
    assert_eq!(
        app.input.value(),
        "",
        "la flecha no edita el texto del filtro"
    );
}

#[test]
fn filter_enter_commits_and_forwards_to_view() {
    let (mut app, _activations, keys) = app_with_counting_view();
    app.on_key(KeyEvent::new(KeyCode::Enter, KeyModifiers::none()));
    app.on_key(ch('/'));
    assert!(matches!(app.mode, Mode::Filter));
    let before = keys.get();

    app.on_key(KeyEvent::new(KeyCode::Enter, KeyModifiers::none()));

    assert!(matches!(app.mode, Mode::Normal), "enter commitea el filtro");
    assert!(matches!(app.screen, Screen::View), "sigue en la vista");
    assert_eq!(
        keys.get(),
        before + 1,
        "el enter llega a la vista (no hace falta un segundo enter)"
    );
}

#[test]
fn esc_two_stage_clears_filter_first_then_forwards_to_view() {
    let (mut app, _activations, keys) = app_with_counting_view();
    app.on_key(KeyEvent::new(KeyCode::Enter, KeyModifiers::none()));
    app.on_key(ch('/'));
    app.on_key(ch('x'));
    app.on_key(KeyEvent::new(KeyCode::Enter, KeyModifiers::none()));
    assert_eq!(app.filter, "x");
    let keys_before = keys.get();

    app.on_key(KeyEvent::new(KeyCode::Esc, KeyModifiers::none()));
    assert_eq!(app.filter, "", "el primer esc limpia el filtro");
    assert!(matches!(app.screen, Screen::View), "y se queda en la vista");
    assert_eq!(
        keys.get(),
        keys_before,
        "la 1a etapa no reenvía esc a la vista"
    );

    app.on_key(KeyEvent::new(KeyCode::Esc, KeyModifiers::none()));
    assert_eq!(keys.get(), keys_before + 1, "el segundo esc va a la vista");
}

#[test]
fn sticky_error_survives_navigation_and_clears_on_fresh_data() {
    let (mut app, _act, _keys) = app_with_counting_view();
    app.on_key(KeyEvent::new(KeyCode::Enter, KeyModifiers::none()));
    app.on_envelope(Envelope::new(
        0,
        Message::Error {
            kind: ErrorKind::Auth,
            detail: "list_queues: sesión caducada".into(),
        },
    ));
    assert!(app.status.as_ref().is_some_and(|s| s.error));
    assert_eq!(app.error_kind, Some(ErrorKind::Auth));

    app.on_key(ch('j'));
    assert!(
        app.status.as_ref().is_some_and(|s| s.error),
        "el error persiste tras navegar"
    );
    assert_eq!(
        app.error_kind,
        Some(ErrorKind::Auth),
        "y la pista de re-auth del header también"
    );

    app.on_envelope(Envelope::new(0, Message::QueuesLoaded(vec![])));
    assert!(app.status.is_none(), "data fresca limpia el error pegajoso");
    assert_eq!(app.error_kind, None);
}

#[test]
fn esc_dismisses_sticky_error_without_forwarding() {
    let (mut app, _act, keys) = app_with_counting_view();
    app.on_key(KeyEvent::new(KeyCode::Enter, KeyModifiers::none()));
    app.on_envelope(Envelope::new(0, Message::err("boom")));
    let keys_before = keys.get();

    app.on_key(KeyEvent::new(KeyCode::Esc, KeyModifiers::none()));
    assert!(app.status.is_none(), "el primer esc descarta el error");
    assert_eq!(
        keys.get(),
        keys_before,
        "y NO reenvía ese esc a la vista (etapa 0)"
    );
}

#[test]
fn switch_env_bumps_epoch_and_updates_env() {
    let mut app = test_app();
    assert_eq!(app.epoch, 0);
    app.dispatch(Action::SwitchEnv(Env::new("prod", "eu-west-1")));
    assert_eq!(app.epoch, 1);
    assert_eq!(app.env, Env::new("prod", "eu-west-1"));
}

#[test]
fn region_command_switches_region_keeping_profile() {
    let mut app = test_app();
    type_command(&mut app, "region eu-west-1");
    assert_eq!(app.epoch, 1, "reusa switch_env (sube epoch)");
    assert_eq!(
        app.env,
        Env::new("dev", "eu-west-1"),
        "mismo profile, otra región"
    );
}

#[test]
fn region_command_without_arg_is_a_usage_error() {
    let mut app = test_app();
    type_command(&mut app, "region");
    assert_eq!(app.epoch, 0, "no cambia de ambiente");
    assert!(app.status.as_ref().is_some_and(|s| s.error), "muestra uso");
}

#[test]
fn epoch_guard_discards_stale_and_accepts_fresh() {
    let mut app = test_app();
    app.dispatch(Action::SwitchEnv(Env::new("prod", "eu-west-1")));
    app.status = None;

    app.on_envelope(Envelope::new(0, Message::err("cuenta anterior")));
    assert!(
        app.status.is_none(),
        "el envelope stale no debe pintar nada"
    );

    app.on_envelope(Envelope::new(1, Message::err("error real")));
    let status = app.status.as_ref().expect("el envelope vigente sí pinta");
    assert!(status.error && status.text.contains("error real"));
}

fn purge(url: &str) -> Action {
    Action::PurgeQueue {
        queue_url: url.to_string(),
    }
}

#[test]
fn purge_blocked_without_write_mode() {
    let mut app = test_app();
    assert!(!app.write_mode);
    app.dispatch(purge("https://sqs/000/orders"));
    assert!(app.confirm.is_none(), "sin modo escritura no abre confirm");
    let status = app.status.as_ref().expect("status de bloqueo");
    assert!(status.error && status.text.contains("escritura"));
}

#[test]
fn purge_with_write_mode_opens_confirm() {
    let mut app = test_app();
    app.write_mode = true;
    app.dispatch(purge("https://sqs/000/orders"));
    assert!(app.confirm.is_some(), "con modo escritura abre el confirm");
}

#[test]
fn confirm_n_cancels_without_dispatch() {
    let mut app = test_app();
    app.write_mode = true;
    app.dispatch(purge("https://sqs/000/orders"));
    app.on_key(KeyEvent::new(KeyCode::Char('n'), KeyModifiers::none()));
    assert!(app.confirm.is_none(), "n cancela el confirm");
}

#[test]
fn confirm_intercepts_keys_before_normal() {
    let mut app = test_app();
    app.write_mode = true;
    app.dispatch(purge("https://sqs/000/orders"));
    app.on_key(ch('q'));
    assert!(
        !app.should_quit,
        "el confirm intercepta antes del routing normal"
    );
    assert!(app.confirm.is_some());
}

#[test]
fn confirm_y_dispatches_to_effects() {
    let mut app = test_app();
    app.write_mode = true;
    app.dispatch(purge(
        "https://sqs.us-east-1.amazonaws.com/000000000000/orders",
    ));
    assert!(app.confirm.is_some());

    app.on_key(KeyEvent::new(KeyCode::Char('y'), KeyModifiers::none()));
    assert!(app.confirm.is_none(), "y confirma y cierra el modal");

    let envelope = first_answer(&mut app).expect("debe llegar un envelope");
    assert!(matches!(envelope.message, Message::QueuePurged { .. }));
}

#[test]
fn write_command_toggles_mode() {
    let mut app = test_app();
    assert!(!app.write_mode);
    type_command(&mut app, "write");
    assert!(app.write_mode);
    type_command(&mut app, "w");
    assert!(!app.write_mode);
}

#[test]
fn switch_env_resets_write_mode() {
    let mut app = test_app();
    app.write_mode = true;
    app.dispatch(Action::SwitchEnv(Env::new("prod", "eu-west-1")));
    assert!(!app.write_mode, "cambiar de ambiente re-arma la seguridad");
}

fn redrive(arn: &str) -> Action {
    Action::RedriveExecution {
        execution_arn: arn.to_string(),
    }
}

#[test]
fn redrive_blocked_without_write_mode() {
    let mut app = test_app();
    app.dispatch(redrive("arn:…:execution:m1:exec-fail"));
    assert!(app.confirm.is_none(), "sin modo escritura no abre confirm");
    let status = app.status.as_ref().expect("status de bloqueo");
    assert!(status.error && status.text.contains("escritura"));
}

#[test]
fn redrive_with_write_mode_opens_confirm() {
    let mut app = test_app();
    app.write_mode = true;
    app.dispatch(redrive("arn:…:execution:m1:exec-fail"));
    assert!(app.confirm.is_some(), "con modo escritura abre el confirm");
}

#[test]
fn confirm_y_dispatches_redrive_to_effects() {
    let mut app = test_app();
    app.write_mode = true;
    app.dispatch(redrive(
        "arn:aws:states:us-east-1:000:execution:m1:exec-fail",
    ));
    assert!(app.confirm.is_some());

    app.on_key(KeyEvent::new(KeyCode::Char('y'), KeyModifiers::none()));
    assert!(app.confirm.is_none(), "y confirma y cierra el modal");

    let envelope = first_answer(&mut app).expect("debe llegar un envelope");
    assert!(matches!(
        envelope.message,
        Message::ExecutionRedriven { .. }
    ));
}

#[test]
fn redriven_envelope_triggers_detail_reload() {
    let mut app = test_app();
    let arn = "arn:aws:states:us-east-1:000:execution:m1:exec-fail".to_string();
    app.on_envelope(Envelope::new(
        0,
        Message::ExecutionRedriven {
            execution_arn: arn.clone(),
        },
    ));
    let envelope = first_answer(&mut app).expect("debe llegar un envelope");
    assert!(matches!(
        envelope.message,
        Message::ExecutionDetailLoaded { execution_arn, .. } if execution_arn == arn
    ));
}

fn send_event(bus: &str) -> Action {
    Action::SendEvent {
        event_bus_name: bus.to_string(),
        source: "awsdeck.manual".to_string(),
        detail_type: "test".to_string(),
        detail: "{}".to_string(),
        time: None,
        resources: Vec::new(),
    }
}

#[test]
fn send_event_blocked_without_write_mode() {
    let mut app = test_app();
    app.dispatch(send_event("default"));
    assert!(app.confirm.is_none(), "sin modo escritura no abre confirm");
    let status = app.status.as_ref().expect("status de bloqueo");
    assert!(status.error && status.text.contains("escritura"));
}

#[test]
fn send_event_with_write_mode_opens_confirm() {
    let mut app = test_app();
    app.write_mode = true;
    app.dispatch(send_event("default"));
    assert!(app.confirm.is_some(), "con modo escritura abre el confirm");
}

#[test]
fn confirm_y_dispatches_send_event_to_effects() {
    let mut app = test_app();
    app.write_mode = true;
    app.dispatch(send_event("default"));
    assert!(app.confirm.is_some());

    app.on_key(KeyEvent::new(KeyCode::Char('y'), KeyModifiers::none()));
    assert!(app.confirm.is_none(), "y confirma y cierra el modal");

    let envelope = first_answer(&mut app).expect("debe llegar un envelope");
    assert!(matches!(envelope.message, Message::EventSent { .. }));
}

#[test]
fn event_sent_envelope_shows_info_without_reload() {
    let mut app = test_app();
    app.on_envelope(Envelope::new(
        0,
        Message::EventSent {
            event_bus_name: "default".into(),
        },
    ));
    let status = app.status.as_ref().expect("status info");
    assert!(!status.error && status.text.contains("default"));
    assert!(first_answer(&mut app).is_none(), "EventSent no dispara recargas");
}
