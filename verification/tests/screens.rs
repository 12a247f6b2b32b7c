use awsdeck::action::{Action, ViewContext};
use awsdeck::key::{KeyCode, KeyEvent, KeyModifiers};
use awsdeck::message::{
    EventBusDto, ExecStatus, ExecutionDto, FunctionDto, LogEventDto, LogGroupDto, LogWindow, MachineType, Message,
    QueueAttrsDto, QueueDto, QueueMessageDto, RuleState, StateMachineDto,
};
use awsdeck::ui::Color;
use awsdeck::util::parse_duration;
use awsdeck::views::events::{state_color, EventsView};
use awsdeck::views::lambda::{env_row, fmt_size, function_row, LambdaView};
use awsdeck::views::logs::{
    fmt_window_duration, group_row, human_bytes, parse_window, preset_millis, severity_of, short_dt, stream_suffix,
    LogsView, Severity, PRESETS,
};
use awsdeck::views::sfn::{duration_label, execution_row, machine_row, oneline, Level as SfnLevel, SfnView};
use awsdeck::views::sqs::{message_row, SqsView};
use awsdeck::views::DeckView;

fn press<V: DeckView>(v: &mut V, code: KeyCode) -> Vec<Action> {
    v.on_key(KeyEvent::new(code, KeyModifiers::none()))
}

fn keys() -> Vec<KeyCode> {
    let mut all = vec![
        KeyCode::Up,
        KeyCode::Down,
        KeyCode::Home,
        KeyCode::End,
        KeyCode::PageUp,
        KeyCode::PageDown,
        KeyCode::Enter,
        KeyCode::Esc,
    ];
    all.extend("jkgGwWtofyOSPrpdL".chars().map(KeyCode::Char));
    all
}

fn inside(selected: Option<usize>, len: usize) -> bool {
    match selected {
        Some(i) => i < len || i == 0,
        None => true,
    }
}

// --- queues ----------------------------------------------------------------------------------

fn queue(name: &str) -> QueueDto {
    QueueDto { name: name.to_string(), url: format!("u/{name}"), is_fifo: false }
}

fn queue_messages(n: usize) -> Vec<QueueMessageDto> {
    (0..n)
        .map(|i| QueueMessageDto { id: format!("m{i}"), body: "b".to_string(), sent_ts: None, receive_count: None })
        .collect()
}

#[test]
fn queue_selection_stays_inside() {
    let mut v = SqsView::new();
    for code in keys() {
        v.on_message(&Message::QueuesLoaded(vec![queue("a"), queue("b"), queue("c")]));
        press(&mut v, KeyCode::End);
        press(&mut v, code);
        v.on_message(&Message::QueueDetailLoaded {
            queue_url: "u/c".to_string(),
            attrs: QueueAttrsDto::default(),
            messages: queue_messages(2),
        });
        assert!(inside(v.state.selected(), v.visible_len()));
        v.on_message(&Message::QueuesLoaded(vec![queue("a")]));
        assert!(inside(v.state.selected(), v.visible_len()));
        v.set_filter("zzz");
        assert!(inside(v.state.selected(), v.visible_len()));
        v.set_filter("");
    }
}

#[test]
fn queue_mutations_concern_the_queue_on_screen() {
    let mut v = SqsView::new();
    v.on_message(&Message::QueuesLoaded(vec![queue("a"), queue("a-dlq")]));
    assert!(press(&mut v, KeyCode::Char('p')).is_empty(), "no queue is open");
    press(&mut v, KeyCode::Down);
    press(&mut v, KeyCode::Enter);
    assert!(press(&mut v, KeyCode::Char('d')).is_empty(), "it is not known to hold dead letters");
    let attrs = QueueAttrsDto { dlq_sources: vec!["u/a".to_string()], ..QueueAttrsDto::default() };
    v.on_message(&Message::QueueDetailLoaded { queue_url: "u/a-dlq".to_string(), attrs, messages: Vec::new() });
    assert!(matches!(
        press(&mut v, KeyCode::Char('d')).as_slice(),
        [Action::RedriveDlq { queue_url }] if queue_url == "u/a-dlq"
    ));
}

#[test]
fn a_favorite_queue_opens_itself() {
    let mut v = SqsView::new();
    v.on_message(&Message::QueuesLoaded(vec![queue("a"), queue("b")]));
    press(&mut v, KeyCode::Down);
    let (key, label) = v.selected_favorite().unwrap();
    assert_eq!((key.as_str(), label.as_str()), ("u/b", "b"));
    let mut fresh = SqsView::new();
    let asked = fresh.on_context(&ViewContext::Favorite { key });
    assert!(asked.iter().any(|a| matches!(a, Action::LoadQueueDetail { queue_url } if queue_url == "u/b")));
}

#[test]
fn rows_of_a_queue_are_cut() {
    let m = QueueMessageDto {
        id: "i".to_string(),
        body: "a\nb".to_string(),
        sent_ts: Some(0),
        receive_count: Some(2),
    };
    let (_, body) = message_row(&m);
    assert!(!body.contains('\n'));
}

// --- logs ------------------------------------------------------------------------------------

fn group(name: &str) -> LogGroupDto {
    LogGroupDto { name: name.to_string(), stored_bytes: Some(1536), arn: None }
}

fn line(message: &str) -> LogEventDto {
    LogEventDto { ts: Some(0), message: message.to_string(), stream: None }
}

fn lines(n: usize) -> Vec<LogEventDto> {
    (0..n).map(|i| line(&format!("line {i}"))).collect()
}

fn tail(v: &LogsView, events: Vec<LogEventDto>, append: bool) -> Message {
    Message::LogTailLoaded {
        group: "g".to_string(),
        events,
        next_token: Some("t".to_string()),
        append,
        generation: v.tail_gen,
    }
}

fn tailing() -> LogsView {
    let mut v = LogsView::new();
    v.on_message(&Message::LogGroupsLoaded { groups: vec![group("g")], query: None, more: false });
    press(&mut v, KeyCode::Char('t'));
    v
}

#[test]
fn log_selection_stays_inside() {
    for code in keys() {
        let mut v = tailing();
        let first = tail(&v, lines(5), false);
        v.on_message(&first);
        press(&mut v, code);
        assert!(inside(v.state.selected(), v.visible_len()), "{code:?}");
        let more = tail(&v, lines(3), true);
        v.on_message(&more);
        assert!(inside(v.state.selected(), v.visible_len()), "{code:?}");
        v.set_filter("line 1");
        assert!(inside(v.state.selected(), v.visible_len()), "{code:?}");
        let fewer = tail(&v, lines(1), false);
        v.on_message(&fewer);
        assert!(inside(v.state.selected(), v.visible_len()), "{code:?}");
    }
}

#[test]
fn the_window_keys_undo_each_other() {
    let mut v = tailing();
    for _ in 0..PRESETS {
        let before = v.tail_preset;
        press(&mut v, KeyCode::Char('w'));
        assert_eq!(v.tail_preset, (before + 1) % PRESETS);
        press(&mut v, KeyCode::Char('W'));
        assert_eq!(v.tail_preset, before);
        assert_eq!(v.tail_window, LogWindow::Last(preset_millis(before)));
        press(&mut v, KeyCode::Char('w'));
    }
}

#[test]
fn older_lines_keep_the_selected_line() {
    let mut v = LogsView::new();
    v.on_message(&Message::LogGroupsLoaded { groups: vec![group("g")], query: None, more: false });
    press(&mut v, KeyCode::Enter);
    v.on_message(&Message::LogStreamsLoaded {
        group: "g".to_string(),
        streams: vec![awsdeck::message::LogStreamDto { name: "s".to_string(), last_event_ts: None }],
        more: false,
    });
    press(&mut v, KeyCode::Enter);
    let loaded = |events: Vec<LogEventDto>, append: bool| Message::LogEventsLoaded {
        group: "g".to_string(),
        stream: "s".to_string(),
        events,
        next_token: Some("t".to_string()),
        append,
    };
    v.on_message(&loaded(vec![line("c"), line("d"), line("e")], false));
    press(&mut v, KeyCode::Up);
    assert_eq!(v.state.selected(), Some(1));
    v.on_message(&loaded(vec![line("a"), line("b")], true));
    assert_eq!(v.state.selected(), Some(3));
    assert_eq!(v.events[3].message, "d");
}

#[test]
fn window_lengths_are_read_back() {
    for ms in [60_000, 900_000, 3_600_000, 5_400_000, 86_400_000, 259_200_000] {
        assert_eq!(parse_duration(&fmt_window_duration(ms)), Some(ms));
    }
    assert_eq!(fmt_window_duration(5_400_000), "90m");
    assert_eq!(fmt_window_duration(172_800_000), "2d");
    assert_eq!(parse_window("since 90m"), Some(LogWindow::Last(5_400_000)));
    assert_eq!(
        parse_window("from 1970-01-01 to 1970-01-02"),
        Some(LogWindow::Range { from: 0, to: Some(86_400_000) })
    );
    assert_eq!(parse_window("until now"), None);
}

#[test]
fn lines_stand_out_by_their_words() {
    assert_eq!(severity_of("java.lang.Exception"), Severity::Error);
    assert_eq!(severity_of("thread panicked"), Severity::Error);
    assert_eq!(severity_of("WARN disk"), Severity::Warning);
    assert_eq!(severity_of("warn disk"), Severity::Plain);
    assert_eq!(stream_suffix("2026/06/21/[$LATEST]0123456789abcdef"), "0123456789ab");
    assert_eq!(stream_suffix("2026]"), "2026]");
}

#[test]
fn sizes_have_their_units() {
    assert_eq!(human_bytes(1023), "1023 B");
    assert_eq!(human_bytes(1536), "1.5 KB");
    assert_eq!(human_bytes(3 << 30), "3.0 GB");
    assert_eq!(human_bytes(5 << 40), "5.0 TB");
    assert_eq!(group_row(&group("g")), ("g".to_string(), "[1.5 KB]".to_string()));
    assert_eq!(fmt_size(1023), "1023 B");
    assert_eq!(fmt_size(2047), "1 KB");
    assert_eq!(fmt_size(1_572_864), "1.5 MB");
    assert!(!short_dt(1_750_000_000_000).is_empty());
}

// --- executions ------------------------------------------------------------------------------

fn machine(name: &str) -> StateMachineDto {
    StateMachineDto {
        arn: format!("arn:m:{name}"),
        name: name.to_string(),
        machine_type: MachineType::Standard,
        created_ts: None,
    }
}

fn execution(name: &str) -> ExecutionDto {
    ExecutionDto {
        arn: format!("arn:e:{name}"),
        name: name.to_string(),
        status: ExecStatus::Failed,
        start_ts: Some(0),
        stop_ts: Some(65_000),
    }
}

fn at_executions() -> SfnView {
    let mut v = SfnView::new();
    v.on_message(&Message::StateMachinesLoaded { machines: vec![machine("a"), machine("b")], more: false });
    press(&mut v, KeyCode::Down);
    press(&mut v, KeyCode::Enter);
    v.on_message(&Message::ExecutionsLoaded {
        machine_arn: "arn:m:b".to_string(),
        executions: vec![execution("x"), execution("y")],
        next_token: None,
        append: false,
    });
    v
}

#[test]
fn execution_selection_stays_inside() {
    for code in keys() {
        let mut v = at_executions();
        press(&mut v, KeyCode::End);
        press(&mut v, code);
        assert!(inside(v.state.selected(), v.visible_len()), "{code:?}");
        v.set_filter("x");
        assert!(inside(v.state.selected(), v.visible_len()), "{code:?}");
        v.on_message(&Message::StateMachinesLoaded { machines: vec![machine("a")], more: false });
        assert!(inside(v.state.selected(), v.visible_len()), "{code:?}");
    }
}

#[test]
fn a_favorite_machine_or_execution_opens_itself() {
    let mut v = at_executions();
    press(&mut v, KeyCode::Enter);
    let (key, _) = v.selected_favorite().expect("the execution on screen");
    let mut fresh = SfnView::new();
    let asked = fresh.on_context(&ViewContext::Favorite { key });
    assert!(matches!(&fresh.level, SfnLevel::Detail { machine_arn, execution_arn, .. }
        if machine_arn == "arn:m:b" && execution_arn == "arn:e:x"));
    assert!(asked.iter().any(|a| matches!(a, Action::LoadExecutionDetail { execution_arn } if execution_arn == "arn:e:x")));

    let mut v = SfnView::new();
    v.on_message(&Message::StateMachinesLoaded { machines: vec![machine("a")], more: false });
    let (key, label) = v.selected_favorite().expect("the machine");
    assert_eq!(label, "a");
    let asked = SfnView::new().on_context(&ViewContext::Favorite { key });
    assert!(asked.iter().any(|a| matches!(a, Action::LoadExecutions { machine_arn, .. } if machine_arn == "arn:m:a")));
}

#[test]
fn rows_of_executions_show_how_long_they_took() {
    assert_eq!(duration_label(Some(0), Some(65_000)), "1m 5s");
    assert_eq!(duration_label(Some(0), None), "en curso");
    assert_eq!(duration_label(Some(5), Some(0)), "—");
    assert_eq!(oneline(" a \n b ", 9), "a b");
    assert_eq!(oneline("abcdef", 3), "abc…");
    let (status, name, _) = execution_row(&execution("x"));
    assert_eq!(status, "FAILED");
    assert!(name.contains('x'));
    let (name, _, _) = machine_row(&machine("a"));
    assert_eq!(name, "a");
}

// --- functions -------------------------------------------------------------------------------

fn function(name: &str) -> FunctionDto {
    FunctionDto {
        name: name.to_string(),
        arn: format!("arn:aws:lambda:r:1:function:{name}"),
        runtime: Some("rust".to_string()),
        memory: Some(128),
        last_modified: None,
    }
}

#[test]
fn function_selection_stays_inside() {
    for code in keys() {
        let mut v = LambdaView::new();
        v.on_message(&Message::FunctionsLoaded {
            functions: vec![function("a"), function("b"), function("c")],
            append: false,
            more: false,
            partial: false,
        });
        press(&mut v, KeyCode::End);
        let asked = press(&mut v, code);
        assert!(asked.iter().all(|a| !awsdeck::action::is_mutating(a)), "{code:?}");
        assert!(inside(v.state.selected(), v.visible_len()), "{code:?}");
        v.on_message(&Message::FunctionsLoaded {
            functions: vec![function("a")],
            append: false,
            more: false,
            partial: false,
        });
        assert!(inside(v.state.selected(), v.visible_len()), "{code:?}");
    }
}

#[test]
fn rows_of_functions_show_what_is_known() {
    let (name, cells) = function_row(&function("a"));
    assert_eq!(name, "a");
    assert!(cells.iter().any(|c| c.contains("rust")));
    let (key, value) = env_row(&("K".to_string(), "v".to_string()));
    assert!(key.contains('K') && value.contains('v'));
}

// --- events ----------------------------------------------------------------------------------

#[test]
fn bus_selection_stays_inside() {
    let bus = |n: &str| EventBusDto { name: n.to_string(), arn: String::new() };
    for code in keys() {
        let mut v = EventsView::new();
        v.on_message(&Message::EventBusesLoaded { buses: vec![bus("a"), bus("b")], more: false });
        press(&mut v, KeyCode::End);
        press(&mut v, code);
        assert!(inside(v.state.selected(), v.visible_len()), "{code:?}");
        v.on_message(&Message::EventBusesLoaded { buses: vec![bus("a")], more: false });
        assert!(inside(v.state.selected(), v.visible_len()), "{code:?}");
    }
}

#[test]
fn an_event_is_judged_before_it_is_sent() {
    let mut v = EventsView::new();
    v.on_message(&Message::EventBusesLoaded {
        buses: vec![EventBusDto { name: "b".to_string(), arn: String::new() }],
        more: false,
    });
    press(&mut v, KeyCode::Char('S'));
    assert!(v.submit_judged(false).is_empty());
    assert!(v.event_form.is_some(), "an unsound event stays open");
    assert!(matches!(
        v.submit_judged(true).as_slice(),
        [Action::SendEvent { event_bus_name, .. }] if event_bus_name == "b"
    ));
    assert_eq!(state_color(RuleState::Enabled), Color::Green);
}
