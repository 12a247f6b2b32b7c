use awsdeck::action::{Action, ConsoleTarget, ViewContext};
use awsdeck::config::EventPreset;
use awsdeck::key::{KeyCode, KeyEvent, KeyModifiers};
use awsdeck::message::{EventBusDto, Message, RuleDetailDto, RuleDto, RuleState, TargetDto};
use awsdeck::util::parse_datetime;
use awsdeck::views::events::{EventsView, Level};
use awsdeck::views::DeckView;

fn bus(name: &str) -> EventBusDto {
    EventBusDto {
        arn: format!("arn:aws:events:us-east-1:000:event-bus/{name}"),
        name: name.to_string(),
    }
}

fn rule(name: &str, state: RuleState) -> RuleDto {
    RuleDto {
        name: name.to_string(),
        event_bus_name: "default".to_string(),
        state,
        description: Some(format!("desc {name}")),
    }
}

fn buses_msg(buses: Vec<EventBusDto>) -> Message {
    Message::EventBusesLoaded { buses, more: false }
}

fn preset(name: &str) -> EventPreset {
    EventPreset {
        name: name.to_string(),
        source: format!("src.{name}"),
        detail_type: format!("Type{name}"),
        detail: r#"{"k":1}"#.to_string(),
    }
}

fn key(code: KeyCode) -> KeyEvent {
    KeyEvent::new(code, KeyModifiers::none())
}

fn view_in_detail() -> EventsView {
    let mut v = EventsView::new();
    v.on_message(&buses_msg(vec![bus("default")]));
    v.on_key(key(KeyCode::Enter));
    v.on_message(&Message::RulesLoaded {
        event_bus_name: "default".into(),
        rules: vec![rule("orders-created", RuleState::Enabled)],
        more: false,
    });
    v.on_key(key(KeyCode::Enter));
    v.on_message(&Message::RuleDetailLoaded {
        event_bus_name: "default".into(),
        rule_name: "orders-created".into(),
        detail: RuleDetailDto {
            state: RuleState::Enabled,
            description: Some("route orders".into()),
            event_pattern: Some("{\n  \"source\": [\"my.app\"]\n}".into()),
            schedule_expression: None,
        },
        targets: vec![
            TargetDto {
                id: "to-lambda".into(),
                arn: "arn:…:function:fulfill".into(),
                input: None,
            },
            TargetDto {
                id: "to-sqs".into(),
                arn: "arn:…:orders-dlq".into(),
                input: Some("{\"x\":1}".into()),
            },
        ],
    });
    v
}

#[test]
fn enter_on_target_opens_input_panel() {
    let mut v = view_in_detail();
    let actions = v.on_key(key(KeyCode::Enter));
    assert!(
        actions.is_empty(),
        "enter en el detalle abre panel, no drillea"
    );
    let p = v.detail_panel.as_ref().expect("panel abierto");
    assert!(p.content().contains("no define input"), "target sin input");

    v.on_key(key(KeyCode::Esc));
    v.on_key(key(KeyCode::Char('j')));
    v.on_key(key(KeyCode::Enter));
    assert_eq!(
        v.detail_panel.as_ref().expect("panel").content(),
        r#"{"x":1}"#
    );
}

#[test]
fn capital_p_opens_pattern_panel_copies_and_esc_closes() {
    let mut v = view_in_detail();
    v.on_key(key(KeyCode::Char('P')));
    assert!(
        v.detail_panel
            .as_ref()
            .is_some_and(|p| p.content().contains("my.app")),
        "P expande el event_pattern completo"
    );
    match v.on_key(key(KeyCode::Char('y'))).as_slice() {
        [Action::CopyToClipboard { text }] => assert!(text.contains("my.app")),
        other => panic!("se esperaba copiar el patrón, llegó {other:?}"),
    }
    let actions = v.on_key(key(KeyCode::Esc));
    assert!(actions.is_empty());
    assert!(v.detail_panel.is_none());
    assert!(
        matches!(v.level, Level::Detail { .. }),
        "sigue en el detalle"
    );
}

#[test]
fn detail_hints_offer_input_and_pattern() {
    let v = view_in_detail();
    let hints = v.hints();
    assert!(hints.iter().any(|(k, _)| *k == "enter"), "enter: ver input");
    assert!(hints.iter().any(|(k, _)| *k == "P"), "P: ver patrón");
}

#[test]
fn activate_requests_event_buses() {
    let mut v = EventsView::new();
    assert!(matches!(
        v.on_activate().as_slice(),
        [Action::LoadEventBuses]
    ));
}

#[test]
fn ingests_buses_via_message() {
    let mut v = EventsView::new();
    v.on_message(&buses_msg(vec![bus("default"), bus("app-bus")]));
    assert_eq!(v.visible_len(), 2);
}

#[test]
fn filter_narrows_bus_list() {
    let mut v = EventsView::new();
    v.on_message(&buses_msg(vec![
        bus("default"),
        bus("app-bus"),
        bus("ingest-bus"),
    ]));
    v.set_filter("INGEST");
    assert_eq!(v.visible_len(), 1);
}

#[test]
fn events_partial_flag_shows_in_titles() {
    let mut v = EventsView::new();
    v.on_message(&buses_msg(vec![bus("default")]));
    assert!(!v.buses_title().contains("parcial"));
    v.on_message(&Message::EventBusesLoaded {
        buses: vec![bus("default")],
        more: true,
    });
    assert!(v.buses_title().contains("parcial"));
}

#[test]
fn enter_drills_into_bus_rules() {
    let mut v = EventsView::new();
    v.on_message(&buses_msg(vec![bus("default")]));
    let actions = v.on_key(key(KeyCode::Enter));
    match actions.as_slice() {
        [
            Action::ClearFilter,
            Action::RecordRecent { key, .. },
            Action::LoadRules { event_bus_name },
        ] => {
            assert_eq!(event_bus_name, "default");
            assert_eq!(key, "default", "recuerda el bus abierto");
        }
        other => panic!("se esperaba ClearFilter+RecordRecent+LoadRules, llegó {other:?}"),
    }
    assert!(matches!(v.level, Level::Rules { .. }));
}

#[test]
fn events_favorite_getter_and_open_via_context() {
    let mut v = EventsView::new();
    v.on_message(&buses_msg(vec![bus("default")]));
    assert_eq!(
        v.selected_favorite(),
        Some(("default".to_string(), "default".to_string()))
    );
    match v
        .on_context(&ViewContext::Favorite {
            key: "default".to_string(),
        })
        .as_slice()
    {
        [Action::LoadRules { event_bus_name }] => assert_eq!(event_bus_name, "default"),
        other => panic!("se esperaba LoadRules, llegó {other:?}"),
    }
    assert!(matches!(v.level, Level::Rules { .. }));
}

#[test]
fn deep_favorite_targets_a_rule_and_opens_its_detail() {
    let sep = '\u{1f}';
    let mut v = EventsView::new();
    v.on_message(&buses_msg(vec![bus("default")]));
    v.on_key(key(KeyCode::Enter));
    v.on_message(&Message::RulesLoaded {
        event_bus_name: "default".into(),
        rules: vec![rule("orders-created", RuleState::Enabled)],
        more: false,
    });
    assert_eq!(
        v.selected_favorite(),
        Some((
            format!("default{sep}orders-created"),
            "default · orders-created".to_string()
        ))
    );
    let mut v2 = EventsView::new();
    match v2
        .on_context(&ViewContext::Favorite {
            key: format!("default{sep}orders-created"),
        })
        .as_slice()
    {
        [
            Action::LoadRuleDetail {
                event_bus_name,
                rule_name,
            },
        ] => {
            assert_eq!(event_bus_name, "default");
            assert_eq!(rule_name, "orders-created");
        }
        other => panic!("se esperaba LoadRuleDetail, llegó {other:?}"),
    }
    assert!(matches!(v2.level, Level::Detail { .. }));
}

#[test]
fn enter_drills_into_rule_detail_and_back() {
    let mut v = EventsView::new();
    v.on_message(&buses_msg(vec![bus("default")]));
    v.on_key(key(KeyCode::Enter));
    v.on_message(&Message::RulesLoaded {
        event_bus_name: "default".into(),
        rules: vec![rule("orders-created", RuleState::Enabled)],
        more: false,
    });
    let actions = v.on_key(key(KeyCode::Enter));
    match actions.as_slice() {
        [
            Action::ClearFilter,
            Action::LoadRuleDetail {
                event_bus_name,
                rule_name,
            },
        ] => {
            assert_eq!(event_bus_name, "default");
            assert_eq!(rule_name, "orders-created");
        }
        other => panic!("se esperaba ClearFilter+LoadRuleDetail, llegó {other:?}"),
    }
    assert!(matches!(v.level, Level::Detail { .. }));

    let actions = v.on_key(key(KeyCode::Esc));
    assert!(matches!(actions.as_slice(), [Action::ClearFilter]));
    assert!(matches!(v.level, Level::Rules { .. }));
}

#[test]
fn events_esc_at_root_emits_back() {
    let mut v = EventsView::new();
    v.on_message(&buses_msg(vec![bus("default")]));
    let actions = v.on_key(key(KeyCode::Esc));
    assert!(matches!(actions.as_slice(), [Action::Back]));
    assert!(matches!(v.level, Level::Buses));
}

#[test]
fn esc_in_rules_pops_with_clearfilter() {
    let mut v = EventsView::new();
    v.on_message(&buses_msg(vec![bus("default")]));
    v.on_key(key(KeyCode::Enter));
    let actions = v.on_key(key(KeyCode::Esc));
    assert!(matches!(actions.as_slice(), [Action::ClearFilter]));
    assert!(matches!(v.level, Level::Buses));
}

#[test]
fn rules_from_wrong_bus_are_ignored() {
    let mut v = EventsView::new();
    v.on_message(&buses_msg(vec![bus("default")]));
    v.on_key(key(KeyCode::Enter));
    v.on_message(&Message::RulesLoaded {
        event_bus_name: "OTRO".into(),
        rules: vec![rule("x", RuleState::Enabled)],
        more: false,
    });
    assert_eq!(v.visible_len(), 0, "rules de otro bus se descartan");
}

#[test]
fn detail_from_wrong_rule_is_ignored() {
    let mut v = EventsView::new();
    v.on_message(&buses_msg(vec![bus("default")]));
    v.on_key(key(KeyCode::Enter));
    v.on_message(&Message::RulesLoaded {
        event_bus_name: "default".into(),
        rules: vec![rule("orders-created", RuleState::Enabled)],
        more: false,
    });
    v.on_key(key(KeyCode::Enter));
    v.on_message(&Message::RuleDetailLoaded {
        event_bus_name: "default".into(),
        rule_name: "OTRA".into(),
        detail: RuleDetailDto {
            state: RuleState::Enabled,
            description: None,
            event_pattern: None,
            schedule_expression: None,
        },
        targets: vec![],
    });
    assert!(v.detail.is_none(), "detalle de otra rule se descarta");
}

#[test]
fn y_copies_bus_arn() {
    let mut v = EventsView::new();
    v.on_message(&buses_msg(vec![bus("default")]));
    match v.on_key(key(KeyCode::Char('y'))).as_slice() {
        [Action::CopyToClipboard { text }] => assert!(text.contains("event-bus/default")),
        other => panic!("se esperaba CopyToClipboard, llegó {other:?}"),
    }
}

#[test]
fn o_opens_bus_in_console() {
    let mut v = EventsView::new();
    v.on_message(&buses_msg(vec![bus("default")]));
    match v.on_key(key(KeyCode::Char('O'))).as_slice() {
        [
            Action::OpenConsole {
                target: ConsoleTarget::EventBus { name },
            },
        ] => assert_eq!(name, "default"),
        other => panic!("se esperaba OpenConsole EventBus, llegó {other:?}"),
    }
}

#[test]
fn hints_offer_send_event_only_on_buses() {
    let mut v = EventsView::new();
    assert!(
        v.hints().iter().any(|(k, _)| *k == "S"),
        "en buses se anuncia enviar evento"
    );
    v.on_message(&buses_msg(vec![bus("default")]));
    v.on_key(key(KeyCode::Enter));
    assert!(
        !v.hints().iter().any(|(k, _)| *k == "S"),
        "en rules no se ofrece S (gated, solo en buses)"
    );
}

#[test]
fn s_opens_send_form_only_at_bus_level() {
    let mut v = EventsView::new();
    v.on_message(&buses_msg(vec![bus("default")]));
    assert!(v.on_key(key(KeyCode::Char('S'))).is_empty());
    assert!(v.event_form.is_some(), "S abre el form");
    assert!(
        v.wants_raw_input(),
        "con el form abierto captura teclas crudas"
    );
    v.on_key(key(KeyCode::Esc));
    assert!(v.event_form.is_none());
    assert!(!v.wants_raw_input());

    v.on_key(key(KeyCode::Enter));
    assert!(v.on_key(key(KeyCode::Char('S'))).is_empty());
    assert!(v.event_form.is_none());
}

#[test]
fn submit_emits_send_event_with_payload_and_validates_json() {
    let mut v = EventsView::new();
    v.on_message(&buses_msg(vec![bus("default")]));
    v.on_key(key(KeyCode::Char('S')));

    match v.on_key(key(KeyCode::Enter)).as_slice() {
        [
            Action::SendEvent {
                event_bus_name,
                source,
                detail_type,
                detail,
                time,
                resources,
            },
        ] => {
            assert_eq!(event_bus_name, "default");
            assert_eq!(source, "awsdeck.manual");
            assert_eq!(detail_type, "awsdeck test event");
            assert!(detail.contains("sentBy"));
            assert_eq!(*time, None, "time vacío → None (ahora)");
            assert!(resources.is_empty(), "resources vacío → []");
        }
        other => panic!("se esperaba SendEvent con payload, llegó {other:?}"),
    }
    assert!(v.event_form.is_none(), "tras enviar, el form se cierra");
}

#[test]
fn submit_parses_time_and_resources_when_present() {
    let mut v = EventsView::new();
    v.on_message(&buses_msg(vec![bus("default")]));
    v.on_key(key(KeyCode::Char('S')));

    v.on_key(key(KeyCode::Tab));
    v.on_key(key(KeyCode::Tab));
    v.on_key(key(KeyCode::Tab));
    for c in "2026-06-23T15:30".chars() {
        v.on_key(key(KeyCode::Char(c)));
    }
    v.on_key(key(KeyCode::Tab));
    for c in "arn:aws:s3:::a, arn:aws:s3:::b".chars() {
        v.on_key(key(KeyCode::Char(c)));
    }
    match v.on_key(key(KeyCode::Enter)).as_slice() {
        [
            Action::SendEvent {
                time, resources, ..
            },
        ] => {
            assert_eq!(*time, parse_datetime("2026-06-23T15:30"));
            assert_eq!(resources, &vec!["arn:aws:s3:::a", "arn:aws:s3:::b"]);
        }
        other => panic!("se esperaba SendEvent con time/resources, llegó {other:?}"),
    }
}

#[test]
fn submit_with_invalid_time_keeps_form_open_without_emitting() {
    let mut v = EventsView::new();
    v.on_message(&buses_msg(vec![bus("default")]));
    v.on_key(key(KeyCode::Char('S')));
    v.on_key(key(KeyCode::Tab));
    v.on_key(key(KeyCode::Tab));
    v.on_key(key(KeyCode::Tab));
    for c in "no-es-fecha".chars() {
        v.on_key(key(KeyCode::Char(c)));
    }
    assert!(v.submit_form().is_empty(), "time inválido no emite");
    assert!(v.event_form.is_some(), "el form sigue abierto");
}

#[test]
fn submit_with_invalid_json_keeps_form_open_without_emitting() {
    let mut v = EventsView::new();
    v.on_message(&buses_msg(vec![bus("default")]));
    v.on_key(key(KeyCode::Char('S')));
    v.on_key(key(KeyCode::Tab));
    v.on_key(key(KeyCode::Tab));
    v.on_key(key(KeyCode::Char('{')));
    assert!(v.on_key(key(KeyCode::Enter)).is_empty());
    assert!(v.event_form.is_some(), "JSON inválido deja el form abierto");
}

#[test]
fn s_with_presets_opens_chooser_not_form() {
    let mut v = EventsView::new().with_presets(vec![preset("a"), preset("b")]);
    v.on_message(&buses_msg(vec![bus("default")]));
    v.on_key(key(KeyCode::Char('S')));
    assert!(v.preset_chooser.is_some(), "abre el chooser");
    assert!(v.event_form.is_none(), "todavía no hay form");
    assert!(v.wants_raw_input(), "el chooser recibe teclas crudas");
}

#[test]
fn s_without_presets_opens_canned_form_directly() {
    let mut v = EventsView::new();
    v.on_message(&buses_msg(vec![bus("default")]));
    v.on_key(key(KeyCode::Char('S')));
    assert!(v.preset_chooser.is_none(), "sin chooser");
    let (_, form) = v.event_form.as_ref().expect("form canned directo");
    assert_eq!(form.values()[0], "awsdeck.manual");
}

#[test]
fn chooser_enter_on_preset_opens_prefilled_form() {
    let mut v = EventsView::new().with_presets(vec![preset("a"), preset("b")]);
    v.on_message(&buses_msg(vec![bus("default")]));
    v.on_key(key(KeyCode::Char('S')));
    v.on_key(key(KeyCode::Char('j')));
    v.on_key(key(KeyCode::Enter));
    assert!(v.preset_chooser.is_none(), "el chooser se cerró");
    let (_, form) = v.event_form.as_ref().expect("form abierto");
    let vals = form.values();
    assert_eq!(vals[0], "src.a");
    assert_eq!(vals[1], "Typea");
    assert_eq!(vals[2], r#"{"k":1}"#);
}

#[test]
fn chooser_index_zero_opens_canned_form() {
    let mut v = EventsView::new().with_presets(vec![preset("a")]);
    v.on_message(&buses_msg(vec![bus("default")]));
    v.on_key(key(KeyCode::Char('S')));
    v.on_key(key(KeyCode::Enter));
    let (_, form) = v.event_form.as_ref().expect("form canned");
    assert_eq!(form.values()[0], "awsdeck.manual");
}

#[test]
fn chooser_esc_closes_without_form() {
    let mut v = EventsView::new().with_presets(vec![preset("a")]);
    v.on_message(&buses_msg(vec![bus("default")]));
    v.on_key(key(KeyCode::Char('S')));
    v.on_key(key(KeyCode::Esc));
    assert!(v.preset_chooser.is_none() && v.event_form.is_none());
}

#[test]
fn filter_narrows_targets_in_detail() {
    let mut v = view_in_detail();
    assert_eq!(v.visible_len(), 2, "ambos targets sin filtro");
    v.set_filter("sqs");
    assert_eq!(v.visible_len(), 1);
    v.set_filter("");
    assert_eq!(v.visible_len(), 2);
}
