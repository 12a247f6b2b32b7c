use awsdeck::action::{Action, ConsoleTarget, ViewContext};
use awsdeck::key::{KeyCode, KeyEvent, KeyModifiers};
use awsdeck::message::{LogEventDto, LogGroupDto, LogStreamDto, LogWindow, Message};
use awsdeck::ui::detail::pretty_or_raw;
use awsdeck::views::logs::{human_bytes, preset_millis, Level, LogsView, DEFAULT_PRESET};
use awsdeck::views::DeckView;

fn group(name: &str) -> LogGroupDto {
    LogGroupDto {
        name: name.to_string(),
        stored_bytes: Some(1024),
        arn: None,
    }
}

fn loaded(groups: Vec<LogGroupDto>) -> Message {
    Message::LogGroupsLoaded {
        groups,
        query: None,
        more: false,
    }
}

fn key(code: KeyCode) -> KeyEvent {
    KeyEvent::new(code, KeyModifiers::none())
}

fn stream(name: &str) -> Message {
    Message::LogStreamsLoaded {
        group: "/svc".into(),
        streams: vec![LogStreamDto {
            name: name.to_string(),
            last_event_ts: None,
        }],
        more: false,
    }
}

fn ev(msg: &str, ts: i64) -> LogEventDto {
    LogEventDto {
        ts: Some(ts),
        message: msg.to_string(),
        stream: None,
    }
}

fn events_loaded(group: &str, stream: &str, events: Vec<LogEventDto>) -> Message {
    Message::LogEventsLoaded {
        group: group.into(),
        stream: stream.into(),
        events,
        next_token: None,
        append: false,
    }
}

fn tail_loaded(group: &str, generation: u64, events: Vec<LogEventDto>) -> Message {
    Message::LogTailLoaded {
        group: group.into(),
        events,
        next_token: None,
        append: false,
        generation,
    }
}

fn into_events(v: &mut LogsView) {
    v.on_message(&loaded(vec![group("/svc")]));
    v.on_key(key(KeyCode::Enter));
    v.on_message(&stream("stream-a"));
    v.on_key(key(KeyCode::Enter));
}

#[test]
fn enter_on_stream_drills_into_events() {
    let mut v = LogsView::new();
    v.on_message(&loaded(vec![group("/svc")]));
    v.on_key(key(KeyCode::Enter));
    v.on_message(&stream("stream-a"));
    let actions = v.on_key(key(KeyCode::Enter));
    match actions.as_slice() {
        [Action::ClearFilter, Action::LoadLogEvents { group, stream, .. }] => {
            assert_eq!(group, "/svc");
            assert_eq!(stream, "stream-a");
        }
        other => panic!("se esperaba ClearFilter+LoadLogEvents, llegó {other:?}"),
    }
    assert!(matches!(v.level, Level::Events { .. }));
}

#[test]
fn t_on_group_opens_tail() {
    let mut v = LogsView::new();
    v.on_message(&loaded(vec![group("/svc")]));
    let actions = v.on_key(key(KeyCode::Char('t')));
    match actions.as_slice() {
        [
            Action::ClearFilter,
            Action::LoadLogTail {
                group,
                pattern,
                window,
                token,
                ..
            },
        ] => {
            assert_eq!(group, "/svc");
            assert!(pattern.is_none(), "el tail arranca sin filtro");
            assert_eq!(*window, LogWindow::Last(preset_millis(1)), "default 1h");
            assert!(token.is_none(), "consulta fresca, sin paginar");
        }
        other => panic!("se esperaba ClearFilter+LoadLogTail, llegó {other:?}"),
    }
    assert!(matches!(v.level, Level::Tail { .. }));
}

#[test]
fn on_context_opens_group_tail_directly() {
    let mut v = LogsView::new();
    let window = LogWindow::Range {
        from: 1_700_000_000_000,
        to: Some(1_700_000_060_000),
    };
    let ctx = ViewContext::LogGroupTail {
        group: "/aws/lambda/ProcessOrder".to_string(),
        window,
    };
    match v.on_context(&ctx).as_slice() {
        [
            Action::LoadLogTail {
                group,
                window: w,
                token,
                generation,
                ..
            },
        ] => {
            assert_eq!(group, "/aws/lambda/ProcessOrder");
            assert_eq!(*w, window, "respeta la ventana del contexto");
            assert!(token.is_none(), "consulta fresca");
            assert_eq!(*generation, 1, "sube la generación (fresca)");
        }
        other => panic!("se esperaba LoadLogTail, llegó {other:?}"),
    }
    match &v.level {
        Level::Tail { group } => assert_eq!(group, "/aws/lambda/ProcessOrder"),
        _ => panic!("debe quedar en Tail"),
    }
}

#[test]
fn ingests_events_selects_bottom() {
    let mut v = LogsView::new();
    into_events(&mut v);
    v.on_message(&events_loaded(
        "/svc",
        "stream-a",
        vec![ev("a", 1), ev("b", 2), ev("c", 3)],
    ));
    assert_eq!(v.visible_len(), 3);
    assert_eq!(
        v.state.selected(),
        Some(2),
        "newest (último) preseleccionado, convención de terminal"
    );
}

#[test]
fn events_from_wrong_stream_ignored() {
    let mut v = LogsView::new();
    into_events(&mut v);
    v.on_message(&events_loaded("/svc", "otro-stream", vec![ev("x", 1)]));
    assert_eq!(v.visible_len(), 0, "no se aceptan eventos de otro stream");
}

#[test]
fn tail_from_wrong_group_ignored() {
    let mut v = LogsView::new();
    v.on_message(&loaded(vec![group("/svc")]));
    v.on_key(key(KeyCode::Char('t')));
    v.on_message(&tail_loaded("/otro", 1, vec![ev("x", 1)]));
    assert_eq!(v.visible_len(), 0, "tail de otro group ignorado");
}

#[test]
fn tail_search_is_server_side() {
    let mut v = LogsView::new();
    v.on_message(&loaded(vec![group("/svc")]));
    v.on_key(key(KeyCode::Char('t')));
    let actions = v.search("error");
    match actions.as_slice() {
        [
            Action::LoadLogTail {
                group,
                pattern,
                token,
                ..
            },
        ] => {
            assert_eq!(group, "/svc");
            assert_eq!(pattern.as_deref(), Some("error"), "filtro server-side");
            assert!(token.is_none(), "buscar es consulta fresca, no paginar");
        }
        other => panic!("el tail busca server-side (LoadLogTail), llegó {other:?}"),
    }
}

#[test]
fn tail_discards_stale_results() {
    let mut v = LogsView::new();
    v.on_message(&loaded(vec![group("/svc")]));
    v.on_key(key(KeyCode::Char('t')));
    let _ = v.search("err");

    v.on_message(&tail_loaded("/svc", 1, vec![ev("viejo", 1)]));
    assert_eq!(
        v.visible_len(),
        0,
        "respuesta de generación vieja descartada"
    );

    v.on_message(&tail_loaded("/svc", 2, vec![ev("error nuevo", 1)]));
    assert_eq!(v.visible_len(), 1);
}

#[test]
fn esc_in_events_pops_to_streams() {
    let mut v = LogsView::new();
    into_events(&mut v);
    assert!(matches!(v.level, Level::Events { .. }));
    let actions = v.on_key(key(KeyCode::Esc));
    assert!(
        actions.is_empty(),
        "esc en events se consume en la vista (streams en cache)"
    );
    assert!(matches!(v.level, Level::Streams { .. }));
    assert_eq!(v.visible_len(), 1, "los streams siguen en cache");
}

#[test]
fn esc_in_tail_pops_to_groups() {
    let mut v = LogsView::new();
    v.on_message(&loaded(vec![group("/a"), group("/b")]));
    v.on_key(key(KeyCode::Char('t')));
    assert!(matches!(v.level, Level::Tail { .. }));
    let actions = v.on_key(key(KeyCode::Esc));
    assert!(actions.is_empty(), "sin búsqueda previa, no recarga");
    assert!(matches!(v.level, Level::Groups));
    assert_eq!(v.visible_len(), 2, "los groups siguen en cache");
}

#[test]
fn filter_narrows_events_local() {
    let mut v = LogsView::new();
    v.on_message(&loaded(vec![group("/svc")]));
    v.on_key(key(KeyCode::Char('t')));
    v.on_message(&tail_loaded(
        "/svc",
        1,
        vec![ev("INFO ok", 1), ev("ERROR boom", 2)],
    ));
    assert_eq!(v.visible_len(), 2);
    v.set_filter("error");
    assert_eq!(
        v.visible_len(),
        1,
        "filtro local por substring (case-insensitive)"
    );
}

#[test]
fn w_cycles_window_and_bumps_gen() {
    let mut v = LogsView::new();
    v.on_message(&loaded(vec![group("/svc")]));
    v.on_key(key(KeyCode::Char('t')));
    let actions = v.on_key(key(KeyCode::Char('w')));
    match actions.as_slice() {
        [
            Action::LoadLogTail {
                window,
                token,
                generation,
                ..
            },
        ] => {
            assert_eq!(*window, LogWindow::Last(preset_millis(2)), "1h → 6h");
            assert!(token.is_none());
            assert_eq!(*generation, 2, "consulta fresca sube el gen");
        }
        other => panic!("se esperaba LoadLogTail, llegó {other:?}"),
    }
}

#[test]
fn o_loads_more_with_token_same_gen() {
    let mut v = LogsView::new();
    v.on_message(&loaded(vec![group("/svc")]));
    v.on_key(key(KeyCode::Char('t')));
    v.on_message(&Message::LogTailLoaded {
        group: "/svc".into(),
        events: vec![ev("a", 1)],
        next_token: Some("tok".into()),
        append: false,
        generation: 1,
    });
    let actions = v.on_key(key(KeyCode::Char('o')));
    match actions.as_slice() {
        [
            Action::LoadLogTail {
                token, generation, ..
            },
        ] => {
            assert_eq!(token.as_deref(), Some("tok"));
            assert_eq!(*generation, 1, "load-more conserva el gen");
        }
        other => panic!("se esperaba LoadLogTail con token, llegó {other:?}"),
    }
}

#[test]
fn live_tick_preserves_scroll_unless_at_bottom() {
    let mut v = LogsView::new();
    v.on_message(&loaded(vec![group("/svc")]));
    v.on_key(key(KeyCode::Char('t')));

    let make = |events: Vec<LogEventDto>, generation: u64| Message::LogTailLoaded {
        group: "/svc".into(),
        events,
        next_token: None,
        append: false,
        generation,
    };

    v.on_message(&make(
        vec![ev("a", 1), ev("b", 2), ev("c", 3), ev("d", 4)],
        1,
    ));
    assert_eq!(v.state.selected(), Some(3));

    v.on_key(key(KeyCode::Char('k')));
    v.on_key(key(KeyCode::Char('k')));
    assert_eq!(v.state.selected(), Some(1));

    v.on_key(key(KeyCode::Char('f')));
    let g1 = match v.on_tick().as_slice() {
        [Action::LoadLogTail { generation, .. }] => *generation,
        other => panic!("el tick debe re-consultar: {other:?}"),
    };
    v.on_message(&make(
        vec![ev("a", 1), ev("b", 2), ev("c", 3), ev("d", 4), ev("e", 5)],
        g1,
    ));
    assert_eq!(
        v.state.selected(),
        Some(1),
        "el tick en vivo respeta la posición del lector"
    );

    v.on_key(key(KeyCode::Char('G')));
    let gen2 = match v.on_tick().as_slice() {
        [Action::LoadLogTail { generation, .. }] => *generation,
        other => panic!("el tick debe re-consultar: {other:?}"),
    };
    v.on_message(&make(
        vec![
            ev("a", 1),
            ev("b", 2),
            ev("c", 3),
            ev("d", 4),
            ev("e", 5),
            ev("f", 6),
        ],
        gen2,
    ));
    assert_eq!(
        v.state.selected(),
        Some(5),
        "si estabas al fondo, el tick sigue al fondo"
    );
}

#[test]
fn append_extends_buffer() {
    let mut v = LogsView::new();
    v.on_message(&loaded(vec![group("/svc")]));
    v.on_key(key(KeyCode::Char('t')));
    v.on_message(&tail_loaded("/svc", 1, vec![ev("a", 1), ev("b", 2)]));
    assert_eq!(v.visible_len(), 2);
    v.on_message(&Message::LogTailLoaded {
        group: "/svc".into(),
        events: vec![ev("c", 3), ev("d", 4)],
        next_token: None,
        append: true,
        generation: 1,
    });
    assert_eq!(v.visible_len(), 4, "append extiende el buffer");
}

#[test]
fn y_copies_group_identifier() {
    let mut v = LogsView::new();
    v.on_message(&loaded(vec![group("/svc")]));
    match v.on_key(key(KeyCode::Char('y'))).as_slice() {
        [Action::CopyToClipboard { text }] => assert_eq!(text, "/svc"),
        other => panic!("se esperaba CopyToClipboard, llegó {other:?}"),
    }
}

#[test]
fn o_opens_group_in_console() {
    let mut v = LogsView::new();
    v.on_message(&loaded(vec![group("/svc")]));
    match v.on_key(key(KeyCode::Char('O'))).as_slice() {
        [
            Action::OpenConsole {
                target: ConsoleTarget::LogGroup { name },
            },
        ] => assert_eq!(name, "/svc"),
        other => panic!("se esperaba OpenConsole LogGroup, llegó {other:?}"),
    }
}

#[test]
fn y_in_events_copies_the_line() {
    let mut v = LogsView::new();
    into_events(&mut v);
    v.on_message(&events_loaded(
        "/svc",
        "stream-a",
        vec![ev("ERROR boom", 1)],
    ));
    match v.on_key(key(KeyCode::Char('y'))).as_slice() {
        [Action::CopyToClipboard { text }] => assert_eq!(text, "ERROR boom"),
        other => panic!("se esperaba copiar la línea, llegó {other:?}"),
    }
}

#[test]
fn with_default_window_sets_tail_default() {
    let mut v = LogsView::new().with_default_window("6h");
    v.on_message(&loaded(vec![group("/svc")]));
    match v.on_key(key(KeyCode::Char('t'))).as_slice() {
        [_, Action::LoadLogTail { window, .. }] => {
            assert_eq!(*window, LogWindow::Last(6 * 60 * 60_000), "abre con 6h");
        }
        other => panic!("se esperaba ClearFilter+LoadLogTail, llegó {other:?}"),
    }
    let mut v = LogsView::new().with_default_window("nope");
    v.on_message(&loaded(vec![group("/svc")]));
    match v.on_key(key(KeyCode::Char('t'))).as_slice() {
        [_, Action::LoadLogTail { window, .. }] => {
            assert_eq!(*window, LogWindow::Last(preset_millis(DEFAULT_PRESET)));
        }
        other => panic!("llegó {other:?}"),
    }
}

#[test]
fn f_toggles_live_tail_and_on_tick_refreshes() {
    let mut v = LogsView::new();
    v.on_message(&loaded(vec![group("/svc")]));
    v.on_key(key(KeyCode::Char('t')));
    assert!(v.on_tick().is_empty(), "sin live, el tick no refresca");
    let actions = v.on_key(key(KeyCode::Char('f')));
    assert!(v.tail_live, "f prende el seguimiento en vivo");
    assert!(
        matches!(
            actions.as_slice(),
            [Action::LoadLogTail { token: None, .. }]
        ),
        "prender live dispara una consulta fresca: {actions:?}"
    );
    assert!(
        matches!(v.on_tick().as_slice(), [Action::LoadLogTail { .. }]),
        "con live, el tick refresca el tail"
    );
    v.on_key(key(KeyCode::Char('f')));
    assert!(!v.tail_live);
    assert!(v.on_tick().is_empty());
}

#[test]
fn live_badge_shows_in_title() {
    let mut v = LogsView::new();
    v.on_message(&loaded(vec![group("/svc")]));
    v.on_key(key(KeyCode::Char('t')));
    assert!(!v.title().contains("[LIVE]"));
    v.on_key(key(KeyCode::Char('f')));
    assert!(
        v.title().contains("[LIVE]"),
        "el título marca el seguimiento"
    );
}

#[test]
fn back_from_tail_stops_live() {
    let mut v = LogsView::new();
    v.on_message(&loaded(vec![group("/svc")]));
    v.on_key(key(KeyCode::Char('t')));
    v.on_key(key(KeyCode::Char('f')));
    assert!(v.tail_live);
    v.on_key(key(KeyCode::Esc));
    assert!(!v.tail_live, "salir del tail apaga el live");
}

#[test]
fn filtered_cache_matches_recompute() {
    let mut v = LogsView::new();
    v.on_message(&loaded(vec![group("/svc")]));
    v.on_key(key(KeyCode::Char('t')));
    v.on_message(&tail_loaded(
        "/svc",
        1,
        vec![ev("INFO a", 1), ev("ERROR b", 2), ev("INFO c", 3)],
    ));
    assert_eq!(v.filtered, v.filtered_event_indices());
    assert_eq!(v.filtered.len(), 3);
    v.set_filter("error");
    assert_eq!(v.filtered, v.filtered_event_indices());
    assert_eq!(
        v.filtered.len(),
        1,
        "filtro substring sobre el lowercase precomputado"
    );
    v.set_filter("");
    assert_eq!(v.filtered.len(), 3, "limpiar el filtro restituye el cache");
}

#[test]
fn append_extends_lowercase_cache_and_filter() {
    let mut v = LogsView::new();
    v.on_message(&loaded(vec![group("/svc")]));
    v.on_key(key(KeyCode::Char('t')));
    v.on_message(&tail_loaded("/svc", 1, vec![ev("INFO ok", 1)]));
    v.set_filter("boom");
    assert_eq!(v.visible_len(), 0, "nada matchea aún");
    v.on_message(&Message::LogTailLoaded {
        group: "/svc".into(),
        events: vec![ev("ERROR boom", 2)],
        next_token: None,
        append: true,
        generation: 1,
    });
    assert_eq!(v.event_rows.len(), 2, "event_rows crece con el append");
    assert_eq!(
        v.visible_len(),
        1,
        "el append respeta el filtro vía el cache"
    );
}

#[test]
fn on_command_since_sets_window() {
    let mut v = LogsView::new();
    v.on_message(&loaded(vec![group("/svc")]));
    let actions = v.on_command("since 2d");
    let ok = actions.iter().any(|a| {
        matches!(a, Action::LoadLogTail { window, .. } if *window == LogWindow::Last(2 * 86_400_000))
    });
    assert!(ok, "since 2d → LoadLogTail Last(2d): {actions:?}");
    assert!(matches!(v.level, Level::Tail { .. }));
}

#[test]
fn on_command_from_to_sets_range() {
    let mut v = LogsView::new();
    v.on_message(&loaded(vec![group("/svc")]));
    let actions = v.on_command("from 2026-06-19 to 2026-06-20");
    let ok = actions.iter().any(|a| {
        matches!(
            a,
            Action::LoadLogTail {
                window: LogWindow::Range { to: Some(_), .. },
                ..
            }
        )
    });
    assert!(ok, "from..to → LoadLogTail Range con `to`: {actions:?}");
}

#[test]
fn on_command_unknown_or_invalid_returns_empty() {
    let mut v = LogsView::new();
    v.on_message(&loaded(vec![group("/svc")]));
    assert!(v.on_command("blah").is_empty(), "comando ajeno → vacío");
    assert!(
        v.on_command("since notaduration").is_empty(),
        "duración inválida → vacío"
    );
}

#[test]
fn activate_requests_log_groups() {
    let mut v = LogsView::new();
    let actions = v.on_activate();
    assert!(matches!(
        actions.as_slice(),
        [Action::LoadLogGroups { query: None }]
    ));
}

#[test]
fn ingests_groups_via_message() {
    let mut v = LogsView::new();
    v.on_message(&loaded(vec![group("/aws/lambda/a"), group("/ecs/b")]));
    assert_eq!(v.visible_len(), 2);
}

#[test]
fn filter_narrows_the_list() {
    let mut v = LogsView::new();
    v.on_message(&loaded(vec![
        group("/aws/lambda/orders"),
        group("/aws/lambda/payments"),
        group("/ecs/checkout"),
    ]));
    v.set_filter("lambda");
    assert_eq!(v.visible_len(), 2);
    v.set_filter("CHECKOUT");
    assert_eq!(v.visible_len(), 1);
}

#[test]
fn fuzzy_filter_ranks_best_match_first() {
    let mut v = LogsView::new();
    v.on_message(&loaded(vec![
        group("/aws/lambda/reordered-thing"),
        group("/aws/lambda/orders-api"),
        group("/ecs/checkout"),
    ]));
    v.set_filter("ordapi");
    assert_eq!(v.visible_len(), 1);
    let first = v.filtered_group_indices()[0];
    assert_eq!(v.groups[first].name, "/aws/lambda/orders-api");
}

#[test]
fn groups_search_is_server_side() {
    let mut v = LogsView::new();
    v.on_message(&loaded(vec![group("/svc")]));
    match v.search("CreateOrder").as_slice() {
        [Action::LoadLogGroups { query: Some(q) }] => assert_eq!(q, "CreateOrder"),
        other => panic!("se esperaba LoadLogGroups server-side, llegó {other:?}"),
    }
}

#[test]
fn discards_stale_search_results() {
    let mut v = LogsView::new();
    let actions = v.search("xy");
    assert!(
        matches!(actions.as_slice(), [Action::LoadLogGroups { query: Some(q) }] if q == "xy")
    );
    v.on_message(&Message::LogGroupsLoaded {
        groups: vec![group("/vieja")],
        query: Some("x".into()),
        more: false,
    });
    assert_eq!(v.visible_len(), 0, "respuesta de búsqueda vieja descartada");
    v.on_message(&Message::LogGroupsLoaded {
        groups: vec![group("/aws/xy-thing")],
        query: Some("xy".into()),
        more: true,
    });
    assert_eq!(v.visible_len(), 1);
    assert!(v.partial, "more=true marca la lista como parcial");
}

#[test]
fn local_fuzzy_ranks_returned_page() {
    let mut v = LogsView::new();
    v.on_message(&loaded(vec![
        group("/aws/lambda/orders-service-staging-CreateOrderV3"),
        group("/aws/lambda/payments-worker"),
        group("/ecs/checkout"),
    ]));
    v.set_filter("CreateOrder");
    assert_eq!(v.visible_len(), 1, "rankea por subcadena sobre lo cargado");
    let first = v.filtered_group_indices()[0];
    assert!(v.groups[first].name.ends_with("CreateOrderV3"));
    v.set_filter("createorder");
    assert_eq!(v.visible_len(), 1, "el fuzzy local es case-insensitive");
}

#[test]
fn enter_drills_into_selected_group_streams() {
    let mut v = LogsView::new();
    v.on_message(&loaded(vec![
        group("/aws/lambda/orders"),
        group("/ecs/checkout"),
    ]));
    v.on_key(key(KeyCode::Down));
    let actions = v.on_key(key(KeyCode::Enter));
    match actions.as_slice() {
        [Action::ClearFilter, Action::LoadLogStreams { group }] => {
            assert_eq!(group, "/ecs/checkout")
        }
        other => panic!("se esperaba ClearFilter+LoadLogStreams, llegó {other:?}"),
    }
    assert!(matches!(v.level, Level::Streams { .. }));

    v.on_message(&Message::LogStreamsLoaded {
        group: "/ecs/checkout".into(),
        streams: vec![
            LogStreamDto {
                name: "s1".into(),
                last_event_ts: Some(1_700_000_000_000),
            },
            LogStreamDto {
                name: "s2".into(),
                last_event_ts: None,
            },
        ],
        more: false,
    });
    assert_eq!(v.visible_len(), 2);

    v.on_key(key(KeyCode::Esc));
    assert!(matches!(v.level, Level::Groups));
    assert_eq!(v.visible_len(), 2);
}

#[test]
fn logs_esc_at_root_emits_back() {
    let mut v = LogsView::new();
    v.on_message(&loaded(vec![group("/a"), group("/b")]));
    let actions = v.on_key(key(KeyCode::Esc));
    assert!(matches!(actions.as_slice(), [Action::Back]));
    assert!(
        matches!(v.level, Level::Groups),
        "esc en raíz no cambia nivel"
    );
}

#[test]
fn esc_in_streams_pops_to_groups_without_back() {
    let mut v = LogsView::new();
    v.on_message(&loaded(vec![group("/a")]));
    v.on_key(key(KeyCode::Enter));
    assert!(matches!(v.level, Level::Streams { .. }));
    let actions = v.on_key(key(KeyCode::Esc));
    assert!(actions.is_empty(), "esc en streams se consume en la vista");
    assert!(matches!(v.level, Level::Groups));
}

#[test]
fn async_reload_does_not_stomp_navigation() {
    let mut v = LogsView::new();
    v.on_message(&loaded(vec![
        group("/svc-a"),
        group("/svc-b"),
        group("/svc-c"),
    ]));
    v.on_key(key(KeyCode::Down));
    v.on_key(key(KeyCode::Down));
    assert_eq!(v.selected_group_name().as_deref(), Some("/svc-c"));

    v.on_message(&loaded(vec![
        group("/svc-a"),
        group("/svc-b"),
        group("/svc-c"),
    ]));
    assert_eq!(
        v.selected_group_name().as_deref(),
        Some("/svc-c"),
        "la recarga async no debe pisar la navegación del usuario"
    );
}

#[test]
fn reload_falls_back_to_top_when_selection_gone() {
    let mut v = LogsView::new();
    v.on_message(&loaded(vec![group("/a"), group("/b"), group("/c")]));
    v.on_key(key(KeyCode::Down));
    v.on_key(key(KeyCode::Down));
    assert_eq!(v.selected_group_name().as_deref(), Some("/c"));

    v.on_message(&loaded(vec![group("/a"), group("/b")]));
    assert_eq!(v.selected_group_name().as_deref(), Some("/a"));
}

#[test]
fn logs_esc_at_root_empty_list_emits_back() {
    let mut v = LogsView::new();
    let actions = v.on_key(key(KeyCode::Esc));
    assert!(matches!(actions.as_slice(), [Action::Back]));
}

#[test]
fn logs_arrow_on_empty_filter_is_safe() {
    let mut v = LogsView::new();
    v.on_message(&loaded(vec![group("/a")]));
    v.set_filter("zzz");
    assert_eq!(v.visible_len(), 0);
    v.on_key(key(KeyCode::Down));
    assert_eq!(v.state.selected(), None);
}

#[test]
fn streams_from_wrong_group_are_ignored() {
    let mut v = LogsView::new();
    v.on_message(&loaded(vec![group("/a")]));
    v.on_key(key(KeyCode::Enter));
    v.on_message(&Message::LogStreamsLoaded {
        group: "/otro".into(),
        streams: vec![LogStreamDto {
            name: "x".into(),
            last_event_ts: None,
        }],
        more: false,
    });
    assert_eq!(v.visible_len(), 0, "no se aceptan streams de otro group");
}

#[test]
fn formats_bytes() {
    assert_eq!(human_bytes(512), "512 B");
    assert_eq!(human_bytes(1536), "1.5 KB");
}

#[test]
fn hints_announce_tail_then_window_by_level() {
    let mut v = LogsView::new();
    v.on_message(&loaded(vec![group("/svc")]));
    assert!(v.hints().iter().any(|(k, _)| *k == "t"), "groups anuncia t");
    v.on_key(key(KeyCode::Enter));
    v.on_message(&stream("s1"));
    assert!(
        v.hints().iter().any(|(k, _)| *k == "t"),
        "streams anuncia t"
    );
    v.on_key(key(KeyCode::Char('t')));
    let keys: Vec<&str> = v.hints().iter().map(|(k, _)| *k).collect();
    assert!(
        keys.contains(&"w") && keys.contains(&"o") && keys.contains(&":since"),
        "el tail anuncia w/o/:since: {keys:?}"
    );
    assert!(!keys.contains(&"t"), "en el tail ya no se ofrece t");
}

#[test]
fn hints_in_line_detail_offer_close() {
    let mut v = LogsView::new();
    into_events(&mut v);
    v.on_message(&events_loaded("/svc", "stream-a", vec![ev("hola", 1)]));
    v.on_key(key(KeyCode::Enter));
    assert!(
        v.hints().iter().any(|(k, _)| *k == "esc"),
        "el detalle ofrece cerrar"
    );
}

#[test]
fn body_title_announces_tail_only_without_filter() {
    let mut v = LogsView::new();
    v.on_message(&loaded(vec![group("/svc")]));
    assert!(
        v.body_title().contains("t:"),
        "groups anuncia el tail en el título: {}",
        v.body_title()
    );
    v.set_filter("svc");
    assert!(
        !v.body_title().contains("t:"),
        "con filtro no se muestra el cue: {}",
        v.body_title()
    );
}

#[test]
fn enter_opens_line_detail() {
    let mut v = LogsView::new();
    into_events(&mut v);
    let long = format!("INFO payload {}", "z".repeat(120));
    v.on_message(&events_loaded("/svc", "stream-a", vec![ev(&long, 1)]));
    v.on_key(key(KeyCode::Enter));
    let panel = v.detail.as_ref().expect("enter opens the panel");
    assert_eq!(panel.content(), long, "the whole line, not what fits on its row");
    assert!(pretty_or_raw(panel.content()).contains("zzzz"));
    assert!(v.hints().iter().any(|(k, what)| *k == "esc" && what.contains("cerrar")));
}

#[test]
fn esc_closes_line_detail() {
    let mut v = LogsView::new();
    into_events(&mut v);
    v.on_message(&events_loaded("/svc", "stream-a", vec![ev("INFO hola", 1)]));
    v.on_key(key(KeyCode::Enter));
    assert!(v.detail.is_some());
    v.on_key(key(KeyCode::Esc));
    assert!(v.detail.is_none(), "the panel is closed");
    assert!(v.body_title().contains("eventos"), "the list is back");
}

#[test]
fn detail_pretty_prints_json() {
    let mut v = LogsView::new();
    into_events(&mut v);
    v.on_message(&events_loaded(
        "/svc",
        "stream-a",
        vec![ev(r#"{"orderId":"A-1","ok":true}"#, 1)],
    ));
    v.on_key(key(KeyCode::Enter));
    let shown = pretty_or_raw(v.detail.as_ref().expect("the panel").content());
    assert!(shown.contains("orderId"));
    assert!(shown.contains("A-1"));
    assert!(shown.contains('\n'), "JSON is indented");
}
