use awsdeck::action::{Action, ConsoleTarget, ViewContext};
use awsdeck::key::{KeyCode, KeyEvent, KeyModifiers};
use awsdeck::message::{
    ExecStatus, ExecutionDetailDto, ExecutionDto, LogWindow, MachineType, Message, StateMachineDto, StateSpanDto,
};
use awsdeck::ui::Color;
use awsdeck::views::sfn::{duration_label, fmt_dur, status_color, Level, SfnView};
use awsdeck::views::DeckView;

fn machine(name: &str, machine_type: MachineType) -> StateMachineDto {
    StateMachineDto {
        arn: format!("arn:aws:states:us-east-1:000:stateMachine:{name}"),
        name: name.to_string(),
        machine_type,
        created_ts: Some(1_700_000_000_000),
    }
}

fn exec(name: &str, status: ExecStatus) -> ExecutionDto {
    ExecutionDto {
        arn: format!("arn:aws:states:us-east-1:000:execution:m1:{name}"),
        name: name.to_string(),
        status,
        start_ts: Some(1_700_000_000_000),
        stop_ts: Some(1_700_000_045_000),
    }
}

fn machines_msg(machines: Vec<StateMachineDto>) -> Message {
    Message::StateMachinesLoaded {
        machines,
        more: false,
    }
}

fn key(code: KeyCode) -> KeyEvent {
    KeyEvent::new(code, KeyModifiers::none())
}

fn view_in_detail(status: ExecStatus) -> SfnView {
    let mut v = SfnView::new();
    v.on_message(&machines_msg(vec![machine("m1", MachineType::Standard)]));
    v.on_key(key(KeyCode::Enter));
    let machine_arn = "arn:aws:states:us-east-1:000:stateMachine:m1".to_string();
    v.on_message(&Message::ExecutionsLoaded {
        machine_arn,
        executions: vec![exec("e1", status)],
        next_token: None,
        append: false,
    });
    v.on_key(key(KeyCode::Enter));
    let execution_arn = exec("e1", status).arn;
    v.on_message(&Message::ExecutionDetailLoaded {
        execution_arn,
        detail: ExecutionDetailDto {
            status,
            start_ts: Some(1_700_000_000_000),
            stop_ts: Some(1_700_000_012_000),
            input: Some("{\"a\":1}".into()),
            output: None,
            error: status.is_redrivable().then_some("States.TaskFailed".to_string()),
            cause: status.is_redrivable().then_some("boom".to_string()),
            redrive_count: Some(0),
        },
        history: vec![
            StateSpanDto {
                name: "Validate".into(),
                entered_ts: Some(0),
                exited_ts: Some(2_000),
                failed: false,
                input: Some("{\"step\":\"validate\"}".into()),
                output: Some("{\"valid\":true}".into()),
                resource_arn: None,
            },
            StateSpanDto {
                name: "ProcessOrder".into(),
                entered_ts: Some(2_000),
                exited_ts: None,
                failed: status.is_redrivable(),
                input: Some("{\"step\":\"process\"}".into()),
                output: None,
                resource_arn: Some(
                    "arn:aws:lambda:us-east-1:000000000000:function:ProcessOrder".into(),
                ),
            },
        ],
        failed_state: status.is_redrivable().then_some("ProcessOrder".to_string()),
        history_more: false,
    });
    v
}

#[test]
fn activate_requests_state_machines() {
    let mut v = SfnView::new();
    assert!(matches!(
        v.on_activate().as_slice(),
        [Action::LoadStateMachines]
    ));
}

#[test]
fn ingests_machines_via_message() {
    let mut v = SfnView::new();
    v.on_message(&machines_msg(vec![
        machine("a", MachineType::Standard),
        machine("b", MachineType::Express),
    ]));
    assert_eq!(v.visible_len(), 2);
}

#[test]
fn filter_narrows_machine_list() {
    let mut v = SfnView::new();
    v.on_message(&machines_msg(vec![
        machine("order-saga", MachineType::Standard),
        machine("payment-flow", MachineType::Standard),
        machine("ingest-fast", MachineType::Express),
    ]));
    v.set_filter("ORDER");
    assert_eq!(v.visible_len(), 1);
    v.set_filter("pyflow");
    assert_eq!(v.visible_len(), 1);
}

#[test]
fn sfn_partial_flag_shows_in_titles() {
    let mut v = SfnView::new();
    v.on_message(&machines_msg(vec![machine("m1", MachineType::Standard)]));
    assert!(!v.machines_title().contains("parcial"));
    v.on_message(&Message::StateMachinesLoaded {
        machines: vec![machine("m1", MachineType::Standard)],
        more: true,
    });
    assert!(v.machines_title().contains("parcial"));

    v.on_key(key(KeyCode::Enter));
    let machine_arn = "arn:aws:states:us-east-1:000:stateMachine:m1".to_string();
    v.on_message(&Message::ExecutionsLoaded {
        machine_arn,
        executions: vec![exec("e1", ExecStatus::Succeeded)],
        next_token: Some("more".into()),
        append: false,
    });
    assert!(v.executions_title().contains("parcial"));
}

#[test]
fn filter_narrows_timeline_in_detail() {
    let mut v = view_in_detail(ExecStatus::Succeeded);
    assert_eq!(v.visible_len(), 2, "timeline completo sin filtro");
    v.set_filter("process");
    assert_eq!(v.visible_len(), 1);
    assert!(v.timeline_title().contains("filtro"));
    v.set_filter("zzz");
    assert_eq!(v.visible_len(), 0);
    v.set_filter("");
    assert_eq!(v.visible_len(), 2);
}

#[test]
fn detail_preselects_failed_state_in_visible_list() {
    let v = view_in_detail(ExecStatus::Failed);
    assert_eq!(v.state.selected(), Some(1));
}

#[test]
fn enter_drills_into_standard_machine_executions() {
    let mut v = SfnView::new();
    v.on_message(&machines_msg(vec![machine(
        "order-saga",
        MachineType::Standard,
    )]));
    let actions = v.on_key(key(KeyCode::Enter));
    match actions.as_slice() {
        [
            Action::ClearFilter,
            Action::LoadExecutions {
                machine_arn,
                status: None,
                token: None,
            },
        ] => {
            assert!(machine_arn.ends_with("order-saga"))
        }
        other => panic!("se esperaba ClearFilter+LoadExecutions, llegó {other:?}"),
    }
    assert!(matches!(v.level, Level::Executions { .. }));
}

#[test]
fn o_loads_more_executions_and_appends() {
    let mut v = SfnView::new();
    v.on_message(&machines_msg(vec![machine("m1", MachineType::Standard)]));
    v.on_key(key(KeyCode::Enter));
    let arn = "arn:aws:states:us-east-1:000:stateMachine:m1".to_string();
    v.on_message(&Message::ExecutionsLoaded {
        machine_arn: arn.clone(),
        executions: vec![exec("e1", ExecStatus::Succeeded)],
        next_token: Some("tok".into()),
        append: false,
    });
    assert_eq!(v.visible_len(), 1);
    assert!(v.executions_partial);

    match v.on_key(key(KeyCode::Char('o'))).as_slice() {
        [
            Action::LoadExecutions {
                machine_arn,
                status: None,
                token: Some(t),
            },
        ] => {
            assert!(machine_arn.ends_with("m1"));
            assert_eq!(t, "tok");
        }
        other => panic!("se esperaba LoadExecutions con token, llegó {other:?}"),
    }

    v.on_message(&Message::ExecutionsLoaded {
        machine_arn: arn,
        executions: vec![exec("e2", ExecStatus::Failed)],
        next_token: None,
        append: true,
    });
    assert_eq!(v.visible_len(), 2, "append extiende la lista");
    assert!(!v.executions_partial, "sin next_token ya no es parcial");
}

#[test]
fn status_command_filters_executions_server_side() {
    let mut v = SfnView::new();
    v.on_message(&machines_msg(vec![machine("m1", MachineType::Standard)]));
    v.on_key(key(KeyCode::Enter));
    v.on_message(&Message::ExecutionsLoaded {
        machine_arn: "arn:aws:states:us-east-1:000:stateMachine:m1".into(),
        executions: vec![exec("e1", ExecStatus::Succeeded)],
        next_token: None,
        append: false,
    });

    match v.on_command("status failed").as_slice() {
        [
            Action::LoadExecutions {
                status: Some(ExecStatus::Failed),
                token: None,
                ..
            },
        ] => {}
        other => panic!("se esperaba LoadExecutions FAILED, llegó {other:?}"),
    }
    assert_eq!(v.exec_status, Some(ExecStatus::Failed));
    assert!(v.executions_title().contains("solo FAILED"));

    match v.on_command("status all").as_slice() {
        [Action::LoadExecutions { status: None, .. }] => {}
        other => panic!("se esperaba LoadExecutions sin filtro, llegó {other:?}"),
    }
    assert_eq!(v.exec_status, None);
}

#[test]
fn express_machine_does_not_request_executions() {
    let mut v = SfnView::new();
    v.on_message(&machines_msg(vec![machine(
        "ingest-fast",
        MachineType::Express,
    )]));
    let actions = v.on_key(key(KeyCode::Enter));
    assert!(
        matches!(actions.as_slice(), [Action::ClearFilter]),
        "EXPRESS no dispara list_executions (evita el error del SDK); solo limpia el filtro"
    );
    assert!(matches!(
        v.level,
        Level::Executions {
            machine_type: MachineType::Express,
            ..
        }
    ));
    assert!(!v.loading, "no queda en loading: no hay request en vuelo");
}

#[test]
fn enter_drills_into_execution_detail_and_back() {
    let mut v = SfnView::new();
    v.on_message(&machines_msg(vec![machine("m1", MachineType::Standard)]));
    v.on_key(key(KeyCode::Enter));
    v.on_message(&Message::ExecutionsLoaded {
        machine_arn: "arn:aws:states:us-east-1:000:stateMachine:m1".into(),
        executions: vec![exec("e1", ExecStatus::Succeeded)],
        next_token: None,
        append: false,
    });
    let actions = v.on_key(key(KeyCode::Enter));
    match actions.as_slice() {
        [
            Action::ClearFilter,
            Action::LoadExecutionDetail { execution_arn },
        ] => {
            assert!(execution_arn.ends_with("e1"))
        }
        other => panic!("se esperaba ClearFilter+LoadExecutionDetail, llegó {other:?}"),
    }
    assert!(matches!(v.level, Level::Detail { .. }));

    let actions = v.on_key(key(KeyCode::Esc));
    assert!(matches!(actions.as_slice(), [Action::ClearFilter]));
    assert!(matches!(v.level, Level::Executions { .. }));
    assert_eq!(v.visible_len(), 1, "las ejecuciones siguen cacheadas");
}

#[test]
fn sfn_esc_at_root_emits_back() {
    let mut v = SfnView::new();
    v.on_message(&machines_msg(vec![machine("m1", MachineType::Standard)]));
    let actions = v.on_key(key(KeyCode::Esc));
    assert!(matches!(actions.as_slice(), [Action::Back]));
    assert!(matches!(v.level, Level::Machines));
}

#[test]
fn sfn_esc_at_root_empty_list_emits_back() {
    let mut v = SfnView::new();
    let actions = v.on_key(key(KeyCode::Esc));
    assert!(matches!(actions.as_slice(), [Action::Back]));
}

#[test]
fn esc_in_executions_pops_without_back() {
    let mut v = SfnView::new();
    v.on_message(&machines_msg(vec![machine("m1", MachineType::Standard)]));
    v.on_key(key(KeyCode::Enter));
    let actions = v.on_key(key(KeyCode::Esc));
    assert!(
        matches!(actions.as_slice(), [Action::ClearFilter]),
        "esc en executions se consume en la vista (limpia el filtro al subir de nivel)"
    );
    assert!(matches!(v.level, Level::Machines));
}

#[test]
fn executions_from_wrong_machine_are_ignored() {
    let mut v = SfnView::new();
    v.on_message(&machines_msg(vec![machine("m1", MachineType::Standard)]));
    v.on_key(key(KeyCode::Enter));
    v.on_message(&Message::ExecutionsLoaded {
        machine_arn: "arn:aws:states:us-east-1:000:stateMachine:OTRA".into(),
        executions: vec![exec("x", ExecStatus::Succeeded)],
        next_token: None,
        append: false,
    });
    assert_eq!(
        v.visible_len(),
        0,
        "no se aceptan ejecuciones de otra máquina"
    );
}

#[test]
fn detail_from_wrong_execution_is_ignored() {
    let mut v = SfnView::new();
    v.on_message(&machines_msg(vec![machine("m1", MachineType::Standard)]));
    v.on_key(key(KeyCode::Enter));
    v.on_message(&Message::ExecutionsLoaded {
        machine_arn: "arn:aws:states:us-east-1:000:stateMachine:m1".into(),
        executions: vec![exec("e1", ExecStatus::Succeeded)],
        next_token: None,
        append: false,
    });
    v.on_key(key(KeyCode::Enter));
    v.on_message(&Message::ExecutionDetailLoaded {
        execution_arn: "arn:…:OTRA".into(),
        detail: ExecutionDetailDto {
            status: ExecStatus::Succeeded,
            start_ts: None,
            stop_ts: None,
            input: None,
            output: None,
            error: None,
            cause: None,
            redrive_count: None,
        },
        history: vec![],
        failed_state: None,
        history_more: false,
    });
    assert!(
        v.detail.is_none(),
        "no se acepta el detalle de otra ejecución"
    );
}

#[test]
fn y_copies_machine_arn() {
    let mut v = SfnView::new();
    v.on_message(&machines_msg(vec![machine("m1", MachineType::Standard)]));
    match v.on_key(key(KeyCode::Char('y'))).as_slice() {
        [Action::CopyToClipboard { text }] => assert!(text.contains(":stateMachine:m1")),
        other => panic!("se esperaba CopyToClipboard, llegó {other:?}"),
    }
}

#[test]
fn o_opens_machine_in_console() {
    let mut v = SfnView::new();
    v.on_message(&machines_msg(vec![machine("m1", MachineType::Standard)]));
    match v.on_key(key(KeyCode::Char('O'))).as_slice() {
        [
            Action::OpenConsole {
                target: ConsoleTarget::StateMachine { arn },
            },
        ] => assert!(arn.contains(":stateMachine:m1")),
        other => panic!("se esperaba OpenConsole StateMachine, llegó {other:?}"),
    }
}

#[test]
fn hints_offer_redrive_only_when_redrivable() {
    let failed = view_in_detail(ExecStatus::Failed);
    assert!(
        failed.hints().iter().any(|(k, _)| *k == "R"),
        "una ejecución fallida anuncia redrive"
    );
    let ok = view_in_detail(ExecStatus::Succeeded);
    assert!(
        !ok.hints().iter().any(|(k, _)| *k == "R"),
        "una ejecución sana no anuncia redrive"
    );
}

#[test]
fn redrive_emits_intent_only_when_redrivable() {
    let mut v = view_in_detail(ExecStatus::Failed);
    match v.on_key(key(KeyCode::Char('R'))).as_slice() {
        [Action::RedriveExecution { execution_arn }] => assert!(execution_arn.ends_with("e1")),
        other => panic!("se esperaba RedriveExecution, llegó {other:?}"),
    }
    assert_eq!(v.state.selected(), Some(1));

    let mut ok = view_in_detail(ExecStatus::Succeeded);
    assert!(ok.on_key(key(KeyCode::Char('R'))).is_empty());
    let mut run = view_in_detail(ExecStatus::Running);
    assert!(run.on_key(key(KeyCode::Char('R'))).is_empty());
}

#[test]
fn lambda_logs_crosslink_only_for_lambda_states() {
    let mut v = view_in_detail(ExecStatus::Failed);
    assert_eq!(v.state.selected(), Some(1), "ProcessOrder preseleccionado");
    match v.on_key(key(KeyCode::Char('l'))).as_slice() {
        [Action::ActivateViewWithContext { id, context }] => {
            assert_eq!(id, "logs");
            let ViewContext::LogGroupTail { group, window } = context else {
                panic!("se esperaba LogGroupTail, llegó {context:?}");
            };
            assert_eq!(group, "/aws/lambda/ProcessOrder");
            assert!(matches!(window, LogWindow::Range { to: None, .. }));
        }
        other => panic!("se esperaba ActivateViewWithContext, llegó {other:?}"),
    }

    let mut ok = view_in_detail(ExecStatus::Succeeded);
    assert_eq!(ok.state.selected(), Some(0), "Validate seleccionado");
    assert!(ok.on_key(key(KeyCode::Char('l'))).is_empty());
}

#[test]
fn hints_offer_lambda_logs_only_on_lambda_state() {
    let failed = view_in_detail(ExecStatus::Failed);
    assert!(failed.hints().iter().any(|(k, _)| *k == "l"));
    let ok = view_in_detail(ExecStatus::Succeeded);
    assert!(!ok.hints().iter().any(|(k, _)| *k == "l"));
}

#[test]
fn enter_in_detail_opens_state_io_panel_and_esc_closes() {
    let mut v = view_in_detail(ExecStatus::Failed);
    assert_eq!(v.state.selected(), Some(1));

    let actions = v.on_key(key(KeyCode::Enter));
    assert!(
        actions.is_empty(),
        "enter en Detail abre el panel, no drillea"
    );
    let p = v.detail_panel.as_ref().expect("panel abierto");
    assert!(p.content().contains("input"), "muestra el input del estado");
    assert!(p.content().contains("process"));

    match v.on_key(key(KeyCode::Char('y'))).as_slice() {
        [Action::CopyToClipboard { text }] => assert!(text.contains("process")),
        other => panic!("se esperaba copiar el io del estado, llegó {other:?}"),
    }

    let actions = v.on_key(key(KeyCode::Esc));
    assert!(actions.is_empty());
    assert!(v.detail_panel.is_none());
    assert!(
        matches!(v.level, Level::Detail { .. }),
        "sigue en el detalle"
    );
}

#[test]
fn hints_offer_state_io_in_detail() {
    let v = view_in_detail(ExecStatus::Failed);
    assert!(
        v.hints().iter().any(|(k, _)| *k == "enter"),
        "el detalle anuncia enter: in/out cuando el estado expone io"
    );
}

#[test]
fn history_partial_shows_in_timeline_title() {
    let mut v = view_in_detail(ExecStatus::Succeeded);
    assert!(!v.timeline_title().contains("parcial"));
    let arn = match &v.level {
        Level::Detail { execution_arn, .. } => execution_arn.clone(),
        _ => unreachable!(),
    };
    v.on_message(&Message::ExecutionDetailLoaded {
        execution_arn: arn,
        detail: ExecutionDetailDto {
            status: ExecStatus::Succeeded,
            start_ts: None,
            stop_ts: None,
            input: None,
            output: None,
            error: None,
            cause: None,
            redrive_count: None,
        },
        history: vec![],
        failed_state: None,
        history_more: true,
    });
    assert!(
        v.timeline_title().contains("parcial"),
        "history_more=true → timeline parcial"
    );
}

fn span_named(name: &str, from: i64) -> StateSpanDto {
    StateSpanDto {
        name: name.to_string(),
        entered_ts: Some(from),
        exited_ts: Some(from + 1_000),
        failed: false,
        input: None,
        output: None,
        resource_arn: None,
    }
}

fn ok_detail_dto() -> ExecutionDetailDto {
    ExecutionDetailDto {
        status: ExecStatus::Succeeded,
        start_ts: Some(0),
        stop_ts: Some(1),
        input: None,
        output: None,
        error: None,
        cause: None,
        redrive_count: None,
    }
}

fn view_in_detail_with_history(
    history: Vec<StateSpanDto>,
    failed: Option<&str>,
    more: bool,
) -> SfnView {
    let mut v = SfnView::new();
    v.on_message(&machines_msg(vec![machine("m1", MachineType::Standard)]));
    v.on_key(key(KeyCode::Enter));
    v.on_message(&Message::ExecutionsLoaded {
        machine_arn: "arn:aws:states:us-east-1:000:stateMachine:m1".into(),
        executions: vec![exec("e1", ExecStatus::Succeeded)],
        next_token: None,
        append: false,
    });
    v.on_key(key(KeyCode::Enter));
    v.on_message(&Message::ExecutionDetailLoaded {
        execution_arn: exec("e1", ExecStatus::Succeeded).arn,
        detail: ok_detail_dto(),
        history,
        failed_state: failed.map(String::from),
        history_more: more,
    });
    v
}

#[test]
fn o_in_detail_loads_more_history_only_when_partial() {
    let history = vec![span_named("Step06", 6_000), span_named("Step07", 7_000)];
    let mut v = view_in_detail_with_history(history, None, true);
    assert!(v.history_partial);

    match v.on_key(key(KeyCode::Char('o'))).as_slice() {
        [
            Action::LoadMoreExecutionHistory {
                execution_arn,
                page_budget,
            },
        ] => {
            assert!(execution_arn.ends_with("e1"));
            assert_eq!(*page_budget, 20);
        }
        other => panic!("se esperaba LoadMoreExecutionHistory budget 20, llegó {other:?}"),
    }
    match v.on_key(key(KeyCode::Char('o'))).as_slice() {
        [Action::LoadMoreExecutionHistory { page_budget, .. }] => assert_eq!(*page_budget, 30),
        other => panic!("se esperaba budget 30, llegó {other:?}"),
    }

    let mut done = view_in_detail_with_history(vec![span_named("Step01", 1_000)], None, false);
    assert!(done.on_key(key(KeyCode::Char('o'))).is_empty());
}

#[test]
fn load_more_preserves_selection_by_name() {
    let initial = vec![
        span_named("Step06", 6_000),
        span_named("Step07", 7_000),
        span_named("Step08", 8_000),
    ];
    let mut v = view_in_detail_with_history(initial, None, true);
    v.on_key(key(KeyCode::Char('j')));
    assert_eq!(v.selected_state_span().unwrap().name, "Step07");

    let arn = match &v.level {
        Level::Detail { execution_arn, .. } => execution_arn.clone(),
        _ => unreachable!(),
    };
    let grown: Vec<StateSpanDto> = (1..=8)
        .map(|n| span_named(&format!("Step{n:02}"), (n as i64) * 1_000))
        .collect();
    v.on_message(&Message::ExecutionDetailLoaded {
        execution_arn: arn,
        detail: ok_detail_dto(),
        history: grown,
        failed_state: None,
        history_more: false,
    });

    assert_eq!(v.selected_state_span().unwrap().name, "Step07");
    assert!(!v.history_partial);
}

#[test]
fn sfn_arrow_on_empty_filter_is_safe() {
    let mut v = SfnView::new();
    v.on_message(&machines_msg(vec![machine("m1", MachineType::Standard)]));
    v.set_filter("zzz");
    assert_eq!(v.visible_len(), 0);
    v.on_key(key(KeyCode::Down));
    assert_eq!(v.state.selected(), None);
}

#[test]
fn status_color_maps_terminal_states() {
    assert_eq!(status_color(ExecStatus::Succeeded), Color::Green);
    assert_eq!(status_color(ExecStatus::Failed), Color::Red);
    assert_eq!(status_color(ExecStatus::Aborted), Color::Red);
    assert_eq!(status_color(ExecStatus::Running), Color::Yellow);
    assert_eq!(status_color(ExecStatus::PendingRedrive), Color::Cyan);
}

#[test]
fn fmt_dur_formats_durations() {
    assert_eq!(fmt_dur(3_400), "3.4s");
    assert_eq!(fmt_dur(125_000), "2m 5s");
    assert_eq!(duration_label(Some(0), None), "en curso");
    assert_eq!(duration_label(None, None), "—");
}
