use awsdeck::action::{Action, ConsoleTarget};
use awsdeck::aws::context::Env;
use awsdeck::effects::console::console_url;
use awsdeck::effects::history::{parse_history, HistoryEvent};
use awsdeck::effects::mock::{mock_answer, mock_log_groups};
use awsdeck::effects::payload::parse_redrive;
use awsdeck::message::{ExecStatus, LogWindow, MachineType, Message, RuleState};

fn ev_entered(_id: i64, ts: i64, name: &str) -> HistoryEvent {
    HistoryEvent {
        ts: Some(ts),
        event_type: "TaskStateEntered".to_string(),
        entered: Some((name.to_string(), None)),
        exited: None,
        lambda: None,
        task: None,
    }
}

fn ev_exited(_id: i64, ts: i64, name: &str) -> HistoryEvent {
    HistoryEvent {
        ts: Some(ts),
        event_type: "TaskStateExited".to_string(),
        entered: None,
        exited: Some((name.to_string(), None)),
        lambda: None,
        task: None,
    }
}

fn ev_typed(_id: i64, ts: i64, event_type: &str) -> HistoryEvent {
    HistoryEvent {
        ts: Some(ts),
        event_type: event_type.to_string(),
        entered: None,
        exited: None,
        lambda: None,
        task: None,
    }
}

fn ev_lambda_scheduled(_id: i64, ts: i64, resource: &str) -> HistoryEvent {
    HistoryEvent {
        ts: Some(ts),
        event_type: "LambdaFunctionScheduled".to_string(),
        entered: None,
        exited: None,
        lambda: Some(resource.to_string()),
        task: None,
    }
}

fn ev_task_scheduled(_id: i64, ts: i64, resource_type: &str, parameters: &str) -> HistoryEvent {
    HistoryEvent {
        ts: Some(ts),
        event_type: "TaskScheduled".to_string(),
        entered: None,
        exited: None,
        lambda: None,
        task: Some((resource_type.to_string(), parameters.to_string())),
    }
}

#[test]
fn mock_log_groups_tag_epoch_and_reflect_profile() {
    let env = Env::new("dev", "us-east-1");

    let envelope = mock_answer(&env, Action::LoadLogGroups { query: None }, 7).expect("debe llegar un envelope");
    assert_eq!(envelope.epoch, 7, "el epoch se propaga al resultado");
    match envelope.message {
        Message::LogGroupsLoaded {
            groups,
            query,
            more,
        } => {
            assert!(query.is_none());
            assert!(!more);
            assert!(!groups.is_empty());
            assert!(
                groups.iter().any(|g| g.name.contains("dev")),
                "la data mock refleja el profile activo"
            );
        }
        other => panic!("mensaje inesperado: {other:?}"),
    }
}

#[test]
fn mock_verify_identity_returns_canned_account() {
    let env = Env::new("dev", "us-east-1");

    let envelope = mock_answer(&env, Action::VerifyIdentity, 3).expect("debe llegar un envelope");
    assert_eq!(envelope.epoch, 3, "el epoch se propaga");
    match envelope.message {
        Message::IdentityLoaded { account_id } => assert_eq!(account_id, "123456789012"),
        other => panic!("mensaje inesperado: {other:?}"),
    }
}

#[test]
fn console_urls_encode_region_and_resource() {
    let u = console_url(
        "us-east-1",
        &ConsoleTarget::LogGroup {
            name: "/aws/lambda/foo".into(),
        },
    );
    assert!(u.contains("us-east-1.console.aws.amazon.com/cloudwatch"));
    assert!(
        u.contains("$252Faws$252Flambda$252Ffoo"),
        "log group codificado: {u}"
    );

    let u = console_url(
        "eu-west-1",
        &ConsoleTarget::Execution {
            arn: "arn:aws:states:eu-west-1:0:execution:m:e1".into(),
        },
    );
    assert!(u.contains("/states/home?region=eu-west-1"));
    assert!(u.contains("arn%3Aaws%3Astates"), "arn percent-encoded: {u}");

    let u = console_url(
        "us-east-1",
        &ConsoleTarget::Rule {
            event_bus: "default".into(),
            name: "my-rule".into(),
        },
    );
    assert!(u.contains("/events/home"));
    assert!(u.contains("/eventbus/default/rules/my-rule"));
}

#[test]
fn mock_log_groups_search_filters_by_substring() {
    let env = Env::new("dev", "us-east-1");

    let envelope = mock_answer(&env, 
        Action::LoadLogGroups {
            query: Some("CreateOrder".into()),
        },
        9).expect("debe llegar un envelope");
    assert_eq!(envelope.epoch, 9);
    match envelope.message {
        Message::LogGroupsLoaded {
            groups,
            query,
            more,
        } => {
            assert_eq!(query.as_deref(), Some("CreateOrder"), "el query se ecoa");
            assert!(!more);
            assert!(
                groups.iter().all(|g| g.name.contains("CreateOrder")),
                "el mock filtra por subcadena como el server"
            );
            assert!(groups.iter().any(|g| g.name.contains("CreateOrderV3")));
        }
        other => panic!("mensaje inesperado: {other:?}"),
    }
}

#[test]
fn mock_log_groups_search_tolerates_casing() {
    let env = Env::new("dev", "us-east-1");
    let hits = mock_log_groups(&env, Some("createOrder"));
    assert!(
        hits.iter().any(|g| g.name.contains("CreateOrderV3")),
        "createOrder debe encontrar CreateOrderV3: {hits:?}"
    );
    let miss = mock_log_groups(&env, Some("createorder"));
    assert!(
        !miss.iter().any(|g| g.name.contains("CreateOrderV3")),
        "createorder (minúsculas) no reconstruye CreateOrder"
    );
}

#[test]
fn mock_log_streams_echo_group_and_epoch() {
    let env = Env::new("dev", "us-east-1");

    let envelope = mock_answer(&env, 
        Action::LoadLogStreams {
            group: "/ecs/checkout-service".into(),
        },
        3).expect("debe llegar un envelope");
    assert_eq!(envelope.epoch, 3);
    match envelope.message {
        Message::LogStreamsLoaded {
            group,
            streams,
            more,
        } => {
            assert_eq!(group, "/ecs/checkout-service");
            assert!(!streams.is_empty());
            assert!(!more, "el mock no es parcial");
        }
        other => panic!("mensaje inesperado: {other:?}"),
    }
}

#[test]
fn mock_log_events_have_lines_and_epoch() {
    let env = Env::new("dev", "us-east-1");

    let envelope = mock_answer(&env, 
        Action::LoadLogEvents {
            group: "/ecs/checkout-service".into(),
            stream: "2026/06/21/[$LATEST]abc".into(),
            token: None,
        },
        4).expect("debe llegar un envelope");
    assert_eq!(envelope.epoch, 4);
    match envelope.message {
        Message::LogEventsLoaded {
            group,
            stream,
            events,
            next_token,
            append,
        } => {
            assert_eq!(group, "/ecs/checkout-service");
            assert_eq!(stream, "2026/06/21/[$LATEST]abc");
            assert!(next_token.is_none());
            assert!(!append);
            assert!(!events.is_empty());
            assert!(
                events.iter().all(|e| e.stream.is_none()),
                "por-stream: sin stream"
            );
            assert!(
                events.iter().any(|e| e.message.contains("ERROR")),
                "incluye una línea de error"
            );
            assert!(
                events.windows(2).all(|w| w[0].ts <= w[1].ts),
                "los eventos vienen en orden cronológico"
            );
        }
        other => panic!("mensaje inesperado: {other:?}"),
    }
}

fn load_tail(
    group: &str,
    pattern: Option<&str>,
    token: Option<&str>,
    generation: u64,
) -> Action {
    Action::LoadLogTail {
        group: group.into(),
        pattern: pattern.map(str::to_string),
        window: LogWindow::Last(3_600_000),
        token: token.map(str::to_string),
        generation,
    }
}

#[test]
fn mock_log_tail_reflects_multiple_streams() {
    let env = Env::new("dev", "us-east-1");

    let envelope = mock_answer(&env, load_tail("/ecs/checkout-service", None, None, 1), 6).expect("debe llegar un envelope");
    assert_eq!(envelope.epoch, 6);
    match envelope.message {
        Message::LogTailLoaded {
            group,
            events,
            append,
            generation,
            ..
        } => {
            assert_eq!(group, "/ecs/checkout-service");
            assert!(!append, "carga fresca (sin token)");
            assert_eq!(generation, 1, "el generation se propaga");
            assert!(
                events.iter().all(|e| e.stream.is_some()),
                "tail trae el stream"
            );
            let distinct: std::collections::HashSet<_> =
                events.iter().filter_map(|e| e.stream.clone()).collect();
            assert!(distinct.len() > 1, "el tail mezcla varios streams");
        }
        other => panic!("mensaje inesperado: {other:?}"),
    }
}

#[test]
fn mock_log_tail_filters_by_pattern() {
    let env = Env::new("dev", "us-east-1");

    let envelope = mock_answer(&env, 
        load_tail("/ecs/checkout-service", Some("error"), None, 2),
        8).expect("debe llegar un envelope");
    assert_eq!(envelope.epoch, 8);
    match envelope.message {
        Message::LogTailLoaded { events, .. } => {
            assert!(!events.is_empty());
            assert!(
                events
                    .iter()
                    .all(|e| e.message.to_lowercase().contains("error")),
                "el mock filtra por substring como el server"
            );
        }
        other => panic!("mensaje inesperado: {other:?}"),
    }
}

#[test]
fn mock_log_tail_with_token_marks_append() {
    let env = Env::new("dev", "us-east-1");

    let envelope = mock_answer(&env, load_tail("/ecs/checkout-service", None, Some("tok"), 3), 1).expect("debe llegar un envelope");
    match envelope.message {
        Message::LogTailLoaded {
            append, generation, ..
        } => {
            assert!(append, "con token, la respuesta es append (load-more)");
            assert_eq!(generation, 3);
        }
        other => panic!("mensaje inesperado: {other:?}"),
    }
}

#[test]
fn mock_queues_loaded_with_epoch_and_fifo() {
    let env = Env::new("dev", "us-east-1");

    let envelope = mock_answer(&env, Action::LoadQueues, 5).expect("debe llegar un envelope");
    assert_eq!(envelope.epoch, 5);
    match envelope.message {
        Message::QueuesLoaded(queues) => {
            assert!(!queues.is_empty());
            assert!(queues.iter().any(|q| q.is_fifo), "hay una cola .fifo");
        }
        other => panic!("mensaje inesperado: {other:?}"),
    }
}

#[test]
fn mock_queue_detail_has_dlq_for_normal_queue() {
    let env = Env::new("dev", "us-east-1");
    let url = "https://sqs.us-east-1.amazonaws.com/000000000000/orders".to_string();

    let envelope = mock_answer(&env, 
        Action::LoadQueueDetail {
            queue_url: url.clone(),
        },
        2).expect("debe llegar un envelope");
    assert_eq!(envelope.epoch, 2);
    match envelope.message {
        Message::QueueDetailLoaded {
            queue_url, attrs, ..
        } => {
            assert_eq!(queue_url, url);
            assert!(attrs.has_dlq(), "una cola normal tiene DLQ configurada");
        }
        other => panic!("mensaje inesperado: {other:?}"),
    }
}

#[test]
fn mock_purge_replies_purged() {
    let env = Env::new("dev", "us-east-1");
    let url = "https://sqs.us-east-1.amazonaws.com/000000000000/orders".to_string();

    let envelope = mock_answer(&env, 
        Action::PurgeQueue {
            queue_url: url.clone(),
        },
        1).expect("debe llegar un envelope");
    assert_eq!(envelope.epoch, 1);
    assert!(matches!(envelope.message, Message::QueuePurged { queue_url } if queue_url == url));
}

#[test]
fn mock_queue_detail_dlq_queue_has_sources() {
    let env = Env::new("dev", "us-east-1");
    let url = "https://sqs.us-east-1.amazonaws.com/000000000000/orders-dlq".to_string();

    let envelope = mock_answer(&env, 
        Action::LoadQueueDetail {
            queue_url: url.clone(),
        },
        2).expect("debe llegar un envelope");
    match envelope.message {
        Message::QueueDetailLoaded { attrs, .. } => {
            assert!(attrs.is_dlq(), "un *-dlq ES un DLQ (tiene colas origen)");
            assert!(!attrs.has_dlq(), "un DLQ no apunta a otro DLQ");
        }
        other => panic!("mensaje inesperado: {other:?}"),
    }
}

#[test]
fn mock_redrive_dlq_replies_started() {
    let env = Env::new("dev", "us-east-1");
    let url = "https://sqs.us-east-1.amazonaws.com/000000000000/orders-dlq".to_string();

    let envelope = mock_answer(&env, 
        Action::RedriveDlq {
            queue_url: url.clone(),
        },
        7).expect("debe llegar un envelope");
    assert_eq!(envelope.epoch, 7);
    assert!(
        matches!(envelope.message, Message::DlqRedriveStarted { queue_url } if queue_url == url)
    );
}

#[test]
fn parse_redrive_extracts_dlq_and_count() {
    let policy = r#"{"deadLetterTargetArn":"arn:aws:sqs:us-east-1:000:orders-dlq","maxReceiveCount":"5"}"#;
    let (arn, max) = parse_redrive(Some(policy));
    assert_eq!(arn.as_deref(), Some("arn:aws:sqs:us-east-1:000:orders-dlq"));
    assert_eq!(max, Some(5));

    assert_eq!(parse_redrive(None), (None, None));
    let (_, max_num) = parse_redrive(Some(r#"{"maxReceiveCount":3}"#));
    assert_eq!(max_num, Some(3));
}

#[test]
fn mock_state_machines_tag_epoch_and_include_express() {
    let env = Env::new("dev", "us-east-1");

    let envelope = mock_answer(&env, Action::LoadStateMachines, 4).expect("debe llegar un envelope");
    assert_eq!(envelope.epoch, 4);
    match envelope.message {
        Message::StateMachinesLoaded { machines, more } => {
            assert!(!more, "el mock cabe en una página");
            assert!(
                machines
                    .iter()
                    .any(|m| m.machine_type == MachineType::Express)
            );
            assert!(
                machines
                    .iter()
                    .any(|m| m.machine_type == MachineType::Standard)
            );
            assert!(
                machines.iter().any(|m| m.name.contains("dev")),
                "la data mock refleja el profile activo"
            );
        }
        other => panic!("mensaje inesperado: {other:?}"),
    }
}

#[test]
fn mock_executions_include_failed_and_running() {
    let env = Env::new("dev", "us-east-1");

    let envelope = mock_answer(&env, 
        Action::LoadExecutions {
            machine_arn: "arn:aws:states:us-east-1:000:stateMachine:dev-order-saga".into(),
            status: None,
            token: None,
        },
        6).expect("debe llegar un envelope");
    assert_eq!(envelope.epoch, 6);
    match envelope.message {
        Message::ExecutionsLoaded {
            machine_arn,
            executions,
            next_token,
            append,
        } => {
            assert!(next_token.is_none(), "el mock cabe en una página");
            assert!(!append, "primera página no es append");
            assert!(machine_arn.contains("order-saga"));
            assert!(executions.iter().any(|e| e.status == ExecStatus::Failed));
            assert!(
                executions
                    .iter()
                    .any(|e| e.status == ExecStatus::Running && e.stop_ts.is_none()),
                "una RUNNING no tiene stop_ts"
            );
        }
        other => panic!("mensaje inesperado: {other:?}"),
    }
}

#[test]
fn mock_executions_status_filter_narrows() {
    let env = Env::new("dev", "us-east-1");
    let envelope = mock_answer(&env, 
        Action::LoadExecutions {
            machine_arn: "arn:aws:states:us-east-1:000:stateMachine:dev-order-saga".into(),
            status: Some(ExecStatus::Failed),
            token: None,
        },
        1).expect("debe llegar un envelope");
    match envelope.message {
        Message::ExecutionsLoaded { executions, .. } => {
            assert!(!executions.is_empty());
            assert!(
                executions.iter().all(|e| e.status == ExecStatus::Failed),
                "el filtro de estado solo trae FAILED"
            );
        }
        other => panic!("mensaje inesperado: {other:?}"),
    }
}

#[test]
fn mock_execution_detail_failed_has_error_and_failed_state() {
    let env = Env::new("dev", "us-east-1");

    let envelope = mock_answer(&env, 
        Action::LoadExecutionDetail {
            execution_arn: "arn:…:exec:exec-fail-0".into(),
        },
        2).expect("debe llegar un envelope");
    match envelope.message {
        Message::ExecutionDetailLoaded {
            detail,
            history,
            failed_state,
            ..
        } => {
            assert_eq!(detail.status, ExecStatus::Failed);
            assert!(detail.error.is_some() && detail.cause.is_some());
            assert_eq!(failed_state.as_deref(), Some("ProcessOrder"));
            assert!(history.iter().any(|s| s.failed && s.name == "ProcessOrder"));
        }
        other => panic!("mensaje inesperado: {other:?}"),
    }
}

#[test]
fn mock_execution_detail_ok_is_clean() {
    let env = Env::new("dev", "us-east-1");

    let envelope = mock_answer(&env, 
        Action::LoadExecutionDetail {
            execution_arn: "arn:…:exec:exec-ok-1".into(),
        },
        2).expect("debe llegar un envelope");
    match envelope.message {
        Message::ExecutionDetailLoaded {
            detail,
            failed_state,
            ..
        } => {
            assert_eq!(detail.status, ExecStatus::Succeeded);
            assert!(failed_state.is_none());
            assert!(detail.error.is_none());
        }
        other => panic!("mensaje inesperado: {other:?}"),
    }
}

#[test]
fn mock_redrive_replies_redriven() {
    let env = Env::new("dev", "us-east-1");
    let arn = "arn:…:exec:exec-fail-0".to_string();

    let envelope = mock_answer(&env, 
        Action::RedriveExecution {
            execution_arn: arn.clone(),
        },
        1).expect("debe llegar un envelope");
    assert_eq!(envelope.epoch, 1);
    assert!(
        matches!(envelope.message, Message::ExecutionRedriven { execution_arn } if execution_arn == arn)
    );
}

#[test]
fn mock_event_buses_tag_epoch_and_reflect_profile() {
    let env = Env::new("dev", "us-east-1");

    let envelope = mock_answer(&env, Action::LoadEventBuses, 7).expect("debe llegar un envelope");
    assert_eq!(envelope.epoch, 7);
    match envelope.message {
        Message::EventBusesLoaded { buses, more } => {
            assert!(!more, "el mock cabe en una página");
            assert!(buses.iter().any(|b| b.name == "default"));
            assert!(
                buses.iter().any(|b| b.name.contains("dev")),
                "la data mock refleja el profile activo"
            );
        }
        other => panic!("mensaje inesperado: {other:?}"),
    }
}

#[test]
fn mock_rules_include_enabled_and_disabled() {
    let env = Env::new("dev", "us-east-1");

    let envelope = mock_answer(&env, 
        Action::LoadRules {
            event_bus_name: "default".into(),
        },
        3).expect("debe llegar un envelope");
    match envelope.message {
        Message::RulesLoaded {
            event_bus_name,
            rules,
            more,
        } => {
            assert!(!more);
            assert_eq!(event_bus_name, "default");
            assert!(rules.iter().any(|r| r.state == RuleState::Enabled));
            assert!(rules.iter().any(|r| r.state == RuleState::Disabled));
        }
        other => panic!("mensaje inesperado: {other:?}"),
    }
}

#[test]
fn mock_rule_detail_has_pattern_and_targets() {
    let env = Env::new("dev", "us-east-1");

    let envelope = mock_answer(&env, 
        Action::LoadRuleDetail {
            event_bus_name: "default".into(),
            rule_name: "orders-created".into(),
        },
        4).expect("debe llegar un envelope");
    match envelope.message {
        Message::RuleDetailLoaded {
            detail, targets, ..
        } => {
            assert!(detail.event_pattern.is_some());
            assert!(!targets.is_empty());
        }
        other => panic!("mensaje inesperado: {other:?}"),
    }
}

#[test]
fn mock_send_event_replies_event_sent() {
    let env = Env::new("dev", "us-east-1");

    let envelope = mock_answer(&env, 
        Action::SendEvent {
            event_bus_name: "default".into(),
            source: "awsdeck.manual".into(),
            detail_type: "test".into(),
            detail: "{}".into(),
            time: None,
            resources: vec![],
        },
        1).expect("debe llegar un envelope");
    assert_eq!(envelope.epoch, 1);
    assert!(
        matches!(envelope.message, Message::EventSent { event_bus_name } if event_bus_name == "default")
    );
}

#[test]
fn parse_history_attaches_lambda_resource_per_state() {
    let events = vec![
        ev_entered(1, 0, "Charge"),
        ev_lambda_scheduled(
            2,
            50,
            "arn:aws:lambda:us-east-1:111122223333:function:Charge",
        ),
        ev_exited(3, 100, "Charge"),
        ev_entered(4, 100, "Process"),
        ev_task_scheduled(5, 150, "lambda", "{\"FunctionName\":\"ProcessFn\"}"),
        ev_exited(6, 200, "Process"),
        ev_entered(7, 200, "Wait"),
        ev_exited(8, 250, "Wait"),
    ];
    let (spans, _) = parse_history(&events);
    let by = |n: &str| spans.iter().find(|s| s.name == n).unwrap();
    assert_eq!(
        by("Charge").resource_arn.as_deref(),
        Some("arn:aws:lambda:us-east-1:111122223333:function:Charge")
    );
    assert_eq!(by("Process").resource_arn.as_deref(), Some("ProcessFn"));
    assert_eq!(by("Wait").resource_arn, None);
}

#[test]
fn parse_history_pairs_states_and_marks_failure() {
    let events = vec![
        ev_entered(1, 1_000, "A"),
        ev_exited(2, 1_500, "A"),
        ev_entered(3, 1_500, "B"),
        ev_typed(4, 1_800, "ExecutionFailed"),
    ];
    let (spans, failed_state) = parse_history(&events);

    assert_eq!(spans.len(), 2);
    assert_eq!(spans[0].name, "A");
    assert_eq!(spans[0].exited_ts, Some(1_500));
    assert!(!spans[0].failed);
    assert_eq!(spans[1].name, "B");
    assert_eq!(spans[1].exited_ts, None);
    assert!(spans[1].failed, "el estado abierto al fallar se marca");
    assert_eq!(failed_state.as_deref(), Some("B"));
}

#[test]
fn parse_history_detects_timeout_and_abort() {
    let events = vec![ev_entered(1, 0, "Wait"), ev_typed(2, 500, "TaskTimedOut")];
    let (spans, failed_state) = parse_history(&events);
    assert!(spans[0].failed, "TIMED_OUT marca el estado abierto");
    assert_eq!(failed_state.as_deref(), Some("Wait"));

    let events = vec![
        ev_entered(1, 0, "Work"),
        ev_typed(2, 500, "ExecutionAborted"),
    ];
    let (spans, _) = parse_history(&events);
    assert!(spans[0].failed, "ABORTED marca el estado abierto");
}

#[test]
fn parse_history_clears_failure_on_retry_recovery() {
    let events = vec![
        ev_entered(1, 0, "Charge"),
        ev_typed(2, 100, "TaskFailed"),
        ev_exited(3, 300, "Charge"),
        ev_entered(4, 300, "Done"),
        ev_exited(5, 400, "Done"),
    ];
    let (spans, failed_state) = parse_history(&events);
    assert!(
        !spans.iter().any(|s| s.failed),
        "un estado que falló-reintentó-y-salió no queda marcado"
    );
    assert_eq!(failed_state, None);
    assert_eq!(spans[0].exited_ts, Some(300));
}

#[test]
fn parse_history_handles_concurrent_homonyms() {
    let events = vec![
        ev_entered(1, 0, "Worker"),
        ev_entered(2, 0, "Worker"),
        ev_exited(3, 100, "Worker"),
        ev_exited(4, 200, "Worker"),
    ];
    let (spans, _) = parse_history(&events);
    assert_eq!(spans.len(), 2);
    assert!(
        spans.iter().all(|s| s.exited_ts.is_some()),
        "ningún span homónimo queda huérfano (pila LIFO)"
    );
}
