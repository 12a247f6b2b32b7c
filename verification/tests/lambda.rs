use awsdeck::action::{Action, ConsoleTarget, ViewContext};
use awsdeck::key::{KeyCode, KeyEvent, KeyModifiers};
use awsdeck::message::{FunctionDetailDto, FunctionDto, LogWindow, Message};
use awsdeck::views::lambda::{LambdaView, Level};
use awsdeck::views::DeckView;

fn function(name: &str) -> FunctionDto {
    FunctionDto {
        name: name.to_string(),
        arn: format!("arn:aws:lambda:us-east-1:000000000000:function:{name}"),
        runtime: Some("python3.12".to_string()),
        last_modified: Some("2026-05-01T12:00:00.000+0000".to_string()),
        memory: Some(256),
    }
}

fn detail_with_env(env: Vec<(&str, &str)>) -> FunctionDetailDto {
    FunctionDetailDto {
        runtime: Some("python3.12".to_string()),
        handler: Some("app.handler".to_string()),
        memory: Some(256),
        timeout: Some(30),
        code_size: Some(4_823_551),
        last_modified: Some("2026-05-01T12:00:00.000+0000".to_string()),
        role: Some("arn:aws:iam::000:role/exec".to_string()),
        description: Some("fn de prueba".to_string()),
        layers: vec!["arn:aws:lambda:us-east-1:000:layer:deps:7".to_string()],
        tracing: Some("Active".to_string()),
        dlq_target: None,
        env: env
            .into_iter()
            .map(|(k, v)| (k.to_string(), v.to_string()))
            .collect(),
    }
}

fn key(code: KeyCode) -> KeyEvent {
    KeyEvent::new(code, KeyModifiers::none())
}

#[test]
fn activate_requests_functions() {
    let mut v = LambdaView::new();
    assert!(matches!(
        v.on_activate().as_slice(),
        [Action::LoadFunctions]
    ));
}

#[test]
fn ingests_functions_via_message() {
    let mut v = LambdaView::new();
    v.on_message(&Message::FunctionsLoaded {
        functions: vec![function("create-order"), function("process-payment")],
        append: false,
        more: false,
        partial: false,
    });
    assert_eq!(v.visible_len(), 2);
}

#[test]
fn partial_pagination_signals_in_title() {
    let mut v = LambdaView::new();
    v.on_message(&Message::FunctionsLoaded {
        functions: vec![function("create-order")],
        append: false,
        more: false,
        partial: false,
    });
    assert!(!v.functions_title().contains("parcial"));
    v.on_message(&Message::FunctionsLoaded {
        functions: vec![function("create-order")],
        append: false,
        more: false,
        partial: true,
    });
    assert!(v.functions_title().contains("parcial"));
}

#[test]
fn streaming_pages_append_and_finish() {
    let mut v = LambdaView::new();
    v.loading = true;
    v.on_message(&Message::FunctionsLoaded {
        functions: vec![function("a"), function("b")],
        append: false,
        more: true,
        partial: false,
    });
    assert_eq!(v.visible_len(), 2);
    assert!(v.loading, "sigue cargando mientras vienen más páginas");
    assert!(v.functions_title().contains("cargando"));
    v.on_message(&Message::FunctionsLoaded {
        functions: vec![function("c")],
        append: true,
        more: false,
        partial: false,
    });
    assert_eq!(v.visible_len(), 3, "la 2ª página se anexa");
    assert!(!v.loading, "terminó de cargar");
}

#[test]
fn filter_narrows_function_list() {
    let mut v = LambdaView::new();
    v.on_message(&Message::FunctionsLoaded {
        functions: vec![
            function("create-order"),
            function("create-invoice"),
            function("process-payment"),
        ],
        append: false,
        more: false,
        partial: false,
    });
    v.set_filter("CREATE");
    assert_eq!(v.visible_len(), 2);
}

#[test]
fn enter_drills_into_function_detail() {
    let mut v = LambdaView::new();
    v.on_message(&Message::FunctionsLoaded {
        functions: vec![function("create-order"), function("process-payment")],
        append: false,
        more: false,
        partial: false,
    });
    v.on_key(key(KeyCode::Down));
    let actions = v.on_key(key(KeyCode::Enter));
    match actions.as_slice() {
        [
            Action::ClearFilter,
            Action::RecordRecent { key, label },
            Action::LoadFunctionDetail { function_arn },
        ] => {
            assert!(function_arn.ends_with(":function:process-payment"));
            assert_eq!(
                label, "process-payment",
                "recuerda la función por su nombre"
            );
            assert_eq!(key, function_arn, "key = ARN");
        }
        other => {
            panic!("se esperaba ClearFilter+RecordRecent+LoadFunctionDetail, llegó {other:?}")
        }
    }
    assert!(matches!(v.level, Level::Detail { .. }));

    v.on_message(&Message::FunctionDetailLoaded {
        function_arn: function("process-payment").arn,
        detail: detail_with_env(vec![("LOG_LEVEL", "info"), ("STAGE", "prod")]),
    });
    assert_eq!(v.visible_len(), 2, "dos env vars navegables");

    v.on_key(key(KeyCode::Esc));
    assert!(matches!(v.level, Level::Functions));
    assert_eq!(v.visible_len(), 2);
}

#[test]
fn lambda_favorite_getter_and_open_via_context() {
    let mut v = LambdaView::new();
    v.on_message(&Message::FunctionsLoaded {
        functions: vec![function("create-order")],
        append: false,
        more: false,
        partial: false,
    });
    let fav = v.selected_favorite().expect("hay una función seleccionada");
    assert!(fav.0.ends_with(":function:create-order"), "key = arn");
    assert_eq!(fav.1, "create-order", "label = nombre");

    let arn = function("create-order").arn;
    match v
        .on_context(&ViewContext::Favorite { key: arn.clone() })
        .as_slice()
    {
        [Action::LoadFunctionDetail { function_arn }] => assert_eq!(*function_arn, arn),
        other => panic!("se esperaba LoadFunctionDetail, llegó {other:?}"),
    }
    assert!(matches!(v.level, Level::Detail { .. }));
}

#[test]
fn enter_in_detail_expands_env_value_and_esc_closes() {
    let mut v = LambdaView::new();
    v.on_message(&Message::FunctionsLoaded {
        functions: vec![function("create-order")],
        append: false,
        more: false,
        partial: false,
    });
    v.on_key(key(KeyCode::Enter));
    let long = format!("flags {}", "x".repeat(200));
    v.on_message(&Message::FunctionDetailLoaded {
        function_arn: function("create-order").arn,
        detail: detail_with_env(vec![("FEATURE_FLAGS", long.as_str())]),
    });

    let actions = v.on_key(key(KeyCode::Enter));
    assert!(actions.is_empty());
    assert_eq!(
        v.detail_panel.as_ref().expect("panel").content(),
        long,
        "muestra el valor completo, no los 60 chars de la fila"
    );
    match v.on_key(key(KeyCode::Char('y'))).as_slice() {
        [Action::CopyToClipboard { text }] => assert_eq!(*text, long),
        other => panic!("se esperaba copiar el valor, llegó {other:?}"),
    }
    let actions = v.on_key(key(KeyCode::Esc));
    assert!(actions.is_empty());
    assert!(v.detail_panel.is_none());
    assert!(
        matches!(v.level, Level::Detail { .. }),
        "sigue en el detalle"
    );
}

#[test]
fn detail_from_wrong_function_is_ignored() {
    let mut v = LambdaView::new();
    v.on_message(&Message::FunctionsLoaded {
        functions: vec![function("create-order")],
        append: false,
        more: false,
        partial: false,
    });
    v.on_key(key(KeyCode::Enter));
    v.on_message(&Message::FunctionDetailLoaded {
        function_arn: function("otra").arn,
        detail: detail_with_env(vec![("K", "v")]),
    });
    assert_eq!(v.visible_len(), 0, "no se acepta detalle de otra función");
}

#[test]
fn lambda_esc_at_root_emits_back() {
    let mut v = LambdaView::new();
    v.on_message(&Message::FunctionsLoaded {
        functions: vec![function("create-order")],
        append: false,
        more: false,
        partial: false,
    });
    let actions = v.on_key(key(KeyCode::Esc));
    assert!(matches!(actions.as_slice(), [Action::Back]));
    assert!(matches!(v.level, Level::Functions));
}

#[test]
fn esc_in_detail_pops_to_functions() {
    let mut v = LambdaView::new();
    v.on_message(&Message::FunctionsLoaded {
        functions: vec![function("create-order")],
        append: false,
        more: false,
        partial: false,
    });
    v.on_key(key(KeyCode::Enter));
    assert!(matches!(v.level, Level::Detail { .. }));
    let actions = v.on_key(key(KeyCode::Esc));
    assert!(matches!(actions.as_slice(), [Action::ClearFilter]));
    assert!(matches!(v.level, Level::Functions));
}

#[test]
fn y_copies_function_arn() {
    let mut v = LambdaView::new();
    v.on_message(&Message::FunctionsLoaded {
        functions: vec![function("create-order")],
        append: false,
        more: false,
        partial: false,
    });
    match v.on_key(key(KeyCode::Char('y'))).as_slice() {
        [Action::CopyToClipboard { text }] => {
            assert!(text.ends_with(":function:create-order"))
        }
        other => panic!("se esperaba CopyToClipboard, llegó {other:?}"),
    }
}

#[test]
fn o_opens_function_in_console() {
    let mut v = LambdaView::new();
    v.on_message(&Message::FunctionsLoaded {
        functions: vec![function("create-order")],
        append: false,
        more: false,
        partial: false,
    });
    match v.on_key(key(KeyCode::Char('O'))).as_slice() {
        [
            Action::OpenConsole {
                target: ConsoleTarget::LambdaFunction { name },
            },
        ] => assert_eq!(name, "create-order"),
        other => panic!("se esperaba OpenConsole LambdaFunction, llegó {other:?}"),
    }
}

#[test]
fn l_opens_lambda_logs_crosslink() {
    let mut v = LambdaView::new();
    v.on_message(&Message::FunctionsLoaded {
        functions: vec![function("create-order")],
        append: false,
        more: false,
        partial: false,
    });
    match v.on_key(key(KeyCode::Char('l'))).as_slice() {
        [Action::ActivateViewWithContext { id, context }] => {
            assert_eq!(id, "logs");
            let ViewContext::LogGroupTail { group, window } = context else {
                panic!("se esperaba LogGroupTail, llegó {context:?}");
            };
            assert_eq!(group, "/aws/lambda/create-order");
            assert!(matches!(window, LogWindow::Last(_)));
        }
        other => panic!("se esperaba ActivateViewWithContext logs, llegó {other:?}"),
    }
    v.on_key(key(KeyCode::Enter));
    assert!(
        !v.on_key(key(KeyCode::Char('l'))).is_empty(),
        "`l` también abre logs en el detalle"
    );
}

#[test]
fn hints_offer_logs_link() {
    let mut v = LambdaView::new();
    v.on_message(&Message::FunctionsLoaded {
        functions: vec![function("create-order")],
        append: false,
        more: false,
        partial: false,
    });
    assert!(v.hints().iter().any(|(k, _)| *k == "l"));
}
