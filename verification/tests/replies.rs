use awsdeck::action::{Action, ConsoleTarget};
use awsdeck::aws::context::Env;
use awsdeck::effects::console::{console_url, cw_encode, pct_encode};
use awsdeck::effects::history::{is_failure_event, lambda_resource, parse_history, parse_newest_first, HistoryEvent};
use awsdeck::effects::mock::{mock_answer, mock_delay, mock_execution_detail, mock_reply};
use awsdeck::effects::paging::{merge_group_pages, EventPager, Pager, EVENTS_LIMIT, MAX_EVENT_PAGES};
use awsdeck::effects::payload::{
    clip, clip_message, exec_status, exec_status_filter, execution_detail, log_event, machine_type, parse_redrive,
    pretty_truncate, queue_attrs, queue_from_url, queue_message, receive_limit, redrive_source, rejection, rule_state,
    sdk_error, window_bounds, MAX_LINE, MAX_PAYLOAD,
};
use awsdeck::effects::{answer, history_pages, operation, Reply};
use awsdeck::message::{
    ErrorKind, ExecStatus, LogEventDto, LogGroupDto, LogWindow, MachineType, Message, RuleState,
};

fn pairs(list: &[(&str, &str)]) -> Vec<(String, String)> {
    list.iter().map(|(k, v)| (k.to_string(), v.to_string())).collect()
}

fn texts(list: &[&str]) -> Vec<String> {
    list.iter().map(|s| s.to_string()).collect()
}

// --- texts -----------------------------------------------------------------------------------

#[test]
fn clipping_keeps_whole_characters() {
    assert_eq!(clip("añb", 4, "…"), "añb");
    assert_eq!(clip("añbc", 4, "…"), "añb…");
    assert_eq!(clip("añbc", 2, "…"), "a…");
    assert_eq!(clip("ñ", 1, "…"), "…");
    assert_eq!(clip("𝄞x", 4, "!"), "𝄞!");
    assert_eq!(clip("", 0, "…"), "");
}

#[test]
fn long_lines_are_clipped_and_keep_their_breaks() {
    assert_eq!(clip_message(None), "");
    assert_eq!(clip_message(Some("a\nb")), "a\nb");
    let long = "x".repeat(MAX_LINE + 1);
    let kept = clip_message(Some(&long));
    assert_eq!(kept.len(), MAX_LINE + "…".len());
    assert!(kept.ends_with("x…"));
    assert_eq!(clip_message(Some(&long[1..])), long[1..]);
}

#[test]
fn payloads_are_indented_and_clipped() {
    assert_eq!(pretty_truncate(None), None);
    assert_eq!(pretty_truncate(Some("plain {")).as_deref(), Some("plain {"));
    assert_eq!(pretty_truncate(Some("{\"a\":[1]}")).as_deref(), Some("{\n  \"a\": [\n    1\n  ]\n}"));
    let long = "y".repeat(MAX_PAYLOAD + 9);
    let kept = pretty_truncate(Some(&long)).unwrap();
    assert_eq!(kept, format!("{}\n… (truncado)", "y".repeat(MAX_PAYLOAD)));
}

#[test]
fn log_lines_keep_time_and_stream() {
    let e = log_event(Some(5), Some("hi"), Some("s".to_string()));
    assert_eq!((e.ts, e.message.as_str(), e.stream.as_deref()), (Some(5), "hi", Some("s")));
}

#[test]
fn windows_end_now_unless_they_say_when() {
    assert_eq!(window_bounds(LogWindow::Last(10), 100), (90, 100));
    assert_eq!(window_bounds(LogWindow::Range { from: 3, to: Some(8) }, 100), (3, 8));
    assert_eq!(window_bounds(LogWindow::Range { from: 3, to: None }, 100), (3, 100));
}

// --- queues ----------------------------------------------------------------------------------

#[test]
fn queues_are_named_by_their_address() {
    let q = queue_from_url("https://sqs.eu-west-1.amazonaws.com/1/pay.fifo");
    assert_eq!((q.name.as_str(), q.is_fifo), ("pay.fifo", true));
    let q = queue_from_url("orders");
    assert_eq!((q.name.as_str(), q.url.as_str(), q.is_fifo), ("orders", "orders", false));
}

#[test]
fn attributes_are_read_by_name() {
    let attrs = queue_attrs(
        &pairs(&[
            ("ApproximateNumberOfMessages", "7"),
            ("ApproximateNumberOfMessagesNotVisible", "x"),
            ("QueueArn", "arn:q"),
            ("RedrivePolicy", "{\"deadLetterTargetArn\":\"arn:dlq\",\"maxReceiveCount\":\"3\"}"),
        ]),
        texts(&["u1"]),
    );
    assert_eq!((attrs.visible, attrs.in_flight, attrs.delayed), (Some(7), None, None));
    assert_eq!(attrs.arn.as_deref(), Some("arn:q"));
    assert_eq!(attrs.dlq_target_arn.as_deref(), Some("arn:dlq"));
    assert_eq!(attrs.max_receive_count, Some(3));
    assert_eq!(attrs.dlq_sources, ["u1"]);
    assert!(attrs.has_dlq() && attrs.is_dlq());
}

#[test]
fn a_policy_that_is_no_json_names_nothing() {
    assert_eq!(parse_redrive(Some("{\"deadLetterTargetArn\":")), (None, None));
    assert_eq!(parse_redrive(Some("[1]")), (None, None));
    assert_eq!(parse_redrive(Some("{\"deadLetterTargetArn\":5,\"maxReceiveCount\":2.5}")), (None, None));
    assert_eq!(parse_redrive(None), (None, None));
}

#[test]
fn a_limit_is_a_number_or_spells_one() {
    assert_eq!(receive_limit(Some(4), Some("9".to_string())), Some(4));
    assert_eq!(receive_limit(None, Some("9".to_string())), Some(9));
    assert_eq!(receive_limit(None, Some("nine".to_string())), None);
    assert_eq!(receive_limit(None, None), None);
}

#[test]
fn a_redrive_needs_the_address_of_the_queue() {
    assert_eq!(redrive_source(&pairs(&[("QueueArn", "arn:q")])), Ok("arn:q".to_string()));
    assert_eq!(redrive_source(&pairs(&[])), Err("no se pudo resolver el ARN de la cola"));
}

#[test]
fn messages_of_a_queue_have_an_id() {
    let m = queue_message(None, None, &pairs(&[("SentTimestamp", "9"), ("ApproximateReceiveCount", "2")]));
    assert_eq!((m.id.as_str(), m.body.as_str(), m.sent_ts, m.receive_count), ("—", "", Some(9), Some(2)));
    let m = queue_message(Some("i"), Some("b"), &pairs(&[]));
    assert_eq!((m.id.as_str(), m.body.as_str(), m.sent_ts, m.receive_count), ("i", "b", None, None));
}

// --- executions and rules --------------------------------------------------------------------

#[test]
fn statuses_are_read_by_their_names() {
    for s in [
        ExecStatus::Running,
        ExecStatus::Succeeded,
        ExecStatus::Failed,
        ExecStatus::TimedOut,
        ExecStatus::Aborted,
        ExecStatus::PendingRedrive,
    ] {
        assert_eq!(exec_status(s.label()), s);
    }
    assert_eq!(exec_status("SOMETHING_NEW"), ExecStatus::Running);
    assert_eq!(exec_status_filter(ExecStatus::TimedOut), Some("TIMED_OUT"));
    assert_eq!(exec_status_filter(ExecStatus::PendingRedrive), None);
    assert_eq!(machine_type("EXPRESS"), MachineType::Express);
    assert_eq!(machine_type("STANDARD"), MachineType::Standard);
    assert_eq!(rule_state(Some("DISABLED")), RuleState::Disabled);
    assert_eq!(rule_state(Some("ENABLED_WITH_ALL_CLOUDTRAIL_MANAGEMENT_EVENTS")), RuleState::Enabled);
    assert_eq!(rule_state(None), RuleState::Enabled);
}

#[test]
fn the_detail_of_an_execution_shows_its_payloads() {
    let d = execution_detail(
        "FAILED",
        (Some(1), None),
        (Some("{\"a\":1}"), None),
        (Some("E".to_string()), Some("why".to_string())),
        Some(2),
    );
    assert_eq!(d.status, ExecStatus::Failed);
    assert_eq!((d.start_ts, d.stop_ts, d.redrive_count), (Some(1), None, Some(2)));
    assert_eq!(d.input.as_deref(), Some("{\n  \"a\": 1\n}"));
    assert_eq!((d.output.as_deref(), d.error.as_deref(), d.cause.as_deref()), (None, Some("E"), Some("why")));
}

#[test]
fn a_rejected_event_says_why() {
    let none = (None, None);
    let code = (Some("Code".to_string()), Some("message".to_string()));
    let message = (None, Some("message".to_string()));
    assert_eq!(rejection(0, &vec![code.clone()]), None);
    assert_eq!(rejection(1, &vec![none.clone(), code]).as_deref(), Some("Code"));
    assert_eq!(rejection(1, &vec![message]).as_deref(), Some("message"));
    assert_eq!(rejection(1, &vec![none]).as_deref(), Some("evento rechazado"));
}

// --- failures --------------------------------------------------------------------------------

#[test]
fn a_failure_is_reported_with_advice_or_its_causes() {
    match sdk_error("list_queues", &texts(&["service error", "ThrottlingException"])) {
        Message::Error { kind, detail } => {
            assert_eq!(kind, ErrorKind::Throttle);
            assert_eq!(detail, "list_queues: throttling del servicio — reintenta con r");
        }
        other => panic!("{other:?}"),
    }
    match sdk_error("list_queues", &texts(&["outer", "inner"])) {
        Message::Error { kind, detail } => {
            assert_eq!(kind, ErrorKind::Other);
            assert_eq!(detail, "list_queues: outer: inner");
        }
        other => panic!("{other:?}"),
    }
}

#[test]
fn more_causes_never_hide_a_class() {
    let kind = |causes: &[&str]| match sdk_error("op", &texts(causes)) {
        Message::Error { kind, .. } => kind,
        other => panic!("{other:?}"),
    };
    assert_eq!(kind(&["ExpiredToken"]), ErrorKind::Auth);
    assert_eq!(kind(&["ExpiredToken", "connect timeout"]), ErrorKind::Auth);
    assert_eq!(kind(&["connect timeout", "ExpiredToken"]), ErrorKind::Auth);
    assert_eq!(kind(&["rate exceeded", "dispatch failure"]), ErrorKind::Throttle);
}

#[test]
fn every_request_that_fails_is_reported() {
    for action in [
        Action::LoadQueues,
        Action::LoadStateMachines,
        Action::LoadEventBuses,
        Action::LoadFunctions,
        Action::VerifyIdentity,
        Action::LoadLogGroups { query: None },
        Action::PurgeQueue { queue_url: "u".to_string() },
    ] {
        let op = operation(&action).unwrap();
        let e = answer(action, Reply::Failed { causes: texts(&["boom"]) }, 9).unwrap();
        assert_eq!(e.epoch, 9);
        match e.message {
            Message::Error { kind, detail } => {
                assert_eq!(kind, ErrorKind::Other);
                assert_eq!(detail, format!("{op}: boom"));
            }
            other => panic!("{other:?}"),
        }
    }
    let open = Action::OpenConsole { target: ConsoleTarget::EventBus { name: "b".to_string() } };
    match answer(open, Reply::Failed { causes: Vec::new() }, 1).unwrap().message {
        Message::Error { kind, detail } => {
            assert_eq!(kind, ErrorKind::Other);
            assert_eq!(detail, "no se pudo abrir el navegador");
        }
        other => panic!("{other:?}"),
    }
}

#[test]
fn an_answer_repeats_what_was_asked_for() {
    let ask = |token: Option<&str>| Action::LoadLogTail {
        group: "g".to_string(),
        pattern: None,
        window: LogWindow::Last(1),
        token: token.map(str::to_string),
        generation: 4,
    };
    for token in [None, Some("t")] {
        let reply = Reply::LogEvents { events: Vec::new(), next_token: Some("n".to_string()) };
        let e = answer(ask(token), reply, 3).unwrap();
        assert_eq!(e.epoch, 3);
        match e.message {
            Message::LogTailLoaded { group, next_token, append, generation, .. } => {
                assert_eq!((group.as_str(), next_token.as_deref(), generation), ("g", Some("n"), 4));
                assert_eq!(append, token.is_some());
            }
            other => panic!("{other:?}"),
        }
    }
    assert!(answer(Action::LoadQueues, Reply::Done, 3).is_none(), "that answers another question");
}

#[test]
fn history_is_asked_for_in_pages() {
    let first = Action::LoadExecutionDetail { execution_arn: "a".to_string() };
    let more = Action::LoadMoreExecutionHistory { execution_arn: "a".to_string(), page_budget: 30 };
    assert_eq!(history_pages(&first), Some(10));
    assert_eq!(history_pages(&more), Some(30));
    assert_eq!(history_pages(&Action::LoadQueues), None);
}

// --- pages -----------------------------------------------------------------------------------

#[test]
fn a_pager_follows_tokens_within_its_budget() {
    let mut p: Pager<u8> = Pager::new(None, 2);
    assert!(p.wants_page());
    p.take(vec![1, 2], Some("a".to_string()));
    assert!(p.wants_page() && !p.is_partial());
    assert_eq!(p.token().as_deref(), Some("a"));
    p.take(vec![3], Some("b".to_string()));
    assert!(!p.wants_page() && p.is_partial());
    assert_eq!(p.finish(), (vec![1, 2, 3], Some("b".to_string())));
}

#[test]
fn a_short_list_comes_whole() {
    let mut p: Pager<u8> = Pager::new(Some("go on".to_string()), 5);
    assert_eq!(p.token().as_deref(), Some("go on"));
    p.take(vec![1], Some("a".to_string()));
    p.take(Vec::new(), None);
    assert!(!p.wants_page() && !p.is_partial());
    assert_eq!(p.finish(), (vec![1], None));
    let none: Pager<u8> = Pager::new(None, 0);
    assert!(!none.wants_page() && !none.is_partial());
}

fn lines(n: usize, mark: &str) -> Vec<LogEventDto> {
    (0..n).map(|i| LogEventDto { ts: None, message: format!("{mark}{i}"), stream: None }).collect()
}

#[test]
fn an_empty_page_is_not_the_end() {
    let mut p = EventPager::new(None);
    p.take(Vec::new(), Some("b/1".to_string()));
    assert!(p.wants_page());
    p.take(lines(2, "old"), Some("b/2".to_string()));
    p.take(lines(1, "older"), Some("b/2".to_string()));
    assert!(!p.wants_page(), "the token no longer changes");
    let (events, next) = p.finish();
    let shown: Vec<&str> = events.iter().map(|e| e.message.as_str()).collect();
    assert_eq!(shown, ["older0", "old0", "old1"], "oldest first");
    assert_eq!(next, None);
}

#[test]
fn event_pages_are_bounded() {
    let mut p = EventPager::new(None);
    p.take(lines(EVENTS_LIMIT + 5, "x"), Some("t".to_string()));
    assert!(!p.wants_page());
    let (events, next) = p.finish();
    assert_eq!(events.len(), EVENTS_LIMIT);
    assert_eq!(next.as_deref(), Some("t"));

    let mut p = EventPager::new(None);
    let mut taken = 0;
    while p.wants_page() {
        taken += 1;
        p.take(Vec::new(), Some(format!("t{taken}")));
    }
    assert_eq!(taken, MAX_EVENT_PAGES);
    let (events, next) = p.finish();
    assert!(events.is_empty());
    assert_eq!(next.as_deref(), Some("t5"), "older lines can still be asked for");
}

fn numbered(from: usize, to: usize) -> Vec<LogEventDto> {
    (from..=to).map(|i| LogEventDto { ts: None, message: i.to_string(), stream: None }).collect()
}

fn numbers(events: Vec<LogEventDto>) -> Vec<usize> {
    events.into_iter().map(|e| e.message.parse().unwrap()).collect()
}

#[test]
fn the_newest_lines_are_handed_out() {
    let mut p = EventPager::new(None);
    p.take(numbered(101, 250), Some("T1".to_string()));
    assert!(p.wants_page());
    p.take(numbered(1, 100), Some("T2".to_string()));
    assert!(!p.wants_page());
    let (events, next) = p.finish();
    assert_eq!(numbers(events), (51..=250).collect::<Vec<usize>>());
    assert_eq!(next.as_deref(), Some("T1"), "the page of the lines that did not fit");
}

#[test]
fn a_page_is_asked_for_no_larger_than_the_room() {
    let mut p = EventPager::new(Some("T0".to_string()));
    assert_eq!(p.room(), EVENTS_LIMIT);
    p.take(numbered(101, 250), Some("T1".to_string()));
    assert_eq!(p.room(), 50);
    p.take(numbered(51, 100), Some("T2".to_string()));
    assert_eq!(p.room(), 0);
    assert!(!p.wants_page());
    let (events, next) = p.finish();
    assert_eq!(numbers(events), (51..=250).collect::<Vec<usize>>());
    assert_eq!(next.as_deref(), Some("T2"));
}

#[test]
fn no_line_of_a_stream_is_out_of_reach() {
    for page in [1usize, 40, 70, 150, 200] {
        for kept in [true, false] {
            // A stream of 450 lines, whose tokens say up to which line a page goes.
            let mut seen = vec![false; 451];
            let mut token: Option<String> = None;
            for _ in 0..500 {
                let mut p = EventPager::new(token.clone());
                while p.wants_page() {
                    let to: usize = p.token().map_or(450, |t| t.parse().unwrap());
                    let size = if kept { page.min(p.room()) } else { page };
                    let from = to.saturating_sub(size);
                    p.take(numbered(from + 1, to), Some(from.to_string()));
                }
                let (events, next) = p.finish();
                for n in numbers(events) {
                    seen[n] = true;
                }
                token = next;
                if token.is_none() {
                    break;
                }
            }
            assert!(token.is_none(), "the stream comes to its end");
            assert!(seen[1..].iter().all(|s| *s), "pages of {page}, kept to the room: {kept}");
        }
    }
}

#[test]
fn requests_for_functions_fail_when_made_up() {
    let env = Env::new("p", "r");
    let detail = Action::LoadFunctionDetail { function_arn: "arn:f".to_string() };
    for (action, wanted) in [
        (Action::LoadFunctions, "list_functions: operación no disponible"),
        (detail, "get_function: operación no disponible"),
    ] {
        let e = mock_answer(&env, action, 4).unwrap();
        assert_eq!(e.epoch, 4);
        match e.message {
            Message::Error { kind, detail } => {
                assert_eq!(kind, ErrorKind::Other);
                assert_eq!(detail, wanted);
            }
            other => panic!("{other:?}"),
        }
    }
}

fn group(name: &str) -> LogGroupDto {
    LogGroupDto { name: name.to_string(), stored_bytes: None, arn: None }
}

#[test]
fn spellings_of_a_search_make_one_answer() {
    let merged = merge_group_pages(vec![
        Ok((vec![group("a"), group("b")], false)),
        Err(texts(&["x"])),
        Ok((vec![group("b"), group("c")], true)),
    ]);
    let (groups, more) = merged.unwrap();
    let names: Vec<&str> = groups.iter().map(|g| g.name.as_str()).collect();
    assert_eq!(names, ["a", "b", "c"]);
    assert!(more);
}

#[test]
fn a_search_fails_where_every_spelling_failed() {
    assert_eq!(merge_group_pages(vec![Err(texts(&["x"])), Err(texts(&["y"]))]).unwrap_err(), ["y"]);
    let (groups, more) = merge_group_pages(Vec::new()).unwrap();
    assert!(groups.is_empty() && !more);
}

// --- pages of the web console ----------------------------------------------------------------

#[test]
fn encoded_texts_are_safe_and_distinct() {
    assert_eq!(pct_encode("a-b_c.d~E9"), "a-b_c.d~E9");
    assert_eq!(pct_encode("/ñ %"), "%2F%C3%B1%20%25");
    assert_eq!(cw_encode("/aws/x"), "$252Faws$252Fx");
    assert_ne!(pct_encode("%20"), pct_encode(" "));
}

#[test]
fn decoding_gives_the_bytes_back() {
    let text = "/aws/ñ 100%~$25";
    let decode = |code: String| -> Vec<u8> {
        let mut out = Vec::new();
        let bytes = code.as_bytes();
        let mut i = 0;
        while i < bytes.len() {
            if bytes[i] == 37 {
                out.push(u8::from_str_radix(&code[i + 1..i + 3], 16).unwrap());
                i += 3;
            } else {
                out.push(bytes[i]);
                i += 1;
            }
        }
        out
    };
    assert_eq!(decode(pct_encode(text)), text.as_bytes());
    assert_eq!(decode(cw_encode(text).replace("$25", "%")), text.as_bytes());
}

#[test]
fn every_resource_has_a_page() {
    let page = |t: ConsoleTarget| console_url("r", &t);
    assert_eq!(
        page(ConsoleTarget::Rule { event_bus: "b".to_string(), name: "n/1".to_string() }),
        "https://r.console.aws.amazon.com/events/home?region=r#/eventbus/b/rules/n%2F1"
    );
    assert_eq!(
        page(ConsoleTarget::LambdaFunction { name: "f".to_string() }),
        "https://r.console.aws.amazon.com/lambda/home?region=r#/functions/f"
    );
}

// --- histories -------------------------------------------------------------------------------

fn event(event_type: &str, ts: i64) -> HistoryEvent {
    HistoryEvent {
        ts: Some(ts),
        event_type: event_type.to_string(),
        entered: None,
        exited: None,
        lambda: None,
        task: None,
    }
}

#[test]
fn failures_are_told_by_their_type() {
    for t in ["TaskFailed", "ExecutionTimedOut", "ExecutionAborted", "LambdaFunctionFailed"] {
        assert!(is_failure_event(&event(t, 1)), "{t}");
    }
    assert!(!is_failure_event(&event("TaskSucceeded", 1)));
    assert_eq!(lambda_resource(&event("TaskSucceeded", 1)), None);
}

fn entered(name: &str, ts: i64) -> HistoryEvent {
    HistoryEvent { entered: Some((name.to_string(), Some("{\"n\":1}".to_string()))), ..event("TaskStateEntered", ts) }
}

fn exited(name: &str, ts: i64) -> HistoryEvent {
    HistoryEvent { exited: Some((name.to_string(), Some("plain".to_string()))), ..event("TaskStateExited", ts) }
}

#[test]
fn functions_are_found_in_the_parameters_of_a_task() {
    let task = |kind: &str, parameters: &str| HistoryEvent {
        task: Some((kind.to_string(), parameters.to_string())),
        ..event("TaskScheduled", 1)
    };
    assert_eq!(lambda_resource(&task("lambda", "{\"FunctionName\":\"f\"}")).as_deref(), Some("f"));
    assert_eq!(lambda_resource(&task("sqs", "{\"FunctionName\":\"f\"}")), None);
    assert_eq!(lambda_resource(&task("lambda", "no json")), None);
    let direct = HistoryEvent { lambda: Some("arn:f".to_string()), ..event("LambdaFunctionScheduled", 1) };
    assert_eq!(lambda_resource(&direct).as_deref(), Some("arn:f"));
}

#[test]
fn each_entry_makes_one_state_with_its_payloads() {
    let (spans, failed) = parse_history(&vec![entered("A", 1), exited("A", 3), entered("B", 4), entered("A", 5)]);
    let names: Vec<&str> = spans.iter().map(|s| s.name.as_str()).collect();
    assert_eq!(names, ["A", "B", "A"]);
    assert_eq!((spans[0].entered_ts, spans[0].exited_ts), (Some(1), Some(3)));
    assert_eq!(spans[0].input.as_deref(), Some("{\n  \"n\": 1\n}"));
    assert_eq!(spans[0].output.as_deref(), Some("plain"));
    assert_eq!(spans[2].exited_ts, None);
    assert_eq!(failed, None);
}

#[test]
fn the_first_function_of_a_state_stays() {
    let f = |arn: &str| HistoryEvent { lambda: Some(arn.to_string()), ..event("LambdaFunctionScheduled", 2) };
    let (spans, _) = parse_history(&vec![entered("A", 1), f("one"), f("two")]);
    assert_eq!(spans[0].resource_arn.as_deref(), Some("one"));
}

#[test]
fn the_last_state_that_failed_is_named() {
    let (spans, failed) = parse_history(&vec![
        entered("A", 1),
        event("TaskFailed", 2),
        exited("A", 3),
        entered("B", 4),
        event("TaskTimedOut", 5),
    ]);
    assert!(!spans[0].failed, "it was left after all");
    assert!(spans[1].failed);
    assert_eq!(failed.as_deref(), Some("B"));
}

#[test]
fn newest_first_is_read_backwards() {
    let (spans, failed) = parse_newest_first(vec![event("TaskFailed", 3), entered("B", 2), exited("A", 1), entered("A", 0)]);
    let names: Vec<&str> = spans.iter().map(|s| s.name.as_str()).collect();
    assert_eq!(names, ["A", "B"]);
    assert_eq!(failed.as_deref(), Some("B"));
}

// --- made-up answers -------------------------------------------------------------------------

#[test]
fn made_up_failures_agree_with_their_timeline() {
    for arn in ["arn:x:ok-1", "arn:x:fail-1", "arn:x:run-1"] {
        let (detail, spans, failed) = mock_execution_detail(arn);
        assert_eq!(detail.status == ExecStatus::Failed, failed.is_some());
        for s in &spans {
            assert_eq!(s.failed, failed.as_deref() == Some(s.name.as_str()));
            assert!(!(s.failed && s.exited_ts.is_some()));
        }
    }
}

#[test]
fn made_up_answers_keep_one_waiting() {
    assert_eq!(mock_delay(&Action::LoadLogGroups { query: None }), 600);
    assert_eq!(mock_delay(&Action::LoadQueues), 500);
    assert_eq!(mock_delay(&Action::VerifyIdentity), 0);
    assert!(mock_reply(&Env::new("p", "r"), &Action::Quit).is_none());
}
