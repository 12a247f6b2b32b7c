use awsdeck::action::Action;
use awsdeck::key::{KeyCode, KeyEvent, KeyModifiers};
use awsdeck::message::{Message, QueueAttrsDto, QueueDto, QueueMessageDto};
use awsdeck::views::sqs::{Level, SqsView};
use awsdeck::views::DeckView;

fn queue(name: &str) -> QueueDto {
    QueueDto {
        name: name.to_string(),
        url: format!("https://sqs.us-east-1.amazonaws.com/000000000000/{name}"),
        is_fifo: name.ends_with(".fifo"),
    }
}

fn key(code: KeyCode) -> KeyEvent {
    KeyEvent::new(code, KeyModifiers::none())
}

#[test]
fn activate_requests_queues() {
    let mut v = SqsView::new();
    assert!(matches!(v.on_activate().as_slice(), [Action::LoadQueues]));
}

#[test]
fn ingests_queues_via_message() {
    let mut v = SqsView::new();
    v.on_message(&Message::QueuesLoaded(vec![
        queue("orders"),
        queue("pay.fifo"),
    ]));
    assert_eq!(v.visible_len(), 2);
}

#[test]
fn filter_narrows_queue_list() {
    let mut v = SqsView::new();
    v.on_message(&Message::QueuesLoaded(vec![
        queue("orders"),
        queue("orders-dlq"),
        queue("payments"),
    ]));
    v.set_filter("ORDERS");
    assert_eq!(v.visible_len(), 2);
}

#[test]
fn enter_drills_into_queue_detail() {
    let mut v = SqsView::new();
    v.on_message(&Message::QueuesLoaded(vec![
        queue("orders"),
        queue("payments"),
    ]));
    v.on_key(key(KeyCode::Down));
    let actions = v.on_key(key(KeyCode::Enter));
    match actions.as_slice() {
        [Action::LoadQueueDetail { queue_url }] => assert!(queue_url.ends_with("/payments")),
        other => panic!("se esperaba LoadQueueDetail, llegó {other:?}"),
    }
    assert!(matches!(v.level, Level::Detail { .. }));

    v.on_message(&Message::QueueDetailLoaded {
        queue_url: queue("payments").url,
        attrs: QueueAttrsDto {
            visible: Some(3),
            ..Default::default()
        },
        messages: vec![QueueMessageDto {
            id: "m1".into(),
            body: "hola".into(),
            sent_ts: None,
            receive_count: Some(1),
        }],
    });
    assert_eq!(v.visible_len(), 1);

    v.on_key(key(KeyCode::Esc));
    assert!(matches!(v.level, Level::Queues));
    assert_eq!(v.visible_len(), 2);
}

#[test]
fn sqs_esc_at_root_emits_back() {
    let mut v = SqsView::new();
    v.on_message(&Message::QueuesLoaded(vec![queue("orders")]));
    let actions = v.on_key(key(KeyCode::Esc));
    assert!(matches!(actions.as_slice(), [Action::Back]));
    assert!(
        matches!(v.level, Level::Queues),
        "esc en raíz no cambia nivel"
    );
}

#[test]
fn esc_in_detail_pops_to_queues_without_back() {
    let mut v = SqsView::new();
    v.on_message(&Message::QueuesLoaded(vec![queue("orders")]));
    v.on_key(key(KeyCode::Enter));
    assert!(matches!(v.level, Level::Detail { .. }));
    let actions = v.on_key(key(KeyCode::Esc));
    assert!(
        actions.is_empty(),
        "esc en el detalle se consume en la vista"
    );
    assert!(matches!(v.level, Level::Queues));
}

#[test]
fn sqs_esc_at_root_empty_list_emits_back() {
    let mut v = SqsView::new();
    let actions = v.on_key(key(KeyCode::Esc));
    assert!(matches!(actions.as_slice(), [Action::Back]));
}

#[test]
fn detail_from_wrong_queue_is_ignored() {
    let mut v = SqsView::new();
    v.on_message(&Message::QueuesLoaded(vec![queue("orders")]));
    v.on_key(key(KeyCode::Enter));
    v.on_message(&Message::QueueDetailLoaded {
        queue_url: queue("otra").url,
        attrs: QueueAttrsDto::default(),
        messages: vec![QueueMessageDto {
            id: "x".into(),
            body: "x".into(),
            sent_ts: None,
            receive_count: None,
        }],
    });
    assert_eq!(v.visible_len(), 0, "no se acepta detalle de otra cola");
}

#[test]
fn purge_key_emits_purge_action() {
    let mut v = SqsView::new();
    v.on_message(&Message::QueuesLoaded(vec![queue("orders")]));
    v.on_key(key(KeyCode::Enter));
    let actions = v.on_key(key(KeyCode::Char('p')));
    match actions.as_slice() {
        [Action::PurgeQueue { queue_url }] => assert!(queue_url.ends_with("/orders")),
        other => panic!("se esperaba PurgeQueue, llegó {other:?}"),
    }
}
