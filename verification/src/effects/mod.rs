//! What requests to AWS are made of and what their answers mean, without the requests themselves.

pub mod console;
pub mod history;
pub mod mock;
pub mod paging;
pub mod payload;

use vstd::prelude::*;

use crate::action::{Action, ActionText};
use crate::message::{
    Envelope, ErrorKind, EventBusDto, ExecutionDetailDto, ExecutionDto, FunctionDetailDto, FunctionDto, LogEventDto,
    LogGroupDto, LogStreamDto, Message, QueueAttrsDto, QueueDto, QueueMessageDto, RuleDetailDto, RuleDto,
    StateMachineDto, StateSpanDto, TargetDto, Text,
};

verus! {

/// What came of a request.
#[derive(Debug)]
pub enum Reply {
    LogGroups { groups: Vec<LogGroupDto>, more: bool },
    LogStreams { streams: Vec<LogStreamDto>, more: bool },
    /// Lines of a stream or of a whole group.
    LogEvents { events: Vec<LogEventDto>, next_token: Option<String> },
    Queues { queues: Vec<QueueDto> },
    QueueDetail { attrs: QueueAttrsDto, messages: Vec<QueueMessageDto> },
    Functions { functions: Vec<FunctionDto>, append: bool, more: bool, partial: bool },
    FunctionDetail { detail: FunctionDetailDto },
    StateMachines { machines: Vec<StateMachineDto>, more: bool },
    Executions { executions: Vec<ExecutionDto>, next_token: Option<String> },
    ExecutionDetail {
        detail: ExecutionDetailDto,
        history: Vec<StateSpanDto>,
        failed_state: Option<String>,
        history_more: bool,
    },
    EventBuses { buses: Vec<EventBusDto>, more: bool },
    Rules { rules: Vec<RuleDto>, more: bool },
    RuleDetail { detail: RuleDetailDto, targets: Vec<TargetDto> },
    Identity { account_id: String },
    /// A request that changes something was accepted.
    Done,
    /// The request failed: the causes, outermost first.
    Failed { causes: Vec<String> },
}

/// The name that a failure of a request is reported under; `None` for what is no request to AWS.
pub open spec fn operation_of(action: ActionText) -> Option<Text> {
    match action {
        Action::LoadLogGroups { .. } => Some("describe_log_groups"@),
        Action::LoadLogStreams { .. } => Some("describe_log_streams"@),
        Action::LoadLogEvents { .. } => Some("get_log_events"@),
        Action::LoadLogTail { .. } => Some("filter_log_events"@),
        Action::LoadQueues => Some("list_queues"@),
        Action::LoadQueueDetail { .. } => Some("queue detail"@),
        Action::PurgeQueue { .. } => Some("purge_queue"@),
        Action::RedriveDlq { .. } => Some("start_message_move_task"@),
        Action::LoadFunctions => Some("list_functions"@),
        Action::LoadFunctionDetail { .. } => Some("get_function"@),
        Action::LoadStateMachines => Some("list_state_machines"@),
        Action::LoadExecutions { .. } => Some("list_executions"@),
        Action::LoadExecutionDetail { .. } => Some("execution detail"@),
        Action::LoadMoreExecutionHistory { .. } => Some("execution detail"@),
        Action::RedriveExecution { .. } => Some("redrive_execution"@),
        Action::LoadEventBuses => Some("list_event_buses"@),
        Action::LoadRules { .. } => Some("list_rules"@),
        Action::LoadRuleDetail { .. } => Some("rule detail"@),
        Action::SendEvent { .. } => Some("put_events"@),
        Action::VerifyIdentity => Some("get_caller_identity"@),
        _ => None,
    }
}

/// The name that a failure of a request is reported under; `None` for what is no request to AWS.
pub fn operation(action: &Action) -> (r: Option<&'static str>)
    ensures
        r.deep_view() == operation_of(action.deep_view()),
{
    match action {
        Action::LoadLogGroups { .. } => Some("describe_log_groups"),
        Action::LoadLogStreams { .. } => Some("describe_log_streams"),
        Action::LoadLogEvents { .. } => Some("get_log_events"),
        Action::LoadLogTail { .. } => Some("filter_log_events"),
        Action::LoadQueues => Some("list_queues"),
        Action::LoadQueueDetail { .. } => Some("queue detail"),
        Action::PurgeQueue { .. } => Some("purge_queue"),
        Action::RedriveDlq { .. } => Some("start_message_move_task"),
        Action::LoadFunctions => Some("list_functions"),
        Action::LoadFunctionDetail { .. } => Some("get_function"),
        Action::LoadStateMachines => Some("list_state_machines"),
        Action::LoadExecutions { .. } => Some("list_executions"),
        Action::LoadExecutionDetail { .. } => Some("execution detail"),
        Action::LoadMoreExecutionHistory { .. } => Some("execution detail"),
        Action::RedriveExecution { .. } => Some("redrive_execution"),
        Action::LoadEventBuses => Some("list_event_buses"),
        Action::LoadRules { .. } => Some("list_rules"),
        Action::LoadRuleDetail { .. } => Some("rule detail"),
        Action::SendEvent { .. } => Some("put_events"),
        Action::VerifyIdentity => Some("get_caller_identity"),
        _ => None,
    }
}

/// The message that a reply makes for the action that asked for it: it repeats what was asked for,
/// and adds to a list where the action went on with one.  `None` where the reply does not answer
/// the action, and for failures, which are reported apart.
pub open spec fn message_for(action: Action, reply: Reply) -> Option<Message> {
    match (action, reply) {
        (Action::LoadLogGroups { query }, Reply::LogGroups { groups, more }) => Some(
            Message::LogGroupsLoaded { groups, query, more },
        ),
        (Action::LoadLogStreams { group }, Reply::LogStreams { streams, more }) => Some(
            Message::LogStreamsLoaded { group, streams, more },
        ),
        (Action::LoadLogEvents { group, stream, token }, Reply::LogEvents { events, next_token }) => Some(
            Message::LogEventsLoaded { group, stream, events, next_token, append: token is Some },
        ),
        (
            Action::LoadLogTail { group, pattern: _, window: _, token, generation },
            Reply::LogEvents { events, next_token },
        ) => Some(Message::LogTailLoaded { group, events, next_token, append: token is Some, generation }),
        (Action::LoadQueues, Reply::Queues { queues }) => Some(Message::QueuesLoaded(queues)),
        (Action::LoadQueueDetail { queue_url }, Reply::QueueDetail { attrs, messages }) => Some(
            Message::QueueDetailLoaded { queue_url, attrs, messages },
        ),
        (Action::PurgeQueue { queue_url }, Reply::Done) => Some(Message::QueuePurged { queue_url }),
        (Action::RedriveDlq { queue_url }, Reply::Done) => Some(Message::DlqRedriveStarted { queue_url }),
        (Action::LoadFunctions, Reply::Functions { functions, append, more, partial }) => Some(
            Message::FunctionsLoaded { functions, append, more, partial },
        ),
        (Action::LoadFunctionDetail { function_arn }, Reply::FunctionDetail { detail }) => Some(
            Message::FunctionDetailLoaded { function_arn, detail },
        ),
        (Action::LoadStateMachines, Reply::StateMachines { machines, more }) => Some(
            Message::StateMachinesLoaded { machines, more },
        ),
        (
            Action::LoadExecutions { machine_arn, status: _, token },
            Reply::Executions { executions, next_token },
        ) => Some(Message::ExecutionsLoaded { machine_arn, executions, next_token, append: token is Some }),
        (
            Action::LoadExecutionDetail { execution_arn },
            Reply::ExecutionDetail { detail, history, failed_state, history_more },
        ) => Some(Message::ExecutionDetailLoaded { execution_arn, detail, history, failed_state, history_more }),
        (
            Action::LoadMoreExecutionHistory { execution_arn, page_budget: _ },
            Reply::ExecutionDetail { detail, history, failed_state, history_more },
        ) => Some(Message::ExecutionDetailLoaded { execution_arn, detail, history, failed_state, history_more }),
        (Action::RedriveExecution { execution_arn }, Reply::Done) => Some(
            Message::ExecutionRedriven { execution_arn },
        ),
        (Action::LoadEventBuses, Reply::EventBuses { buses, more }) => Some(Message::EventBusesLoaded { buses, more }),
        (Action::LoadRules { event_bus_name }, Reply::Rules { rules, more }) => Some(
            Message::RulesLoaded { event_bus_name, rules, more },
        ),
        (Action::LoadRuleDetail { event_bus_name, rule_name }, Reply::RuleDetail { detail, targets }) => Some(
            Message::RuleDetailLoaded { event_bus_name, rule_name, detail, targets },
        ),
        (
            Action::SendEvent { event_bus_name, source: _, detail_type: _, detail: _, time: _, resources: _ },
            Reply::Done,
        ) => Some(Message::EventSent { event_bus_name }),
        (Action::VerifyIdentity, Reply::Identity { account_id }) => Some(Message::IdentityLoaded { account_id }),
        _ => None,
    }
}

/// The message that reports a failure: of a request by its causes, of a page of the web console
/// that the browser could not be opened.
pub open spec fn reports_failure(action: ActionText, causes: Seq<Text>, m: Option<Message>) -> bool {
    match operation_of(action) {
        Some(op) => m matches Some(Message::Error { kind, detail }) && kind == payload::kind_of_chain(causes) && detail@
            == payload::failure_text(op, causes),
        None => if action is OpenConsole {
            m matches Some(Message::Error { kind, detail }) && kind == ErrorKind::Other && detail@
                == "no se pudo abrir el navegador"@
        } else {
            m is None
        },
    }
}

/// The message that a reply of any kind makes for an action.
pub open spec fn is_answer(action: Action, reply: Reply, m: Option<Message>) -> bool {
    match reply {
        Reply::Failed { causes } => reports_failure(action.deep_view(), causes.deep_view(), m),
        _ => m == message_for(action, reply),
    }
}

/// The content of an envelope.
pub open spec fn content(e: Option<Envelope>) -> Option<Message> {
    match e {
        Some(envelope) => Some(envelope.message),
        None => None,
    }
}

fn failure(action: &Action, causes: &Vec<String>) -> (r: Option<Message>)
    ensures
        reports_failure(action.deep_view(), causes.deep_view(), r),
{
    match operation(action) {
        Some(op) => Some(payload::sdk_error(op, causes)),
        None => match action {
            Action::OpenConsole { .. } => Some(Message::err("no se pudo abrir el navegador")),
            _ => None,
        },
    }
}

fn reply_message(action: Action, reply: Reply) -> (r: Option<Message>)
    ensures
        is_answer(action, reply, r),
{
    match (action, reply) {
        (action, Reply::Failed { causes }) => failure(&action, &causes),
        (Action::LoadLogGroups { query }, Reply::LogGroups { groups, more }) => Some(
            Message::LogGroupsLoaded { groups, query, more },
        ),
        (Action::LoadLogStreams { group }, Reply::LogStreams { streams, more }) => Some(
            Message::LogStreamsLoaded { group, streams, more },
        ),
        (Action::LoadLogEvents { group, stream, token }, Reply::LogEvents { events, next_token }) => Some(
            Message::LogEventsLoaded { group, stream, events, next_token, append: token.is_some() },
        ),
        (
            Action::LoadLogTail { group, pattern: _, window: _, token, generation },
            Reply::LogEvents { events, next_token },
        ) => Some(Message::LogTailLoaded { group, events, next_token, append: token.is_some(), generation }),
        (Action::LoadQueues, Reply::Queues { queues }) => Some(Message::QueuesLoaded(queues)),
        (Action::LoadQueueDetail { queue_url }, Reply::QueueDetail { attrs, messages }) => Some(
            Message::QueueDetailLoaded { queue_url, attrs, messages },
        ),
        (Action::PurgeQueue { queue_url }, Reply::Done) => Some(Message::QueuePurged { queue_url }),
        (Action::RedriveDlq { queue_url }, Reply::Done) => Some(Message::DlqRedriveStarted { queue_url }),
        (Action::LoadFunctions, Reply::Functions { functions, append, more, partial }) => Some(
            Message::FunctionsLoaded { functions, append, more, partial },
        ),
        (Action::LoadFunctionDetail { function_arn }, Reply::FunctionDetail { detail }) => Some(
            Message::FunctionDetailLoaded { function_arn, detail },
        ),
        (Action::LoadStateMachines, Reply::StateMachines { machines, more }) => Some(
            Message::StateMachinesLoaded { machines, more },
        ),
        (
            Action::LoadExecutions { machine_arn, status: _, token },
            Reply::Executions { executions, next_token },
        ) => Some(Message::ExecutionsLoaded { machine_arn, executions, next_token, append: token.is_some() }),
        (
            Action::LoadExecutionDetail { execution_arn },
            Reply::ExecutionDetail { detail, history, failed_state, history_more },
        ) => Some(Message::ExecutionDetailLoaded { execution_arn, detail, history, failed_state, history_more }),
        (
            Action::LoadMoreExecutionHistory { execution_arn, page_budget: _ },
            Reply::ExecutionDetail { detail, history, failed_state, history_more },
        ) => Some(Message::ExecutionDetailLoaded { execution_arn, detail, history, failed_state, history_more }),
        (Action::RedriveExecution { execution_arn }, Reply::Done) => Some(
            Message::ExecutionRedriven { execution_arn },
        ),
        (Action::LoadEventBuses, Reply::EventBuses { buses, more }) => Some(Message::EventBusesLoaded { buses, more }),
        (Action::LoadRules { event_bus_name }, Reply::Rules { rules, more }) => Some(
            Message::RulesLoaded { event_bus_name, rules, more },
        ),
        (Action::LoadRuleDetail { event_bus_name, rule_name }, Reply::RuleDetail { detail, targets }) => Some(
            Message::RuleDetailLoaded { event_bus_name, rule_name, detail, targets },
        ),
        (
            Action::SendEvent { event_bus_name, source: _, detail_type: _, detail: _, time: _, resources: _ },
            Reply::Done,
        ) => Some(Message::EventSent { event_bus_name }),
        (Action::VerifyIdentity, Reply::Identity { account_id }) => Some(Message::IdentityLoaded { account_id }),
        _ => None,
    }
}

/// The answer to an action, marked with the epoch that the action was sent in.
pub fn answer(action: Action, reply: Reply, epoch: u64) -> (r: Option<Envelope>)
    ensures
        is_answer(action, reply, content(r)),
        r matches Some(e) ==> e.epoch == epoch,
{
    match reply_message(action, reply) {
        Some(message) => Some(Envelope::new(epoch, message)),
        None => None,
    }
}

/// Pages of the history that an action asks for.
pub open spec fn history_budget(action: ActionText) -> Option<usize> {
    match action {
        Action::LoadExecutionDetail { .. } => Some(paging::MAX_HISTORY_PAGES),
        Action::LoadMoreExecutionHistory { execution_arn: _, page_budget } => Some(page_budget),
        _ => None,
    }
}

/// Pages of the history that an action asks for: a fixed number at first, and as many as the view
/// asks for afterwards.
pub fn history_pages(action: &Action) -> (r: Option<usize>)
    ensures
        r == history_budget(action.deep_view()),
{
    match action {
        Action::LoadExecutionDetail { .. } => Some(paging::MAX_HISTORY_PAGES),
        Action::LoadMoreExecutionHistory { execution_arn: _, page_budget } => Some(*page_budget),
        _ => None,
    }
}

/// Every request that fails is reported: no failure is passed over in silence.
pub proof fn law_failures_are_reported(action: Action, causes: Vec<String>, m: Option<Message>)
    requires
        crate::action::leaves_app(action.deep_view()),
        is_answer(action, Reply::Failed { causes }, m),
    ensures
        m matches Some(Message::Error { .. }),
{
}

/// An answer says what it is about: it repeats the resource, the search or the query that it was
/// asked for, and holds what the reply brought.  It adds to what is on screen exactly where the
/// request went on with a page.
pub proof fn law_answers_are_about_what_was_asked(action: Action, reply: Reply, m: Message)
    requires
        is_answer(action, reply, Some(m)),
        !(reply is Failed),
    ensures
        match m {
            Message::LogGroupsLoaded { groups, query, more } => action == (Action::<String, Vec<String>>::LoadLogGroups { query }) && reply
                == (Reply::LogGroups { groups, more }),
            Message::LogStreamsLoaded { group, streams, more } => action == (Action::<String, Vec<String>>::LoadLogStreams { group }) && reply
                == (Reply::LogStreams { streams, more }),
            Message::LogEventsLoaded { group, stream, events, next_token, append } => (action matches Action::LoadLogEvents {
                group: g,
                stream: s,
                token,
            } && g == group && s == stream && append == (token is Some)) && reply == (Reply::LogEvents {
                events,
                next_token,
            }),
            Message::LogTailLoaded { group, events, next_token, append, generation } => (
            action matches Action::LoadLogTail { group: g, token, generation: asked, .. } && g == group && generation
                == asked && append == (token is Some)) && reply == (Reply::LogEvents { events, next_token }),
            Message::QueuesLoaded(queues) => action is LoadQueues && reply == (Reply::Queues { queues }),
            Message::QueueDetailLoaded { queue_url, attrs, messages } => action == (Action::<String, Vec<String>>::LoadQueueDetail { queue_url })
                && reply == (Reply::QueueDetail { attrs, messages }),
            Message::QueuePurged { queue_url } => action == (Action::<String, Vec<String>>::PurgeQueue { queue_url }) && reply is Done,
            Message::DlqRedriveStarted { queue_url } => action == (Action::<String, Vec<String>>::RedriveDlq { queue_url }) && reply is Done,
            Message::FunctionsLoaded { functions, append, more, partial } => action is LoadFunctions && reply
                == (Reply::Functions { functions, append, more, partial }),
            Message::FunctionDetailLoaded { function_arn, detail } => action == (Action::<String, Vec<String>>::LoadFunctionDetail {
                function_arn,
            }) && reply == (Reply::FunctionDetail { detail }),
            Message::StateMachinesLoaded { machines, more } => action is LoadStateMachines && reply
                == (Reply::StateMachines { machines, more }),
            Message::ExecutionsLoaded { machine_arn, executions, next_token, append } => (
            action matches Action::LoadExecutions { machine_arn: arn, token, .. } && arn == machine_arn && append == (
            token is Some)) && reply == (Reply::Executions { executions, next_token }),
            Message::ExecutionDetailLoaded { execution_arn, detail, history, failed_state, history_more } => (action
                == (Action::<String, Vec<String>>::LoadExecutionDetail { execution_arn }) || (action matches Action::LoadMoreExecutionHistory {
                execution_arn: arn,
                ..
            } && arn == execution_arn)) && reply == (Reply::ExecutionDetail {
                detail,
                history,
                failed_state,
                history_more,
            }),
            Message::ExecutionRedriven { execution_arn } => action == (Action::<String, Vec<String>>::RedriveExecution { execution_arn })
                && reply is Done,
            Message::EventBusesLoaded { buses, more } => action is LoadEventBuses && reply == (Reply::EventBuses {
                buses,
                more,
            }),
            Message::RulesLoaded { event_bus_name, rules, more } => action == (Action::<String, Vec<String>>::LoadRules { event_bus_name })
                && reply == (Reply::Rules { rules, more }),
            Message::RuleDetailLoaded { event_bus_name, rule_name, detail, targets } => action
                == (Action::<String, Vec<String>>::LoadRuleDetail { event_bus_name, rule_name }) && reply == (Reply::RuleDetail {
                detail,
                targets,
            }),
            Message::EventSent { event_bus_name } => (action matches Action::SendEvent { event_bus_name: bus, .. } && bus
                == event_bus_name) && reply is Done,
            Message::IdentityLoaded { account_id } => action is VerifyIdentity && reply == (Reply::Identity {
                account_id,
            }),
            Message::Error { .. } => false,
        },
{
}

/// Every request has a reply that it is answered by.
pub proof fn law_fitting_replies_are_answered(action: Action, reply: Reply, m: Option<Message>)
    requires
        is_answer(action, reply, m),
        match action {
            Action::LoadLogGroups { .. } => reply is LogGroups,
            Action::LoadLogStreams { .. } => reply is LogStreams,
            Action::LoadLogEvents { .. } => reply is LogEvents,
            Action::LoadLogTail { .. } => reply is LogEvents,
            Action::LoadQueues => reply is Queues,
            Action::LoadQueueDetail { .. } => reply is QueueDetail,
            Action::LoadFunctions => reply is Functions,
            Action::LoadFunctionDetail { .. } => reply is FunctionDetail,
            Action::LoadStateMachines => reply is StateMachines,
            Action::LoadExecutions { .. } => reply is Executions,
            Action::LoadExecutionDetail { .. } => reply is ExecutionDetail,
            Action::LoadMoreExecutionHistory { .. } => reply is ExecutionDetail,
            Action::LoadEventBuses => reply is EventBuses,
            Action::LoadRules { .. } => reply is Rules,
            Action::LoadRuleDetail { .. } => reply is RuleDetail,
            Action::VerifyIdentity => reply is Identity,
            Action::PurgeQueue { .. } => reply is Done,
            Action::RedriveDlq { .. } => reply is Done,
            Action::RedriveExecution { .. } => reply is Done,
            Action::SendEvent { .. } => reply is Done,
            _ => false,
        },
    ensures
        m is Some,
        !(m->0 is Error),
{
}

/// A failure is reported under the operation that failed, with the class that its causes tell of.
pub proof fn law_failures_keep_their_class(action: Action, causes: Vec<String>, m: Option<Message>, op: Text)
    requires
        is_answer(action, Reply::Failed { causes }, m),
        operation_of(action.deep_view()) == Some(op),
    ensures
        m matches Some(Message::Error { kind, detail }) && kind == crate::message::kind_of(
            crate::text::joined(causes.deep_view(), ": "@),
        ) && crate::text::has_prefix(detail@, op + ": "@),
{
    if let Some(Message::Error { kind, detail }) = m {
        let head = op + ": "@;
        assert(detail@.take(head.len() as int) =~= head);
    }
}

/// The history of an execution is asked for ten pages at first, and for as many as are wanted
/// afterwards.
pub proof fn law_pages_of_the_history(execution_arn: Text, page_budget: usize)
    ensures
        history_budget(ActionText::LoadExecutionDetail { execution_arn }) == Some(10usize),
        history_budget(ActionText::LoadMoreExecutionHistory { execution_arn, page_budget }) == Some(page_budget),
{
}

/// A failure is reported under the name of the operation that was asked for.
pub proof fn law_failures_name_their_operation(a: ActionText)
    ensures
        a is LoadLogGroups ==> operation_of(a) == Some("describe_log_groups"@),
        a is LoadLogStreams ==> operation_of(a) == Some("describe_log_streams"@),
        a is LoadLogEvents ==> operation_of(a) == Some("get_log_events"@),
        a is LoadLogTail ==> operation_of(a) == Some("filter_log_events"@),
        a is LoadQueues ==> operation_of(a) == Some("list_queues"@),
        a is LoadQueueDetail ==> operation_of(a) == Some("queue detail"@),
        a is PurgeQueue ==> operation_of(a) == Some("purge_queue"@),
        a is RedriveDlq ==> operation_of(a) == Some("start_message_move_task"@),
        a is LoadFunctions ==> operation_of(a) == Some("list_functions"@),
        a is LoadFunctionDetail ==> operation_of(a) == Some("get_function"@),
        a is LoadStateMachines ==> operation_of(a) == Some("list_state_machines"@),
        a is LoadExecutions ==> operation_of(a) == Some("list_executions"@),
        a is LoadExecutionDetail || a is LoadMoreExecutionHistory ==> operation_of(a) == Some("execution detail"@),
        a is RedriveExecution ==> operation_of(a) == Some("redrive_execution"@),
        a is LoadEventBuses ==> operation_of(a) == Some("list_event_buses"@),
        a is LoadRules ==> operation_of(a) == Some("list_rules"@),
        a is LoadRuleDetail ==> operation_of(a) == Some("rule detail"@),
        a is SendEvent ==> operation_of(a) == Some("put_events"@),
        a is VerifyIdentity ==> operation_of(a) == Some("get_caller_identity"@),
        operation_of(a) is Some || a is OpenConsole <==> crate::action::leaves_app(a),
{
}

/// A browser that cannot be opened is told of, and nothing is told of what is no request.
pub proof fn law_a_missing_browser_is_told(a: ActionText, causes: Seq<Text>, m: Option<Message>)
    requires
        reports_failure(a, causes, m),
    ensures
        a is OpenConsole ==> (m matches Some(Message::Error { kind, detail }) && kind == ErrorKind::Other && detail@
            == "no se pudo abrir el navegador"@),
        !crate::action::leaves_app(a) ==> m is None,
{
}

} // verus!
