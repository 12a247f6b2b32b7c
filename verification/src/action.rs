//! What the views and the user want to happen.
//!
//! Like the records of [`crate::message`], an action is generic in its text type: `String` when it
//! runs, `Seq<char>` in contracts.

use vstd::prelude::*;

use crate::aws::context::Env;
use crate::message::{ExecStatus, LogWindow, Text};

verus! {

/// Where a view that is opened from another one should start.  The application hands it on
/// without looking inside.
#[derive(Debug)]
pub enum ViewContext<S = String> {
    /// The lines of a log group over a span of time.
    LogGroupTail { group: S, window: LogWindow },
    /// A favourite or recent resource; the key means something to its view alone.
    Favorite { key: S },
}

impl DeepView for ViewContext<String> {
    type V = ViewContext<Text>;

    open spec fn deep_view(&self) -> ViewContext<Text> {
        match self {
            ViewContext::LogGroupTail { group, window } => ViewContext::LogGroupTail { group: group@, window: *window },
            ViewContext::Favorite { key } => ViewContext::Favorite { key: key@ },
        }
    }
}

/// A resource that has a page in the AWS web console.
#[derive(Debug)]
pub enum ConsoleTarget<S = String> {
    LogGroup { name: S },
    SqsQueue { url: S },
    LambdaFunction { name: S },
    StateMachine { arn: S },
    Execution { arn: S },
    EventBus { name: S },
    Rule { event_bus: S, name: S },
}

impl DeepView for ConsoleTarget<String> {
    type V = ConsoleTarget<Text>;

    open spec fn deep_view(&self) -> ConsoleTarget<Text> {
        match self {
            ConsoleTarget::LogGroup { name } => ConsoleTarget::LogGroup { name: name@ },
            ConsoleTarget::SqsQueue { url } => ConsoleTarget::SqsQueue { url: url@ },
            ConsoleTarget::LambdaFunction { name } => ConsoleTarget::LambdaFunction { name: name@ },
            ConsoleTarget::StateMachine { arn } => ConsoleTarget::StateMachine { arn: arn@ },
            ConsoleTarget::Execution { arn } => ConsoleTarget::Execution { arn: arn@ },
            ConsoleTarget::EventBus { name } => ConsoleTarget::EventBus { name: name@ },
            ConsoleTarget::Rule { event_bus, name } => ConsoleTarget::Rule { event_bus: event_bus@, name: name@ },
        }
    }
}

/// An intention.  The application carries out those that concern itself and passes the rest on to
/// AWS, the mutating ones only behind the write mode and a confirmation.
#[derive(Debug)]
pub enum Action<S = String, L = Vec<String>> {
    // --- carried out by the application ---
    Quit,
    /// Activate the view with this id.
    ActivateView(S),
    /// Activate the view with this id and let it start from `context`.
    ActivateViewWithContext { id: S, context: ViewContext<S> },
    /// One level up from the root of a view.
    Back,
    /// Forget the filter: the view went to another level.
    ClearFilter,
    /// Work against another environment.
    SwitchEnv(Env<S>),
    /// Put text on the clipboard.
    CopyToClipboard { text: S },
    /// Remember a resource among the recent ones of the active view.
    RecordRecent { key: S, label: S },
    // --- passed on ---
    /// Open a resource in the web console.
    OpenConsole { target: ConsoleTarget<S> },
    /// Ask which account the credentials belong to.
    VerifyIdentity,
    LoadLogGroups { query: Option<S> },
    LoadLogStreams { group: S },
    /// Lines of a stream; with a token, those older than a page already loaded.
    LoadLogEvents { group: S, stream: S, token: Option<S> },
    /// Lines of a group over a span of time; with a token, the continuation of a page.
    LoadLogTail {
        group: S,
        pattern: Option<S>,
        window: LogWindow,
        token: Option<S>,
        generation: u64,
    },
    LoadQueues,
    LoadQueueDetail { queue_url: S },
    LoadFunctions,
    LoadFunctionDetail { function_arn: S },
    LoadStateMachines,
    LoadExecutions { machine_arn: S, status: Option<ExecStatus>, token: Option<S> },
    LoadExecutionDetail { execution_arn: S },
    /// The detail of an execution with up to `page_budget` pages of its history.
    LoadMoreExecutionHistory { execution_arn: S, page_budget: usize },
    LoadEventBuses,
    LoadRules { event_bus_name: S },
    LoadRuleDetail { event_bus_name: S, rule_name: S },
    // --- mutating ---
    /// Delete every message of a queue.
    PurgeQueue { queue_url: S },
    /// Move the messages of a dead-letter queue back to where they came from.
    RedriveDlq { queue_url: S },
    /// Start a failed execution again from the state that failed.
    RedriveExecution { execution_arn: S },
    /// Publish an event.
    SendEvent {
        event_bus_name: S,
        source: S,
        detail_type: S,
        detail: S,
        time: Option<i64>,
        resources: L,
    },
}

/// An action as contracts spell it.
pub type ActionText = Action<Text, Seq<Text>>;

impl DeepView for Action<String, Vec<String>> {
    type V = ActionText;

    open spec fn deep_view(&self) -> ActionText {
        match self {
            Action::Quit => ActionText::Quit,
            Action::ActivateView(id) => ActionText::ActivateView(id@),
            Action::ActivateViewWithContext { id, context } => ActionText::ActivateViewWithContext {
                id: id@,
                context: context.deep_view(),
            },
            Action::Back => ActionText::Back,
            Action::ClearFilter => ActionText::ClearFilter,
            Action::SwitchEnv(env) => ActionText::SwitchEnv(env.deep_view()),
            Action::CopyToClipboard { text } => ActionText::CopyToClipboard { text: text@ },
            Action::RecordRecent { key, label } => ActionText::RecordRecent { key: key@, label: label@ },
            Action::OpenConsole { target } => ActionText::OpenConsole { target: target.deep_view() },
            Action::VerifyIdentity => ActionText::VerifyIdentity,
            Action::LoadLogGroups { query } => ActionText::LoadLogGroups { query: query.deep_view() },
            Action::LoadLogStreams { group } => ActionText::LoadLogStreams { group: group@ },
            Action::LoadLogEvents { group, stream, token } => ActionText::LoadLogEvents {
                group: group@,
                stream: stream@,
                token: token.deep_view(),
            },
            Action::LoadLogTail { group, pattern, window, token, generation } => ActionText::LoadLogTail {
                group: group@,
                pattern: pattern.deep_view(),
                window: *window,
                token: token.deep_view(),
                generation: *generation,
            },
            Action::LoadQueues => ActionText::LoadQueues,
            Action::LoadQueueDetail { queue_url } => ActionText::LoadQueueDetail { queue_url: queue_url@ },
            Action::LoadFunctions => ActionText::LoadFunctions,
            Action::LoadFunctionDetail { function_arn } => ActionText::LoadFunctionDetail {
                function_arn: function_arn@,
            },
            Action::LoadStateMachines => ActionText::LoadStateMachines,
            Action::LoadExecutions { machine_arn, status, token } => ActionText::LoadExecutions {
                machine_arn: machine_arn@,
                status: *status,
                token: token.deep_view(),
            },
            Action::LoadExecutionDetail { execution_arn } => ActionText::LoadExecutionDetail {
                execution_arn: execution_arn@,
            },
            Action::LoadMoreExecutionHistory { execution_arn, page_budget } => ActionText::LoadMoreExecutionHistory {
                execution_arn: execution_arn@,
                page_budget: *page_budget,
            },
            Action::LoadEventBuses => ActionText::LoadEventBuses,
            Action::LoadRules { event_bus_name } => ActionText::LoadRules { event_bus_name: event_bus_name@ },
            Action::LoadRuleDetail { event_bus_name, rule_name } => ActionText::LoadRuleDetail {
                event_bus_name: event_bus_name@,
                rule_name: rule_name@,
            },
            Action::PurgeQueue { queue_url } => ActionText::PurgeQueue { queue_url: queue_url@ },
            Action::RedriveDlq { queue_url } => ActionText::RedriveDlq { queue_url: queue_url@ },
            Action::RedriveExecution { execution_arn } => ActionText::RedriveExecution {
                execution_arn: execution_arn@,
            },
            Action::SendEvent { event_bus_name, source, detail_type, detail, time, resources } => ActionText::SendEvent {
                event_bus_name: event_bus_name@,
                source: source@,
                detail_type: detail_type@,
                detail: detail@,
                time: *time,
                resources: resources.deep_view(),
            },
        }
    }
}

/// The actions that change something on AWS.
pub open spec fn mutates(action: ActionText) -> bool {
    action is PurgeQueue || action is RedriveDlq || action is RedriveExecution || action is SendEvent
}

/// The actions that leave the application: requests to AWS, and pages of the web console.
pub open spec fn leaves_app(action: ActionText) -> bool {
    !(action is Quit || action is ActivateView || action is ActivateViewWithContext || action is Back
        || action is ClearFilter || action is SwitchEnv || action is CopyToClipboard || action is RecordRecent)
}

/// Whether the action changes something on AWS, so that it needs the write mode and a
/// confirmation.
pub fn is_mutating(action: &Action) -> (r: bool)
    ensures
        r == mutates(action.deep_view()),
{
    match action {
        Action::PurgeQueue { .. } | Action::RedriveDlq { .. } | Action::RedriveExecution { .. } | Action::SendEvent {
            ..
        } => true,
        _ => false,
    }
}

/// Emptying or redriving a queue, redriving an execution and sending an event change something on
/// AWS, and so they leave the application; nothing that only reads or shows does.
pub proof fn law_what_changes_something(a: ActionText)
    ensures
        a is PurgeQueue ==> mutates(a),
        a is RedriveDlq ==> mutates(a),
        a is RedriveExecution ==> mutates(a),
        a is SendEvent ==> mutates(a),
        mutates(a) ==> leaves_app(a),
        a is LoadLogGroups || a is LoadLogStreams || a is LoadLogEvents || a is LoadLogTail ==> !mutates(a),
        a is LoadQueues || a is LoadQueueDetail || a is LoadFunctions || a is LoadFunctionDetail ==> !mutates(a),
        a is LoadStateMachines || a is LoadExecutions || a is LoadExecutionDetail ==> !mutates(a),
        a is LoadMoreExecutionHistory || a is LoadEventBuses || a is LoadRules || a is LoadRuleDetail ==> !mutates(a),
        a is VerifyIdentity || a is OpenConsole || a is CopyToClipboard || a is RecordRecent ==> !mutates(a),
        a is Quit || a is Back || a is ClearFilter || a is ActivateView || a is SwitchEnv ==> !mutates(a),
{
}

/// What is read from AWS, who one is there and the pages of its console are asked for outside; moving
/// between views, environments and filters is not.
pub proof fn law_what_is_asked_outside(a: ActionText)
    ensures
        a is LoadLogGroups || a is LoadLogStreams || a is LoadLogEvents || a is LoadLogTail ==> leaves_app(a),
        a is LoadQueues || a is LoadQueueDetail || a is LoadFunctions || a is LoadFunctionDetail ==> leaves_app(a),
        a is LoadStateMachines || a is LoadExecutions || a is LoadExecutionDetail ==> leaves_app(a),
        a is LoadMoreExecutionHistory || a is LoadEventBuses || a is LoadRules || a is LoadRuleDetail ==> leaves_app(a),
        a is VerifyIdentity || a is OpenConsole ==> leaves_app(a),
        a is Quit || a is Back || a is ClearFilter || a is ActivateView || a is ActivateViewWithContext ==> !leaves_app(a),
        a is SwitchEnv || a is CopyToClipboard || a is RecordRecent ==> !leaves_app(a),
{
}

} // verus!
