//! Results that come back from AWS, and the plain records that travel to the views.
//!
//! Every record is generic in its text type: `String` when it runs, `Seq<char>` in contracts that
//! spell a record out.  The deep view of a record is the same record over `Seq<char>`.

use vstd::prelude::*;

use crate::text;

verus! {

/// A text of the model.
pub type Text = Seq<char>;

// --- CloudWatch Logs -------------------------------------------------------------------------

/// A log group.
#[derive(Debug)]
pub struct LogGroupDto<S = String> {
    pub name: S,
    pub stored_bytes: Option<i64>,
    pub arn: Option<S>,
}

impl DeepView for LogGroupDto<String> {
    type V = LogGroupDto<Text>;

    open spec fn deep_view(&self) -> LogGroupDto<Text> {
        LogGroupDto { name: self.name@, stored_bytes: self.stored_bytes, arn: self.arn.deep_view() }
    }
}

impl Clone for LogGroupDto<String> {
    fn clone(&self) -> (r: Self)
        ensures
            r == *self,
    {
        LogGroupDto { name: self.name.clone(), stored_bytes: self.stored_bytes, arn: self.arn.clone() }
    }
}

/// A log stream of a log group; `last_event_ts` in milliseconds since the epoch.
#[derive(Debug)]
pub struct LogStreamDto<S = String> {
    pub name: S,
    pub last_event_ts: Option<i64>,
}

impl DeepView for LogStreamDto<String> {
    type V = LogStreamDto<Text>;

    open spec fn deep_view(&self) -> LogStreamDto<Text> {
        LogStreamDto { name: self.name@, last_event_ts: self.last_event_ts }
    }
}

impl Clone for LogStreamDto<String> {
    fn clone(&self) -> (r: Self)
        ensures
            r == *self,
    {
        LogStreamDto { name: self.name.clone(), last_event_ts: self.last_event_ts }
    }
}

/// A log line.  `stream` is set only where lines of several streams are mixed.
#[derive(Debug)]
pub struct LogEventDto<S = String> {
    pub ts: Option<i64>,
    pub message: S,
    pub stream: Option<S>,
}

impl DeepView for LogEventDto<String> {
    type V = LogEventDto<Text>;

    open spec fn deep_view(&self) -> LogEventDto<Text> {
        LogEventDto { ts: self.ts, message: self.message@, stream: self.stream.deep_view() }
    }
}

impl Clone for LogEventDto<String> {
    fn clone(&self) -> (r: Self)
        ensures
            r == *self,
    {
        LogEventDto { ts: self.ts, message: self.message.clone(), stream: self.stream.clone() }
    }
}

/// A span of time, without a clock: the views only describe it.
#[derive(Clone, Copy, Debug, PartialEq, Eq, Structural)]
pub enum LogWindow {
    /// The last `n` milliseconds.
    Last(i64),
    /// From one instant to another, or until now where `to` is `None`.
    Range { from: i64, to: Option<i64> },
}

// --- SQS -------------------------------------------------------------------------------------

/// A queue, as it is listed.
#[derive(Debug)]
pub struct QueueDto<S = String> {
    pub name: S,
    pub url: S,
    pub is_fifo: bool,
}

impl DeepView for QueueDto<String> {
    type V = QueueDto<Text>;

    open spec fn deep_view(&self) -> QueueDto<Text> {
        QueueDto { name: self.name@, url: self.url@, is_fifo: self.is_fifo }
    }
}

impl Clone for QueueDto<String> {
    fn clone(&self) -> (r: Self)
        ensures
            r == *self,
    {
        QueueDto { name: self.name.clone(), url: self.url.clone(), is_fifo: self.is_fifo }
    }
}

/// Attributes of a queue.  `dlq_sources` lists the queues that use this one as their dead-letter
/// queue.
#[derive(Debug)]
pub struct QueueAttrsDto<S = String, L = Vec<String>> {
    pub visible: Option<i64>,
    pub in_flight: Option<i64>,
    pub delayed: Option<i64>,
    pub arn: Option<S>,
    pub dlq_target_arn: Option<S>,
    pub max_receive_count: Option<i64>,
    pub dlq_sources: L,
}

impl DeepView for QueueAttrsDto<String, Vec<String>> {
    type V = QueueAttrsDto<Text, Seq<Text>>;

    open spec fn deep_view(&self) -> QueueAttrsDto<Text, Seq<Text>> {
        QueueAttrsDto {
            visible: self.visible,
            in_flight: self.in_flight,
            delayed: self.delayed,
            arn: self.arn.deep_view(),
            dlq_target_arn: self.dlq_target_arn.deep_view(),
            max_receive_count: self.max_receive_count,
            dlq_sources: self.dlq_sources.deep_view(),
        }
    }
}

impl View for QueueAttrsDto<String, Vec<String>> {
    type V = QueueAttrsDto<String, Seq<String>>;

    open spec fn view(&self) -> QueueAttrsDto<String, Seq<String>> {
        QueueAttrsDto {
            visible: self.visible,
            in_flight: self.in_flight,
            delayed: self.delayed,
            arn: self.arn,
            dlq_target_arn: self.dlq_target_arn,
            max_receive_count: self.max_receive_count,
            dlq_sources: self.dlq_sources@,
        }
    }
}

impl Clone for QueueAttrsDto<String, Vec<String>> {
    fn clone(&self) -> (r: Self)
        ensures
            r@ == self@,
    {
        let sources = self.dlq_sources.clone();
        assert(sources@ =~= self.dlq_sources@);
        QueueAttrsDto {
            visible: self.visible,
            in_flight: self.in_flight,
            delayed: self.delayed,
            arn: self.arn.clone(),
            dlq_target_arn: self.dlq_target_arn.clone(),
            max_receive_count: self.max_receive_count,
            dlq_sources: sources,
        }
    }
}

impl Default for QueueAttrsDto<String, Vec<String>> {
    fn default() -> (r: Self)
        ensures
            r.deep_view() == (QueueAttrsDto::<Text, Seq<Text>> {
                visible: None,
                in_flight: None,
                delayed: None,
                arn: None,
                dlq_target_arn: None,
                max_receive_count: None,
                dlq_sources: Seq::empty(),
            }),
    {
        let sources: Vec<String> = Vec::new();
        assert(sources.deep_view() =~= Seq::<Text>::empty());
        QueueAttrsDto {
            visible: None,
            in_flight: None,
            delayed: None,
            arn: None,
            dlq_target_arn: None,
            max_receive_count: None,
            dlq_sources: sources,
        }
    }
}

impl QueueAttrsDto<String, Vec<String>> {
    /// The queue has a dead-letter queue configured.
    pub fn has_dlq(&self) -> (r: bool)
        ensures
            r == (self.deep_view().dlq_target_arn is Some),
    {
        self.dlq_target_arn.is_some()
    }

    /// The queue is the dead-letter queue of others.
    pub fn is_dlq(&self) -> (r: bool)
        ensures
            r == (self.deep_view().dlq_sources.len() > 0),
    {
        self.dlq_sources.len() > 0
    }
}

/// A message that was read from a queue without removing it.
#[derive(Debug)]
pub struct QueueMessageDto<S = String> {
    pub id: S,
    pub body: S,
    pub sent_ts: Option<i64>,
    pub receive_count: Option<i64>,
}

impl DeepView for QueueMessageDto<String> {
    type V = QueueMessageDto<Text>;

    open spec fn deep_view(&self) -> QueueMessageDto<Text> {
        QueueMessageDto {
            id: self.id@,
            body: self.body@,
            sent_ts: self.sent_ts,
            receive_count: self.receive_count,
        }
    }
}

impl Clone for QueueMessageDto<String> {
    fn clone(&self) -> (r: Self)
        ensures
            r == *self,
    {
        QueueMessageDto {
            id: self.id.clone(),
            body: self.body.clone(),
            sent_ts: self.sent_ts,
            receive_count: self.receive_count,
        }
    }
}

// --- Lambda ----------------------------------------------------------------------------------

/// A Lambda function, as it is listed.
#[derive(Debug)]
pub struct FunctionDto<S = String> {
    pub name: S,
    pub arn: S,
    pub runtime: Option<S>,
    pub last_modified: Option<S>,
    pub memory: Option<i32>,
}

impl DeepView for FunctionDto<String> {
    type V = FunctionDto<Text>;

    open spec fn deep_view(&self) -> FunctionDto<Text> {
        FunctionDto {
            name: self.name@,
            arn: self.arn@,
            runtime: self.runtime.deep_view(),
            last_modified: self.last_modified.deep_view(),
            memory: self.memory,
        }
    }
}

impl Clone for FunctionDto<String> {
    fn clone(&self) -> (r: Self)
        ensures
            r == *self,
    {
        FunctionDto {
            name: self.name.clone(),
            arn: self.arn.clone(),
            runtime: self.runtime.clone(),
            last_modified: self.last_modified.clone(),
            memory: self.memory,
        }
    }
}

/// Configuration of a Lambda function; `env` holds its environment variables by key.
#[derive(Debug)]
pub struct FunctionDetailDto<S = String, L = Vec<String>, P = Vec<(String, String)>> {
    pub runtime: Option<S>,
    pub handler: Option<S>,
    pub memory: Option<i32>,
    pub timeout: Option<i32>,
    pub code_size: Option<i64>,
    pub last_modified: Option<S>,
    pub role: Option<S>,
    pub description: Option<S>,
    pub layers: L,
    pub tracing: Option<S>,
    pub dlq_target: Option<S>,
    pub env: P,
}

impl DeepView for FunctionDetailDto<String, Vec<String>, Vec<(String, String)>> {
    type V = FunctionDetailDto<Text, Seq<Text>, Seq<(Text, Text)>>;

    open spec fn deep_view(&self) -> FunctionDetailDto<Text, Seq<Text>, Seq<(Text, Text)>> {
        FunctionDetailDto {
            runtime: self.runtime.deep_view(),
            handler: self.handler.deep_view(),
            memory: self.memory,
            timeout: self.timeout,
            code_size: self.code_size,
            last_modified: self.last_modified.deep_view(),
            role: self.role.deep_view(),
            description: self.description.deep_view(),
            layers: self.layers.deep_view(),
            tracing: self.tracing.deep_view(),
            dlq_target: self.dlq_target.deep_view(),
            env: self.env.deep_view(),
        }
    }
}

/// A copy of key/value pairs.
fn clone_pairs(pairs: &Vec<(String, String)>) -> (r: Vec<(String, String)>)
    ensures
        r@ == pairs@,
{
    let mut out: Vec<(String, String)> = Vec::new();
    let mut i: usize = 0;
    while i < pairs.len()
        invariant
            i <= pairs@.len(),
            out@ == pairs@.take(i as int),
        decreases pairs@.len() - i,
    {
        out.push((pairs[i].0.clone(), pairs[i].1.clone()));
        i = i + 1;
        proof {
            assert(out@ =~= pairs@.take(i as int));
        }
    }
    proof {
        assert(pairs@.take(pairs@.len() as int) =~= pairs@);
    }
    out
}

impl View for FunctionDetailDto<String, Vec<String>, Vec<(String, String)>> {
    type V = FunctionDetailDto<String, Seq<String>, Seq<(String, String)>>;

    open spec fn view(&self) -> FunctionDetailDto<String, Seq<String>, Seq<(String, String)>> {
        FunctionDetailDto {
            runtime: self.runtime,
            handler: self.handler,
            memory: self.memory,
            timeout: self.timeout,
            code_size: self.code_size,
            last_modified: self.last_modified,
            role: self.role,
            description: self.description,
            layers: self.layers@,
            tracing: self.tracing,
            dlq_target: self.dlq_target,
            env: self.env@,
        }
    }
}

impl Clone for FunctionDetailDto<String, Vec<String>, Vec<(String, String)>> {
    fn clone(&self) -> (r: Self)
        ensures
            r@ == self@,
    {
        let layers = self.layers.clone();
        assert(layers@ =~= self.layers@);
        FunctionDetailDto {
            runtime: self.runtime.clone(),
            handler: self.handler.clone(),
            memory: self.memory,
            timeout: self.timeout,
            code_size: self.code_size,
            last_modified: self.last_modified.clone(),
            role: self.role.clone(),
            description: self.description.clone(),
            layers,
            tracing: self.tracing.clone(),
            dlq_target: self.dlq_target.clone(),
            env: clone_pairs(&self.env),
        }
    }
}

// --- Step Functions --------------------------------------------------------------------------

/// Type of a state machine.
#[derive(Clone, Copy, Debug, PartialEq, Eq, Structural)]
pub enum MachineType {
    Standard,
    Express,
}

/// Status of an execution.
#[derive(Clone, Copy, Debug, PartialEq, Eq, Structural)]
pub enum ExecStatus {
    Running,
    Succeeded,
    Failed,
    TimedOut,
    Aborted,
    /// Queued for a redrive.
    PendingRedrive,
}

impl ExecStatus {
    /// The execution ended in failure.
    pub open spec fn ended_in_failure(self) -> bool {
        self == ExecStatus::Failed || self == ExecStatus::TimedOut || self == ExecStatus::Aborted
    }

    /// The name AWS gives the status.
    pub open spec fn name(self) -> Text {
        match self {
            ExecStatus::Running => "RUNNING"@,
            ExecStatus::Succeeded => "SUCCEEDED"@,
            ExecStatus::Failed => "FAILED"@,
            ExecStatus::TimedOut => "TIMED_OUT"@,
            ExecStatus::Aborted => "ABORTED"@,
            ExecStatus::PendingRedrive => "PENDING_REDRIVE"@,
        }
    }

    /// Only executions that ended in failure can be redriven.
    pub fn is_redrivable(self) -> (r: bool)
        ensures
            r == self.ended_in_failure(),
    {
        match self {
            ExecStatus::Failed | ExecStatus::TimedOut | ExecStatus::Aborted => true,
            _ => false,
        }
    }

    pub fn label(self) -> (r: &'static str)
        ensures
            r@ == self.name(),
    {
        match self {
            ExecStatus::Running => "RUNNING",
            ExecStatus::Succeeded => "SUCCEEDED",
            ExecStatus::Failed => "FAILED",
            ExecStatus::TimedOut => "TIMED_OUT",
            ExecStatus::Aborted => "ABORTED",
            ExecStatus::PendingRedrive => "PENDING_REDRIVE",
        }
    }
}

/// A state machine, as it is listed.
#[derive(Debug)]
pub struct StateMachineDto<S = String> {
    pub arn: S,
    pub name: S,
    pub machine_type: MachineType,
    pub created_ts: Option<i64>,
}

impl DeepView for StateMachineDto<String> {
    type V = StateMachineDto<Text>;

    open spec fn deep_view(&self) -> StateMachineDto<Text> {
        StateMachineDto {
            arn: self.arn@,
            name: self.name@,
            machine_type: self.machine_type,
            created_ts: self.created_ts,
        }
    }
}

impl Clone for StateMachineDto<String> {
    fn clone(&self) -> (r: Self)
        ensures
            r == *self,
    {
        StateMachineDto {
            arn: self.arn.clone(),
            name: self.name.clone(),
            machine_type: self.machine_type,
            created_ts: self.created_ts,
        }
    }
}

/// An execution, as it is listed.  Without `stop_ts` it is still running.
#[derive(Debug)]
pub struct ExecutionDto<S = String> {
    pub arn: S,
    pub name: S,
    pub status: ExecStatus,
    pub start_ts: Option<i64>,
    pub stop_ts: Option<i64>,
}

impl DeepView for ExecutionDto<String> {
    type V = ExecutionDto<Text>;

    open spec fn deep_view(&self) -> ExecutionDto<Text> {
        ExecutionDto {
            arn: self.arn@,
            name: self.name@,
            status: self.status,
            start_ts: self.start_ts,
            stop_ts: self.stop_ts,
        }
    }
}

impl Clone for ExecutionDto<String> {
    fn clone(&self) -> (r: Self)
        ensures
            r == *self,
    {
        ExecutionDto {
            arn: self.arn.clone(),
            name: self.name.clone(),
            status: self.status,
            start_ts: self.start_ts,
            stop_ts: self.stop_ts,
        }
    }
}

/// Detail of an execution.
#[derive(Debug)]
pub struct ExecutionDetailDto<S = String> {
    pub status: ExecStatus,
    pub start_ts: Option<i64>,
    pub stop_ts: Option<i64>,
    pub input: Option<S>,
    pub output: Option<S>,
    pub error: Option<S>,
    pub cause: Option<S>,
    pub redrive_count: Option<i64>,
}

impl DeepView for ExecutionDetailDto<String> {
    type V = ExecutionDetailDto<Text>;

    open spec fn deep_view(&self) -> ExecutionDetailDto<Text> {
        ExecutionDetailDto {
            status: self.status,
            start_ts: self.start_ts,
            stop_ts: self.stop_ts,
            input: self.input.deep_view(),
            output: self.output.deep_view(),
            error: self.error.deep_view(),
            cause: self.cause.deep_view(),
            redrive_count: self.redrive_count,
        }
    }
}

impl Clone for ExecutionDetailDto<String> {
    fn clone(&self) -> (r: Self)
        ensures
            r == *self,
    {
        ExecutionDetailDto {
            status: self.status,
            start_ts: self.start_ts,
            stop_ts: self.stop_ts,
            input: self.input.clone(),
            output: self.output.clone(),
            error: self.error.clone(),
            cause: self.cause.clone(),
            redrive_count: self.redrive_count,
        }
    }
}

/// One state of an execution's timeline.  Without `exited_ts` it was entered and never left.
#[derive(Debug)]
pub struct StateSpanDto<S = String> {
    pub name: S,
    pub entered_ts: Option<i64>,
    pub exited_ts: Option<i64>,
    pub failed: bool,
    pub input: Option<S>,
    pub output: Option<S>,
    /// ARN or name of the Lambda function that the state invoked, if it invoked one.
    pub resource_arn: Option<S>,
}

impl DeepView for StateSpanDto<String> {
    type V = StateSpanDto<Text>;

    open spec fn deep_view(&self) -> StateSpanDto<Text> {
        StateSpanDto {
            name: self.name@,
            entered_ts: self.entered_ts,
            exited_ts: self.exited_ts,
            failed: self.failed,
            input: self.input.deep_view(),
            output: self.output.deep_view(),
            resource_arn: self.resource_arn.deep_view(),
        }
    }
}

impl Clone for StateSpanDto<String> {
    fn clone(&self) -> (r: Self)
        ensures
            r == *self,
    {
        StateSpanDto {
            name: self.name.clone(),
            entered_ts: self.entered_ts,
            exited_ts: self.exited_ts,
            failed: self.failed,
            input: self.input.clone(),
            output: self.output.clone(),
            resource_arn: self.resource_arn.clone(),
        }
    }
}

// --- EventBridge -----------------------------------------------------------------------------

/// State of a rule.
#[derive(Clone, Copy, Debug, PartialEq, Eq, Structural)]
pub enum RuleState {
    Enabled,
    Disabled,
}

impl RuleState {
    /// The name AWS gives the state.
    pub open spec fn name(self) -> Text {
        match self {
            RuleState::Enabled => "ENABLED"@,
            RuleState::Disabled => "DISABLED"@,
        }
    }

    pub fn label(self) -> (r: &'static str)
        ensures
            r@ == self.name(),
    {
        match self {
            RuleState::Enabled => "ENABLED",
            RuleState::Disabled => "DISABLED",
        }
    }
}

/// An event bus.
#[derive(Debug)]
pub struct EventBusDto<S = String> {
    pub arn: S,
    pub name: S,
}

impl DeepView for EventBusDto<String> {
    type V = EventBusDto<Text>;

    open spec fn deep_view(&self) -> EventBusDto<Text> {
        EventBusDto { arn: self.arn@, name: self.name@ }
    }
}

impl Clone for EventBusDto<String> {
    fn clone(&self) -> (r: Self)
        ensures
            r == *self,
    {
        EventBusDto { arn: self.arn.clone(), name: self.name.clone() }
    }
}

/// A rule of an event bus, as it is listed.
#[derive(Debug)]
pub struct RuleDto<S = String> {
    pub name: S,
    pub event_bus_name: S,
    pub state: RuleState,
    pub description: Option<S>,
}

impl DeepView for RuleDto<String> {
    type V = RuleDto<Text>;

    open spec fn deep_view(&self) -> RuleDto<Text> {
        RuleDto {
            name: self.name@,
            event_bus_name: self.event_bus_name@,
            state: self.state,
            description: self.description.deep_view(),
        }
    }
}

impl Clone for RuleDto<String> {
    fn clone(&self) -> (r: Self)
        ensures
            r == *self,
    {
        RuleDto {
            name: self.name.clone(),
            event_bus_name: self.event_bus_name.clone(),
            state: self.state,
            description: self.description.clone(),
        }
    }
}

/// Detail of a rule.
#[derive(Debug)]
pub struct RuleDetailDto<S = String> {
    pub state: RuleState,
    pub description: Option<S>,
    pub event_pattern: Option<S>,
    pub schedule_expression: Option<S>,
}

impl DeepView for RuleDetailDto<String> {
    type V = RuleDetailDto<Text>;

    open spec fn deep_view(&self) -> RuleDetailDto<Text> {
        RuleDetailDto {
            state: self.state,
            description: self.description.deep_view(),
            event_pattern: self.event_pattern.deep_view(),
            schedule_expression: self.schedule_expression.deep_view(),
        }
    }
}

impl Clone for RuleDetailDto<String> {
    fn clone(&self) -> (r: Self)
        ensures
            r == *self,
    {
        RuleDetailDto {
            state: self.state,
            description: self.description.clone(),
            event_pattern: self.event_pattern.clone(),
            schedule_expression: self.schedule_expression.clone(),
        }
    }
}

/// A target of a rule.
#[derive(Debug)]
pub struct TargetDto<S = String> {
    pub id: S,
    pub arn: S,
    pub input: Option<S>,
}

impl DeepView for TargetDto<String> {
    type V = TargetDto<Text>;

    open spec fn deep_view(&self) -> TargetDto<Text> {
        TargetDto { id: self.id@, arn: self.arn@, input: self.input.deep_view() }
    }
}

impl Clone for TargetDto<String> {
    fn clone(&self) -> (r: Self)
        ensures
            r == *self,
    {
        TargetDto { id: self.id.clone(), arn: self.arn.clone(), input: self.input.clone() }
    }
}

// --- errors ----------------------------------------------------------------------------------

/// Class of a failure, named without any service.
#[derive(Clone, Copy, Debug, PartialEq, Eq, Structural)]
pub enum ErrorKind {
    /// Expired or missing credentials.
    Auth,
    /// Missing permission.
    AccessDenied,
    /// The service limits the rate.
    Throttle,
    /// Network, connection or timeout.
    Network,
    Other,
}

/// Words that tell of expired or missing credentials.
pub open spec fn tells_of_auth(c: Text) -> bool {
    text::occurs(c, "expiredtoken"@) || text::occurs(c, "expired"@) || text::occurs(c, "the sso session"@)
        || text::occurs(c, "session associated"@) || text::occurs(c, "unrecognizedclient"@) || text::occurs(
        c,
        "invalidclienttokenid"@,
    ) || text::occurs(c, "no credentials"@) || text::occurs(c, "credentials were not"@) || text::occurs(
        c,
        "could not load credentials"@,
    ) || text::occurs(c, "unable to load credentials"@)
}

/// Words that tell of a missing permission.
pub open spec fn tells_of_denial(c: Text) -> bool {
    text::occurs(c, "accessdenied"@) || text::occurs(c, "not authorized"@) || text::occurs(
        c,
        "is not authorized to perform"@,
    )
}

/// Words that tell of a limited rate.
pub open spec fn tells_of_throttling(c: Text) -> bool {
    text::occurs(c, "throttl"@) || text::occurs(c, "toomanyrequests"@) || text::occurs(c, "rate exceeded"@)
        || text::occurs(c, "slowdown"@)
}

/// Words that tell of a network failure.
pub open spec fn tells_of_network(c: Text) -> bool {
    text::occurs(c, "dispatch failure"@) || text::occurs(c, "timeout"@) || text::occurs(c, "timed out"@)
        || text::occurs(c, "connect"@) || text::occurs(c, "dns"@) || text::occurs(c, "io error"@)
}

/// The class that a chain of causes tells of; the first that applies, in the order of the enum.
pub open spec fn kind_of(chain: Text) -> ErrorKind {
    let c = text::ascii_lower_all(chain);
    if tells_of_auth(c) {
        ErrorKind::Auth
    } else if tells_of_denial(c) {
        ErrorKind::AccessDenied
    } else if tells_of_throttling(c) {
        ErrorKind::Throttle
    } else if tells_of_network(c) {
        ErrorKind::Network
    } else {
        ErrorKind::Other
    }
}

/// The class of a failure does not depend on the ASCII case of its chain of causes.
pub proof fn law_classify_ignores_case(a: Text, b: Text)
    requires
        text::ascii_lower_all(a) == text::ascii_lower_all(b),
    ensures
        kind_of(a) == kind_of(b),
{
}

impl ErrorKind {
    /// How urgent a class is; where the words of several classes apply, the most urgent counts.
    pub open spec fn urgency(self) -> int {
        match self {
            ErrorKind::Auth => 4,
            ErrorKind::AccessDenied => 3,
            ErrorKind::Throttle => 2,
            ErrorKind::Network => 1,
            ErrorKind::Other => 0,
        }
    }
}

/// Text around a chain of causes never hides the class that the chain tells of: the class only
/// becomes more urgent.
pub proof fn law_more_words_never_hide_a_class(before: Text, chain: Text, after: Text)
    ensures
        kind_of(before + chain + after).urgency() >= kind_of(chain).urgency(),
{
    let inner = text::ascii_lower_all(chain);
    let outer = text::ascii_lower_all(before + chain + after);
    assert forall|word: Text| #[trigger] text::occurs(inner, word) implies text::occurs(outer, word) by {
        let at = choose|at: int| text::occurs_at(inner, word, at);
        assert(outer.subrange(before.len() + at, before.len() + at + word.len()) =~= inner.subrange(
            at,
            at + word.len(),
        ));
        assert(text::occurs_at(outer, word, before.len() + at));
    }
}

impl ErrorKind {
    /// Classifies a failure by the words of its chain of causes.
    pub fn classify(chain: &str) -> (r: Self)
        ensures
            r == kind_of(chain@),
    {
        let lower = text::to_ascii_lower(chain);
        let c = lower.as_str();
        if text::contains(c, "expiredtoken") || text::contains(c, "expired") || text::contains(c, "the sso session")
            || text::contains(c, "session associated") || text::contains(c, "unrecognizedclient") || text::contains(
            c,
            "invalidclienttokenid",
        ) || text::contains(c, "no credentials") || text::contains(c, "credentials were not") || text::contains(
            c,
            "could not load credentials",
        ) || text::contains(c, "unable to load credentials") {
            ErrorKind::Auth
        } else if text::contains(c, "accessdenied") || text::contains(c, "not authorized") || text::contains(
            c,
            "is not authorized to perform",
        ) {
            ErrorKind::AccessDenied
        } else if text::contains(c, "throttl") || text::contains(c, "toomanyrequests") || text::contains(
            c,
            "rate exceeded",
        ) || text::contains(c, "slowdown") {
            ErrorKind::Throttle
        } else if text::contains(c, "dispatch failure") || text::contains(c, "timeout") || text::contains(c, "timed out")
            || text::contains(c, "connect") || text::contains(c, "dns") || text::contains(c, "io error") {
            ErrorKind::Network
        } else {
            ErrorKind::Other
        }
    }

    /// What to do about a failure of this class, where there is something to do.
    pub open spec fn advice(self) -> Option<Text> {
        match self {
            ErrorKind::Auth => Some(
                "sesión/credenciales caducadas — corre `aws sso login` o cambia de perfil con ctrl-e"@,
            ),
            ErrorKind::AccessDenied => Some("falta permiso IAM para esta operación"@),
            ErrorKind::Throttle => Some("throttling del servicio — reintenta con r"@),
            ErrorKind::Network => Some("problema de red — reintenta con r"@),
            ErrorKind::Other => None,
        }
    }

    /// What to do about a failure of this class, where there is something to do.
    pub fn hint(self) -> (r: Option<&'static str>)
        ensures
            r.deep_view() == self.advice(),
    {
        match self {
            ErrorKind::Auth => Some(
                "sesión/credenciales caducadas — corre `aws sso login` o cambia de perfil con ctrl-e",
            ),
            ErrorKind::AccessDenied => Some("falta permiso IAM para esta operación"),
            ErrorKind::Throttle => Some("throttling del servicio — reintenta con r"),
            ErrorKind::Network => Some("problema de red — reintenta con r"),
            ErrorKind::Other => None,
        }
    }

    /// Transient failures: trying again, with nothing changed, makes sense.
    pub open spec fn is_transient(self) -> bool {
        self == ErrorKind::Throttle || self == ErrorKind::Network
    }

    pub fn retryable(self) -> (r: bool)
        ensures
            r == self.is_transient(),
    {
        match self {
            ErrorKind::Throttle | ErrorKind::Network => true,
            _ => false,
        }
    }
}

/// Every transient failure comes with advice.
pub proof fn law_transient_failures_have_advice(kind: ErrorKind)
    requires
        kind.is_transient(),
    ensures
        kind.advice() is Some,
{
}

// --- messages --------------------------------------------------------------------------------

/// Result of an operation on AWS.
#[derive(Clone, Debug)]
pub enum Message {
    /// A page of log groups; `query` echoes the search it answers, `more` says that the server
    /// holds more.
    LogGroupsLoaded { groups: Vec<LogGroupDto>, query: Option<String>, more: bool },
    LogStreamsLoaded { group: String, streams: Vec<LogStreamDto>, more: bool },
    /// Lines of a stream.  With `append` they are older than those already shown.
    LogEventsLoaded {
        group: String,
        stream: String,
        events: Vec<LogEventDto>,
        next_token: Option<String>,
        append: bool,
    },
    /// Lines of a whole group over a span of time; `generation` echoes the query it answers.
    LogTailLoaded {
        group: String,
        events: Vec<LogEventDto>,
        next_token: Option<String>,
        append: bool,
        generation: u64,
    },
    QueuesLoaded(Vec<QueueDto>),
    QueueDetailLoaded { queue_url: String, attrs: QueueAttrsDto, messages: Vec<QueueMessageDto> },
    QueuePurged { queue_url: String },
    DlqRedriveStarted { queue_url: String },
    /// A page of functions: `append` adds to the list, `more` says that pages are still coming,
    /// `partial` that they were cut off.
    FunctionsLoaded { functions: Vec<FunctionDto>, append: bool, more: bool, partial: bool },
    FunctionDetailLoaded { function_arn: String, detail: FunctionDetailDto },
    StateMachinesLoaded { machines: Vec<StateMachineDto>, more: bool },
    ExecutionsLoaded {
        machine_arn: String,
        executions: Vec<ExecutionDto>,
        next_token: Option<String>,
        append: bool,
    },
    ExecutionDetailLoaded {
        execution_arn: String,
        detail: ExecutionDetailDto,
        history: Vec<StateSpanDto>,
        failed_state: Option<String>,
        history_more: bool,
    },
    ExecutionRedriven { execution_arn: String },
    EventBusesLoaded { buses: Vec<EventBusDto>, more: bool },
    RulesLoaded { event_bus_name: String, rules: Vec<RuleDto>, more: bool },
    RuleDetailLoaded {
        event_bus_name: String,
        rule_name: String,
        detail: RuleDetailDto,
        targets: Vec<TargetDto>,
    },
    EventSent { event_bus_name: String },
    /// The account that the active credentials belong to.
    IdentityLoaded { account_id: String },
    /// Something failed; `detail` is ready to be shown.
    Error { kind: ErrorKind, detail: String },
}

impl Message {
    /// A failure that no AWS service reported.
    pub fn err(detail: &str) -> (r: Self)
        ensures
            r matches Message::Error { kind, detail: d } && kind == ErrorKind::Other && d@ == detail@,
    {
        Message::Error { kind: ErrorKind::Other, detail: detail.to_string() }
    }
}

/// A message with the epoch of the environment that asked for it.
#[derive(Clone, Debug)]
pub struct Envelope {
    pub epoch: u64,
    pub message: Message,
}

impl Envelope {
    pub fn new(epoch: u64, message: Message) -> (r: Self)
        ensures
            r.epoch == epoch,
            r.message == message,
    {
        Envelope { epoch, message }
    }
}

// --- laws ------------------------------------------------------------------------------------

proof fn lemma_word_in_chain(before: Text, word: Text, after: Text)
    ensures
        text::occurs(text::ascii_lower_all(before + word + after), text::ascii_lower_all(word)),
{
    let low = text::ascii_lower_all(before + word + after);
    assert(low =~= text::ascii_lower_all(before) + text::ascii_lower_all(word) + text::ascii_lower_all(after));
    text::lemma_occurs_between(
        text::ascii_lower_all(before),
        text::ascii_lower_all(word),
        text::ascii_lower_all(after),
    );
}

/// Words of expired or missing credentials, wherever they stand among the causes and in whatever
/// ASCII case, make a failure one of credentials.
pub proof fn law_words_of_credentials(before: Text, word: Text, after: Text)
    requires
        ({
            let low = text::ascii_lower_all(word);
            low == "expiredtoken"@ || low == "expired"@ || low == "the sso session"@ || low == "session associated"@
                || low == "unrecognizedclient"@ || low == "invalidclienttokenid"@ || low == "no credentials"@ || low
                == "credentials were not"@ || low == "could not load credentials"@ || low
                == "unable to load credentials"@
        }),
    ensures
        kind_of(before + word + after) == ErrorKind::Auth,
{
    lemma_word_in_chain(before, word, after);
}

/// Words of a missing permission make a failure one of permissions, unless there are words of
/// credentials too.
pub proof fn law_words_of_permissions(before: Text, word: Text, after: Text)
    requires
        ({
            let low = text::ascii_lower_all(word);
            low == "accessdenied"@ || low == "not authorized"@
        }),
    ensures
        kind_of(before + word + after) == ErrorKind::AccessDenied || kind_of(before + word + after) == ErrorKind::Auth,
        !tells_of_auth(text::ascii_lower_all(before + word + after)) ==> kind_of(before + word + after)
            == ErrorKind::AccessDenied,
{
    lemma_word_in_chain(before, word, after);
}

/// Words of a limited rate make a failure one of the rate, unless there are words of credentials or
/// permissions too.
pub proof fn law_words_of_rates(before: Text, word: Text, after: Text)
    requires
        ({
            let low = text::ascii_lower_all(word);
            low == "throttl"@ || low == "toomanyrequests"@ || low == "rate exceeded"@ || low == "slowdown"@
        }),
    ensures
        kind_of(before + word + after).urgency() >= ErrorKind::Throttle.urgency(),
        !tells_of_auth(text::ascii_lower_all(before + word + after)) && !tells_of_denial(
            text::ascii_lower_all(before + word + after),
        ) ==> kind_of(before + word + after) == ErrorKind::Throttle,
{
    lemma_word_in_chain(before, word, after);
}

/// Words of the network make a failure one of the network, unless there are words of another class
/// too.
pub proof fn law_words_of_the_network(before: Text, word: Text, after: Text)
    requires
        ({
            let low = text::ascii_lower_all(word);
            low == "dispatch failure"@ || low == "timeout"@ || low == "timed out"@ || low == "connect"@ || low == "dns"@
                || low == "io error"@
        }),
    ensures
        kind_of(before + word + after) != ErrorKind::Other,
        !tells_of_auth(text::ascii_lower_all(before + word + after)) && !tells_of_denial(
            text::ascii_lower_all(before + word + after),
        ) && !tells_of_throttling(text::ascii_lower_all(before + word + after)) ==> kind_of(before + word + after)
            == ErrorKind::Network,
{
    lemma_word_in_chain(before, word, after);
}

/// Credentials are more urgent than permissions, those than the rate, that than the network, and
/// any of them than the rest.
pub proof fn law_classes_are_ordered()
    ensures
        ErrorKind::Auth.urgency() > ErrorKind::AccessDenied.urgency(),
        ErrorKind::AccessDenied.urgency() > ErrorKind::Throttle.urgency(),
        ErrorKind::Throttle.urgency() > ErrorKind::Network.urgency(),
        ErrorKind::Network.urgency() > ErrorKind::Other.urgency(),
{
}

/// Trying again helps against a limited rate and against the network, and against nothing else; all
/// classes but the rest come with advice of their own.
pub proof fn law_what_trying_again_helps_against(kind: ErrorKind)
    ensures
        kind.is_transient() <==> kind == ErrorKind::Throttle || kind == ErrorKind::Network,
        kind.advice() is None <==> kind == ErrorKind::Other,
{
}

/// An execution ended in failure where it failed, timed out or was aborted; one that runs,
/// succeeded or waits for a redrive did not.
pub proof fn law_what_counts_as_failure(status: ExecStatus)
    ensures
        status == ExecStatus::Failed || status == ExecStatus::TimedOut || status == ExecStatus::Aborted
            ==> status.ended_in_failure(),
        status == ExecStatus::Running || status == ExecStatus::Succeeded || status == ExecStatus::PendingRedrive
            ==> !status.ended_in_failure(),
{
}

/// A failure without any of the words of a class is not of that class; one without any of them is
/// of no class.
pub proof fn law_no_words_no_class(chain: Text)
    ensures
        ({
            let c = text::ascii_lower_all(chain);
            let auth = seq![
                "expiredtoken"@,
                "expired"@,
                "the sso session"@,
                "session associated"@,
                "unrecognizedclient"@,
                "invalidclienttokenid"@,
                "no credentials"@,
                "credentials were not"@,
                "could not load credentials"@,
                "unable to load credentials"@,
            ];
            let denial = seq!["accessdenied"@, "not authorized"@, "is not authorized to perform"@];
            let rate = seq!["throttl"@, "toomanyrequests"@, "rate exceeded"@, "slowdown"@];
            let network = seq!["dispatch failure"@, "timeout"@, "timed out"@, "connect"@, "dns"@, "io error"@];
            &&& kind_of(chain) == ErrorKind::Auth ==> exists|i: int|
                0 <= i < auth.len() && text::occurs(c, #[trigger] auth[i])
            &&& kind_of(chain) == ErrorKind::AccessDenied ==> exists|i: int|
                0 <= i < denial.len() && text::occurs(c, #[trigger] denial[i])
            &&& kind_of(chain) == ErrorKind::Throttle ==> exists|i: int|
                0 <= i < rate.len() && text::occurs(c, #[trigger] rate[i])
            &&& kind_of(chain) == ErrorKind::Network ==> exists|i: int|
                0 <= i < network.len() && text::occurs(c, #[trigger] network[i])
        }),
{
    let c = text::ascii_lower_all(chain);
    let auth = seq![
        "expiredtoken"@,
        "expired"@,
        "the sso session"@,
        "session associated"@,
        "unrecognizedclient"@,
        "invalidclienttokenid"@,
        "no credentials"@,
        "credentials were not"@,
        "could not load credentials"@,
        "unable to load credentials"@,
    ];
    let denial = seq!["accessdenied"@, "not authorized"@, "is not authorized to perform"@];
    let rate = seq!["throttl"@, "toomanyrequests"@, "rate exceeded"@, "slowdown"@];
    let network = seq!["dispatch failure"@, "timeout"@, "timed out"@, "connect"@, "dns"@, "io error"@];
    assert(auth[0] == "expiredtoken"@ && auth[1] == "expired"@ && auth[2] == "the sso session"@ && auth[3]
        == "session associated"@ && auth[4] == "unrecognizedclient"@);
    assert(auth[5] == "invalidclienttokenid"@ && auth[6] == "no credentials"@ && auth[7] == "credentials were not"@
        && auth[8] == "could not load credentials"@ && auth[9] == "unable to load credentials"@);
    assert(denial[0] == "accessdenied"@ && denial[1] == "not authorized"@ && denial[2]
        == "is not authorized to perform"@);
    assert(rate[0] == "throttl"@ && rate[1] == "toomanyrequests"@ && rate[2] == "rate exceeded"@ && rate[3]
        == "slowdown"@);
    assert(network[0] == "dispatch failure"@ && network[1] == "timeout"@ && network[2] == "timed out"@ && network[3]
        == "connect"@ && network[4] == "dns"@ && network[5] == "io error"@);
}

/// What to do about a failure goes by its class: to sign in, to ask for a permission, or to try
/// again; of any other class there is nothing to say.
pub proof fn law_advice_goes_by_the_class()
    ensures
        ErrorKind::Auth.advice()
            == Some("sesión/credenciales caducadas — corre `aws sso login` o cambia de perfil con ctrl-e"@),
        ErrorKind::AccessDenied.advice() == Some("falta permiso IAM para esta operación"@),
        ErrorKind::Throttle.advice() == Some("throttling del servicio — reintenta con r"@),
        ErrorKind::Network.advice() == Some("problema de red — reintenta con r"@),
        ErrorKind::Other.advice() is None,
        RuleState::Enabled.name() == "ENABLED"@,
        RuleState::Disabled.name() == "DISABLED"@,
{
}

} // verus!
