//! What the replies of AWS mean: their texts, statuses and attributes as plain records.

use vstd::prelude::*;
use vstd::string::*;

use crate::json;
use crate::message::{
    ErrorKind, ExecStatus, ExecutionDetailDto, LogEventDto, LogWindow, MachineType, Message, QueueAttrsDto, QueueDto,
    QueueMessageDto, RuleState, Text,
};
use crate::text;

verus! {

// --- long texts ------------------------------------------------------------------------------

/// Most bytes of a log line that are kept.
pub const MAX_LINE: usize = 16384;

/// Most bytes of a payload that are kept.
pub const MAX_PAYLOAD: usize = 4096;

/// Bytes of a character in UTF-8.
pub open spec fn width(c: char) -> nat {
    vstd::utf8::encode_scalar(c as u32).len()
}

/// Bytes of a text in UTF-8.
pub open spec fn byte_len(s: Text) -> nat {
    vstd::utf8::encode_utf8(s).len()
}

/// How many characters from the start of a text fit in `max` bytes.
pub open spec fn fitting(s: Text, max: int) -> int
    decreases s.len(),
{
    if s.len() == 0 || width(s[0]) > max {
        0
    } else {
        1 + fitting(s.drop_first(), max - width(s[0]))
    }
}

/// A text of at most `max` bytes as it is; of a longer one as many characters as fit, and `tail`.
pub open spec fn clipped(s: Text, max: nat, tail: Text) -> Text {
    if byte_len(s) <= max {
        s
    } else {
        s.take(fitting(s, max as int)) + tail
    }
}

fn char_width(c: char) -> (r: usize)
    ensures
        r == width(c),
        1 <= r <= 4,
{
    proof {
        vstd::utf8::char_is_scalar(c);
    }
    let v = c as u32;
    if v <= 0x7f {
        1
    } else if v <= 0x7ff {
        2
    } else if v <= 0xffff {
        3
    } else {
        4
    }
}

proof fn lemma_byte_len(s: Text)
    ensures
        s.len() == 0 ==> byte_len(s) == 0,
        s.len() > 0 ==> byte_len(s) == width(s[0]) + byte_len(s.drop_first()),
{
}

proof fn lemma_width(c: char)
    ensures
        1 <= width(c) <= 4,
{
    vstd::utf8::char_is_scalar(c);
}

proof fn lemma_fitting(s: Text, max: int)
    requires
        max >= 0,
    ensures
        0 <= fitting(s, max) <= s.len(),
        byte_len(s.take(fitting(s, max))) <= max,
        fitting(s, max) < s.len() ==> byte_len(s.take(fitting(s, max) + 1)) > max,
        fitting(s, max) == s.len() <==> byte_len(s) <= max,
    decreases s.len(),
{
    lemma_byte_len(s);
    if s.len() == 0 {
        assert(s.take(0) =~= s);
    } else {
        lemma_width(s[0]);
        let rest = s.drop_first();
        let n = fitting(s, max);
        if width(s[0]) > max {
            lemma_byte_len(s.take(0));
            lemma_byte_len(s.take(1));
        } else {
            let k = fitting(rest, max - width(s[0]));
            lemma_fitting(rest, max - width(s[0]));
            lemma_byte_len(s.take(n));
            assert(s.take(n).drop_first() =~= rest.take(k));
            if n < s.len() {
                lemma_byte_len(s.take(n + 1));
                assert(s.take(n + 1).drop_first() =~= rest.take(k + 1));
            }
        }
    }
}

/// What is kept of a long text is the longest beginning that fits: it has at most `max` bytes, and
/// with one more character it would have more.
pub proof fn law_clipping_keeps_the_most(s: Text, max: nat)
    ensures
        0 <= fitting(s, max as int) <= s.len(),
        byte_len(s.take(fitting(s, max as int))) <= max,
        fitting(s, max as int) < s.len() ==> byte_len(s.take(fitting(s, max as int) + 1)) > max,
{
    lemma_fitting(s, max as int);
}

/// Cuts a text to `max` bytes at a character; what was cut is marked by `tail`.
pub fn clip(s: &str, max: usize, tail: &str) -> (r: String)
    ensures
        r@ == clipped(s@, max as nat, tail@),
{
    let v = text::chars_of(s);
    let mut i: usize = 0;
    let mut left: usize = max;
    proof {
        assert(s@.skip(0) =~= s@);
    }
    while i < v.len()
        invariant
            v@ == s@,
            i <= v@.len(),
            left <= max,
            fitting(s@, max as int) == i + fitting(s@.skip(i as int), left as int),
        decreases v.len() - i,
    {
        let w = char_width(v[i]);
        if w > left {
            proof {
                lemma_fitting(s@, max as int);
                assert(v@.subrange(0, i as int) =~= s@.take(i as int));
            }
            let mut out = text::text_of(&v, 0, i);
            out.append(tail);
            return out;
        }
        proof {
            assert(s@.skip(i as int).drop_first() =~= s@.skip(i + 1));
        }
        left = left - w;
        i = i + 1;
    }
    proof {
        lemma_fitting(s@, max as int);
    }
    s.to_string()
}

/// A log line as it is kept.
pub open spec fn line_of(raw: Option<Text>) -> Text {
    match raw {
        Some(s) => clipped(s, MAX_LINE as nat, "…"@),
        None => Seq::empty(),
    }
}

/// A log line, cut where it is too long; line breaks stay.
pub fn clip_message(raw: Option<&str>) -> (r: String)
    ensures
        r@ == line_of(raw.deep_view()),
{
    match raw {
        Some(s) => clip(s, MAX_LINE, "…"),
        None => String::new(),
    }
}

/// A payload as it is shown: JSON indented, anything else as it is, and cut where it is too long.
pub open spec fn payload_of(raw: Option<Text>) -> Option<Text> {
    match raw {
        Some(s) => Some(
            clipped(if json::is_json(s) { json::indented(s) } else { s }, MAX_PAYLOAD as nat, "\n… (truncado)"@),
        ),
        None => None,
    }
}

/// A payload as it is shown: JSON indented, anything else as it is, and cut where it is too long.
pub fn pretty_truncate(raw: Option<&str>) -> (r: Option<String>)
    ensures
        r.deep_view() == payload_of(raw.deep_view()),
{
    match raw {
        Some(s) => {
            let pretty = match json::pretty_json(s) {
                Some(p) => p,
                None => s.to_string(),
            };
            Some(clip(pretty.as_str(), MAX_PAYLOAD, "\n… (truncado)"))
        },
        None => None,
    }
}

/// A log line of a reply.
pub fn log_event(ts: Option<i64>, message: Option<&str>, stream: Option<String>) -> (r: LogEventDto)
    ensures
        r.deep_view() == (LogEventDto::<Text> {
            ts,
            message: line_of(message.deep_view()),
            stream: stream.deep_view(),
        }),
{
    LogEventDto { ts, message: clip_message(message), stream }
}

/// First and last instant of a window, in milliseconds since the epoch.
pub open spec fn bounds(window: LogWindow, now: int) -> (int, int) {
    match window {
        LogWindow::Last(n) => (now - n, now),
        LogWindow::Range { from, to } => (
            from as int,
            match to {
                Some(t) => t as int,
                None => now,
            },
        ),
    }
}

/// First and last instant of a window at the instant `now`.
pub fn window_bounds(window: LogWindow, now: i64) -> (r: (i64, i64))
    requires
        i64::MIN <= bounds(window, now as int).0 <= i64::MAX,
    ensures
        r.0 == bounds(window, now as int).0,
        r.1 == bounds(window, now as int).1,
{
    match window {
        LogWindow::Last(n) => (now - n, now),
        LogWindow::Range { from, to } => {
            let end: i64 = match to {
                Some(t) => t,
                None => now,
            };
            (from, end)
        },
    }
}

// --- queues ----------------------------------------------------------------------------------

/// A queue by its address: it is named by the last part.
pub open spec fn queue_of(url: Text) -> QueueDto<Text> {
    let name = text::last_part_of(url, '/');
    QueueDto { name, url, is_fifo: text::has_suffix(name, ".fifo"@) }
}

/// A queue by its address: it is named by the last part.
pub fn queue_from_url(url: &str) -> (r: QueueDto)
    ensures
        r.deep_view() == queue_of(url@),
{
    let name = text::last_part(url, '/');
    let is_fifo = text::ends_with(name.as_str(), ".fifo");
    QueueDto { name, url: url.to_string(), is_fifo }
}

/// The value of the first pair with this key.
pub open spec fn value_of(pairs: Seq<(Text, Text)>, key: Text) -> Option<Text>
    decreases pairs.len(),
{
    if pairs.len() == 0 {
        None
    } else if pairs[0].0 == key {
        Some(pairs[0].1)
    } else {
        value_of(pairs.drop_first(), key)
    }
}

/// The integer that the first pair with this key spells.
pub open spec fn number_of(pairs: Seq<(Text, Text)>, key: Text) -> Option<int> {
    match value_of(pairs, key) {
        Some(s) => text::i64_value(s),
        None => None,
    }
}

fn find_value(pairs: &Vec<(String, String)>, key: &str) -> (r: Option<String>)
    ensures
        r.deep_view() == value_of(pairs.deep_view(), key@),
{
    let ghost all = pairs.deep_view();
    let mut i: usize = 0;
    proof {
        assert(all.skip(0) =~= all);
    }
    while i < pairs.len()
        invariant
            i <= pairs@.len(),
            all == pairs.deep_view(),
            value_of(all, key@) == value_of(all.skip(i as int), key@),
        decreases pairs@.len() - i,
    {
        proof {
            assert(all.skip(i as int)[0] == (pairs@[i as int].0@, pairs@[i as int].1@));
            assert(all.skip(i as int).drop_first() =~= all.skip(i + 1));
        }
        if text::same(pairs[i].0.as_str(), key) {
            return Some(pairs[i].1.clone());
        }
        i = i + 1;
    }
    None
}

/// An optional integer as a number of the model.
pub open spec fn opt_int(n: Option<i64>) -> Option<int> {
    match n {
        Some(v) => Some(v as int),
        None => None,
    }
}

fn find_number(pairs: &Vec<(String, String)>, key: &str) -> (r: Option<i64>)
    ensures
        opt_int(r) == number_of(pairs.deep_view(), key@),
{
    match find_value(pairs, key) {
        Some(s) => text::parse_i64(s.as_str()),
        None => None,
    }
}

/// A receive limit: a number, or a text that spells one.
pub open spec fn limit_of(number: Option<int>, spelled: Option<Text>) -> Option<int> {
    match (number, spelled) {
        (Some(n), _) => Some(n),
        (None, Some(s)) => text::i64_value(s),
        (None, None) => None,
    }
}

/// A receive limit: a number, or a text that spells one.
pub fn receive_limit(number: Option<i64>, spelled: Option<String>) -> (r: Option<i64>)
    ensures
        opt_int(r) == limit_of(opt_int(number), spelled.deep_view()),
{
    match number {
        Some(n) => Some(n),
        None => match spelled {
            Some(s) => text::parse_i64(s.as_str()),
            None => None,
        },
    }
}

/// Dead-letter target and receive limit that a redrive policy names.
pub open spec fn redrive_of(policy: Option<Text>) -> (Option<Text>, Option<int>) {
    match policy {
        Some(p) => (
            json::json_string(p, "deadLetterTargetArn"@),
            limit_of(
                opt_int(json::json_integer(p, "maxReceiveCount"@)),
                json::json_string(p, "maxReceiveCount"@),
            ),
        ),
        None => (None, None),
    }
}

/// Dead-letter target and receive limit that a redrive policy names; nothing where it is no JSON.
pub fn parse_redrive(policy: Option<&str>) -> (r: (Option<String>, Option<i64>))
    ensures
        (r.0.deep_view(), opt_int(r.1)) == redrive_of(policy.deep_view()),
        policy.deep_view() matches Some(p) && !json::is_json(p) ==> r.0 is None && r.1 is None,
{
    match policy {
        Some(p) => {
            let arn = json::string_field(p, "deadLetterTargetArn");
            let number = json::integer_field(p, "maxReceiveCount");
            let spelled = json::string_field(p, "maxReceiveCount");
            let max = receive_limit(number, spelled);
            (arn, max)
        },
        None => (None, None),
    }
}

/// The attributes of a queue are those that the named attributes of a reply spell.
pub open spec fn attributes_match(
    attrs: QueueAttrsDto<Text, Seq<Text>>,
    pairs: Seq<(Text, Text)>,
    sources: Seq<Text>,
) -> bool {
    let redrive = redrive_of(value_of(pairs, "RedrivePolicy"@));
    &&& opt_int(attrs.visible) == number_of(pairs, "ApproximateNumberOfMessages"@)
    &&& opt_int(attrs.in_flight) == number_of(pairs, "ApproximateNumberOfMessagesNotVisible"@)
    &&& opt_int(attrs.delayed) == number_of(pairs, "ApproximateNumberOfMessagesDelayed"@)
    &&& attrs.arn == value_of(pairs, "QueueArn"@)
    &&& attrs.dlq_target_arn == redrive.0
    &&& opt_int(attrs.max_receive_count) == redrive.1
    &&& attrs.dlq_sources == sources
}

/// The attributes of a queue out of the named attributes of a reply; `sources` are the queues that
/// use it as their dead-letter queue.
pub fn queue_attrs(pairs: &Vec<(String, String)>, sources: Vec<String>) -> (r: QueueAttrsDto)
    ensures
        attributes_match(r.deep_view(), pairs.deep_view(), sources.deep_view()),
{
    let policy = find_value(pairs, "RedrivePolicy");
    let (dlq_target_arn, max_receive_count) = match &policy {
        Some(p) => parse_redrive(Some(p.as_str())),
        None => parse_redrive(None),
    };
    QueueAttrsDto {
        visible: find_number(pairs, "ApproximateNumberOfMessages"),
        in_flight: find_number(pairs, "ApproximateNumberOfMessagesNotVisible"),
        delayed: find_number(pairs, "ApproximateNumberOfMessagesDelayed"),
        arn: find_value(pairs, "QueueArn"),
        dlq_target_arn,
        max_receive_count,
        dlq_sources: sources,
    }
}

/// The address that the messages of a dead-letter queue are moved by: its ARN, or why it is
/// missing.
pub fn redrive_source(pairs: &Vec<(String, String)>) -> (r: Result<String, &'static str>)
    ensures
        match value_of(pairs.deep_view(), "QueueArn"@) {
            Some(arn) => r matches Ok(a) && a@ == arn,
            None => r matches Err(e) && e@ == "no se pudo resolver el ARN de la cola"@,
        },
{
    match find_value(pairs, "QueueArn") {
        Some(arn) => Ok(arn),
        None => Err("no se pudo resolver el ARN de la cola"),
    }
}

/// A message holds what a reply says of it: its id and its body, when it was sent, and how often it
/// was received.
pub open spec fn message_matches(
    m: QueueMessageDto<Text>,
    id: Option<Text>,
    body: Option<Text>,
    pairs: Seq<(Text, Text)>,
) -> bool {
    &&& m.id == (match id {
        Some(s) => s,
        None => "—"@,
    })
    &&& m.body == (match body {
        Some(s) => s,
        None => Seq::<char>::empty(),
    })
    &&& opt_int(m.sent_ts) == number_of(pairs, "SentTimestamp"@)
    &&& opt_int(m.receive_count) == number_of(pairs, "ApproximateReceiveCount"@)
}

/// A message that was read from a queue, out of the parts of a reply.
pub fn queue_message(id: Option<&str>, body: Option<&str>, pairs: &Vec<(String, String)>) -> (r: QueueMessageDto)
    ensures
        r.id@ == (match id.deep_view() {
            Some(s) => s,
            None => "—"@,
        }),
        r.body@ == (match body.deep_view() {
            Some(s) => s,
            None => Seq::<char>::empty(),
        }),
        opt_int(r.sent_ts) == number_of(pairs.deep_view(), "SentTimestamp"@),
        opt_int(r.receive_count) == number_of(pairs.deep_view(), "ApproximateReceiveCount"@),
        message_matches(r.deep_view(), id.deep_view(), body.deep_view(), pairs.deep_view()),
{
    QueueMessageDto {
        id: match id {
            Some(s) => s.to_string(),
            None => "—".to_string(),
        },
        body: match body {
            Some(s) => s.to_string(),
            None => String::new(),
        },
        sent_ts: find_number(pairs, "SentTimestamp"),
        receive_count: find_number(pairs, "ApproximateReceiveCount"),
    }
}

// --- executions and rules --------------------------------------------------------------------

/// The status that AWS names; one that is not known counts as running.
pub open spec fn status_named(name: Text) -> ExecStatus {
    if name == "SUCCEEDED"@ {
        ExecStatus::Succeeded
    } else if name == "FAILED"@ {
        ExecStatus::Failed
    } else if name == "TIMED_OUT"@ {
        ExecStatus::TimedOut
    } else if name == "ABORTED"@ {
        ExecStatus::Aborted
    } else if name == "PENDING_REDRIVE"@ {
        ExecStatus::PendingRedrive
    } else {
        ExecStatus::Running
    }
}

/// The status that AWS names; one that is not known counts as running.
pub fn exec_status(name: &str) -> (r: ExecStatus)
    ensures
        r == status_named(name@),
{
    if text::same(name, "SUCCEEDED") {
        ExecStatus::Succeeded
    } else if text::same(name, "FAILED") {
        ExecStatus::Failed
    } else if text::same(name, "TIMED_OUT") {
        ExecStatus::TimedOut
    } else if text::same(name, "ABORTED") {
        ExecStatus::Aborted
    } else if text::same(name, "PENDING_REDRIVE") {
        ExecStatus::PendingRedrive
    } else {
        ExecStatus::Running
    }
}

/// Reading the name of a status gives that status back.
pub proof fn law_statuses_are_read_by_name(status: ExecStatus)
    ensures
        status_named(status.name()) == status,
{
    reveal_strlit("RUNNING");
    reveal_strlit("SUCCEEDED");
    reveal_strlit("FAILED");
    reveal_strlit("TIMED_OUT");
    reveal_strlit("ABORTED");
    reveal_strlit("PENDING_REDRIVE");
    assert("SUCCEEDED"@[0] == 'S');
    assert("RUNNING"@[0] == 'R');
    assert("FAILED"@[0] == 'F');
    assert("TIMED_OUT"@[0] == 'T');
    assert("ABORTED"@[0] == 'A');
    assert("PENDING_REDRIVE"@[0] == 'P');
}

/// Executions can be listed by every status but that of a queued redrive.
pub open spec fn filter_of(status: ExecStatus) -> Option<Text> {
    if status == ExecStatus::PendingRedrive {
        None
    } else {
        Some(status.name())
    }
}

/// Executions can be listed by every status but that of a queued redrive.
pub fn exec_status_filter(status: ExecStatus) -> (r: Option<&'static str>)
    ensures
        r.deep_view() == filter_of(status),
{
    if status == ExecStatus::PendingRedrive {
        None
    } else {
        Some(status.label())
    }
}

/// The type of state machine that AWS names.
pub open spec fn machine_named(name: Text) -> MachineType {
    if name == "EXPRESS"@ {
        MachineType::Express
    } else {
        MachineType::Standard
    }
}

/// The type of state machine that AWS names.
pub fn machine_type(name: &str) -> (r: MachineType)
    ensures
        r == machine_named(name@),
{
    if text::same(name, "EXPRESS") {
        MachineType::Express
    } else {
        MachineType::Standard
    }
}

/// The state of a rule: enabled unless AWS names it disabled.
pub open spec fn state_named(name: Option<Text>) -> RuleState {
    match name {
        Some(n) => if n == "DISABLED"@ {
            RuleState::Disabled
        } else {
            RuleState::Enabled
        },
        None => RuleState::Enabled,
    }
}

/// The state of a rule: enabled unless AWS names it disabled.
pub fn rule_state(name: Option<&str>) -> (r: RuleState)
    ensures
        r == state_named(name.deep_view()),
{
    match name {
        Some(n) => if text::same(n, "DISABLED") {
            RuleState::Disabled
        } else {
            RuleState::Enabled
        },
        None => RuleState::Enabled,
    }
}

/// The detail of an execution that a reply tells: its status, when it started and stopped, its input
/// and output, its error and cause, and how often it was redriven.
pub open spec fn detail_told(
    status: Text,
    times: (Option<i64>, Option<i64>),
    payloads: (Option<Text>, Option<Text>),
    failure: (Option<Text>, Option<Text>),
    redrives: Option<i32>,
) -> ExecutionDetailDto<Text> {
    ExecutionDetailDto {
        status: status_named(status),
        start_ts: times.0,
        stop_ts: times.1,
        input: payload_of(payloads.0),
        output: payload_of(payloads.1),
        error: failure.0,
        cause: failure.1,
        redrive_count: match redrives {
            Some(n) => Some(n as i64),
            None => None,
        },
    }
}

/// The detail of an execution, out of the parts of a reply.
pub fn execution_detail(
    status: &str,
    times: (Option<i64>, Option<i64>),
    payloads: (Option<&str>, Option<&str>),
    failure: (Option<String>, Option<String>),
    redrives: Option<i32>,
) -> (r: ExecutionDetailDto)
    ensures
        r.deep_view() == (ExecutionDetailDto::<Text> {
            status: status_named(status@),
            start_ts: times.0,
            stop_ts: times.1,
            input: payload_of(payloads.0.deep_view()),
            output: payload_of(payloads.1.deep_view()),
            error: failure.0.deep_view(),
            cause: failure.1.deep_view(),
            redrive_count: match redrives {
                Some(n) => Some(n as i64),
                None => None,
            },
        }),
        r.deep_view() == detail_told(
            status@,
            times,
            (payloads.0.deep_view(), payloads.1.deep_view()),
            (failure.0.deep_view(), failure.1.deep_view()),
            redrives,
        ),
{
    ExecutionDetailDto {
        status: exec_status(status),
        start_ts: times.0,
        stop_ts: times.1,
        input: pretty_truncate(payloads.0),
        output: pretty_truncate(payloads.1),
        error: failure.0,
        cause: failure.1,
        redrive_count: match redrives {
            Some(n) => Some(n as i64),
            None => None,
        },
    }
}

// --- failures --------------------------------------------------------------------------------

/// Why an event was rejected: the first error code or message among the entries of a reply.
pub open spec fn reason_of(entries: Seq<(Option<Text>, Option<Text>)>) -> Text
    decreases entries.len(),
{
    if entries.len() == 0 {
        "evento rechazado"@
    } else {
        match (entries[0].0, entries[0].1) {
            (Some(code), _) => code,
            (None, Some(message)) => message,
            (None, None) => reason_of(entries.drop_first()),
        }
    }
}

/// A reply to a published event may count failed entries although the request succeeded: then the
/// event was rejected, and this is why.
pub fn rejection(failed: i32, entries: &Vec<(Option<String>, Option<String>)>) -> (r: Option<String>)
    ensures
        r.deep_view() == (if failed > 0 {
            Some(reason_of(entries.deep_view()))
        } else {
            None
        }),
{
    if failed <= 0 {
        return None;
    }
    let ghost all = entries.deep_view();
    let mut i: usize = 0;
    proof {
        assert(all.skip(0) =~= all);
    }
    while i < entries.len()
        invariant
            failed > 0,
            i <= entries@.len(),
            all == entries.deep_view(),
            reason_of(all) == reason_of(all.skip(i as int)),
        decreases entries@.len() - i,
    {
        proof {
            assert(all.skip(i as int)[0] == (entries@[i as int].0.deep_view(), entries@[i as int].1.deep_view()));
            assert(all.skip(i as int).drop_first() =~= all.skip(i + 1));
        }
        match &entries[i].0 {
            Some(code) => {
                return Some(code.clone());
            },
            None => {},
        }
        match &entries[i].1 {
            Some(message) => {
                return Some(message.clone());
            },
            None => {},
        }
        i = i + 1;
    }
    Some("evento rechazado".to_string())
}

/// Causes of a failure, outermost first, as one text.
pub open spec fn chain_text(chain: Seq<Text>) -> Text {
    text::joined(chain, ": "@)
}

/// What is said of a failed operation: advice where its class has some, else what happened.
pub open spec fn failure_text(op: Text, chain: Seq<Text>) -> Text {
    let all = chain_text(chain);
    op + ": "@ + (match kind_of_chain(chain).advice() {
        Some(advice) => advice,
        None => all,
    })
}

/// Class of a failure by all its causes.
pub open spec fn kind_of_chain(chain: Seq<Text>) -> ErrorKind {
    crate::message::kind_of(chain_text(chain))
}

/// The message that reports a failed operation, out of its causes, outermost first.
pub fn sdk_error(op: &str, chain: &Vec<String>) -> (r: Message)
    ensures
        r matches Message::Error { kind, detail } && kind == kind_of_chain(chain.deep_view()) && detail@
            == failure_text(op@, chain.deep_view()),
{
    let all = text::join(chain, ": ");
    let kind = ErrorKind::classify(all.as_str());
    let mut detail = op.to_string();
    detail.append(": ");
    match kind.hint() {
        Some(hint) => {
            detail.append(hint);
        },
        None => {
            detail.append(all.as_str());
        },
    }
    Message::Error { kind, detail }
}

proof fn lemma_joined_grows(chain: Seq<Text>, more: Seq<Text>, sep: Text) -> (rest: Text)
    ensures
        text::joined(chain + more, sep) == text::joined(chain, sep) + rest,
    decreases more.len(),
{
    let head = text::joined(chain, sep);
    if more.len() == 0 {
        assert(chain + more =~= chain);
        assert(head + Seq::<char>::empty() =~= head);
        Seq::empty()
    } else {
        let before = lemma_joined_grows(chain, more.drop_last(), sep);
        assert((chain + more).drop_last() =~= chain + more.drop_last());
        assert((chain + more).last() == more.last());
        if chain.len() + more.len() == 1 {
            assert(head + more.last() =~= more.last());
            more.last()
        } else {
            assert(head + before + sep + more.last() =~= head + (before + sep + more.last()));
            before + sep + more.last()
        }
    }
}

/// Causes further down never hide the class that the outer ones tell of.
pub proof fn law_more_causes_never_hide_a_class(chain: Seq<Text>, more: Seq<Text>)
    ensures
        kind_of_chain(chain + more).urgency() >= kind_of_chain(chain).urgency(),
{
    let rest = lemma_joined_grows(chain, more, ": "@);
    let all = chain_text(chain);
    crate::message::law_more_words_never_hide_a_class(Seq::empty(), all, rest);
    assert(Seq::<char>::empty() + all + rest =~= all + rest);
}

// --- laws ------------------------------------------------------------------------------------

/// The value of a name among the attributes of a reply, where the name comes once.
pub open spec fn names(pairs: Seq<(Text, Text)>, name: Text, value: Text) -> bool {
    &&& pairs.contains((name, value))
    &&& forall|i: int| 0 <= i < pairs.len() && (#[trigger] pairs[i]).0 == name ==> pairs[i].1 == value
}

/// No attribute of a reply has this name.
pub open spec fn lacks(pairs: Seq<(Text, Text)>, name: Text) -> bool {
    forall|i: int| 0 <= i < pairs.len() ==> (#[trigger] pairs[i]).0 != name
}

/// The value of an attribute is found wherever it stands; none is found where the name is missing.
pub proof fn law_attributes_are_found_by_name(pairs: Seq<(Text, Text)>, name: Text, value: Text)
    ensures
        names(pairs, name, value) ==> value_of(pairs, name) == Some(value),
        lacks(pairs, name) ==> value_of(pairs, name) is None,
    decreases pairs.len(),
{
    if pairs.len() > 0 {
        let rest = pairs.drop_first();
        assert(forall|i: int| 0 <= i < rest.len() ==> #[trigger] rest[i] == pairs[i + 1]);
        if pairs[0].0 == name {
            assert(names(pairs, name, value) ==> pairs[0].1 == value);
        } else {
            if names(pairs, name, value) {
                let k = pairs.index_of((name, value));
                assert(rest[k - 1] == (name, value));
                assert(names(rest, name, value));
            }
            if lacks(pairs, name) {
                assert(lacks(rest, name));
            }
            law_attributes_are_found_by_name(rest, name, value);
        }
    }
}

/// The counts of a queue that a reply writes in decimal, under the names of the service and in any
/// order, are read back: the messages to be had as visible, those being processed as in flight,
/// and those held back as delayed.
pub proof fn law_queue_counts_are_read_back(
    attrs: QueueAttrsDto<Text, Seq<Text>>,
    pairs: Seq<(Text, Text)>,
    sources: Seq<Text>,
    visible: int,
    in_flight: int,
    delayed: int,
)
    requires
        attributes_match(attrs, pairs, sources),
        i64::MIN <= visible <= i64::MAX,
        i64::MIN <= in_flight <= i64::MAX,
        i64::MIN <= delayed <= i64::MAX,
        names(pairs, "ApproximateNumberOfMessages"@, text::int_text(visible)),
        names(pairs, "ApproximateNumberOfMessagesNotVisible"@, text::int_text(in_flight)),
        names(pairs, "ApproximateNumberOfMessagesDelayed"@, text::int_text(delayed)),
    ensures
        attrs.visible == Some(visible as i64),
        attrs.in_flight == Some(in_flight as i64),
        attrs.delayed == Some(delayed as i64),
{
    law_attributes_are_found_by_name(pairs, "ApproximateNumberOfMessages"@, text::int_text(visible));
    law_attributes_are_found_by_name(pairs, "ApproximateNumberOfMessagesNotVisible"@, text::int_text(in_flight));
    law_attributes_are_found_by_name(pairs, "ApproximateNumberOfMessagesDelayed"@, text::int_text(delayed));
    text::law_numbers_are_read_back(visible);
    text::law_numbers_are_read_back(in_flight);
    text::law_numbers_are_read_back(delayed);
}

/// A count that a reply does not name is not made up, nor an ARN, nor a dead-letter target.
pub proof fn law_missing_attributes_are_missing(
    attrs: QueueAttrsDto<Text, Seq<Text>>,
    pairs: Seq<(Text, Text)>,
    sources: Seq<Text>,
)
    requires
        attributes_match(attrs, pairs, sources),
    ensures
        lacks(pairs, "ApproximateNumberOfMessages"@) ==> attrs.visible is None,
        lacks(pairs, "ApproximateNumberOfMessagesNotVisible"@) ==> attrs.in_flight is None,
        lacks(pairs, "ApproximateNumberOfMessagesDelayed"@) ==> attrs.delayed is None,
        lacks(pairs, "QueueArn"@) ==> attrs.arn is None,
        lacks(pairs, "RedrivePolicy"@) ==> attrs.dlq_target_arn is None && attrs.max_receive_count is None,
{
    law_attributes_are_found_by_name(pairs, "ApproximateNumberOfMessages"@, Seq::empty());
    law_attributes_are_found_by_name(pairs, "ApproximateNumberOfMessagesNotVisible"@, Seq::empty());
    law_attributes_are_found_by_name(pairs, "ApproximateNumberOfMessagesDelayed"@, Seq::empty());
    law_attributes_are_found_by_name(pairs, "QueueArn"@, Seq::empty());
    law_attributes_are_found_by_name(pairs, "RedrivePolicy"@, Seq::empty());
}

/// The ARN of a queue is the one that the reply names, its dead-letter target and receive limit are
/// those of its redrive policy, and its sources are those that were asked for.
pub proof fn law_queues_show_where_messages_go(
    attrs: QueueAttrsDto<Text, Seq<Text>>,
    pairs: Seq<(Text, Text)>,
    sources: Seq<Text>,
    arn: Text,
    policy: Text,
    limit: int,
)
    requires
        attributes_match(attrs, pairs, sources),
        names(pairs, "QueueArn"@, arn),
        names(pairs, "RedrivePolicy"@, policy),
        i64::MIN <= limit <= i64::MAX,
    ensures
        attrs.arn == Some(arn),
        attrs.dlq_target_arn == json::json_string(policy, "deadLetterTargetArn"@),
        json::json_integer(policy, "maxReceiveCount"@) matches Some(n) ==> attrs.max_receive_count == Some(n),
        json::json_integer(policy, "maxReceiveCount"@) is None && json::json_string(policy, "maxReceiveCount"@) == Some(
            text::int_text(limit),
        ) ==> attrs.max_receive_count == Some(limit as i64),
        attrs.dlq_sources == sources,
{
    law_attributes_are_found_by_name(pairs, "QueueArn"@, arn);
    law_attributes_are_found_by_name(pairs, "RedrivePolicy"@, policy);
    text::law_numbers_are_read_back(limit);
}

/// A queue is named by what follows the last slash of its address, and is a FIFO queue where that
/// name ends in `.fifo`.
pub proof fn law_queues_are_named_by_their_address(head: Text, name: Text)
    requires
        !name.contains('/'),
    ensures
        queue_of(head + seq!['/'] + name).name == name,
        queue_of(head + seq!['/'] + name).url == head + seq!['/'] + name,
        queue_of(head + seq!['/'] + name + ".fifo"@).is_fifo,
        queue_of(head + seq!['/'] + name).is_fifo ==> exists|base: Text| name == #[trigger] (base + ".fifo"@),
{
    reveal_strlit(".fifo");
    text::law_the_last_part_follows_the_last_separator(head, '/', name);
    let long = name + ".fifo"@;
    assert(!long.contains('/')) by {
        if long.contains('/') {
            let k = long.index_of('/');
            if k < name.len() {
                assert(name[k] == '/');
            }
        }
    }
    text::law_the_last_part_follows_the_last_separator(head, '/', long);
    assert(head + seq!['/'] + name + ".fifo"@ =~= head + seq!['/'] + long);
    assert(long.skip(long.len() - ".fifo"@.len()) =~= ".fifo"@);
    if text::has_suffix(name, ".fifo"@) {
        let base = name.take(name.len() - ".fifo"@.len());
        assert(name =~= base + ".fifo"@);
    }
}

/// A window of the last so many milliseconds ends now; a range has its own start, and its own end
/// or else now.
pub proof fn law_windows_have_bounds(n: i64, from: i64, to: i64, now: int)
    ensures
        bounds(LogWindow::Last(n), now).1 == now,
        bounds(LogWindow::Last(n), now).1 - bounds(LogWindow::Last(n), now).0 == n,
        bounds(LogWindow::Range { from, to: None }, now) == (from as int, now),
        bounds(LogWindow::Range { from, to: Some(to) }, now) == (from as int, to as int),
{
}

/// Executions can be listed by five statuses, each under its own name; and the name that a listing
/// is asked for by is read back as that status.
pub proof fn law_listings_go_by_the_names_of_statuses(status: ExecStatus)
    ensures
        filter_of(status) is None <==> status == ExecStatus::PendingRedrive,
        filter_of(status) matches Some(name) ==> status_named(name) == status && name == (match status {
            ExecStatus::Running => "RUNNING"@,
            ExecStatus::Succeeded => "SUCCEEDED"@,
            ExecStatus::Failed => "FAILED"@,
            ExecStatus::TimedOut => "TIMED_OUT"@,
            ExecStatus::Aborted => "ABORTED"@,
            ExecStatus::PendingRedrive => "PENDING_REDRIVE"@,
        }),
{
    law_statuses_are_read_by_name(status);
}

/// Only the names of the service tell a machine to be express, or a rule to be disabled.
pub proof fn law_types_and_states_are_read_by_name(name: Text)
    ensures
        machine_named(name) == MachineType::Express <==> name == "EXPRESS"@,
        machine_named(name) == MachineType::Standard <==> name != "EXPRESS"@,
        state_named(Some(name)) == RuleState::Disabled <==> name == "DISABLED"@,
        state_named(None) == RuleState::Enabled,
{
}

/// A payload that fits is shown as it is, or indented where it is JSON; a longer one keeps its
/// beginning and says that it was cut.  What is missing is not made up.
pub proof fn law_payloads_are_shown(s: Text)
    ensures
        payload_of(None) is None,
        !json::is_json(s) && byte_len(s) <= 4096 ==> payload_of(Some(s)) == Some(s),
        json::is_json(s) && byte_len(json::indented(s)) <= 4096 ==> payload_of(Some(s)) == Some(json::indented(s)),
        !json::is_json(s) && byte_len(s) > 4096 ==> exists|kept: int|
            0 <= kept < s.len() && byte_len(#[trigger] s.take(kept)) <= 4096 && byte_len(s.take(kept + 1)) > 4096
                && payload_of(Some(s)) == Some(s.take(kept) + "\n… (truncado)"@),
        byte_len(s) <= 16384 ==> line_of(Some(s)) == s,
        byte_len(s) > 16384 ==> exists|kept: int|
            0 <= kept < s.len() && byte_len(#[trigger] s.take(kept)) <= 16384 && byte_len(s.take(kept + 1)) > 16384
                && line_of(Some(s)) == s.take(kept) + "…"@,
        line_of(None).len() == 0,
{
    lemma_fitting(s, 4096);
    lemma_fitting(s, 16384);
    if !json::is_json(s) && byte_len(s) > 4096 {
        assert(byte_len(s.take(fitting(s, 4096))) <= 4096);
    }
    if byte_len(s) > 16384 {
        assert(byte_len(s.take(fitting(s, 16384))) <= 16384);
    }
}

/// A rejected event is told by the first code or message among the entries: the code where an entry
/// has both.
pub proof fn law_rejections_are_told_by_the_first_reason(entries: Seq<(Option<Text>, Option<Text>)>, k: int)
    ensures
        0 <= k < entries.len() && (forall|i: int|
            0 <= i < k ==> (#[trigger] entries[i]).0 is None && entries[i].1 is None) ==> ((entries[k].0 matches Some(
            code,
        ) ==> reason_of(entries) == code) && (entries[k].0 is None && entries[k].1 is Some ==> reason_of(entries)
            == entries[k].1->0)),
        (forall|i: int| 0 <= i < entries.len() ==> (#[trigger] entries[i]).0 is None && entries[i].1 is None)
            ==> reason_of(entries) == "evento rechazado"@,
    decreases entries.len(),
{
    if entries.len() > 0 {
        let rest = entries.drop_first();
        assert(forall|i: int| 0 <= i < rest.len() ==> #[trigger] rest[i] == entries[i + 1]);
        law_rejections_are_told_by_the_first_reason(rest, k - 1);
    }
}

/// A failure is told under the name of the operation: by the advice of its class where there is
/// some, else by its causes, outermost first.
pub proof fn law_failures_are_told(op: Text, chain: Seq<Text>)
    ensures
        ({
            let all = text::joined(chain, ": "@);
            let kind = crate::message::kind_of(all);
            &&& kind_of_chain(chain) == kind
            &&& kind.advice() matches Some(advice) ==> failure_text(op, chain) == op + ": "@ + advice
            &&& kind.advice() is None ==> failure_text(op, chain) == op + ": "@ + all
        }),
{
}

/// When a message was sent and how often it was received are read back from the attributes of the
/// reply, in any order; what the reply leaves out is missing, and id and body are those of the reply.
pub proof fn law_messages_are_read_back(
    m: QueueMessageDto<Text>,
    id: Text,
    body: Text,
    pairs: Seq<(Text, Text)>,
    sent: int,
    received: int,
)
    requires
        message_matches(m, Some(id), Some(body), pairs),
        i64::MIN <= sent <= i64::MAX,
        i64::MIN <= received <= i64::MAX,
    ensures
        m.id == id,
        m.body == body,
        names(pairs, "SentTimestamp"@, text::int_text(sent)) ==> m.sent_ts == Some(sent as i64),
        names(pairs, "ApproximateReceiveCount"@, text::int_text(received)) ==> m.receive_count == Some(received as i64),
        lacks(pairs, "SentTimestamp"@) ==> m.sent_ts is None,
        lacks(pairs, "ApproximateReceiveCount"@) ==> m.receive_count is None,
{
    law_attributes_are_found_by_name(pairs, "SentTimestamp"@, text::int_text(sent));
    law_attributes_are_found_by_name(pairs, "ApproximateReceiveCount"@, text::int_text(received));
    text::law_numbers_are_read_back(sent);
    text::law_numbers_are_read_back(received);
}

/// What a reply tells of an execution stands where it belongs: the start before the stop, the input
/// before the output, the error before the cause.
pub proof fn law_details_keep_their_parts(
    status: Text,
    start: Option<i64>,
    stop: Option<i64>,
    input: Text,
    output: Text,
    error: Option<Text>,
    cause: Option<Text>,
    redrives: i32,
)
    ensures
        ({
            let d = detail_told(status, (start, stop), (Some(input), Some(output)), (error, cause), Some(redrives));
            &&& d.start_ts == start && d.stop_ts == stop
            &&& d.input == payload_of(Some(input)) && d.output == payload_of(Some(output))
            &&& d.error == error && d.cause == cause
            &&& d.redrive_count matches Some(n) && n == redrives
            &&& d.status == status_named(status)
        }),
        ({
            let d = detail_told(status, (start, stop), (None, None), (error, cause), None);
            d.input is None && d.output is None && d.redrive_count is None
        }),
{
}

} // verus!
