//! Made-up data, for trying the application out without a network.

use vstd::prelude::*;
use vstd::string::*;

use crate::action::{Action, ActionText};
use crate::aws::context::Env;
use crate::effects::{answer, content, is_answer, operation_of, payload, Reply};
use crate::message::{
    Envelope, EventBusDto, ExecStatus, ExecutionDetailDto, ExecutionDto, LogEventDto, LogGroupDto, LogStreamDto,
    MachineType, Message, QueueAttrsDto, QueueDto, QueueMessageDto, RuleDetailDto, RuleDto, RuleState, StateMachineDto,
    StateSpanDto, TargetDto, Text,
};
use crate::text;
use crate::util;

verus! {

/// An instant of June 2025, in milliseconds since the epoch.
pub const BASE_TS: i64 = 1_750_000_000_000;

/// An instant of February 2025, in milliseconds since the epoch.
pub const MACHINE_TS: i64 = 1_740_000_000_000;

/// The sum of the bytes, as far as 64 bits hold it: made-up data differs by it.
pub open spec fn seed_of(bytes: Seq<u8>) -> u64
    decreases bytes.len(),
{
    if bytes.len() == 0 {
        0
    } else {
        seed_of(bytes.drop_last()).wrapping_add(bytes.last() as u64)
    }
}

/// The seed of a text, by its UTF-8 bytes.
pub open spec fn text_seed(s: Text) -> u64 {
    seed_of(vstd::utf8::encode_utf8(s))
}

proof fn lemma_seed_goes_on(a: Seq<u8>, b: Seq<u8>)
    ensures
        seed_of(a + b) == seed_from(seed_of(a), b),
    decreases b.len(),
{
    if b.len() == 0 {
        assert(a + b =~= a);
    } else {
        lemma_seed_goes_on(a, b.drop_last());
        assert((a + b).drop_last() =~= a + b.drop_last());
        assert((a + b).last() == b.last());
    }
}

/// The bytes added to a seed.
spec fn seed_from(seed: u64, bytes: Seq<u8>) -> u64
    decreases bytes.len(),
{
    if bytes.len() == 0 {
        seed
    } else {
        seed_from(seed, bytes.drop_last()).wrapping_add(bytes.last() as u64)
    }
}

fn add_bytes(seed: u64, s: &str) -> (r: u64)
    ensures
        r == seed_from(seed, vstd::utf8::encode_utf8(s@)),
{
    let bytes = s.as_bytes();
    let ghost all = bytes@;
    let mut sum: u64 = seed;
    let mut i: usize = 0;
    while i < bytes.len()
        invariant
            i <= bytes@.len(),
            all == bytes@,
            sum == seed_from(seed, all.take(i as int)),
        decreases bytes@.len() - i,
    {
        proof {
            assert(all.take(i as int + 1).drop_last() =~= all.take(i as int));
        }
        sum = sum.wrapping_add(bytes[i] as u64);
        i = i + 1;
    }
    proof {
        assert(all.take(all.len() as int) =~= all);
    }
    sum
}

fn seed_for(s: &str) -> (r: u64)
    ensures
        r == text_seed(s@),
{
    proof {
        lemma_seed_goes_on(Seq::empty(), vstd::utf8::encode_utf8(s@));
        assert(Seq::<u8>::empty() + vstd::utf8::encode_utf8(s@) =~= vstd::utf8::encode_utf8(s@));
    }
    add_bytes(0, s)
}

fn glue(a: &str, b: &str, c: &str) -> (r: String)
    ensures
        r@ == a@ + b@ + c@,
{
    let mut out = a.to_string();
    out.append(b);
    out.append(c);
    out
}

// --- log groups ------------------------------------------------------------------------------

/// Names of the made-up log groups; two carry the profile, so that a change of environment shows.
pub open spec fn group_names(profile: Text) -> Seq<Text> {
    seq![
        "/aws/lambda/"@ + profile + "-orders-api"@,
        "/aws/lambda/"@ + profile + "-payments-worker"@,
        "/aws/lambda/orders-service-staging-CreateOrderV3"@,
        "/aws/lambda/notifications"@,
        "/aws/apigateway/public-edge"@,
        "/ecs/checkout-service"@,
        "/ecs/inventory-service"@,
        "/aws/rds/postgres-main"@,
        "/aws/stepfunctions/order-saga"@,
        "/aws/events/bus-default"@,
        "/aws/sqs/dlq-monitor"@,
    ]
}

/// A made-up log group.
pub open spec fn group_of(region: Text, name: Text) -> LogGroupDto<Text> {
    LogGroupDto {
        name,
        stored_bytes: Some((payload::byte_len(name) * 7919 % 5_000_000) as i64),
        arn: Some("arn:aws:logs:"@ + region + ":000000000000:log-group:"@ + name + ":*"@),
    }
}

/// A name holds some of these texts.
pub open spec fn holds_some(name: Text, texts: Seq<Text>) -> bool {
    exists|i: int| 0 <= i < texts.len() && text::occurs(name, #[trigger] texts[i])
}

/// A search finds a name that holds some spelling of what is searched.
pub open spec fn is_found(name: Text, query: Option<Text>) -> bool {
    match query {
        Some(q) => holds_some(name, util::case_variants_of(q)),
        None => true,
    }
}

/// The groups of the names that a search finds.
pub open spec fn found_groups(region: Text, names: Seq<Text>, query: Option<Text>) -> Seq<LogGroupDto<Text>>
    decreases names.len(),
{
    if names.len() == 0 {
        Seq::empty()
    } else {
        let before = found_groups(region, names.drop_last(), query);
        if is_found(names.last(), query) {
            before.push(group_of(region, names.last()))
        } else {
            before
        }
    }
}

fn finds(name: &str, query: Option<&str>) -> (r: bool)
    ensures
        r == is_found(name@, query.deep_view()),
{
    match query {
        Some(q) => {
            let variants = util::case_variants(q);
            let ghost all = util::case_variants_of(q@);
            let mut i: usize = 0;
            while i < variants.len()
                invariant
                    i <= variants@.len(),
                    query.deep_view() == Some(q@),
                    all == util::case_variants_of(q@),
                    all == variants.deep_view(),
                    forall|j: int| 0 <= j < i ==> !text::occurs(name@, #[trigger] all[j]),
                decreases variants@.len() - i,
            {
                assert(all[i as int] == variants@[i as int]@);
                if text::contains(name, variants[i].as_str()) {
                    assert(holds_some(name@, all));
                    return true;
                }
                i = i + 1;
            }
            false
        },
        None => true,
    }
}

fn group_named(region: &str, name: &str) -> (r: LogGroupDto)
    ensures
        r.deep_view() == group_of(region@, name@),
{
    let len: usize = name.as_bytes().len();
    let part: u64 = (len as u64 % 5_000_000) * 7919 % 5_000_000;
    proof {
        vstd::arithmetic::div_mod::lemma_mul_mod_noop_left(len as int, 7919, 5_000_000);
    }
    let stored: i64 = part as i64;
    let mut arn = glue("arn:aws:logs:", region, ":000000000000:log-group:");
    arn.append(name);
    arn.append(":*");
    LogGroupDto { name: name.to_string(), stored_bytes: Some(stored), arn: Some(arn) }
}

/// Made-up log groups, searched as the server searches: by a part of the name, in any of the
/// spellings of the search.
pub fn mock_log_groups(env: &Env, query: Option<&str>) -> (r: Vec<LogGroupDto>)
    ensures
        r.deep_view() == found_groups(env.region@, group_names(env.profile@), query.deep_view()),
{
    let profile = env.profile.as_str();
    let mut names: Vec<String> = Vec::new();
    names.push(glue("/aws/lambda/", profile, "-orders-api"));
    names.push(glue("/aws/lambda/", profile, "-payments-worker"));
    names.push("/aws/lambda/orders-service-staging-CreateOrderV3".to_string());
    names.push("/aws/lambda/notifications".to_string());
    names.push("/aws/apigateway/public-edge".to_string());
    names.push("/ecs/checkout-service".to_string());
    names.push("/ecs/inventory-service".to_string());
    names.push("/aws/rds/postgres-main".to_string());
    names.push("/aws/stepfunctions/order-saga".to_string());
    names.push("/aws/events/bus-default".to_string());
    names.push("/aws/sqs/dlq-monitor".to_string());
    let ghost all = group_names(profile@);
    proof {
        assert(names.deep_view() =~= all);
        assert(all.take(0) =~= Seq::empty());
    }
    let mut out: Vec<LogGroupDto> = Vec::new();
    assert(out.deep_view() =~= Seq::empty());
    let mut i: usize = 0;
    while i < names.len()
        invariant
            i <= names@.len(),
            all == names.deep_view(),
            out.deep_view() == found_groups(env.region@, all.take(i as int), query.deep_view()),
        decreases names@.len() - i,
    {
        proof {
            assert(all.take(i as int + 1).drop_last() =~= all.take(i as int));
            assert(all.take(i as int + 1).last() == names@[i as int]@);
        }
        let ghost before = out.deep_view();
        if finds(names[i].as_str(), query) {
            out.push(group_named(env.region.as_str(), names[i].as_str()));
            proof {
                assert(out.deep_view() =~= before.push(group_of(env.region@, all[i as int])));
            }
        }
        i = i + 1;
    }
    proof {
        assert(all.take(all.len() as int) =~= all);
    }
    out
}

// --- log lines -------------------------------------------------------------------------------

/// A made-up log stream; the name of its group tells its id.
pub open spec fn stream_of(group: Text, i: int) -> LogStreamDto<Text> {
    let sum = text_seed(group);
    let seed = if sum == 0 {
        1
    } else {
        sum
    };
    let id = seed.wrapping_mul(0x9E37_79B9).wrapping_add((i * 0x1000) as u64);
    LogStreamDto {
        name: "2026/06/20/[$LATEST]"@ + text::zero_fill(text::hexadecimal(id as nat, false), 16),
        last_event_ts: Some((BASE_TS - i * 137_000) as i64),
    }
}

/// Made-up log streams of a group, newest first.
pub open spec fn streams_of(group: Text) -> Seq<LogStreamDto<Text>> {
    Seq::new(14, |i: int| stream_of(group, i))
}

/// Made-up log streams of a group, newest first.
pub fn mock_log_streams(group: &str) -> (r: Vec<LogStreamDto>)
    ensures
        r.deep_view() == streams_of(group@),
{
    let sum: u64 = seed_for(group);
    let seed: u64 = if sum == 0 {
        1
    } else {
        sum
    };
    let mut out: Vec<LogStreamDto> = Vec::new();
    let mut i: u64 = 0;
    assert(out.deep_view() =~= streams_of(group@).take(0));
    while i < 14
        invariant
            i <= 14,
            sum == text_seed(group@),
            seed == (if sum == 0 {
                1u64
            } else {
                sum
            }),
            out.deep_view() == streams_of(group@).take(i as int),
        decreases 14 - i,
    {
        let id: u64 = seed.wrapping_mul(0x9E37_79B9).wrapping_add(i * 0x1000);
        let hex = text::hex_text(id, false);
        let mut name = "2026/06/20/[$LATEST]".to_string();
        name.append(text::fill_zeros(hex.as_str(), 16).as_str());
        let ghost before = out.deep_view();
        out.push(LogStreamDto { name, last_event_ts: Some(BASE_TS - i as i64 * 137_000) });
        proof {
            assert(out.deep_view() =~= before.push(stream_of(group@, i as int)));
            assert(streams_of(group@).take(i as int + 1) =~= before.push(streams_of(group@)[i as int]));
        }
        i = i + 1;
    }
    assert(streams_of(group@).take(14) =~= streams_of(group@));
    out
}

/// The made-up lines of a stream.
pub open spec fn stream_lines() -> Seq<Text> {
    seq![
        "START RequestId: 3f9a-1d2b Version: $LATEST"@,
        "INFO cold start: init 412ms"@,
        "INFO handler invoked: { \"orderId\": \"A-1001\" }"@,
        "INFO fetching order from dynamodb"@,
        "WARN retry 1/3: throttled by downstream"@,
        "INFO charge authorized: 4200 cents"@,
        "INFO publishing OrderProcessed event"@,
        "ERROR unhandled: NullPointer at process.js:42"@,
        "INFO emitting metrics: { \"latencyMs\": 318 }"@,
        "END RequestId: 3f9a-1d2b"@,
    ]
}

/// The made-up lines of a stream with their instants, oldest first; group and stream tell how far
/// apart they are.
pub open spec fn events_of(group: Text, stream: Text) -> Seq<LogEventDto<Text>> {
    let seed = seed_of(vstd::utf8::encode_utf8(group) + vstd::utf8::encode_utf8(stream));
    Seq::new(
        10,
        |i: int|
            LogEventDto::<Text> {
                ts: Some((BASE_TS + i * (1_000 + seed % 700)) as i64),
                message: stream_lines()[i],
                stream: None,
            },
    )
}

/// Made-up lines of a stream, oldest first.
pub fn mock_log_events(group: &str, stream: &str) -> (r: Vec<LogEventDto>)
    ensures
        r.deep_view() == events_of(group@, stream@),
{
    let first: u64 = seed_for(group);
    let seed: u64 = add_bytes(first, stream);
    proof {
        lemma_seed_goes_on(vstd::utf8::encode_utf8(group@), vstd::utf8::encode_utf8(stream@));
    }
    let mut lines: Vec<String> = Vec::new();
    lines.push("START RequestId: 3f9a-1d2b Version: $LATEST".to_string());
    lines.push("INFO cold start: init 412ms".to_string());
    lines.push("INFO handler invoked: { \"orderId\": \"A-1001\" }".to_string());
    lines.push("INFO fetching order from dynamodb".to_string());
    lines.push("WARN retry 1/3: throttled by downstream".to_string());
    lines.push("INFO charge authorized: 4200 cents".to_string());
    lines.push("INFO publishing OrderProcessed event".to_string());
    lines.push("ERROR unhandled: NullPointer at process.js:42".to_string());
    lines.push("INFO emitting metrics: { \"latencyMs\": 318 }".to_string());
    lines.push("END RequestId: 3f9a-1d2b".to_string());
    assert(lines.deep_view() =~= stream_lines());
    let step: i64 = 1_000 + (seed % 700) as i64;
    let mut out: Vec<LogEventDto> = Vec::new();
    let mut i: usize = 0;
    let ghost all = events_of(group@, stream@);
    assert(out.deep_view() =~= all.take(0));
    while i < lines.len()
        invariant
            i <= lines@.len(),
            lines@.len() == 10,
            lines.deep_view() == stream_lines(),
            all == events_of(group@, stream@),
            seed == seed_of(vstd::utf8::encode_utf8(group@) + vstd::utf8::encode_utf8(stream@)),
            step == 1_000 + seed % 700,
            out.deep_view() == all.take(i as int),
        decreases lines@.len() - i,
    {
        proof {
            assert(lines.deep_view()[i as int] == lines@[i as int]@);
            assert(0 <= i * step <= 17_000) by (nonlinear_arith)
                requires
                    0 <= i < 10,
                    1_000 <= step < 1_700,
            ;
        }
        let at: i64 = BASE_TS + i as i64 * step;
        let ghost before = out.deep_view();
        out.push(LogEventDto { ts: Some(at), message: lines[i].clone(), stream: None });
        proof {
            assert(out.deep_view() =~= before.push(all[i as int]));
            assert(all.take(i as int + 1) =~= before.push(all[i as int]));
        }
        i = i + 1;
    }
    assert(all.take(10) =~= all);
    out
}

/// The made-up lines of a whole group.
pub open spec fn tail_lines() -> Seq<Text> {
    seq![
        "INFO request accepted"@,
        "INFO validating payload"@,
        "WARN deprecated field 'legacyId' present"@,
        "ERROR downstream 502: payments-api unavailable"@,
        "INFO falling back to cache"@,
        "INFO response sent 200"@,
    ]
}

/// The stream that the line at `i` comes from: one of three, in turn.
pub open spec fn tail_stream(group: Text, i: int) -> Text {
    let seed = text_seed(group) as u32;
    let id = if i % 3 == 0 {
        seed
    } else if i % 3 == 1 {
        seed.wrapping_mul(7)
    } else {
        seed.wrapping_mul(13)
    };
    "2026/06/21/[$LATEST]"@ + text::zero_fill(text::hexadecimal(id as nat, false), 8)
}

/// A line matches a pattern that it holds, in any case; without a pattern every line matches.
pub open spec fn is_matched(line: Text, pattern: Option<Text>) -> bool {
    match pattern {
        Some(p) => text::occurs(text::lowercase(line), text::lowercase(p)),
        None => true,
    }
}

/// The first `n` made-up lines of a whole group that match a pattern, oldest first.
pub open spec fn tail_of(group: Text, pattern: Option<Text>, n: int) -> Seq<LogEventDto<Text>>
    decreases n,
{
    if n <= 0 {
        Seq::empty()
    } else {
        let before = tail_of(group, pattern, n - 1);
        if is_matched(tail_lines()[n - 1], pattern) {
            before.push(
                LogEventDto {
                    ts: Some((BASE_TS + (n - 1) * 1_700) as i64),
                    message: tail_lines()[n - 1],
                    stream: Some(tail_stream(group, n - 1)),
                },
            )
        } else {
            before
        }
    }
}

fn tail_stream_name(seed: u32, i: usize) -> (r: String)
    ensures
        forall|group: Text|
            seed == text_seed(group) as u32 ==> r@ == #[trigger] tail_stream(group, i as int),
{
    let id: u32 = if i % 3 == 0 {
        seed
    } else if i % 3 == 1 {
        seed.wrapping_mul(7)
    } else {
        seed.wrapping_mul(13)
    };
    let hex = text::hex_text(id as u64, false);
    let mut name = "2026/06/21/[$LATEST]".to_string();
    name.append(text::fill_zeros(hex.as_str(), 8).as_str());
    name
}

/// Made-up lines of a whole group, oldest first, from three streams in turn.
pub fn mock_log_tail(group: &str, pattern: Option<&str>) -> (r: Vec<LogEventDto>)
    ensures
        r.deep_view() == tail_of(group@, pattern.deep_view(), 6),
{
    let sum: u64 = seed_for(group);
    let seed: u32 = sum as u32;
    let mut lines: Vec<String> = Vec::new();
    lines.push("INFO request accepted".to_string());
    lines.push("INFO validating payload".to_string());
    lines.push("WARN deprecated field 'legacyId' present".to_string());
    lines.push("ERROR downstream 502: payments-api unavailable".to_string());
    lines.push("INFO falling back to cache".to_string());
    lines.push("INFO response sent 200".to_string());
    assert(lines.deep_view() =~= tail_lines());
    let wanted: Option<String> = match pattern {
        Some(p) => Some(text::to_lowercase(p)),
        None => None,
    };
    let mut out: Vec<LogEventDto> = Vec::new();
    let mut i: usize = 0;
    assert(out.deep_view() =~= Seq::empty());
    while i < lines.len()
        invariant
            i <= lines@.len(),
            lines@.len() == 6,
            lines.deep_view() == tail_lines(),
            seed == text_seed(group@) as u32,
            match (wanted, pattern.deep_view()) {
                (Some(w), Some(p)) => w@ == text::lowercase(p),
                (None, None) => true,
                _ => false,
            },
            out.deep_view() == tail_of(group@, pattern.deep_view(), i as int),
        decreases lines@.len() - i,
    {
        proof {
            assert(lines.deep_view()[i as int] == lines@[i as int]@);
        }
        let line = lines[i].as_str();
        let matched = match &wanted {
            Some(w) => text::contains(text::to_lowercase(line).as_str(), w.as_str()),
            None => true,
        };
        let ghost before = out.deep_view();
        if matched {
            let at: i64 = BASE_TS + i as i64 * 1_700;
            out.push(LogEventDto { ts: Some(at), message: line.to_string(), stream: Some(tail_stream_name(seed, i)) });
            proof {
                assert(out.deep_view() =~= before.push(
                    LogEventDto {
                        ts: Some((BASE_TS + i * 1_700) as i64),
                        message: tail_lines()[i as int],
                        stream: Some(tail_stream(group@, i as int)),
                    },
                ));
            }
        }
        i = i + 1;
    }
    out
}

// --- queues ----------------------------------------------------------------------------------

/// Address of a made-up queue.
pub open spec fn queue_url(region: Text, name: Text) -> Text {
    "https://sqs."@ + region + ".amazonaws.com/000000000000/"@ + name
}

/// Names of the made-up queues; two carry the profile.
pub open spec fn queue_names(profile: Text) -> Seq<Text> {
    seq![
        profile + "-orders"@,
        profile + "-payments.fifo"@,
        "notifications"@,
        "checkout-events"@,
        "image-processing"@,
        "orders-dlq"@,
    ]
}

/// The made-up queues.
pub open spec fn queues_of(env: Env<Text>) -> Seq<QueueDto<Text>> {
    queue_names(env.profile).map_values(
        |name: Text|
            QueueDto::<Text> {
                name,
                url: queue_url(env.region, name),
                is_fifo: text::has_suffix(name, ".fifo"@),
            },
    )
}

/// The made-up queues: among them a FIFO queue and a dead-letter queue.
pub fn mock_queues(env: &Env) -> (r: Vec<QueueDto>)
    ensures
        r.deep_view() == queues_of(env.deep_view()),
{
    let profile = env.profile.as_str();
    let mut names: Vec<String> = Vec::new();
    names.push(glue(profile, "-orders", ""));
    names.push(glue(profile, "-payments.fifo", ""));
    names.push("notifications".to_string());
    names.push("checkout-events".to_string());
    names.push("image-processing".to_string());
    names.push("orders-dlq".to_string());
    proof {
        reveal_strlit("");
        assert(profile@ + "-orders"@ + ""@ =~= profile@ + "-orders"@);
        assert(profile@ + "-payments.fifo"@ + ""@ =~= profile@ + "-payments.fifo"@);
        assert(names.deep_view() =~= queue_names(profile@));
    }
    let ghost all = queues_of(env.deep_view());
    let mut out: Vec<QueueDto> = Vec::new();
    let mut i: usize = 0;
    assert(out.deep_view() =~= all.take(0));
    while i < names.len()
        invariant
            i <= names@.len(),
            names.deep_view() == queue_names(env.profile@),
            all == queues_of(env.deep_view()),
            out.deep_view() == all.take(i as int),
        decreases names@.len() - i,
    {
        let name = names[i].as_str();
        assert(names.deep_view()[i as int] == name@);
        let mut url = glue("https://sqs.", env.region.as_str(), ".amazonaws.com/000000000000/");
        url.append(name);
        let ghost before = out.deep_view();
        out.push(QueueDto { name: name.to_string(), url, is_fifo: text::ends_with(name, ".fifo") });
        proof {
            assert(out.deep_view() =~= before.push(all[i as int]));
            assert(all.take(i as int + 1) =~= before.push(all[i as int]));
        }
        i = i + 1;
    }
    assert(all.take(all.len() as int) =~= all);
    out
}

/// ARN of a made-up queue.
pub open spec fn queue_arn(name: Text) -> Text {
    "arn:aws:sqs:us-east-1:000000000000:"@ + name
}

/// A made-up message of a queue.
pub open spec fn message_of(name: Text, i: int) -> QueueMessageDto<Text> {
    QueueMessageDto {
        id: name + "-msg-"@ + text::decimal(i as nat),
        body: "{\"event\":\"sample\",\"n\":"@ + text::decimal(i as nat) + ",\"queue\":\""@ + name + "\"}"@,
        sent_ts: Some((BASE_TS - i * 53_000) as i64),
        receive_count: Some((i % 3 + 1) as i64),
    }
}

/// The queue that a made-up dead-letter queue serves.
pub open spec fn source_name(name: Text) -> Text {
    if text::has_suffix(name, "-dlq"@) {
        name.take(name.len() - 4)
    } else {
        name
    }
}

/// The made-up attributes of a queue: one whose name tells of a dead-letter queue serves another,
/// and every other one has such a queue.
pub open spec fn queue_attrs_of(url: Text) -> QueueAttrsDto<Text, Seq<Text>> {
    let name = text::last_part_of(url, '/');
    let seed = text_seed(url);
    let is_dlq = text::occurs(name, "dlq"@);
    QueueAttrsDto {
        visible: Some((seed % 137) as i64),
        in_flight: Some((seed % 19) as i64),
        delayed: Some(0),
        arn: Some(queue_arn(name)),
        dlq_target_arn: if is_dlq {
            None
        } else {
            Some(queue_arn(name) + "-dlq"@)
        },
        max_receive_count: if is_dlq {
            None
        } else {
            Some(5)
        },
        dlq_sources: if is_dlq {
            seq!["https://sqs.us-east-1.amazonaws.com/000000000000/"@ + source_name(name)]
        } else {
            Seq::empty()
        },
    }
}

/// The made-up messages of a queue: as many as it counts, and at most eight.
pub open spec fn queue_messages_of(url: Text) -> Seq<QueueMessageDto<Text>> {
    let visible = text_seed(url) % 137;
    Seq::new(
        (if visible < 8 {
            visible
        } else {
            8
        }) as nat,
        |i: int| message_of(text::last_part_of(url, '/'), i),
    )
}

/// Made-up attributes and messages of a queue.
pub fn mock_queue_detail(url: &str) -> (r: (QueueAttrsDto, Vec<QueueMessageDto>))
    ensures
        r.0.deep_view() == queue_attrs_of(url@),
        r.1.deep_view() == queue_messages_of(url@),
{
    let name = text::last_part(url, '/');
    let seed: u64 = seed_for(url);
    let visible: i64 = (seed % 137) as i64;
    let is_dlq = text::contains(name.as_str(), "dlq");
    let mut arn = "arn:aws:sqs:us-east-1:000000000000:".to_string();
    arn.append(name.as_str());
    let mut sources: Vec<String> = Vec::new();
    let dlq_target_arn = if is_dlq {
        let source = if text::ends_with(name.as_str(), "-dlq") {
            proof {
                reveal_strlit("-dlq");
            }
            let v = text::chars_of(name.as_str());
            let cut = text::text_of(&v, 0, v.len() - 4);
            assert(cut@ =~= source_name(name@));
            cut
        } else {
            name.clone()
        };
        let mut source_url = "https://sqs.us-east-1.amazonaws.com/000000000000/".to_string();
        source_url.append(source.as_str());
        sources.push(source_url);
        None
    } else {
        let mut target = arn.clone();
        target.append("-dlq");
        Some(target)
    };
    proof {
        assert(sources.deep_view() =~= queue_attrs_of(url@).dlq_sources);
    }
    let max_receive_count: Option<i64> = if is_dlq {
        None
    } else {
        Some(5)
    };
    let attrs = QueueAttrsDto {
        visible: Some(visible),
        in_flight: Some((seed % 19) as i64),
        delayed: Some(0),
        arn: Some(arn),
        dlq_target_arn,
        max_receive_count,
        dlq_sources: sources,
    };
    let count: i64 = if visible < 8 {
        visible
    } else {
        8
    };
    let ghost all = queue_messages_of(url@);
    let mut messages: Vec<QueueMessageDto> = Vec::new();
    let mut i: i64 = 0;
    assert(messages.deep_view() =~= all.take(0));
    while i < count
        invariant
            0 <= i <= count <= 8,
            name@ == text::last_part_of(url@, '/'),
            all == queue_messages_of(url@),
            all.len() == count,
            messages.deep_view() == all.take(i as int),
        decreases count - i,
    {
        let number = text::dec_text(i as u64);
        let id = glue(name.as_str(), "-msg-", number.as_str());
        let mut body = glue("{\"event\":\"sample\",\"n\":", number.as_str(), ",\"queue\":\"");
        body.append(name.as_str());
        body.append("\"}");
        let ghost before = messages.deep_view();
        messages.push(
            QueueMessageDto { id, body, sent_ts: Some(BASE_TS - i * 53_000), receive_count: Some(i % 3 + 1) },
        );
        proof {
            assert(messages.deep_view() =~= before.push(message_of(name@, i as int)));
            assert(all.take(i as int + 1) =~= before.push(all[i as int]));
        }
        i = i + 1;
    }
    assert(all.take(all.len() as int) =~= all);
    (attrs, messages)
}

// --- state machines --------------------------------------------------------------------------

/// A made-up state machine.
pub open spec fn machine_of(env: Env<Text>, name: Text, machine_type: MachineType, i: int) -> StateMachineDto<Text> {
    StateMachineDto {
        arn: "arn:aws:states:"@ + env.region + ":000000000000:stateMachine:"@ + (env.profile + "-"@ + name),
        name: env.profile + "-"@ + name,
        machine_type,
        created_ts: Some((MACHINE_TS - i * 86_400_000) as i64),
    }
}

/// The made-up state machines.
pub open spec fn machines_of(env: Env<Text>) -> Seq<StateMachineDto<Text>> {
    seq![
        machine_of(env, "order-saga"@, MachineType::Standard, 0),
        machine_of(env, "payment-flow"@, MachineType::Standard, 1),
        machine_of(env, "ingest-fast"@, MachineType::Express, 2),
        machine_of(env, "nightly-report"@, MachineType::Standard, 3),
    ]
}

fn machine_named(env: &Env, name: &str, machine_type: MachineType, i: i64) -> (r: StateMachineDto)
    requires
        0 <= i < 10,
    ensures
        r.deep_view() == machine_of(env.deep_view(), name@, machine_type, i as int),
{
    let full = glue(env.profile.as_str(), "-", name);
    let mut arn = glue("arn:aws:states:", env.region.as_str(), ":000000000000:stateMachine:");
    arn.append(full.as_str());
    StateMachineDto { arn, name: full, machine_type, created_ts: Some(MACHINE_TS - i * 86_400_000) }
}

/// The made-up state machines, under names that carry the profile.
pub fn mock_state_machines(env: &Env) -> (r: Vec<StateMachineDto>)
    ensures
        r.deep_view() == machines_of(env.deep_view()),
{
    let mut out: Vec<StateMachineDto> = Vec::new();
    out.push(machine_named(env, "order-saga", MachineType::Standard, 0));
    out.push(machine_named(env, "payment-flow", MachineType::Standard, 1));
    out.push(machine_named(env, "ingest-fast", MachineType::Express, 2));
    out.push(machine_named(env, "nightly-report", MachineType::Standard, 3));
    assert(out.deep_view() =~= machines_of(env.deep_view()));
    out
}

/// Word and status of the made-up executions; the detail of an execution goes by the word.
pub open spec fn execution_kind(i: int) -> (Text, ExecStatus) {
    if i == 0 {
        ("fail"@, ExecStatus::Failed)
    } else if i == 1 {
        ("ok-1"@, ExecStatus::Succeeded)
    } else if i == 2 {
        ("ok-2"@, ExecStatus::Succeeded)
    } else if i == 3 {
        ("run"@, ExecStatus::Running)
    } else if i == 4 {
        ("abort"@, ExecStatus::Aborted)
    } else {
        ("timeout"@, ExecStatus::TimedOut)
    }
}

/// A made-up execution; one that runs has not stopped.
pub open spec fn execution_of(machine_arn: Text, i: int) -> ExecutionDto<Text> {
    let (word, status) = execution_kind(i);
    let name = "exec-"@ + word + "-"@ + text::decimal(i as nat);
    let start = BASE_TS - i * 3_600_000;
    ExecutionDto {
        arn: machine_arn + ":exec:"@ + name,
        name,
        status,
        start_ts: Some(start as i64),
        stop_ts: if status == ExecStatus::Running {
            None
        } else {
            Some((start + 45_000 + i * 1_000) as i64)
        },
    }
}

/// The first `n` made-up executions of a machine, or those among them with a status.
pub open spec fn executions_of(machine_arn: Text, status: Option<ExecStatus>, n: int) -> Seq<ExecutionDto<Text>>
    decreases n,
{
    if n <= 0 {
        Seq::empty()
    } else {
        let before = executions_of(machine_arn, status, n - 1);
        if status is None || status == Some(execution_kind(n - 1).1) {
            before.push(execution_of(machine_arn, n - 1))
        } else {
            before
        }
    }
}

fn kind_at(i: u64) -> (r: (&'static str, ExecStatus))
    ensures
        (r.0@, r.1) == execution_kind(i as int),
{
    if i == 0 {
        ("fail", ExecStatus::Failed)
    } else if i == 1 {
        ("ok-1", ExecStatus::Succeeded)
    } else if i == 2 {
        ("ok-2", ExecStatus::Succeeded)
    } else if i == 3 {
        ("run", ExecStatus::Running)
    } else if i == 4 {
        ("abort", ExecStatus::Aborted)
    } else {
        ("timeout", ExecStatus::TimedOut)
    }
}

/// Made-up executions of a machine, or those among them with a status.
pub fn mock_executions(machine_arn: &str, status: Option<ExecStatus>) -> (r: Vec<ExecutionDto>)
    ensures
        r.deep_view() == executions_of(machine_arn@, status, 6),
{
    let mut out: Vec<ExecutionDto> = Vec::new();
    let mut i: u64 = 0;
    assert(out.deep_view() =~= Seq::empty());
    while i < 6
        invariant
            i <= 6,
            out.deep_view() == executions_of(machine_arn@, status, i as int),
        decreases 6 - i,
    {
        let (word, is) = kind_at(i);
        let wanted = match status {
            Some(want) => want == is,
            None => true,
        };
        let ghost before = out.deep_view();
        if wanted {
            let mut name = glue("exec-", word, "-");
            name.append(text::dec_text(i).as_str());
            let start: i64 = BASE_TS - i as i64 * 3_600_000;
            let stop: Option<i64> = if is == ExecStatus::Running {
                None
            } else {
                Some(start + 45_000 + i as i64 * 1_000)
            };
            let arn = glue(machine_arn, ":exec:", name.as_str());
            out.push(ExecutionDto { arn, name, status: is, start_ts: Some(start), stop_ts: stop });
            proof {
                assert(out.deep_view() =~= before.push(execution_of(machine_arn@, i as int)));
            }
        }
        i = i + 1;
    }
    out
}

/// The states that invoke a function under their own name.
pub open spec fn invokes(name: Text) -> bool {
    name == "Validate"@ || name == "ChargeCard"@ || name == "ProcessOrder"@
}

/// A made-up state of a timeline, entered and left so many milliseconds after the start.
pub open spec fn span_of(name: Text, from: int, to: Option<int>, failed: bool) -> StateSpanDto<Text> {
    StateSpanDto {
        name,
        entered_ts: Some((BASE_TS + from) as i64),
        exited_ts: match to {
            Some(t) => Some((BASE_TS + t) as i64),
            None => None,
        },
        failed,
        input: Some("{\n  \"state\": \""@ + name + "\",\n  \"orderId\": \"A-1001\"\n}"@),
        output: match to {
            Some(_) => Some("{\n  \"state\": \""@ + name + "\",\n  \"ok\": true\n}"@),
            None => None,
        },
        resource_arn: if invokes(name) {
            Some("arn:aws:lambda:us-east-1:123456789012:function:"@ + name)
        } else {
            None
        },
    }
}

fn span_at(name: &str, from: i64, to: Option<i64>, failed: bool) -> (r: StateSpanDto)
    requires
        0 <= from < 100_000,
        to matches Some(t) ==> 0 <= t < 100_000,
    ensures
        r.deep_view() == span_of(
            name@,
            from as int,
            match to {
                Some(t) => Some(t as int),
                None => None,
            },
            failed,
        ),
{
    let (exited_ts, output) = match to {
        Some(t) => (
            Some(BASE_TS + t),
            Some(glue("{\n  \"state\": \"", name, "\",\n  \"ok\": true\n}")),
        ),
        None => (None, None),
    };
    let resource_arn = if text::same(name, "Validate") || text::same(name, "ChargeCard") || text::same(
        name,
        "ProcessOrder",
    ) {
        let mut arn = "arn:aws:lambda:us-east-1:123456789012:function:".to_string();
        arn.append(name);
        Some(arn)
    } else {
        None
    };
    StateSpanDto {
        name: name.to_string(),
        entered_ts: Some(BASE_TS + from),
        exited_ts,
        failed,
        input: Some(glue("{\n  \"state\": \"", name, "\",\n  \"orderId\": \"A-1001\"\n}")),
        output,
        resource_arn,
    }
}

/// The execution fails, by the words of its ARN.
pub open spec fn tells_of_failing(arn: Text) -> bool {
    text::occurs(arn, "fail"@) || text::occurs(arn, "abort"@) || text::occurs(arn, "timeout"@)
}

/// The made-up detail of an execution, its timeline and the state that failed, by the words of its
/// ARN: it failed, it runs, or it succeeded.
pub open spec fn execution_detail_of(arn: Text) -> (ExecutionDetailDto<Text>, Seq<StateSpanDto<Text>>, Option<Text>) {
    let input = Some("{\n  \"orderId\": \"A-1001\",\n  \"amount\": 4200\n}"@);
    if tells_of_failing(arn) {
        (
            ExecutionDetailDto {
                status: ExecStatus::Failed,
                start_ts: Some(BASE_TS),
                stop_ts: Some((BASE_TS + 12_000) as i64),
                input,
                output: None,
                error: Some("States.TaskFailed"@),
                cause: Some("ProcessOrder lambda lanzó: insufficient funds"@),
                redrive_count: Some(0),
            },
            seq![
                span_of("Validate"@, 0, Some(2_000), false),
                span_of("ChargeCard"@, 2_000, Some(5_000), false),
                span_of("ProcessOrder"@, 5_000, None, true),
            ],
            Some("ProcessOrder"@),
        )
    } else if text::occurs(arn, "run"@) {
        (
            ExecutionDetailDto {
                status: ExecStatus::Running,
                start_ts: Some(BASE_TS),
                stop_ts: None,
                input,
                output: None,
                error: None,
                cause: None,
                redrive_count: Some(0),
            },
            seq![span_of("Validate"@, 0, Some(2_000), false), span_of("ChargeCard"@, 2_000, None, false)],
            None,
        )
    } else {
        (
            ExecutionDetailDto {
                status: ExecStatus::Succeeded,
                start_ts: Some(BASE_TS),
                stop_ts: Some((BASE_TS + 9_000) as i64),
                input,
                output: Some("{\n  \"status\": \"ok\"\n}"@),
                error: None,
                cause: None,
                redrive_count: Some(0),
            },
            seq![
                span_of("Validate"@, 0, Some(2_000), false),
                span_of("ChargeCard"@, 2_000, Some(5_000), false),
                span_of("ProcessOrder"@, 5_000, Some(9_000), false),
            ],
            None,
        )
    }
}

/// The made-up detail of an execution, its timeline and the state that failed.
pub fn mock_execution_detail(execution_arn: &str) -> (r: (ExecutionDetailDto, Vec<StateSpanDto>, Option<String>))
    ensures
        (r.0.deep_view(), r.1.deep_view(), r.2.deep_view()) == execution_detail_of(execution_arn@),
{
    let input = Some("{\n  \"orderId\": \"A-1001\",\n  \"amount\": 4200\n}".to_string());
    let mut history: Vec<StateSpanDto> = Vec::new();
    history.push(span_at("Validate", 0, Some(2_000), false));
    if text::contains(execution_arn, "fail") || text::contains(execution_arn, "abort") || text::contains(
        execution_arn,
        "timeout",
    ) {
        let detail = ExecutionDetailDto {
            status: ExecStatus::Failed,
            start_ts: Some(BASE_TS),
            stop_ts: Some(BASE_TS + 12_000),
            input,
            output: None,
            error: Some("States.TaskFailed".to_string()),
            cause: Some("ProcessOrder lambda lanzó: insufficient funds".to_string()),
            redrive_count: Some(0),
        };
        history.push(span_at("ChargeCard", 2_000, Some(5_000), false));
        history.push(span_at("ProcessOrder", 5_000, None, true));
        assert(history.deep_view() =~= execution_detail_of(execution_arn@).1);
        (detail, history, Some("ProcessOrder".to_string()))
    } else if text::contains(execution_arn, "run") {
        let detail = ExecutionDetailDto {
            status: ExecStatus::Running,
            start_ts: Some(BASE_TS),
            stop_ts: None,
            input,
            output: None,
            error: None,
            cause: None,
            redrive_count: Some(0),
        };
        history.push(span_at("ChargeCard", 2_000, None, false));
        assert(history.deep_view() =~= execution_detail_of(execution_arn@).1);
        (detail, history, None)
    } else {
        let detail = ExecutionDetailDto {
            status: ExecStatus::Succeeded,
            start_ts: Some(BASE_TS),
            stop_ts: Some(BASE_TS + 9_000),
            input,
            output: Some("{\n  \"status\": \"ok\"\n}".to_string()),
            error: None,
            cause: None,
            redrive_count: Some(0),
        };
        history.push(span_at("ChargeCard", 2_000, Some(5_000), false));
        history.push(span_at("ProcessOrder", 5_000, Some(9_000), false));
        assert(history.deep_view() =~= execution_detail_of(execution_arn@).1);
        (detail, history, None)
    }
}

/// The made-up detail of an execution agrees with its timeline: a state failed exactly where the
/// execution did, it is the one that the answer names, and it has not been left.
pub proof fn law_made_up_failures_agree(arn: Text)
    ensures
        ({
            let (detail, spans, failed) = execution_detail_of(arn);
            &&& detail.status.ended_in_failure() <==> failed is Some
            &&& failed matches Some(name) ==> spans.last().failed && spans.last().name == name
                && spans.last().exited_ts is None
            &&& failed is None ==> forall|i: int| 0 <= i < spans.len() ==> !(#[trigger] spans[i]).failed
        }),
{
}

// --- event buses -----------------------------------------------------------------------------

/// A made-up event bus.
pub open spec fn bus_of(region: Text, name: Text) -> EventBusDto<Text> {
    EventBusDto { arn: "arn:aws:events:"@ + region + ":000000000000:event-bus/"@ + name, name }
}

/// The made-up event buses; two carry the profile.
pub open spec fn buses_of(env: Env<Text>) -> Seq<EventBusDto<Text>> {
    seq![
        bus_of(env.region, "default"@),
        bus_of(env.region, env.profile + "-"@ + "app-bus"@),
        bus_of(env.region, env.profile + "-"@ + "ingest-bus"@),
    ]
}

fn bus_named(region: &str, name: String) -> (r: EventBusDto)
    ensures
        r.deep_view() == bus_of(region@, name@),
{
    let mut arn = glue("arn:aws:events:", region, ":000000000000:event-bus/");
    arn.append(name.as_str());
    EventBusDto { arn, name }
}

/// The made-up event buses.
pub fn mock_event_buses(env: &Env) -> (r: Vec<EventBusDto>)
    ensures
        r.deep_view() == buses_of(env.deep_view()),
{
    let region = env.region.as_str();
    let mut out: Vec<EventBusDto> = Vec::new();
    out.push(bus_named(region, "default".to_string()));
    out.push(bus_named(region, glue(env.profile.as_str(), "-", "app-bus")));
    out.push(bus_named(region, glue(env.profile.as_str(), "-", "ingest-bus")));
    assert(out.deep_view() =~= buses_of(env.deep_view()));
    out
}

/// A made-up rule.
pub open spec fn rule_of(bus: Text, name: Text, state: RuleState, description: Text) -> RuleDto<Text> {
    RuleDto { name, event_bus_name: bus, state, description: Some(description) }
}

/// The made-up rules of a bus.
pub open spec fn rules_of(bus: Text) -> Seq<RuleDto<Text>> {
    seq![
        rule_of(bus, "orders-created"@, RuleState::Enabled, "Route OrderCreated to fulfillment"@),
        rule_of(bus, "payments-failed"@, RuleState::Enabled, "Alert on PaymentFailed"@),
        rule_of(bus, "nightly-disabled"@, RuleState::Disabled, "Nightly batch (apagada)"@),
        rule_of(bus, "audit-all"@, RuleState::Enabled, "Archive every event"@),
    ]
}

fn rule_named(bus: &str, name: &str, state: RuleState, description: &str) -> (r: RuleDto)
    ensures
        r.deep_view() == rule_of(bus@, name@, state, description@),
{
    RuleDto {
        name: name.to_string(),
        event_bus_name: bus.to_string(),
        state,
        description: Some(description.to_string()),
    }
}

/// The made-up rules of a bus, one of them disabled.
pub fn mock_rules(event_bus_name: &str) -> (r: Vec<RuleDto>)
    ensures
        r.deep_view() == rules_of(event_bus_name@),
{
    let bus = event_bus_name;
    let mut out: Vec<RuleDto> = Vec::new();
    out.push(rule_named(bus, "orders-created", RuleState::Enabled, "Route OrderCreated to fulfillment"));
    out.push(rule_named(bus, "payments-failed", RuleState::Enabled, "Alert on PaymentFailed"));
    out.push(rule_named(bus, "nightly-disabled", RuleState::Disabled, "Nightly batch (apagada)"));
    out.push(rule_named(bus, "audit-all", RuleState::Enabled, "Archive every event"));
    assert(out.deep_view() =~= rules_of(event_bus_name@));
    out
}

/// The made-up detail of a rule; one whose name tells so is disabled.
pub open spec fn rule_detail_of(bus: Text, rule: Text) -> RuleDetailDto<Text> {
    RuleDetailDto {
        state: if text::occurs(rule, "disabled"@) {
            RuleState::Disabled
        } else {
            RuleState::Enabled
        },
        description: Some("Rule "@ + rule + " en "@ + bus),
        event_pattern: payload::payload_of(
            Some("{\"source\":[\"my.app\"],\"detail-type\":[\"OrderCreated\"]}"@),
        ),
        schedule_expression: None,
    }
}

/// The made-up targets of a rule.
pub open spec fn targets_of() -> Seq<TargetDto<Text>> {
    seq![
        TargetDto {
            id: "target-lambda"@,
            arn: "arn:aws:lambda:us-east-1:000000000000:function:fulfillment"@,
            input: None,
        },
        TargetDto {
            id: "target-sqs"@,
            arn: "arn:aws:sqs:us-east-1:000000000000:orders-dlq"@,
            input: payload::payload_of(Some("{\"forwarded\":true}"@)),
        },
    ]
}

/// The made-up detail and targets of a rule.
pub fn mock_rule_detail(event_bus_name: &str, rule_name: &str) -> (r: (RuleDetailDto, Vec<TargetDto>))
    ensures
        r.0.deep_view() == rule_detail_of(event_bus_name@, rule_name@),
        r.1.deep_view() == targets_of(),
{
    let state = if text::contains(rule_name, "disabled") {
        RuleState::Disabled
    } else {
        RuleState::Enabled
    };
    let mut description = glue("Rule ", rule_name, " en ");
    description.append(event_bus_name);
    let detail = RuleDetailDto {
        state,
        description: Some(description),
        event_pattern: payload::pretty_truncate(
            Some("{\"source\":[\"my.app\"],\"detail-type\":[\"OrderCreated\"]}"),
        ),
        schedule_expression: None,
    };
    let mut targets: Vec<TargetDto> = Vec::new();
    targets.push(
        TargetDto {
            id: "target-lambda".to_string(),
            arn: "arn:aws:lambda:us-east-1:000000000000:function:fulfillment".to_string(),
            input: None,
        },
    );
    targets.push(
        TargetDto {
            id: "target-sqs".to_string(),
            arn: "arn:aws:sqs:us-east-1:000000000000:orders-dlq".to_string(),
            input: payload::pretty_truncate(Some("{\"forwarded\":true}")),
        },
    );
    assert(targets.deep_view() =~= targets_of());
    (detail, targets)
}

// --- replies ---------------------------------------------------------------------------------

/// The made-up reply to an action: data for what loads something, and consent to what changes
/// something.  Functions have no made-up data: to ask for them fails.
pub open spec fn is_mock_reply(env: Env<Text>, action: ActionText, reply: Option<Reply>) -> bool {
    match action {
        Action::LoadLogGroups { query } => reply matches Some(Reply::LogGroups { groups, more }) && groups.deep_view()
            == found_groups(env.region, group_names(env.profile), query) && !more,
        Action::LoadLogStreams { group } => reply matches Some(Reply::LogStreams { streams, more })
            && streams.deep_view() == streams_of(group) && !more,
        Action::LoadLogEvents { group, stream, token: _ } => reply matches Some(
            Reply::LogEvents { events, next_token },
        ) && events.deep_view() == events_of(group, stream) && next_token is None,
        Action::LoadLogTail { group, pattern, window: _, token: _, generation: _ } => reply matches Some(
            Reply::LogEvents { events, next_token },
        ) && events.deep_view() == tail_of(group, pattern, 6) && next_token is None,
        Action::LoadQueues => reply matches Some(Reply::Queues { queues }) && queues.deep_view() == queues_of(env),
        Action::LoadQueueDetail { queue_url } => reply matches Some(Reply::QueueDetail { attrs, messages })
            && attrs.deep_view() == queue_attrs_of(queue_url) && messages.deep_view() == queue_messages_of(queue_url),
        Action::LoadStateMachines => reply matches Some(Reply::StateMachines { machines, more })
            && machines.deep_view() == machines_of(env) && !more,
        Action::LoadExecutions { machine_arn, status, token: _ } => reply matches Some(
            Reply::Executions { executions, next_token },
        ) && executions.deep_view() == executions_of(machine_arn, status, 6) && next_token is None,
        Action::LoadExecutionDetail { execution_arn } => is_mock_detail(execution_arn, reply),
        Action::LoadMoreExecutionHistory { execution_arn, page_budget: _ } => is_mock_detail(execution_arn, reply),
        Action::LoadEventBuses => reply matches Some(Reply::EventBuses { buses, more }) && buses.deep_view()
            == buses_of(env) && !more,
        Action::LoadRules { event_bus_name } => reply matches Some(Reply::Rules { rules, more }) && rules.deep_view()
            == rules_of(event_bus_name) && !more,
        Action::LoadRuleDetail { event_bus_name, rule_name } => reply matches Some(
            Reply::RuleDetail { detail, targets },
        ) && detail.deep_view() == rule_detail_of(event_bus_name, rule_name) && targets.deep_view() == targets_of(),
        Action::VerifyIdentity => reply matches Some(Reply::Identity { account_id }) && account_id@ == "123456789012"@,
        Action::PurgeQueue { .. } => reply == Some(Reply::Done),
        Action::RedriveDlq { .. } => reply == Some(Reply::Done),
        Action::RedriveExecution { .. } => reply == Some(Reply::Done),
        Action::SendEvent { .. } => reply == Some(Reply::Done),
        Action::LoadFunctions => is_unavailable(reply),
        Action::LoadFunctionDetail { .. } => is_unavailable(reply),
        _ => reply is None,
    }
}

/// The reply to a request that nothing can be made up for.
pub open spec fn is_unavailable(reply: Option<Reply>) -> bool {
    reply matches Some(Reply::Failed { causes }) && causes.deep_view() == seq!["operación no disponible"@]
}

fn unavailable() -> (r: Option<Reply>)
    ensures
        is_unavailable(r),
{
    let mut causes: Vec<String> = Vec::new();
    causes.push("operación no disponible".to_string());
    assert(causes.deep_view() =~= seq!["operación no disponible"@]);
    Some(Reply::Failed { causes })
}

/// The made-up detail of an execution, as a reply.
pub open spec fn is_mock_detail(arn: Text, reply: Option<Reply>) -> bool {
    reply matches Some(Reply::ExecutionDetail { detail, history, failed_state, history_more }) && (
        detail.deep_view(),
        history.deep_view(),
        failed_state.deep_view(),
    ) == execution_detail_of(arn) && !history_more
}

fn mock_detail(execution_arn: &str) -> (r: Option<Reply>)
    ensures
        is_mock_detail(execution_arn@, r),
{
    let (detail, history, failed_state) = mock_execution_detail(execution_arn);
    Some(Reply::ExecutionDetail { detail, history, failed_state, history_more: false })
}

fn text_in(s: &Option<String>) -> (r: Option<&str>)
    ensures
        r.deep_view() == s.deep_view(),
{
    match s {
        Some(t) => Some(t.as_str()),
        None => None,
    }
}

/// The made-up reply to an action in an environment.
pub fn mock_reply(env: &Env, action: &Action) -> (r: Option<Reply>)
    ensures
        is_mock_reply(env.deep_view(), action.deep_view(), r),
{
    match action {
        Action::LoadLogGroups { query } => Some(
            Reply::LogGroups { groups: mock_log_groups(env, text_in(query)), more: false },
        ),
        Action::LoadLogStreams { group } => Some(
            Reply::LogStreams { streams: mock_log_streams(group.as_str()), more: false },
        ),
        Action::LoadLogEvents { group, stream, token: _ } => Some(
            Reply::LogEvents { events: mock_log_events(group.as_str(), stream.as_str()), next_token: None },
        ),
        Action::LoadLogTail { group, pattern, window: _, token: _, generation: _ } => Some(
            Reply::LogEvents { events: mock_log_tail(group.as_str(), text_in(pattern)), next_token: None },
        ),
        Action::LoadQueues => Some(Reply::Queues { queues: mock_queues(env) }),
        Action::LoadQueueDetail { queue_url } => {
            let (attrs, messages) = mock_queue_detail(queue_url.as_str());
            Some(Reply::QueueDetail { attrs, messages })
        },
        Action::LoadStateMachines => Some(Reply::StateMachines { machines: mock_state_machines(env), more: false }),
        Action::LoadExecutions { machine_arn, status, token: _ } => Some(
            Reply::Executions { executions: mock_executions(machine_arn.as_str(), *status), next_token: None },
        ),
        Action::LoadExecutionDetail { execution_arn } => mock_detail(execution_arn.as_str()),
        Action::LoadMoreExecutionHistory { execution_arn, page_budget: _ } => mock_detail(execution_arn.as_str()),
        Action::LoadEventBuses => Some(Reply::EventBuses { buses: mock_event_buses(env), more: false }),
        Action::LoadRules { event_bus_name } => Some(
            Reply::Rules { rules: mock_rules(event_bus_name.as_str()), more: false },
        ),
        Action::LoadRuleDetail { event_bus_name, rule_name } => {
            let (detail, targets) = mock_rule_detail(event_bus_name.as_str(), rule_name.as_str());
            Some(Reply::RuleDetail { detail, targets })
        },
        Action::VerifyIdentity => Some(Reply::Identity { account_id: "123456789012".to_string() }),
        Action::PurgeQueue { .. } | Action::RedriveDlq { .. } | Action::RedriveExecution { .. } | Action::SendEvent {
            ..
        } => Some(Reply::Done),
        Action::LoadFunctions | Action::LoadFunctionDetail { .. } => unavailable(),
        _ => None,
    }
}

/// The made-up answer to an action, marked with the epoch that the action was sent in.
pub fn mock_answer(env: &Env, action: Action, epoch: u64) -> (r: Option<Envelope>)
    ensures
        r matches Some(e) ==> e.epoch == epoch,
        exists|reply: Option<Reply>| #[trigger]
            is_mock_reply(env.deep_view(), action.deep_view(), reply) && (match reply {
                Some(rep) => is_answer(action, rep, content(r)),
                None => r is None,
            }),
{
    let reply = mock_reply(env, &action);
    let ghost made = reply;
    match reply {
        Some(rep) => {
            let r = answer(action, rep, epoch);
            assert(is_mock_reply(env.deep_view(), action.deep_view(), made));
            r
        },
        None => {
            assert(is_mock_reply(env.deep_view(), action.deep_view(), made));
            None
        },
    }
}

/// Every request is answered, also where the answer is made up: nothing waits for ever.
pub proof fn law_every_request_is_answered(env: Env<Text>, action: Action, reply: Option<Reply>, m: Option<Message>)
    requires
        operation_of(action.deep_view()) is Some,
        is_mock_reply(env, action.deep_view(), reply),
        reply matches Some(rep) ==> is_answer(action, rep, m),
    ensures
        reply is Some,
        m is Some,
{
}

/// How long the made-up answer to an action keeps waiting, in milliseconds.
pub open spec fn delay_of(action: ActionText) -> u64 {
    match action {
        Action::LoadLogGroups { .. } => 600,
        Action::LoadLogStreams { .. } | Action::LoadLogEvents { .. } => 400,
        Action::LoadQueues | Action::LoadStateMachines | Action::LoadEventBuses => 500,
        Action::PurgeQueue { .. } | Action::RedriveDlq { .. } | Action::RedriveExecution { .. } | Action::SendEvent {
            ..
        } => 200,
        Action::VerifyIdentity => 0,
        _ => 450,
    }
}

/// How long the made-up answer to an action keeps waiting, in milliseconds, so that what happens
/// while a request is under way can be seen.
pub fn mock_delay(action: &Action) -> (r: u64)
    ensures
        r == delay_of(action.deep_view()),
{
    match action {
        Action::LoadLogGroups { .. } => 600,
        Action::LoadLogStreams { .. } | Action::LoadLogEvents { .. } => 400,
        Action::LoadQueues | Action::LoadStateMachines | Action::LoadEventBuses => 500,
        Action::PurgeQueue { .. } | Action::RedriveDlq { .. } | Action::RedriveExecution { .. } | Action::SendEvent {
            ..
        } => 200,
        Action::VerifyIdentity => 0,
        _ => 450,
    }
}

// --- what the made-up data keeps to ----------------------------------------------------------

/// A search lists exactly the groups whose names it finds, and each under its own name.
pub proof fn law_made_up_searches(region: Text, names: Seq<Text>, query: Option<Text>)
    ensures
        forall|i: int|
            0 <= i < names.len() && is_found(names[i], query) ==> found_groups(region, names, query).contains(
                group_of(region, #[trigger] names[i]),
            ),
        forall|k: int|
            #![trigger found_groups(region, names, query)[k]]
            0 <= k < found_groups(region, names, query).len() ==> names.contains(
                found_groups(region, names, query)[k].name,
            ) && is_found(found_groups(region, names, query)[k].name, query),
    decreases names.len(),
{
    if names.len() > 0 {
        let front = names.drop_last();
        let before = found_groups(region, front, query);
        let all = found_groups(region, names, query);
        law_made_up_searches(region, front, query);
        assert forall|i: int| 0 <= i < names.len() && is_found(names[i], query) implies all.contains(
            group_of(region, #[trigger] names[i]),
        ) by {
            if i < front.len() {
                assert(front[i] == names[i]);
                let k = choose|k: int| 0 <= k < before.len() && before[k] == group_of(region, names[i]);
                assert(all[k] == before[k]);
            } else {
                assert(all[before.len() as int] == group_of(region, names[i]));
            }
        }
        assert forall|k: int| 0 <= k < all.len() implies names.contains((#[trigger] all[k]).name) && is_found(
            all[k].name,
            query,
        ) by {
            if k < before.len() {
                assert(all[k] == before[k]);
                let j = choose|j: int| 0 <= j < front.len() && front[j] == before[k].name;
                assert(names[j] == all[k].name);
            } else {
                assert(names[names.len() - 1] == all[k].name);
            }
        }
    }
}

/// A search finds a name that holds what is searched as it is spelled; without a search every name
/// is found.
pub proof fn law_made_up_names_are_found(before: Text, query: Text, after: Text)
    ensures
        is_found(before + query + after, Some(query)),
        is_found(query, None),
{
    util::law_searched_spellings(query, query);
    text::lemma_occurs_between(before, query, after);
    let spellings = util::case_variants_of(query);
    let i = choose|i: int| 0 <= i < spellings.len() && spellings[i] == query;
    assert(text::occurs(before + query + after, spellings[i]));
}

/// Made-up streams come newest first, and so many for every group.
pub proof fn law_made_up_streams(group: Text, i: int, j: int)
    requires
        0 <= i < j < 14,
    ensures
        streams_of(group).len() == 14,
        streams_of(group)[i].last_event_ts matches Some(a) && (streams_of(group)[j].last_event_ts matches Some(b) && a
            > b),
{
}

/// Made-up lines of a stream come oldest first, at even distances of one to two seconds.
pub proof fn law_made_up_lines(group: Text, stream: Text, i: int)
    requires
        0 <= i < 9,
    ensures
        events_of(group, stream).len() == 10,
        events_of(group, stream)[i].ts matches Some(a) && (events_of(group, stream)[i + 1].ts matches Some(b) && 1_000
            <= b - a < 2_000),
        events_of(group, stream)[i].stream is None,
{
    let d = 1_000 + seed_of(vstd::utf8::encode_utf8(group) + vstd::utf8::encode_utf8(stream)) % 700;
    assert(0 <= i * d <= 9 * 1_700) by (nonlinear_arith)
        requires
            0 <= i < 9,
            1_000 <= d < 1_700,
    ;
    assert((i + 1) * d == i * d + d) by (nonlinear_arith);
}

/// Made-up lines of a group hold what is searched, in any case, and each names its stream; without a
/// search there are six of them.
pub proof fn law_made_up_tails(group: Text, pattern: Text, n: int)
    requires
        0 <= n <= 6,
    ensures
        tail_of(group, None, n).len() == n,
        tail_of(group, Some(pattern), n).len() <= n,
        forall|k: int|
            #![trigger tail_of(group, Some(pattern), n)[k]]
            0 <= k < tail_of(group, Some(pattern), n).len() ==> text::occurs(
                text::lowercase(tail_of(group, Some(pattern), n)[k].message),
                text::lowercase(pattern),
            ) && tail_of(group, Some(pattern), n)[k].stream is Some,
        forall|k: int|
            #![trigger tail_of(group, None, n)[k]]
            0 <= k < n ==> tail_of(group, None, n)[k].message == tail_lines()[k] && tail_of(group, None, n)[k].ts == Some(
                (BASE_TS + k * 1_700) as i64,
            ),
    decreases n,
{
    if n > 0 {
        law_made_up_tails(group, pattern, n - 1);
        let before = tail_of(group, Some(pattern), n - 1);
        let all = tail_of(group, Some(pattern), n);
        assert forall|k: int| 0 <= k < all.len() implies text::occurs(
            text::lowercase((#[trigger] all[k]).message),
            text::lowercase(pattern),
        ) && all[k].stream is Some by {
            if k < before.len() {
                assert(all[k] == before[k]);
            }
        }
        let whole = tail_of(group, None, n);
        assert forall|k: int| 0 <= k < n implies (#[trigger] whole[k]).message == tail_lines()[k] && whole[k].ts == Some(
            (BASE_TS + k * 1_700) as i64,
        ) by {
            if k < n - 1 {
                assert(whole[k] == tail_of(group, None, n - 1)[k]);
            }
        }
    }
}

/// A made-up dead-letter queue serves the queue that it is named after, and every other queue has
/// one that is named after it.
pub proof fn law_made_up_dead_letters(host: Text, name: Text)
    requires
        !name.contains('/'),
    ensures
        ({
            let dlq = queue_attrs_of(host + seq!['/'] + (name + "-dlq"@));
            &&& dlq.dlq_sources.len() == 1
            &&& text::has_suffix(dlq.dlq_sources[0], name)
            &&& dlq.dlq_target_arn is None
            &&& dlq.max_receive_count is None
        }),
        ({
            let q = queue_attrs_of(host + seq!['/'] + name);
            !text::occurs(name, "dlq"@) ==> {
                &&& q.dlq_sources.len() == 0
                &&& q.max_receive_count == Some(5i64)
                &&& q.dlq_target_arn matches Some(arn) && text::has_suffix(arn, name + "-dlq"@)
                &&& q.arn matches Some(arn) && text::has_suffix(arn, name)
            }
        }),
{
    reveal_strlit("-dlq");
    reveal_strlit("dlq");
    let full = name + "-dlq"@;
    assert forall|i: int| 0 <= i < full.len() implies full[i] != '/' by {
        if i < name.len() {
            assert(name.contains(name[i]));
            assert(full[i] == name[i]);
        }
    }
    assert(!full.contains('/'));
    text::law_the_last_part_follows_the_last_separator(host, '/', full);
    text::law_the_last_part_follows_the_last_separator(host, '/', name);
    assert(full =~= (name + seq!['-']) + "dlq"@ + Seq::<char>::empty());
    text::lemma_occurs_between(name + seq!['-'], "dlq"@, Seq::empty());
    assert(full.skip(full.len() - 4) =~= "-dlq"@);
    assert(text::has_suffix(full, "-dlq"@));
    assert(full.take(full.len() - 4) =~= name);
    let source = "https://sqs.us-east-1.amazonaws.com/000000000000/"@ + name;
    assert(source.skip(source.len() - name.len()) =~= name);
    let arn = queue_arn(name);
    assert(arn.skip(arn.len() - name.len()) =~= name);
    let target = queue_arn(name) + "-dlq"@;
    assert(target.skip(target.len() - full.len()) =~= full);
}

/// A made-up queue shows as many messages as it counts, eight at most, newest first and each under
/// its own number.
pub proof fn law_made_up_messages(url: Text, i: int)
    ensures
        ({
            let attrs = queue_attrs_of(url);
            let messages = queue_messages_of(url);
            &&& attrs.visible matches Some(n) && messages.len() == (if n < 8 { n as int } else { 8 })
            &&& attrs.in_flight matches Some(n) && 0 <= n < 19
            &&& attrs.delayed == Some(0i64)
            &&& 0 < i < messages.len() ==> (messages[i].sent_ts matches Some(b) && (messages[i - 1].sent_ts matches Some(
                a,
            ) && a > b))
            &&& 0 <= i < messages.len() ==> text::has_suffix(messages[i].id, text::decimal(i as nat))
            &&& 0 <= i < messages.len() ==> (messages[i].receive_count matches Some(n) && 1 <= n <= 3)
        }),
{
    let messages = queue_messages_of(url);
    if 0 <= i < messages.len() {
        let id = messages[i].id;
        let digits = text::decimal(i as nat);
        assert(id.skip(id.len() - digits.len()) =~= digits);
    }
}

/// The made-up queues stand under the region, and the FIFO ones are those that their name tells of.
pub proof fn law_made_up_queues(env: Env<Text>, i: int)
    requires
        0 <= i < queues_of(env).len(),
    ensures
        queues_of(env).len() == 6,
        text::has_suffix(queues_of(env)[i].url, queues_of(env)[i].name),
        text::occurs(queues_of(env)[i].url, env.region),
        queues_of(env)[i].is_fifo <==> text::has_suffix(queues_of(env)[i].name, ".fifo"@),
        text::has_prefix(queues_of(env)[0].name, env.profile),
        text::has_prefix(queues_of(env)[1].name, env.profile),
        queues_of(env)[1].is_fifo,
{
    let name = queue_names(env.profile)[i];
    let url = queue_url(env.region, name);
    assert(url.skip(url.len() - name.len()) =~= name);
    assert(url =~= "https://sqs."@ + env.region + (".amazonaws.com/000000000000/"@ + name));
    text::lemma_occurs_between("https://sqs."@, env.region, ".amazonaws.com/000000000000/"@ + name);
    let fifo = env.profile + "-payments.fifo"@;
    reveal_strlit("-payments.fifo");
    reveal_strlit(".fifo");
    assert(fifo.skip(fifo.len() - 5) =~= ".fifo"@);
    assert(fifo.take(env.profile.len() as int) =~= env.profile);
    let orders = env.profile + "-orders"@;
    assert(orders.take(env.profile.len() as int) =~= env.profile);
}

/// The made-up machines carry the profile, their ARN the region and the name, and they come newest
/// first.
pub proof fn law_made_up_machines(env: Env<Text>, i: int)
    requires
        0 <= i < 4,
    ensures
        machines_of(env).len() == 4,
        text::has_prefix(machines_of(env)[i].name, env.profile),
        text::has_suffix(machines_of(env)[i].arn, machines_of(env)[i].name),
        text::occurs(machines_of(env)[i].arn, env.region),
        machines_of(env)[i].machine_type == MachineType::Express <==> i == 2,
        i > 0 ==> (machines_of(env)[i].created_ts matches Some(b) && (machines_of(env)[i - 1].created_ts matches Some(a)
            && a > b)),
{
    let m = machines_of(env)[i];
    assert(m.name.take(env.profile.len() as int) =~= env.profile);
    assert(m.arn.skip(m.arn.len() - m.name.len()) =~= m.name);
    assert(m.arn =~= "arn:aws:states:"@ + env.region + (":000000000000:stateMachine:"@ + m.name));
    text::lemma_occurs_between("arn:aws:states:"@, env.region, ":000000000000:stateMachine:"@ + m.name);
}

/// Asked for a status, the made-up executions are those that have it, in the order of all of them.
pub proof fn law_made_up_executions_have_their_status(machine_arn: Text, status: ExecStatus, n: int)
    ensures
        forall|k: int|
            0 <= k < executions_of(machine_arn, Some(status), n).len() ==> (#[trigger] executions_of(
                machine_arn,
                Some(status),
                n,
            )[k]).status == status,
        n >= 0 ==> executions_of(machine_arn, None, n).len() == n,
        executions_of(machine_arn, None, n).filter(|e: ExecutionDto<Text>| e.status == status) == executions_of(
            machine_arn,
            Some(status),
            n,
        ),
    decreases n,
{
    let has = |e: ExecutionDto<Text>| e.status == status;
    reveal(Seq::filter);
    if n > 0 {
        law_made_up_executions_have_their_status(machine_arn, status, n - 1);
        let before = executions_of(machine_arn, None, n - 1);
        assert(executions_of(machine_arn, None, n).drop_last() =~= before);
        assert(before.filter(has) == executions_of(machine_arn, Some(status), n - 1));
    }
}

/// A made-up execution belongs to its machine, and it has stopped unless it runs; the later in the
/// list, the earlier it started.
pub proof fn law_made_up_executions(machine_arn: Text, i: int)
    requires
        0 <= i < 6,
    ensures
        ({
            let e = execution_of(machine_arn, i);
            &&& text::has_prefix(e.arn, machine_arn)
            &&& text::has_suffix(e.arn, e.name)
            &&& e.stop_ts is None <==> e.status == ExecStatus::Running
            &&& e.stop_ts matches Some(stop) ==> (e.start_ts matches Some(start) && start < stop)
            &&& execution_of(machine_arn, i + 1).start_ts matches Some(next) && (e.start_ts matches Some(start) && next
                < start)
        }),
{
    let e = execution_of(machine_arn, i);
    assert(e.arn.take(machine_arn.len() as int) =~= machine_arn);
    assert(e.arn.skip(e.arn.len() - e.name.len()) =~= e.name);
}

/// The detail of a made-up execution fails where the list says that it ended badly.
pub proof fn law_made_up_lists_and_details_agree(machine_arn: Text, i: int)
    requires
        0 <= i < 6,
        execution_kind(i).1.ended_in_failure(),
    ensures
        tells_of_failing(execution_of(machine_arn, i).arn),
        execution_detail_of(execution_of(machine_arn, i).arn).0.status == ExecStatus::Failed,
        execution_detail_of(execution_of(machine_arn, i).arn).0.error is Some,
{
    let e = execution_of(machine_arn, i);
    let word = execution_kind(i).0;
    let before = machine_arn + ":exec:"@ + "exec-"@;
    let after = "-"@ + text::decimal(i as nat);
    assert(e.arn =~= before + word + after);
    text::lemma_occurs_between(before, word, after);
}

/// The rule list and the details agree on which rules are enabled, and every rule stands on the bus
/// that was asked for.
pub proof fn law_made_up_rules(bus: Text, i: int)
    requires
        0 <= i < 4,
    ensures
        rules_of(bus).len() == 4,
        rules_of(bus)[i].event_bus_name == bus,
        rule_detail_of(bus, rules_of(bus)[i].name).state == rules_of(bus)[i].state,
        rule_detail_of(bus, rules_of(bus)[i].name).description matches Some(d) && text::occurs(d, rules_of(bus)[i].name)
            && text::has_suffix(d, bus),
{
    reveal_strlit("disabled");
    reveal_strlit("orders-created");
    reveal_strlit("payments-failed");
    reveal_strlit("nightly-disabled");
    reveal_strlit("audit-all");
    let name = rules_of(bus)[i].name;
    let d = "Rule "@ + name + " en "@ + bus;
    assert(d.skip(d.len() - bus.len()) =~= bus);
    assert(d =~= "Rule "@ + name + (" en "@ + bus));
    text::lemma_occurs_between("Rule "@, name, " en "@ + bus);
    if i == 2 {
        assert(name.subrange(8, 16) =~= "disabled"@);
        assert(text::occurs_at(name, "disabled"@, 8));
    } else if text::occurs(name, "disabled"@) {
        let at = choose|at: int| text::occurs_at(name, "disabled"@, at);
        assert(name.subrange(at, at + 8)[4] == 'b');
        assert(name[at + 4] == 'b');
    }
}

/// The made-up buses stand in the region, the default one first and the others with the profile.
pub proof fn law_made_up_buses(env: Env<Text>, i: int)
    requires
        0 <= i < 3,
    ensures
        buses_of(env).len() == 3,
        buses_of(env)[0].name == "default"@,
        i > 0 ==> text::has_prefix(buses_of(env)[i].name, env.profile),
        text::has_suffix(buses_of(env)[i].arn, buses_of(env)[i].name),
        text::occurs(buses_of(env)[i].arn, env.region),
{
    let b = buses_of(env)[i];
    assert(b.arn.skip(b.arn.len() - b.name.len()) =~= b.name);
    assert(b.arn =~= "arn:aws:events:"@ + env.region + (":000000000000:event-bus/"@ + b.name));
    text::lemma_occurs_between("arn:aws:events:"@, env.region, ":000000000000:event-bus/"@ + b.name);
    if i > 0 {
        assert(b.name.take(env.profile.len() as int) =~= env.profile);
    }
}

/// What changes something is always consented to, functions can never be had, and what the
/// application carries out itself has no reply.
pub proof fn law_made_up_replies(env: Env<Text>, action: ActionText, reply: Option<Reply>)
    requires
        is_mock_reply(env, action, reply),
    ensures
        crate::action::mutates(action) ==> reply == Some(Reply::Done),
        action is LoadFunctions || action is LoadFunctionDetail ==> (reply matches Some(rep) && rep is Failed),
        !crate::action::leaves_app(action) ==> reply is None,
        action is LoadExecutionDetail || action is LoadMoreExecutionHistory ==> (reply matches Some(rep)
            && rep is ExecutionDetail),
{
}

/// Made-up answers take less than a second; who one is comes at once, and changes come before lists.
pub proof fn law_made_up_delays(action: ActionText)
    ensures
        delay_of(action) <= 600,
        delay_of(action) == 600 <==> action is LoadLogGroups,
        delay_of(action) == 0 <==> action is VerifyIdentity,
        delay_of(action) == 200 <==> crate::action::mutates(action),
        delay_of(action) == 400 <==> action is LoadLogStreams || action is LoadLogEvents,
        delay_of(action) == 500 <==> action is LoadQueues || action is LoadStateMachines || action is LoadEventBuses,
{
}

/// The seed of a text is the sum of its bytes, so that it does not depend on their order.
pub proof fn law_seeds_add_up(a: Seq<u8>, b: u8, c: u8)
    ensures
        seed_of(Seq::empty()) == 0,
        seed_of(a.push(b)) == (if seed_of(a) + b <= u64::MAX { seed_of(a) + b } else { seed_of(a) + b - u64::MAX - 1 }),
        seed_of(a.push(b).push(c)) == seed_of(a.push(c).push(b)),
{
    assert(a.push(b).drop_last() =~= a);
    assert(a.push(c).drop_last() =~= a);
    assert(a.push(b).push(c).drop_last() =~= a.push(b));
    assert(a.push(c).push(b).drop_last() =~= a.push(c));
    assert(seed_of(a.push(b)) == seed_of(a).wrapping_add(b as u64));
    assert(seed_of(a.push(c)) == seed_of(a).wrapping_add(c as u64));
    assert(seed_of(a.push(b).push(c)) == seed_of(a.push(b)).wrapping_add(c as u64));
    assert(seed_of(a.push(c).push(b)) == seed_of(a.push(c)).wrapping_add(b as u64));
}

/// The made-up groups and queues go by their names; two of each carry the profile.
pub proof fn law_made_up_names(profile: Text, region: Text, name: Text, url: Text)
    ensures
        group_names(profile) == seq![
            "/aws/lambda/"@ + profile + "-orders-api"@,
            "/aws/lambda/"@ + profile + "-payments-worker"@,
            "/aws/lambda/orders-service-staging-CreateOrderV3"@,
            "/aws/lambda/notifications"@,
            "/aws/apigateway/public-edge"@,
            "/ecs/checkout-service"@,
            "/ecs/inventory-service"@,
            "/aws/rds/postgres-main"@,
            "/aws/stepfunctions/order-saga"@,
            "/aws/events/bus-default"@,
            "/aws/sqs/dlq-monitor"@,
        ],
        queue_names(profile) == seq![
            profile + "-orders"@,
            profile + "-payments.fifo"@,
            "notifications"@,
            "checkout-events"@,
            "image-processing"@,
            "orders-dlq"@,
        ],
        group_of(region, name).name == name,
        group_of(region, name).stored_bytes == Some((payload::byte_len(name) * 7919 % 5_000_000) as i64),
        group_of(region, name).arn == Some(
            "arn:aws:logs:"@ + region + ":000000000000:log-group:"@ + name + ":*"@,
        ),
        queue_attrs_of(url).visible == Some((text_seed(url) % 137) as i64),
        queue_attrs_of(url).in_flight == Some((text_seed(url) % 19) as i64),
{
}

/// The made-up executions of a machine come in six kinds, the first of which failed and the fourth of
/// which runs.
pub proof fn law_made_up_kinds()
    ensures
        execution_kind(0) == ("fail"@, ExecStatus::Failed),
        execution_kind(1) == ("ok-1"@, ExecStatus::Succeeded),
        execution_kind(2) == ("ok-2"@, ExecStatus::Succeeded),
        execution_kind(3) == ("run"@, ExecStatus::Running),
        execution_kind(4) == ("abort"@, ExecStatus::Aborted),
        execution_kind(5) == ("timeout"@, ExecStatus::TimedOut),
{
}

/// The made-up timeline of an execution goes by the words of its ARN: what failed stopped in its last
/// state, what runs has not left its last state, and what is done has left every state.
pub proof fn law_made_up_timelines(arn: Text)
    ensures
        ({
            let (detail, spans, failed) = execution_detail_of(arn);
            let fails = text::occurs(arn, "fail"@) || text::occurs(arn, "abort"@) || text::occurs(arn, "timeout"@);
            let runs = !fails && text::occurs(arn, "run"@);
            &&& fails ==> detail.status == ExecStatus::Failed && failed == Some("ProcessOrder"@) && spans.len() == 3
                && detail.output is None
            &&& runs ==> detail.status == ExecStatus::Running && detail.stop_ts is None && spans.len() == 2
                && spans[1].exited_ts is None
            &&& !fails && !runs ==> detail.status == ExecStatus::Succeeded && spans.len() == 3 && detail.output is Some
                && spans[2].exited_ts is Some
            &&& spans[0].name == "Validate"@ && spans[1].name == "ChargeCard"@
            &&& forall|k: int|
                0 <= k < spans.len() ==> (#[trigger] spans[k]).resource_arn == Some(
                    "arn:aws:lambda:us-east-1:123456789012:function:"@ + spans[k].name,
                )
        }),
{
}

} // verus!
