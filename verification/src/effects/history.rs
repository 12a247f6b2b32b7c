//! The timeline of an execution, read from the events of its history.

use vstd::prelude::*;
use vstd::string::*;

use crate::effects::payload;
use crate::json;
use crate::message::{StateSpanDto, Text};
use crate::text;
use crate::util;

verus! {

/// An event of the history of an execution, oldest first.  At most one of the parts is there, as
/// its type says.
#[derive(Debug)]
pub struct HistoryEvent<S = String> {
    pub ts: Option<i64>,
    pub event_type: S,
    /// A state was entered: its name and its input.
    pub entered: Option<(S, Option<S>)>,
    /// A state was left: its name and its output.
    pub exited: Option<(S, Option<S>)>,
    /// A Lambda function was scheduled: its ARN.
    pub lambda: Option<S>,
    /// A task was scheduled: the type of its resource and its parameters.
    pub task: Option<(S, S)>,
}

impl DeepView for HistoryEvent<String> {
    type V = HistoryEvent<Text>;

    open spec fn deep_view(&self) -> HistoryEvent<Text> {
        HistoryEvent {
            ts: self.ts,
            event_type: self.event_type@,
            entered: self.entered.deep_view(),
            exited: self.exited.deep_view(),
            lambda: self.lambda.deep_view(),
            task: self.task.deep_view(),
        }
    }
}

/// Names of the events that end something in failure.
pub open spec fn tells_of_failure(event_type: Text) -> bool {
    text::occurs(event_type, "Failed"@) || text::occurs(event_type, "TimedOut"@) || text::occurs(
        event_type,
        "Aborted"@,
    )
}

/// Whether an event ends something in failure, by the name of its type.
pub fn is_failure_event(ev: &HistoryEvent) -> (r: bool)
    ensures
        r == tells_of_failure(ev.event_type@),
{
    let t = ev.event_type.as_str();
    text::contains(t, "Failed") || text::contains(t, "TimedOut") || text::contains(t, "Aborted")
}

/// The Lambda function that an event schedules: directly, or as a task whose parameters name it.
pub open spec fn scheduled_function(ev: HistoryEvent<Text>) -> Option<Text> {
    match (ev.lambda, ev.task) {
        (Some(arn), _) => Some(arn),
        (None, Some((kind, parameters))) => if kind == "lambda"@ {
            json::json_string(parameters, "FunctionName"@)
        } else {
            None
        },
        (None, None) => None,
    }
}

/// The Lambda function that an event schedules, if it schedules one.
pub fn lambda_resource(ev: &HistoryEvent) -> (r: Option<String>)
    ensures
        r.deep_view() == scheduled_function(ev.deep_view()),
{
    match &ev.lambda {
        Some(arn) => {
            return Some(arn.clone());
        },
        None => {},
    }
    match &ev.task {
        Some((kind, parameters)) => if text::same(kind.as_str(), "lambda") {
            json::string_field(parameters.as_str(), "FunctionName")
        } else {
            None
        },
        None => None,
    }
}

/// A timeline while it is read: the states entered so far, and the positions of those that have
/// not been left, in the order they were entered.
#[verifier::ext_equal]
pub struct Timeline {
    pub spans: Seq<StateSpanDto<Text>>,
    pub open: Seq<int>,
}

impl Timeline {
    pub open spec fn empty() -> Timeline {
        Timeline { spans: Seq::empty(), open: Seq::empty() }
    }

    /// Where, among the open states, the one with this name that was entered last stands.
    pub open spec fn innermost_named(self, name: Text, n: int) -> Option<int>
        decreases n,
    {
        if n <= 0 {
            None
        } else if self.spans[self.open[n - 1]].name == name {
            Some(n - 1)
        } else {
            self.innermost_named(name, n - 1)
        }
    }

    /// A state is entered.
    pub open spec fn enter(self, ts: Option<i64>, name: Text, input: Option<Text>) -> Timeline {
        Timeline {
            spans: self.spans.push(
                StateSpanDto {
                    name,
                    entered_ts: ts,
                    exited_ts: None,
                    failed: false,
                    input: payload::payload_of(input),
                    output: None,
                    resource_arn: None,
                },
            ),
            open: self.open.push(self.spans.len() as int),
        }
    }

    /// The open state of this name that was entered last is left, and counts as recovered.
    pub open spec fn leave(self, ts: Option<i64>, name: Text, output: Option<Text>) -> Timeline {
        match self.innermost_named(name, self.open.len() as int) {
            Some(k) => {
                let i = self.open[k];
                Timeline {
                    spans: self.spans.update(
                        i,
                        StateSpanDto {
                            exited_ts: ts,
                            failed: false,
                            output: payload::payload_of(output),
                            ..self.spans[i]
                        },
                    ),
                    open: self.open.remove(k),
                }
            },
            None => self,
        }
    }

    /// The open state that was entered last fails.
    pub open spec fn fail(self) -> Timeline {
        if self.open.len() == 0 {
            self
        } else {
            let i = self.open.last();
            Timeline { spans: self.spans.update(i, StateSpanDto { failed: true, ..self.spans[i] }), open: self.open }
        }
    }

    /// The open state that was entered last invokes a function; the first one it invokes is kept.
    pub open spec fn invoke(self, arn: Text) -> Timeline {
        if self.open.len() == 0 || self.spans[self.open.last()].resource_arn is Some {
            self
        } else {
            let i = self.open.last();
            Timeline {
                spans: self.spans.update(i, StateSpanDto { resource_arn: Some(arn), ..self.spans[i] }),
                open: self.open,
            }
        }
    }

    /// One event more.
    pub open spec fn after(self, ev: HistoryEvent<Text>) -> Timeline {
        match (ev.entered, ev.exited) {
            (Some((name, input)), _) => self.enter(ev.ts, name, input),
            (None, Some((name, output))) => self.leave(ev.ts, name, output),
            (None, None) => if tells_of_failure(ev.event_type) {
                self.fail()
            } else {
                match scheduled_function(ev) {
                    Some(arn) => self.invoke(arn),
                    None => self,
                }
            },
        }
    }

    /// The name of the last state that is marked as failed, among the first `n`.
    pub open spec fn failed_before(self, n: int) -> Option<Text>
        decreases n,
    {
        if n <= 0 {
            None
        } else if self.spans[n - 1].failed {
            Some(self.spans[n - 1].name)
        } else {
            self.failed_before(n - 1)
        }
    }

    /// The name of the last state that is marked as failed.
    pub open spec fn failed_state(self) -> Option<Text> {
        self.failed_before(self.spans.len() as int)
    }

    /// The open states are states of the timeline, in the order they were entered; only open
    /// states are marked as failed.
    pub open spec fn well_formed(self) -> bool {
        &&& forall|k: int| 0 <= k < self.open.len() ==> 0 <= #[trigger] self.open[k] < self.spans.len()
        &&& forall|j: int, k: int| 0 <= j < k < self.open.len() ==> self.open[j] < self.open[k]
        &&& forall|i: int|
            0 <= i < self.spans.len() && (#[trigger] self.spans[i]).failed ==> self.open.contains(i)
    }
}

/// The timeline that the events of a history tell, oldest first.
pub open spec fn timeline_of(events: Seq<HistoryEvent<Text>>) -> Timeline
    decreases events.len(),
{
    if events.len() == 0 {
        Timeline::empty()
    } else {
        timeline_of(events.drop_last()).after(events.last())
    }
}

proof fn lemma_innermost(t: Timeline, name: Text, n: int)
    requires
        n <= t.open.len(),
    ensures
        match t.innermost_named(name, n) {
            Some(k) => 0 <= k < n && t.spans[t.open[k]].name == name,
            None => forall|j: int| 0 <= j < n ==> (#[trigger] t.spans[t.open[j]]).name != name,
        },
    decreases n,
{
    if n > 0 && t.spans[t.open[n - 1]].name != name {
        lemma_innermost(t, name, n - 1);
    }
}

proof fn lemma_after(t: Timeline, ev: HistoryEvent<Text>)
    requires
        t.well_formed(),
    ensures
        t.after(ev).well_formed(),
        t.after(ev).spans.len() == t.spans.len() + (if ev.entered is Some { 1int } else { 0 }),
        forall|i: int|
            0 <= i < t.spans.len() ==> {
                &&& (#[trigger] t.after(ev).spans[i]).name == t.spans[i].name
                &&& t.after(ev).spans[i].entered_ts == t.spans[i].entered_ts
                &&& t.after(ev).spans[i].input == t.spans[i].input
                &&& t.spans[i].resource_arn is Some ==> t.after(ev).spans[i].resource_arn == t.spans[i].resource_arn
            },
{
    let u = t.after(ev);
    match (ev.entered, ev.exited) {
        (Some((name, input)), _) => {
            assert forall|i: int| 0 <= i < u.spans.len() && (#[trigger] u.spans[i]).failed implies u.open.contains(
                i,
            ) by {
                let k = t.open.index_of(i);
                assert(u.open[k] == i);
            }
        },
        (None, Some((name, output))) => {
            lemma_innermost(t, name, t.open.len() as int);
            if let Some(k) = t.innermost_named(name, t.open.len() as int) {
                assert forall|i: int| 0 <= i < u.spans.len() && (#[trigger] u.spans[i]).failed implies u.open.contains(
                    i,
                ) by {
                    assert(i != t.open[k]);
                    assert(t.spans[i].failed);
                    let j = t.open.index_of(i);
                    assert(t.open[j] == i);
                    if j < k {
                        assert(u.open[j] == i);
                    } else {
                        assert(u.open[j - 1] == i);
                    }
                }
            }
        },
        (None, None) => {
            assert forall|i: int| 0 <= i < u.spans.len() && (#[trigger] u.spans[i]).failed implies u.open.contains(
                i,
            ) by {
                if t.open.len() > 0 && i == t.open.last() {
                    assert(t.open[t.open.len() - 1] == i);
                } else {
                    assert(t.spans[i].failed);
                }
            }
        },
    }
}

/// However the events come, the open states are states of the timeline in the order they were
/// entered, and only open ones are marked as failed: a state that was left has recovered.
pub proof fn law_timelines_are_well_formed(events: Seq<HistoryEvent<Text>>)
    ensures
        timeline_of(events).well_formed(),
    decreases events.len(),
{
    if events.len() > 0 {
        law_timelines_are_well_formed(events.drop_last());
        lemma_after(timeline_of(events.drop_last()), events.last());
    }
}

/// The events that enter a state.
pub open spec fn entries_of(events: Seq<HistoryEvent<Text>>) -> Seq<HistoryEvent<Text>> {
    events.filter(|ev: HistoryEvent<Text>| ev.entered is Some)
}

/// A timeline holds one state for every event that enters one, in the order of the events, under
/// its name, with its instant and its input.
pub proof fn law_one_state_for_each_entry(events: Seq<HistoryEvent<Text>>)
    ensures
        timeline_of(events).spans.len() == entries_of(events).len(),
        forall|i: int|
            0 <= i < timeline_of(events).spans.len() ==> {
                let span = #[trigger] timeline_of(events).spans[i];
                let ev = entries_of(events)[i];
                ev.entered is Some && span.name == (ev.entered->0).0 && span.entered_ts == ev.ts && span.input
                    == payload::payload_of((ev.entered->0).1)
            },
    decreases events.len(),
{
    reveal(Seq::filter);
    let p = |ev: HistoryEvent<Text>| ev.entered is Some;
    if events.len() > 0 {
        let before = events.drop_last();
        let ev = events.last();
        law_one_state_for_each_entry(before);
        law_timelines_are_well_formed(before);
        lemma_after(timeline_of(before), ev);
        assert(events =~= before.push(ev));
        assert(entries_of(events) =~= if p(ev) {
            entries_of(before).push(ev)
        } else {
            entries_of(before)
        });
        assert forall|i: int| 0 <= i < timeline_of(events).spans.len() implies {
            let span = #[trigger] timeline_of(events).spans[i];
            let e = entries_of(events)[i];
            e.entered is Some && span.name == (e.entered->0).0 && span.entered_ts == e.ts && span.input
                == payload::payload_of((e.entered->0).1)
        } by {
            if i < timeline_of(before).spans.len() {
                let old_span = timeline_of(before).spans[i];
                assert(timeline_of(events).spans[i].name == old_span.name);
                assert(entries_of(events)[i] == entries_of(before)[i]);
            }
        }
    }
}

/// More events do not change which function a state was first seen to invoke.
pub proof fn law_first_function_wins(events: Seq<HistoryEvent<Text>>, more: Seq<HistoryEvent<Text>>, i: int)
    requires
        0 <= i < timeline_of(events).spans.len(),
        timeline_of(events).spans[i].resource_arn is Some,
    ensures
        i < timeline_of(events + more).spans.len(),
        timeline_of(events + more).spans[i].resource_arn == timeline_of(events).spans[i].resource_arn,
    decreases more.len(),
{
    if more.len() == 0 {
        assert(events + more =~= events);
    } else {
        law_first_function_wins(events, more.drop_last(), i);
        assert((events + more).drop_last() =~= events + more.drop_last());
        law_timelines_are_well_formed(events + more.drop_last());
        lemma_after(timeline_of(events + more.drop_last()), more.last());
        assert(timeline_of(events + more) == timeline_of(events + more.drop_last()).after(more.last()));
        let u = timeline_of(events + more.drop_last()).after(more.last());
        assert(u.spans[i].resource_arn == timeline_of(events + more.drop_last()).spans[i].resource_arn);
    }
}

proof fn lemma_failed_before(t: Timeline, n: int)
    requires
        n <= t.spans.len(),
    ensures
        match t.failed_before(n) {
            Some(name) => exists|i: int|
                0 <= i < n && (#[trigger] t.spans[i]).failed && t.spans[i].name == name && forall|j: int|
                    i < j < n ==> !(#[trigger] t.spans[j]).failed,
            None => forall|i: int| 0 <= i < n ==> !(#[trigger] t.spans[i]).failed,
        },
    decreases n,
{
    if n > 0 && !t.spans[n - 1].failed {
        lemma_failed_before(t, n - 1);
        if let Some(name) = t.failed_before(n) {
            let i = choose|i: int|
                0 <= i < n - 1 && (#[trigger] t.spans[i]).failed && t.spans[i].name == name && forall|j: int|
                    i < j < n - 1 ==> !(#[trigger] t.spans[j]).failed;
            assert(t.spans[i].failed);
        }
    } else if n > 0 {
        assert(t.spans[n - 1].failed);
    }
}

/// The failed state is the last one of the timeline that is marked as failed; there is none where
/// no state is.
pub proof fn law_failed_state_is_the_last(events: Seq<HistoryEvent<Text>>)
    ensures
        ({
            let t = timeline_of(events);
            match t.failed_state() {
                Some(name) => exists|i: int|
                    0 <= i < t.spans.len() && (#[trigger] t.spans[i]).failed && t.spans[i].name == name && forall|
                        j: int,
                    |
                        i < j < t.spans.len() ==> !(#[trigger] t.spans[j]).failed,
                None => forall|i: int| 0 <= i < t.spans.len() ==> !(#[trigger] t.spans[i]).failed,
            }
        }),
{
    lemma_failed_before(timeline_of(events), timeline_of(events).spans.len() as int);
}

/// A state that fails and is left afterwards is no longer marked as failed.
pub proof fn law_leaving_is_recovering(t: Timeline, ts: Option<i64>, output: Option<Text>)
    requires
        t.well_formed(),
        t.open.len() > 0,
    ensures
        ({
            let i = t.open.last();
            !t.fail().leave(ts, t.spans[i].name, output).spans[i].failed
        }),
{
}

// --- what the events tell --------------------------------------------------------------------

/// Event `e` enters a state.
pub open spec fn is_entry(events: Seq<HistoryEvent<Text>>, e: int) -> bool {
    0 <= e < events.len() && events[e].entered is Some
}

/// How many states the first `n` events enter, which is where the state of an entry at `n` stands
/// in the timeline.
pub open spec fn entered_before(events: Seq<HistoryEvent<Text>>, n: int) -> int
    decreases n,
{
    if n <= 0 {
        0
    } else {
        entered_before(events, n - 1) + (if events[n - 1].entered is Some { 1int } else { 0 })
    }
}

/// How many times more often the events enter a state of this name than they leave one.
pub open spec fn balance(events: Seq<HistoryEvent<Text>>, name: Text) -> int
    decreases events.len(),
{
    if events.len() == 0 {
        0
    } else {
        let ev = events.last();
        balance(events.drop_last(), name) + (match (ev.entered, ev.exited) {
            (Some((n, _)), _) => if n == name { 1int } else { 0 },
            (None, Some((n, _))) => if n == name { -1int } else { 0 },
            (None, None) => 0,
        })
    }
}

/// The balance of the events that follow entry `e`, before `x`, in the name that `e` enters.
pub open spec fn balance_since(events: Seq<HistoryEvent<Text>>, e: int, x: int) -> int {
    balance(events.subrange(e + 1, x), (events[e].entered->0).0)
}

/// The state of entry `e` is left by event `x`: up to there its name is left once more than it is
/// entered again, and not before.
pub open spec fn left_by(events: Seq<HistoryEvent<Text>>, e: int, x: int) -> bool {
    &&& e < x < events.len()
    &&& balance_since(events, e, x + 1) < 0
    &&& forall|y: int| e < y <= x ==> #[trigger] balance_since(events, e, y) >= 0
}

/// The state of entry `e` is left by some event.
pub open spec fn is_left(events: Seq<HistoryEvent<Text>>, e: int) -> bool {
    exists|x: int| e < x <= events.len() && #[trigger] balance_since(events, e, x) < 0
}

/// Entry `e` is the last one whose state has not been left.
pub open spec fn is_innermost(events: Seq<HistoryEvent<Text>>, e: int) -> bool {
    &&& is_entry(events, e)
    &&& !is_left(events, e)
    &&& forall|later: int| e < later && #[trigger] is_entry(events, later) ==> is_left(events, later)
}

/// An event that neither enters nor leaves a state.
pub open spec fn is_inside(ev: HistoryEvent<Text>) -> bool {
    ev.entered is None && ev.exited is None
}

proof fn lemma_entered_before(events: Seq<HistoryEvent<Text>>, a: int, b: int)
    requires
        0 <= a <= b,
    ensures
        0 <= entered_before(events, a) <= entered_before(events, b),
        a < b && events[a].entered is Some ==> entered_before(events, a) < entered_before(events, b),
    decreases b,
{
    if a < b {
        lemma_entered_before(events, a, b - 1);
    } else if a > 0 {
        lemma_entered_before(events, a - 1, a - 1);
    }
}

proof fn lemma_entered_before_prefix(a: Seq<HistoryEvent<Text>>, b: Seq<HistoryEvent<Text>>, n: int)
    requires
        n <= a.len(),
        n <= b.len(),
        forall|i: int| 0 <= i < n ==> #[trigger] a[i] == b[i],
    ensures
        entered_before(a, n) == entered_before(b, n),
    decreases n,
{
    if n > 0 {
        lemma_entered_before_prefix(a, b, n - 1);
    }
}

/// Every state of the timeline has its entry.
proof fn lemma_entry_at(events: Seq<HistoryEvent<Text>>, i: int, n: int) -> (e: int)
    requires
        0 <= i < entered_before(events, n),
        n <= events.len(),
    ensures
        0 <= e < n,
        is_entry(events, e),
        entered_before(events, e) == i,
    decreases n,
{
    if n > 0 && events[n - 1].entered is Some && i == entered_before(events, n - 1) {
        n - 1
    } else {
        lemma_entry_at(events, i, n - 1)
    }
}

proof fn lemma_balance_sum(a: Seq<HistoryEvent<Text>>, b: Seq<HistoryEvent<Text>>, name: Text)
    ensures
        balance(a + b, name) == balance(a, name) + balance(b, name),
    decreases b.len(),
{
    if b.len() == 0 {
        assert(a + b =~= a);
    } else {
        assert((a + b).drop_last() =~= a + b.drop_last());
        lemma_balance_sum(a, b.drop_last(), name);
    }
}

proof fn lemma_balance_cut(events: Seq<HistoryEvent<Text>>, name: Text, a: int, b: int, c: int)
    requires
        0 <= a <= b <= c <= events.len(),
    ensures
        balance(events.subrange(a, c), name) == balance(events.subrange(a, b), name) + balance(
            events.subrange(b, c),
            name,
        ),
{
    assert(events.subrange(a, c) =~= events.subrange(a, b) + events.subrange(b, c));
    lemma_balance_sum(events.subrange(a, b), events.subrange(b, c), name);
}

proof fn lemma_balance_one(events: Seq<HistoryEvent<Text>>, name: Text, a: int)
    requires
        0 <= a < events.len(),
    ensures
        balance(events.subrange(a, a + 1), name) == (match (events[a].entered, events[a].exited) {
            (Some((n, _)), _) => if n == name { 1int } else { 0 },
            (None, Some((n, _))) => if n == name { -1int } else { 0 },
            (None, None) => 0,
        }),
{
    let one = events.subrange(a, a + 1);
    assert(one.last() == events[a]);
    assert(one.drop_last() =~= Seq::empty());
    assert(balance(one.drop_last(), name) == 0);
}

/// From `p` on, a name whose entries are all left is left at least as often as it is entered.
proof fn lemma_all_left(events: Seq<HistoryEvent<Text>>, name: Text, p: int)
    requires
        0 <= p <= events.len(),
        forall|e: int|
            p <= e && #[trigger] is_entry(events, e) && (events[e].entered->0).0 == name ==> is_left(events, e),
    ensures
        balance(events.subrange(p, events.len() as int), name) <= 0,
    decreases events.len() - p,
{
    let n = events.len() as int;
    if p == n {
        assert(events.subrange(p, n) =~= Seq::empty());
    } else {
        lemma_balance_one(events, name, p);
        if events[p].entered is Some && (events[p].entered->0).0 == name {
            assert(is_entry(events, p));
            let x = choose|x: int| p < x <= events.len() && #[trigger] balance_since(events, p, x) < 0;
            lemma_all_left(events, name, x);
            lemma_balance_cut(events, name, p, p + 1, x);
            lemma_balance_cut(events, name, p, x, n);
        } else {
            lemma_all_left(events, name, p + 1);
            lemma_balance_cut(events, name, p, p + 1, n);
        }
    }
}

proof fn lemma_balance_since_prefix(events: Seq<HistoryEvent<Text>>, ev: HistoryEvent<Text>, e: int, x: int)
    requires
        0 <= e < x <= events.len(),
    ensures
        balance_since(events.push(ev), e, x) == balance_since(events, e, x),
{
    assert(events.push(ev).subrange(e + 1, x) =~= events.subrange(e + 1, x));
}

/// What one event more changes about which states have been left.
proof fn lemma_left_after(events: Seq<HistoryEvent<Text>>, ev: HistoryEvent<Text>, e: int)
    requires
        is_entry(events, e),
    ensures
        is_left(events, e) ==> is_left(events.push(ev), e),
        is_left(events.push(ev), e) ==> is_left(events, e) || (ev.entered is None && ev.exited is Some && (
        ev.exited->0).0 == (events[e].entered->0).0 && balance_since(events, e, events.len() as int) == 0),
        !is_left(events, e) && ev.entered is None && ev.exited is Some && (ev.exited->0).0 == (events[e].entered->0).0
            && balance_since(events, e, events.len() as int) == 0 ==> left_by(
            events.push(ev),
            e,
            events.len() as int,
        ) && is_left(events.push(ev), e),
{
    let n = events.len() as int;
    let all = events.push(ev);
    let name = (events[e].entered->0).0;
    assert forall|x: int| e < x <= n implies #[trigger] balance_since(all, e, x) == balance_since(events, e, x) by {
        lemma_balance_since_prefix(events, ev, e, x);
    }
    lemma_balance_cut(all, name, e + 1, n, n + 1);
    lemma_balance_one(all, name, n);
    assert(balance_since(all, e, n) == balance_since(events, e, n));
    assert(balance_since(all, e, n + 1) == balance_since(all, e, n) + balance(all.subrange(n, n + 1), name));
    if is_left(events, e) {
        let x = choose|x: int| e < x <= events.len() && #[trigger] balance_since(events, e, x) < 0;
        assert(balance_since(all, e, x) < 0);
    } else if is_left(all, e) {
        let x = choose|x: int| e < x <= all.len() && #[trigger] balance_since(all, e, x) < 0;
        if x <= n {
            assert(balance_since(events, e, x) < 0);
        }
        assert(balance_since(events, e, n) >= 0);
    }
    if !is_left(events, e) && balance_since(all, e, n + 1) < 0 {
        assert forall|y: int| e < y <= n implies #[trigger] balance_since(all, e, y) >= 0 by {
            assert(balance_since(events, e, y) >= 0);
        }
    }
}

/// Of the entries of a name that have not been left, the last one is even, and an earlier one is
/// ahead.
proof fn lemma_balance_of_open(events: Seq<HistoryEvent<Text>>, e: int)
    requires
        is_entry(events, e),
        !is_left(events, e),
    ensures
        balance_since(events, e, events.len() as int) == 0 <==> forall|later: int|
            e < later && #[trigger] is_entry(events, later) && (events[later].entered->0).0 == (events[e].entered->0).0
                ==> is_left(events, later),
{
    let n = events.len() as int;
    let name = (events[e].entered->0).0;
    assert(balance_since(events, e, n) >= 0);
    if forall|later: int|
        e < later && #[trigger] is_entry(events, later) && (events[later].entered->0).0 == name ==> is_left(
            events,
            later,
        ) {
        lemma_all_left(events, name, e + 1);
    } else {
        let later = choose|later: int|
            e < later && #[trigger] is_entry(events, later) && (events[later].entered->0).0 == name && !is_left(
                events,
                later,
            );
        lemma_balance_cut(events, name, e + 1, later, n);
        lemma_balance_cut(events, name, later, later + 1, n);
        lemma_balance_one(events, name, later);
        assert(balance_since(events, e, later) >= 0);
        assert(balance_since(events, later, n) >= 0);
    }
}

/// The open states are those whose entries have not been left.
proof fn lemma_open(events: Seq<HistoryEvent<Text>>)
    ensures
        timeline_of(events).well_formed(),
        timeline_of(events).spans.len() == entered_before(events, events.len() as int),
        forall|e: int| #[trigger]
            is_entry(events, e) ==> 0 <= entered_before(events, e) < timeline_of(events).spans.len() && timeline_of(
                events,
            ).spans[entered_before(events, e)].name == (events[e].entered->0).0,
        forall|e: int| #[trigger]
            is_entry(events, e) ==> (timeline_of(events).open.contains(entered_before(events, e)) <==> !is_left(
                events,
                e,
            )),
    decreases events.len(),
{
    law_timelines_are_well_formed(events);
    if events.len() > 0 {
        let before = events.drop_last();
        let ev = events.last();
        let t = timeline_of(before);
        let u = timeline_of(events);
        let n = before.len() as int;
        assert(events =~= before.push(ev));
        lemma_open(before);
        lemma_after(t, ev);
        lemma_entered_before_prefix(events, before, n);
        assert forall|e: int| #[trigger] is_entry(events, e) implies 0 <= entered_before(events, e) < u.spans.len()
            && u.spans[entered_before(events, e)].name == (events[e].entered->0).0 && (u.open.contains(
            entered_before(events, e),
        ) <==> !is_left(events, e)) by {
            lemma_entered_before(events, e, events.len() as int);
            let i = entered_before(events, e);
            if e == n {
                assert forall|x: int| e < x <= events.len() implies #[trigger] balance_since(events, e, x) >= 0 by {
                    assert(events.subrange(e + 1, x) =~= Seq::empty());
                }
                assert(u.open.last() == t.spans.len());
                assert(u.open[u.open.len() - 1] == i);
            } else {
                assert(is_entry(before, e));
                lemma_entered_before_prefix(events, before, e);
                assert(u.spans[i].name == t.spans[i].name);
                lemma_left_after(before, ev, e);
                match (ev.entered, ev.exited) {
                    (Some((name, input)), _) => {
                        if t.open.contains(i) {
                            let k = t.open.index_of(i);
                            assert(u.open[k] == i);
                        }
                        if u.open.contains(i) {
                            let k = u.open.index_of(i);
                            assert(k < t.open.len());
                            assert(t.open[k] == i);
                        }
                    },
                    (None, Some((name, output))) => {
                        lemma_leaving(before, ev, e);
                    },
                    (None, None) => {},
                }
            }
        }
    }
}

/// Leaving a state closes the last entry of its name that has not been left, and no other.
proof fn lemma_leaving(before: Seq<HistoryEvent<Text>>, ev: HistoryEvent<Text>, e: int)
    requires
        is_entry(before, e),
        ev.entered is None,
        ev.exited is Some,
        timeline_of(before).well_formed(),
        timeline_of(before).spans.len() == entered_before(before, before.len() as int),
        forall|f: int| #[trigger]
            is_entry(before, f) ==> 0 <= entered_before(before, f) < timeline_of(before).spans.len() && timeline_of(
                before,
            ).spans[entered_before(before, f)].name == (before[f].entered->0).0,
        forall|f: int| #[trigger]
            is_entry(before, f) ==> (timeline_of(before).open.contains(entered_before(before, f)) <==> !is_left(
                before,
                f,
            )),
    ensures
        ({
            let t = timeline_of(before);
            let u = t.after(ev);
            let i = entered_before(before, e);
            let now_left = !is_left(before, e) && is_left(before.push(ev), e);
            &&& u.open.contains(i) <==> !is_left(before.push(ev), e)
            &&& now_left ==> left_by(before.push(ev), e, before.len() as int)
            &&& now_left ==> u.spans[i] == (StateSpanDto {
                exited_ts: ev.ts,
                failed: false,
                output: payload::payload_of((ev.exited->0).1),
                ..t.spans[i]
            })
            &&& !now_left ==> u.spans[i] == t.spans[i]
        }),
{
    let t = timeline_of(before);
    let u = t.after(ev);
    let i = entered_before(before, e);
    let n = before.len() as int;
    let name = (ev.exited->0).0;
    let output = (ev.exited->0).1;
    assert(is_entry(before, e));
    lemma_left_after(before, ev, e);
    if !is_left(before, e) {
        lemma_balance_of_open(before, e);
    }
    assert(u == t.leave(ev.ts, name, output));
    lemma_innermost_last(t, name, t.open.len() as int);
    match t.innermost_named(name, t.open.len() as int) {
        Some(k) => {
            let j = t.open[k];
            let f = lemma_entry_at(before, j, n);
            assert(is_entry(before, f));
            assert(t.open.contains(j));
            assert(!is_left(before, f));
            assert(t.spans[j].name == name);
            lemma_left_after(before, ev, f);
            lemma_balance_of_open(before, f);
            assert forall|later: int|
                f < later && #[trigger] is_entry(before, later) && (before[later].entered->0).0
                    == name implies is_left(before, later) by {
                if !is_left(before, later) {
                    let m = entered_before(before, later);
                    lemma_entered_before(before, f, later);
                    assert(t.open.contains(m));
                    let q = t.open.index_of(m);
                    assert(t.open[q] == m);
                    assert(q > k);
                    assert(t.spans[t.open[q]].name == name);
                }
            }
            lemma_removed(t.open, k, i);
            if i == j {
                if e < f {
                    lemma_entered_before(before, e, f);
                } else if f < e {
                    lemma_entered_before(before, f, e);
                }
                assert(e == f);
            } else {
                assert(u.spans[i] == t.spans[i]);
                if !is_left(before, e) && is_left(before.push(ev), e) {
                    // Both are the last of their name that was not left.
                    if e < f {
                        assert(is_left(before, f));
                    } else {
                        assert(is_left(before, e));
                    }
                    assert(false);
                }
            }
        },
        None => {
            if !is_left(before, e) {
                assert(t.open.contains(i));
                let q = t.open.index_of(i);
                assert(t.spans[t.open[q]].name != name);
            }
        },
    }
}

proof fn lemma_removed(s: Seq<int>, k: int, i: int)
    requires
        0 <= k < s.len(),
        forall|a: int, b: int| 0 <= a < b < s.len() ==> s[a] < s[b],
    ensures
        s.remove(k).contains(i) <==> s.contains(i) && i != s[k],
{
    let r = s.remove(k);
    if r.contains(i) {
        let q = r.index_of(i);
        if q < k {
            assert(s[q] == i);
        } else {
            assert(s[q + 1] == i);
        }
    }
    if s.contains(i) && i != s[k] {
        let q = s.index_of(i);
        if q < k {
            assert(r[q] == i);
        } else {
            assert(r[q - 1] == i);
        }
    }
}

proof fn lemma_innermost_last(t: Timeline, name: Text, n: int)
    requires
        n <= t.open.len(),
    ensures
        match t.innermost_named(name, n) {
            Some(k) => 0 <= k < n && t.spans[t.open[k]].name == name && forall|j: int|
                k < j < n ==> (#[trigger] t.spans[t.open[j]]).name != name,
            None => forall|j: int| 0 <= j < n ==> (#[trigger] t.spans[t.open[j]]).name != name,
        },
    decreases n,
{
    if n > 0 && t.spans[t.open[n - 1]].name != name {
        lemma_innermost_last(t, name, n - 1);
    }
}

/// The last entry that has not been left stands last among the open states.
proof fn lemma_innermost_is_open_last(events: Seq<HistoryEvent<Text>>, e: int)
    requires
        is_entry(events, e),
    ensures
        is_innermost(events, e) <==> timeline_of(events).open.len() > 0 && timeline_of(events).open.last()
            == entered_before(events, e),
{
    let t = timeline_of(events);
    let i = entered_before(events, e);
    let n = events.len() as int;
    lemma_open(events);
    if t.open.len() > 0 {
        let last = t.open.last();
        assert(t.open[t.open.len() - 1] == last);
        let f = lemma_entry_at(events, last, n);
        assert(is_entry(events, f));
        assert(t.open.contains(last));
        assert(!is_left(events, f));
        if f < e {
            lemma_entered_before(events, f, e);
        } else if e < f {
            lemma_entered_before(events, e, f);
        }
        if last == i {
            assert forall|later: int| e < later && #[trigger] is_entry(events, later) implies is_left(
                events,
                later,
            ) by {
                lemma_entered_before(events, e, later);
                if !is_left(events, later) {
                    let q = t.open.index_of(entered_before(events, later));
                    assert(t.open[q] == entered_before(events, later));
                    assert(q < t.open.len() - 1 ==> t.open[q] < t.open[t.open.len() - 1]);
                }
            }
        } else if is_innermost(events, e) {
            assert(t.open.contains(i));
            let q = t.open.index_of(i);
            assert(t.open[q] == i);
            assert(t.open[q] < last);
            assert(is_left(events, f));
        }
    } else if !is_left(events, e) {
        assert(t.open.contains(i));
    }
}

/// An event that tells of a failure marks one state as failed: that of the last entry which the
/// events so far have not left.  No other state changes its mark.
pub proof fn law_the_innermost_state_fails(events: Seq<HistoryEvent<Text>>, ev: HistoryEvent<Text>, e: int)
    requires
        is_inside(ev),
        tells_of_failure(ev.event_type),
        is_entry(events, e),
    ensures
        ({
            let i = entered_before(events, e);
            let before = timeline_of(events).spans;
            let after = timeline_of(events.push(ev)).spans;
            &&& 0 <= i < before.len() && after.len() == before.len()
            &&& is_innermost(events, e) ==> after[i].failed
            &&& !is_innermost(events, e) ==> after[i].failed == before[i].failed
        }),
{
    lemma_open(events);
    lemma_innermost_is_open_last(events, e);
    assert(events.push(ev).drop_last() =~= events);
    lemma_after(timeline_of(events), ev);
}

/// Right after a failure, the state that is told of as failed is that of the last entry which the
/// events have not left.
pub proof fn law_the_innermost_state_is_told_of(events: Seq<HistoryEvent<Text>>, ev: HistoryEvent<Text>, e: int)
    requires
        is_inside(ev),
        tells_of_failure(ev.event_type),
        is_innermost(events, e),
    ensures
        timeline_of(events.push(ev)).failed_state() == Some((events[e].entered->0).0),
{
    let t = timeline_of(events);
    let u = timeline_of(events.push(ev));
    let i = entered_before(events, e);
    lemma_open(events);
    lemma_innermost_is_open_last(events, e);
    law_the_innermost_state_fails(events, ev, e);
    assert(events.push(ev).drop_last() =~= events);
    lemma_after(t, ev);
    lemma_failed_before(u, u.spans.len() as int);
    assert(u.open == t.open);
    assert(u.spans[i].failed);
    assert forall|j: int| i < j < u.spans.len() implies !(#[trigger] u.spans[j]).failed by {
        if u.spans[j].failed {
            let k = u.open.index_of(j);
            assert(u.open[k] == j);
            assert(k < u.open.len() - 1 ==> u.open[k] < u.open[u.open.len() - 1]);
        }
    }
}

/// Event `f` breaks the state of entry `e`.
pub open spec fn breaks(events: Seq<HistoryEvent<Text>>, f: int, e: int) -> bool {
    0 <= f < events.len() && is_inside(events[f]) && tells_of_failure(events[f].event_type) && is_innermost(
        events.take(f),
        e,
    )
}

/// Event `f` has the state of entry `e` schedule a function.
pub open spec fn schedules(events: Seq<HistoryEvent<Text>>, f: int, e: int) -> bool {
    0 <= f < events.len() && is_inside(events[f]) && !tells_of_failure(events[f].event_type) && scheduled_function(
        events[f],
    ) is Some && is_innermost(events.take(f), e)
}

/// A state is marked as failed exactly where a failure came while it was the last one entered and
/// not left, and it has not been left since.
pub proof fn law_marked_states_broke_and_stayed(events: Seq<HistoryEvent<Text>>, e: int)
    requires
        is_entry(events, e),
    ensures
        0 <= entered_before(events, e) < timeline_of(events).spans.len(),
        timeline_of(events).spans[entered_before(events, e)].failed <==> !is_left(events, e) && exists|f: int| #[trigger]
            breaks(events, f, e),
    decreases events.len(),
{
    lemma_open(events);
    let before = events.drop_last();
    let ev = events.last();
    let n = before.len() as int;
    let t = timeline_of(before);
    let u = timeline_of(events);
    let i = entered_before(events, e);
    assert(events =~= before.push(ev));
    assert(events.take(n) =~= before);
    assert forall|f: int| 0 <= f < n implies (#[trigger] breaks(events, f, e) <==> breaks(before, f, e)) by {
        assert(events.take(f) =~= before.take(f));
    }
    if e == n {
        assert forall|f: int| !(#[trigger] breaks(events, f, e)) by {}
        assert(!u.spans[i].failed);
    } else {
        assert(is_entry(before, e));
        lemma_entered_before_prefix(events, before, e);
        law_marked_states_broke_and_stayed(before, e);
        lemma_open(before);
        lemma_after(t, ev);
        lemma_left_after(before, ev, e);
        if exists|f: int| #[trigger] breaks(before, f, e) {
            let f = choose|f: int| #[trigger] breaks(before, f, e);
            assert(breaks(events, f, e));
        }
        if exists|f: int| #[trigger] breaks(events, f, e) {
            let f = choose|f: int| #[trigger] breaks(events, f, e);
            if f < n {
                assert(breaks(before, f, e));
            }
        }
        match (ev.entered, ev.exited) {
            (Some((name, input)), _) => {
                assert(u.spans[i] == t.spans[i]);
            },
            (None, Some((name, output))) => {
                lemma_leaving(before, ev, e);
            },
            (None, None) => {
                lemma_innermost_is_open_last(before, e);
                if tells_of_failure(ev.event_type) && is_innermost(before, e) {
                    assert(breaks(events, n, e));
                } else {
                    assert(u.spans[i].failed == t.spans[i].failed);
                }
            },
        }
    }
}

/// A state that was left shows when, and with what output; one that was not shows neither.
pub proof fn law_left_states_show_how(events: Seq<HistoryEvent<Text>>, e: int, x: int)
    requires
        is_entry(events, e),
    ensures
        ({
            let span = timeline_of(events).spans[entered_before(events, e)];
            &&& 0 <= entered_before(events, e) < timeline_of(events).spans.len()
            &&& left_by(events, e, x) ==> events[x].exited is Some && (events[x].exited->0).0 == span.name
                && span.exited_ts == events[x].ts && span.output == payload::payload_of((events[x].exited->0).1)
            &&& !is_left(events, e) ==> span.exited_ts is None && span.output is None
        }),
    decreases events.len(),
{
    lemma_open(events);
    let before = events.drop_last();
    let ev = events.last();
    let n = before.len() as int;
    let t = timeline_of(before);
    let u = timeline_of(events);
    let i = entered_before(events, e);
    assert(events =~= before.push(ev));
    if e < n {
        assert(is_entry(before, e));
        lemma_entered_before_prefix(events, before, e);
        law_left_states_show_how(before, e, x);
        lemma_open(before);
        lemma_after(t, ev);
        lemma_left_after(before, ev, e);
        assert forall|y: int| e < y <= n implies #[trigger] balance_since(events, e, y) == balance_since(
            before,
            e,
            y,
        ) by {
            lemma_balance_since_prefix(before, ev, e, y);
        }
        if left_by(events, e, x) {
            if x < n {
                assert forall|y: int| e < y <= x implies #[trigger] balance_since(before, e, y) >= 0 by {
                    assert(balance_since(events, e, y) >= 0);
                }
                assert(balance_since(events, e, x + 1) < 0);
                assert(left_by(before, e, x));
                assert(is_left(before, e));
            } else {
                assert(balance_since(events, e, n + 1) < 0);
                assert(is_left(events, e));
                assert forall|y: int| e < y <= n implies #[trigger] balance_since(before, e, y) >= 0 by {
                    assert(balance_since(events, e, y) >= 0);
                }
                assert(!is_left(before, e));
            }
        }
        match (ev.entered, ev.exited) {
            (Some((name, input)), _) => {
                assert(u.spans[i] == t.spans[i]);
            },
            (None, Some((name, output))) => {
                lemma_leaving(before, ev, e);
            },
            (None, None) => {
                assert(u.spans[i].exited_ts == t.spans[i].exited_ts);
                assert(u.spans[i].output == t.spans[i].output);
            },
        }
    }
}

/// A state shows the function that the first event scheduled while it was the last one entered and
/// not left; it shows none where no event did.
pub proof fn law_states_show_their_function(events: Seq<HistoryEvent<Text>>, e: int, f: int)
    requires
        is_entry(events, e),
    ensures
        ({
            let span = timeline_of(events).spans[entered_before(events, e)];
            &&& 0 <= entered_before(events, e) < timeline_of(events).spans.len()
            &&& schedules(events, f, e) && (forall|g: int| g < f ==> !(#[trigger] schedules(events, g, e)))
                ==> span.resource_arn == scheduled_function(events[f])
            &&& (forall|g: int| !(#[trigger] schedules(events, g, e))) ==> span.resource_arn is None
        }),
    decreases events.len(),
{
    lemma_open(events);
    let before = events.drop_last();
    let ev = events.last();
    let n = before.len() as int;
    let t = timeline_of(before);
    let u = timeline_of(events);
    let i = entered_before(events, e);
    assert(events =~= before.push(ev));
    assert(events.take(n) =~= before);
    assert forall|g: int| g < n implies (#[trigger] schedules(events, g, e) <==> schedules(before, g, e)) by {
        if 0 <= g {
            assert(events.take(g) =~= before.take(g));
        }
    }
    if e < n {
        assert(is_entry(before, e));
        lemma_entered_before_prefix(events, before, e);
        lemma_open(before);
        lemma_after(t, ev);
        law_states_show_their_function(before, e, f);
        if forall|g: int| g < n ==> !(#[trigger] schedules(events, g, e)) {
            assert forall|g: int| !(#[trigger] schedules(before, g, e)) by {
                if g < n {
                    assert(!schedules(events, g, e));
                }
            }
        }
        if f < n && schedules(events, f, e) && (forall|g: int| g < f ==> !(#[trigger] schedules(events, g, e))) {
            assert forall|g: int| g < f implies !(#[trigger] schedules(before, g, e)) by {
                assert(!schedules(events, g, e));
            }
        }
        match (ev.entered, ev.exited) {
            (Some((name, input)), _) => {
                assert(u.spans[i] == t.spans[i]);
            },
            (None, Some((name, output))) => {
                lemma_leaving(before, ev, e);
            },
            (None, None) => {
                lemma_innermost_is_open_last(before, e);
                if schedules(events, n, e) {
                    assert(t.open.last() == i);
                } else {
                    assert(u.spans[i].resource_arn == t.spans[i].resource_arn);
                }
            },
        }
    } else {
        assert forall|g: int| !(#[trigger] schedules(events, g, e)) by {}
    }
}

/// A type of event tells of a failure where one of three words stands anywhere in its name, and
/// nowhere else.
pub proof fn law_failures_are_told_by_a_word(before: Text, after: Text, other: Text)
    ensures
        tells_of_failure(before + "Failed"@ + after),
        tells_of_failure(before + "TimedOut"@ + after),
        tells_of_failure(before + "Aborted"@ + after),
        !text::occurs(other, "Failed"@) && !text::occurs(other, "TimedOut"@) && !text::occurs(other, "Aborted"@)
            ==> !tells_of_failure(other),
{
    text::lemma_occurs_between(before, "Failed"@, after);
    text::lemma_occurs_between(before, "TimedOut"@, after);
    text::lemma_occurs_between(before, "Aborted"@, after);
}

// --- reading ---------------------------------------------------------------------------------

/// The state of reading as it stands in `spans` and `open`.
spec fn reading(spans: Vec<StateSpanDto>, open: Vec<usize>) -> Timeline {
    Timeline { spans: spans.deep_view(), open: util::positions(open@) }
}

fn leave_state(spans: &mut Vec<StateSpanDto>, open: &mut Vec<usize>, ts: Option<i64>, name: &str, output: Option<&str>)
    requires
        reading(*old(spans), *old(open)).well_formed(),
    ensures
        reading(*final(spans), *final(open)) == reading(*old(spans), *old(open)).leave(ts, name@, output.deep_view()),
{
    let ghost t = reading(*spans, *open);
    let mut n: usize = open.len();
    while n > 0
        invariant
            n <= open@.len(),
            spans.deep_view() == t.spans,
            util::positions(open@) == t.open,
            t.well_formed(),
            t.innermost_named(name@, t.open.len() as int) == t.innermost_named(name@, n as int),
            t == reading(*old(spans), *old(open)),
        decreases n,
    {
        let k: usize = n - 1;
        assert(t.open[k as int] == open@[k as int]);
        let i: usize = open[k];
        assert(t.spans[i as int].name == spans@[i as int].name@);
        if text::same(spans[i].name.as_str(), name) {
            let shown = payload::pretty_truncate(output);
            spans[i].exited_ts = ts;
            spans[i].failed = false;
            spans[i].output = shown;
            open.remove(k);
            proof {
                let u = t.leave(ts, name@, output.deep_view());
                assert(spans.deep_view() =~= u.spans);
                assert(util::positions(open@) =~= u.open);
            }
            return ;
        }
        n = k;
    }
}

/// Reads the events of a history, oldest first, into the states of its timeline, and tells which
/// state failed.
pub fn parse_history(events: &Vec<HistoryEvent>) -> (r: (Vec<StateSpanDto>, Option<String>))
    ensures
        r.0.deep_view() == timeline_of(events.deep_view()).spans,
        r.1.deep_view() == timeline_of(events.deep_view()).failed_state(),
{
    let mut spans: Vec<StateSpanDto> = Vec::new();
    let mut open: Vec<usize> = Vec::new();
    let ghost all = events.deep_view();
    proof {
        assert(reading(spans, open) =~= Timeline::empty());
        assert(all.take(0) =~= Seq::empty());
    }
    let mut i: usize = 0;
    while i < events.len()
        invariant
            i <= events@.len(),
            all == events.deep_view(),
            reading(spans, open) == timeline_of(all.take(i as int)),
        decreases events@.len() - i,
    {
        let ghost t = timeline_of(all.take(i as int));
        let ev = &events[i];
        proof {
            assert(all.take(i as int + 1).drop_last() =~= all.take(i as int));
            assert(all.take(i as int + 1).last() == ev.deep_view());
            law_timelines_are_well_formed(all.take(i as int));
        }
        match &ev.entered {
            Some((name, input)) => {
                let shown = match input {
                    Some(s) => payload::pretty_truncate(Some(s.as_str())),
                    None => payload::pretty_truncate(None),
                };
                open.push(spans.len());
                spans.push(
                    StateSpanDto {
                        name: name.clone(),
                        entered_ts: ev.ts,
                        exited_ts: None,
                        failed: false,
                        input: shown,
                        output: None,
                        resource_arn: None,
                    },
                );
                proof {
                    let u = t.after(ev.deep_view());
                    assert(spans.deep_view() =~= u.spans);
                    assert(util::positions(open@) =~= u.open);
                }
            },
            None => match &ev.exited {
                Some((name, output)) => {
                    match output {
                        Some(s) => leave_state(&mut spans, &mut open, ev.ts, name.as_str(), Some(s.as_str())),
                        None => leave_state(&mut spans, &mut open, ev.ts, name.as_str(), None),
                    }
                },
                None => {
                    if is_failure_event(ev) {
                        if open.len() > 0 {
                            let k: usize = open[open.len() - 1];
                            assert(t.open.last() == k);
                            spans[k].failed = true;
                            proof {
                                assert(spans.deep_view() =~= t.fail().spans);
                            }
                        }
                    } else {
                        match lambda_resource(ev) {
                            Some(arn) => if open.len() > 0 {
                                let k: usize = open[open.len() - 1];
                                assert(t.open.last() == k);
                                assert(t.spans[k as int].resource_arn == spans@[k as int].resource_arn.deep_view());
                                if spans[k].resource_arn.is_none() {
                                    let ghost named = arn@;
                                    spans[k].resource_arn = Some(arn);
                                    proof {
                                        assert(spans.deep_view() =~= t.invoke(named).spans);
                                    }
                                }
                            },
                            None => {},
                        }
                    }
                },
            },
        }
        i = i + 1;
    }
    proof {
        assert(all.take(all.len() as int) =~= all);
    }
    let ghost t = timeline_of(all);
    let mut n: usize = spans.len();
    let mut failed_state: Option<String> = None;
    while n > 0 && failed_state.is_none()
        invariant
            n <= spans@.len(),
            spans.deep_view() == t.spans,
            t.failed_state() == (match failed_state {
                Some(name) => Some(name@),
                None => t.failed_before(n as int),
            }),
        decreases n,
    {
        n = n - 1;
        assert(t.spans[n as int] == spans@[n as int].deep_view());
        if spans[n].failed {
            failed_state = Some(spans[n].name.clone());
        }
    }
    (spans, failed_state)
}

/// Reads a history that was fetched newest first, so that the end of a long one comes first.
pub fn parse_newest_first(events: Vec<HistoryEvent>) -> (r: (Vec<StateSpanDto>, Option<String>))
    ensures
        r.0.deep_view() == timeline_of(events.deep_view().reverse()).spans,
        r.1.deep_view() == timeline_of(events.deep_view().reverse()).failed_state(),
{
    let ghost all = events@;
    let mut rest = events;
    let mut ordered: Vec<HistoryEvent> = Vec::new();
    while rest.len() > 0
        invariant
            rest@.len() + ordered@.len() == all.len(),
            rest@ == all.take(rest@.len() as int),
            forall|i: int| 0 <= i < ordered@.len() ==> #[trigger] ordered@[i] == all[all.len() - 1 - i],
        decreases rest@.len(),
    {
        let ghost before = rest@;
        match rest.pop() {
            Some(ev) => ordered.push(ev),
            None => {},
        }
        proof {
            assert(rest@ =~= all.take(rest@.len() as int));
        }
    }
    proof {
        assert(ordered.deep_view() =~= events.deep_view().reverse());
    }
    parse_history(&ordered)
}

/// A function is scheduled by its ARN, or by a task of the Lambda service whose parameters name it;
/// a task of any other service schedules none.
pub proof fn law_functions_are_scheduled_by_name(ev: HistoryEvent<Text>, arn: Text, kind: Text, parameters: Text)
    ensures
        ev.lambda == Some(arn) ==> scheduled_function(ev) == Some(arn),
        ev.lambda is None && ev.task == Some(("lambda"@, parameters)) ==> scheduled_function(ev) == json::json_string(
            parameters,
            "FunctionName"@,
        ),
        ev.lambda is None && ev.task == Some((kind, parameters)) && kind != "lambda"@ ==> scheduled_function(ev) is None,
        ev.lambda is None && ev.task is None ==> scheduled_function(ev) is None,
{
}

} // verus!
