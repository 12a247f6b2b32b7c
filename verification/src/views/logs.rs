//! View `logs`: log groups, their streams, the lines of a stream, and the lines of a whole group
//! over a span of time (the tail).

use vstd::prelude::*;

use crate::action;
use crate::action::{Action, ActionText, ConsoleTarget, ViewContext};
use crate::effects::payload;
use crate::key::{KeyCode, KeyEvent};
use crate::list;
use crate::list::ListState;
use crate::message::{LogEventDto, LogGroupDto, LogStreamDto, LogWindow, Message, Text};
use crate::text;
use crate::ui::detail;
use crate::ui::detail::DetailPanel;
use crate::util;
use crate::util::{fmt_clock_millis, fmt_epoch_millis, parse_datetime, parse_duration};
use crate::views::{nothing, DeckView};

verus! {

// --- time windows ----------------------------------------------------------------------------

/// How many preset windows there are to cycle through.
pub const PRESETS: usize = 6;

/// The preset that a tail opens with, unless another is configured: one hour.
pub const DEFAULT_PRESET: usize = 1;

/// Length of the `i`-th preset window in milliseconds: 15m, 1h, 6h, 24h, 3d, 7d.
pub open spec fn preset_length(i: int) -> i64 {
    if i == 0 {
        900_000
    } else if i == 1 {
        3_600_000
    } else if i == 2 {
        21_600_000
    } else if i == 3 {
        86_400_000
    } else if i == 4 {
        259_200_000
    } else {
        604_800_000
    }
}

/// Length of the `i`-th preset window in milliseconds.
pub fn preset_millis(i: usize) -> (r: i64)
    requires
        i < PRESETS,
    ensures
        r == preset_length(i as int),
{
    if i == 0 {
        900_000
    } else if i == 1 {
        3_600_000
    } else if i == 2 {
        21_600_000
    } else if i == 3 {
        86_400_000
    } else if i == 4 {
        259_200_000
    } else {
        604_800_000
    }
}

/// The preset with a label, `None` where no preset has it.
pub open spec fn preset_named(label: Text) -> Option<usize> {
    if label == "15m"@ {
        Some(0usize)
    } else if label == "1h"@ {
        Some(1usize)
    } else if label == "6h"@ {
        Some(2usize)
    } else if label == "24h"@ {
        Some(3usize)
    } else if label == "3d"@ {
        Some(4usize)
    } else if label == "7d"@ {
        Some(5usize)
    } else {
        None
    }
}

fn preset_of(label: &str) -> (r: Option<usize>)
    ensures
        r == preset_named(label@),
        r matches Some(i) ==> i < PRESETS,
{
    if text::same(label, "15m") {
        Some(0)
    } else if text::same(label, "1h") {
        Some(1)
    } else if text::same(label, "6h") {
        Some(2)
    } else if text::same(label, "24h") {
        Some(3)
    } else if text::same(label, "3d") {
        Some(4)
    } else if text::same(label, "7d") {
        Some(5)
    } else {
        None
    }
}

/// An instant without its seconds, for captions: `YYYY-MM-DD HH:MM`.
pub open spec fn short_instant(ms: int) -> Text {
    text::head_of(util::instant_text(ms), 16)
}

/// An instant without its seconds, for captions.
pub fn short_dt(ms: i64) -> (r: String)
    ensures
        r@ == short_instant(ms as int),
{
    text::head(fmt_epoch_millis(ms).as_str(), 16)
}

/// Whole minutes of a length of time, towards zero.
pub open spec fn whole_minutes(ms: int) -> int {
    if ms >= 0 {
        ms / 60_000
    } else {
        -((-ms) / 60_000)
    }
}

/// The length of a window in the largest of days, hours and minutes that divides it.
pub open spec fn window_length_text(ms: int) -> Text {
    let m = whole_minutes(ms);
    if m % 1440 == 0 {
        text::int_text(if m >= 0 { m / 1440 } else { -((-m) / 1440) }) + "d"@
    } else if m % 60 == 0 {
        text::int_text(if m >= 0 { m / 60 } else { -((-m) / 60) }) + "h"@
    } else {
        text::int_text(m) + "m"@
    }
}

proof fn lemma_divides(a: int, b: int, q: int)
    requires
        b > 1,
        q == (if a >= 0 { a / b } else { -((-a) / b) }),
    ensures
        a % b == 0 <==> q * b == a,
        a >= 0 ==> 0 <= q <= a,
        a < 0 ==> a < q <= 0,
{
    let n = if a >= 0 { a } else { -a };
    vstd::arithmetic::div_mod::lemma_fundamental_div_mod(n, b);
    vstd::arithmetic::div_mod::lemma_fundamental_div_mod(a, b);
    assert(0 <= n / b && (n > 0 ==> n / b < n)) by (nonlinear_arith)
        requires
            n >= 0,
            b > 1,
    ;
    assert((-(n / b)) * b == -(b * (n / b))) by (nonlinear_arith);
    assert((n / b) * b == b * (n / b)) by (nonlinear_arith);
    if q * b == a {
        assert((q * b) % b == 0) by (nonlinear_arith)
            requires
                b > 1,
        ;
    }
    if a % b == 0 {
        let k = a / b;
        assert(a == b * k);
        if a < 0 {
            assert(n == b * (-k)) by (nonlinear_arith)
                requires
                    n == -a,
                    a == b * k,
            ;
            assert(n / b == -k) by (nonlinear_arith)
                requires
                    n == b * (-k),
                    b > 1,
            ;
            assert(q * b == a) by (nonlinear_arith)
                requires
                    q == k,
                    a == b * k,
            ;
        }
    }
}

fn toward_zero(a: i64, b: i64) -> (r: i64)
    requires
        b > 1,
    ensures
        r == (if a >= 0 { a as int / b as int } else { -((-(a as int)) / b as int) }),
        a as int % b as int == 0 <==> r * b == a,
{
    proof {
        lemma_divides(
            a as int,
            b as int,
            if a >= 0 { a as int / b as int } else { -((-(a as int)) / b as int) },
        );
    }
    if a >= 0 {
        a / b
    } else {
        let n: i128 = -(a as i128);
        (-(n / (b as i128))) as i64
    }
}

/// The length of a window, as captions show it.
pub fn fmt_window_duration(ms: i64) -> (r: String)
    ensures
        r@ == window_length_text(ms as int),
{
    let m: i64 = toward_zero(ms, 60_000);
    let days: i64 = toward_zero(m, 1440);
    let hours: i64 = toward_zero(m, 60);
    if days as i128 * 1440 == m as i128 {
        let mut out = text::signed_text(days);
        out.append("d");
        out
    } else if hours as i128 * 60 == m as i128 {
        let mut out = text::signed_text(hours);
        out.append("h");
        out
    } else {
        let mut out = text::signed_text(m);
        out.append("m");
        out
    }
}

/// What a caption shows of a window of a minute or more reads back as its length in whole minutes.
pub proof fn law_window_lengths_are_read_back(ms: int)
    requires
        60_000 <= ms <= i64::MAX,
    ensures
        util::duration_value(window_length_text(ms)) == Some(ms - ms % 60_000),
{
    reveal_strlit("m");
    reveal_strlit("min");
    reveal_strlit("h");
    reveal_strlit("d");
    assert("m"@ =~= seq!['m']);
    assert("h"@ =~= seq!['h']);
    assert("d"@ =~= seq!['d']);
    assert("d"@[0] == 'd' && "h"@[0] == 'h' && "m"@[0] == 'm' && "min"@.len() == 3);
    let m = whole_minutes(ms);
    let shown = window_length_text(ms);
    if m % 1440 == 0 {
        assert(shown =~= text::int_text(m / 1440).push('d'));
        util::law_durations_are_read_back(m / 1440, 'd', 86_400_000);
    } else if m % 60 == 0 {
        assert(shown =~= text::int_text(m / 60).push('h'));
        util::law_durations_are_read_back(m / 60, 'h', 3_600_000);
    } else {
        assert(shown =~= text::int_text(m).push('m'));
        util::law_durations_are_read_back(m, 'm', 60_000);
    }
}

/// The window that a command asks for: `since <duration>`, or `from <instant> [to <instant>]`.
pub open spec fn window_asked(cmd: Text) -> Option<LogWindow> {
    let (verb, rest) = text::word_and_rest(cmd);
    if verb == "since"@ {
        match util::duration_value(rest) {
            Some(ms) => Some(LogWindow::Last(ms as i64)),
            None => None,
        }
    } else if verb == "from"@ {
        match text::parts_around(rest, " to "@) {
            None => match util::datetime_value(rest) {
                Some(from) => Some(LogWindow::Range { from: from as i64, to: None }),
                None => None,
            },
            Some((a, b)) => match (util::datetime_value(text::trimmed(a)), util::datetime_value(text::trimmed(b))) {
                (Some(from), Some(to)) => Some(LogWindow::Range { from: from as i64, to: Some(to as i64) }),
                _ => None,
            },
        }
    } else {
        None
    }
}

/// Reads the window that a command asks for.
pub fn parse_window(cmd: &str) -> (r: Option<LogWindow>)
    ensures
        r == window_asked(cmd@),
{
    let (verb, rest) = text::split_word(cmd);
    if text::same(verb.as_str(), "since") {
        match parse_duration(rest.as_str()) {
            Some(ms) => Some(LogWindow::Last(ms)),
            None => None,
        }
    } else if text::same(verb.as_str(), "from") {
        match text::split_once(rest.as_str(), " to ") {
            None => match parse_datetime(rest.as_str()) {
                Some(from) => Some(LogWindow::Range { from, to: None }),
                None => None,
            },
            Some((a, b)) => {
                let from = parse_datetime(text::trim(a.as_str()).as_str());
                let to = parse_datetime(text::trim(b.as_str()).as_str());
                match (from, to) {
                    (Some(from), Some(to)) => Some(LogWindow::Range { from, to: Some(to) }),
                    _ => None,
                }
            },
        }
    } else {
        None
    }
}

// --- lines -----------------------------------------------------------------------------------

/// How a line stands out.
#[derive(Clone, Copy, Debug, PartialEq, Eq, Structural)]
pub enum Severity {
    Error,
    Warning,
    Plain,
}

/// How a line stands out, by the words in it.
pub open spec fn severity(msg: Text) -> Severity {
    if text::occurs(msg, "ERROR"@) || text::occurs(msg, "Exception"@) || text::occurs(msg, "panic"@) {
        Severity::Error
    } else if text::occurs(msg, "WARN"@) {
        Severity::Warning
    } else {
        Severity::Plain
    }
}

/// How a line stands out.
pub fn severity_of(msg: &str) -> (r: Severity)
    ensures
        r == severity(msg@),
{
    if text::contains(msg, "ERROR") || text::contains(msg, "Exception") || text::contains(msg, "panic") {
        Severity::Error
    } else if text::contains(msg, "WARN") {
        Severity::Warning
    } else {
        Severity::Plain
    }
}

/// The telling end of a stream's name: what follows its last `]`, cut to twelve characters.
pub open spec fn stream_tail(name: Text) -> Text {
    let tail = text::last_part_of(name, ']');
    text::head_of(if tail.len() == 0 { name } else { tail }, 12)
}

/// The telling end of a stream's name.
pub fn stream_suffix(name: &str) -> (r: String)
    ensures
        r@ == stream_tail(name@),
{
    let tail = text::last_part(name, ']');
    if tail.as_str().is_empty() {
        text::head(name, 12)
    } else {
        text::head(tail.as_str(), 12)
    }
}

/// What is computed once of a line when it arrives, rather than at every key and frame.
#[derive(Debug)]
pub struct EventRow<S = String> {
    pub clock: S,
    pub stream: Option<S>,
    pub preview: S,
    pub severity: Severity,
    /// The message in lower case, which is what the filter looks into.
    pub lc: S,
}

impl DeepView for EventRow<String> {
    type V = EventRow<Text>;

    open spec fn deep_view(&self) -> EventRow<Text> {
        EventRow {
            clock: self.clock@,
            stream: self.stream.deep_view(),
            preview: self.preview@,
            severity: self.severity,
            lc: self.lc@,
        }
    }
}

/// The row of a line.
pub open spec fn event_row(e: LogEventDto) -> EventRow<Text> {
    EventRow {
        clock: match e.ts {
            Some(ts) => util::clock_text((ts as int / 1000) % 86_400),
            None => "--:--:--"@,
        },
        stream: match e.stream {
            Some(s) => Some(stream_tail(s@)),
            None => None,
        },
        preview: text::one_line_of(e.message@),
        severity: severity(e.message@),
        lc: text::lowercase(e.message@),
    }
}

impl EventRow<String> {
    pub fn new(e: &LogEventDto) -> (r: Self)
        ensures
            r.deep_view() == event_row(*e),
    {
        EventRow {
            clock: match e.ts {
                Some(ts) => fmt_clock_millis(ts),
                None => "--:--:--".to_string(),
            },
            stream: match &e.stream {
                Some(s) => Some(stream_suffix(s.as_str())),
                None => None,
            },
            preview: text::one_line(e.message.as_str()),
            severity: severity_of(e.message.as_str()),
            lc: text::to_lowercase(e.message.as_str()),
        }
    }
}

/// A line matches a filter that occurs in it, whatever the case.
pub open spec fn line_matches(e: LogEventDto, filter: Text) -> bool {
    filter.len() == 0 || text::occurs(text::lowercase(e.message@), text::lowercase(filter))
}

/// Positions of the first `n` lines that match the filter, in their order.
pub open spec fn lines_upto(events: Seq<LogEventDto>, filter: Text, n: int) -> Seq<int>
    decreases n,
{
    if n <= 0 {
        Seq::empty()
    } else if line_matches(events[n - 1], filter) {
        lines_upto(events, filter, n - 1).push(n - 1)
    } else {
        lines_upto(events, filter, n - 1)
    }
}

/// Positions of the lines that match the filter, in their order.
pub open spec fn lines_shown(events: Seq<LogEventDto>, filter: Text) -> Seq<int> {
    lines_upto(events, filter, events.len() as int)
}

/// The filter shows exactly the lines that match it, in chronological order.
pub proof fn law_lines_shown(events: Seq<LogEventDto>, filter: Text, n: int)
    requires
        0 <= n <= events.len(),
    ensures
        forall|k: int|
            0 <= k < lines_upto(events, filter, n).len() ==> 0 <= #[trigger] lines_upto(events, filter, n)[k] < n
                && line_matches(events[lines_upto(events, filter, n)[k]], filter),
        forall|j: int, k: int|
            0 <= j < k < lines_upto(events, filter, n).len() ==> #[trigger] lines_upto(events, filter, n)[j]
                < #[trigger] lines_upto(events, filter, n)[k],
        forall|i: int|
            0 <= i < n && line_matches(#[trigger] events[i], filter) ==> lines_upto(events, filter, n).contains(i),
    decreases n,
{
    if n > 0 {
        law_lines_shown(events, filter, n - 1);
        let before = lines_upto(events, filter, n - 1);
        let after = lines_upto(events, filter, n);
        if line_matches(events[n - 1], filter) {
            assert forall|i: int| 0 <= i < n && line_matches(#[trigger] events[i], filter) implies after.contains(i) by {
                if i == n - 1 {
                    assert(after[before.len() as int] == i);
                } else {
                    assert(before.contains(i));
                    let k = choose|k: int| 0 <= k < before.len() && before[k] == i;
                    assert(after[k] == i);
                }
            }
        }
    }
}

/// With an empty filter every line is shown.
pub proof fn law_empty_filter_shows_every_line(events: Seq<LogEventDto>, n: int)
    requires
        0 <= n <= events.len(),
    ensures
        lines_upto(events, Seq::empty(), n) == Seq::new(n as nat, |i: int| i),
    decreases n,
{
    if n > 0 {
        law_empty_filter_shows_every_line(events, n - 1);
        assert(Seq::new((n - 1) as nat, |i: int| i).push(n - 1) =~= Seq::new(n as nat, |i: int| i));
    } else {
        assert(Seq::<int>::empty() =~= Seq::new(0, |i: int| i));
    }
}

// --- the view --------------------------------------------------------------------------------

/// What the view shows.
#[derive(Debug)]
#[verifier::ext_equal]
pub enum Level<S = String> {
    Groups,
    Streams { group: S },
    /// The lines of a stream.
    Events { group: S, stream: S },
    /// The lines of all streams of a group over a span of time.
    Tail { group: S },
}

impl DeepView for Level<String> {
    type V = Level<Text>;

    open spec fn deep_view(&self) -> Level<Text> {
        match self {
            Level::Groups => Level::Groups,
            Level::Streams { group } => Level::Streams { group: group@ },
            Level::Events { group, stream } => Level::Events { group: group@, stream: stream@ },
            Level::Tail { group } => Level::Tail { group: group@ },
        }
    }
}

pub struct LogsView {
    pub level: Level,
    pub groups: Vec<LogGroupDto>,
    pub streams: Vec<LogStreamDto>,
    /// The lines of `Events` or `Tail`, whichever is on screen.
    pub events: Vec<LogEventDto>,
    /// What was computed of each line, in step with `events`.
    pub event_rows: Vec<EventRow>,
    /// Positions of what the filter shows of the current level.
    pub filtered: Vec<usize>,
    pub filter: String,
    pub loading: bool,
    /// The search that was last sent to the server; answers to any other are dropped.
    pub last_query: Option<String>,
    /// The server holds more than was loaded.
    pub partial: bool,
    /// The group has more streams than were loaded.
    pub streams_partial: bool,
    pub tail_window: LogWindow,
    pub tail_preset: usize,
    /// Where the next page of lines starts, where there is one.
    pub next_page: Option<String>,
    /// Counts the fresh queries of the tail; answers to an earlier one are dropped.
    pub tail_gen: u64,
    /// Follow the tail at every tick.
    pub tail_live: bool,
    /// The query under way comes from a tick, so its answer must not move the reader.
    pub live_refresh: bool,
    pub default_preset: usize,
    /// One line in full, over the list.
    pub detail: Option<DetailPanel>,
    pub state: ListState,
}

/// The state of the view.
#[verifier::ext_equal]
pub struct LogsModel {
    pub level: Level<Text>,
    pub groups: Seq<LogGroupDto>,
    pub streams: Seq<LogStreamDto>,
    pub events: Seq<LogEventDto>,
    pub filter: Text,
    pub loading: bool,
    pub last_query: Option<Text>,
    pub partial: bool,
    pub streams_partial: bool,
    pub tail_window: LogWindow,
    pub tail_preset: usize,
    pub next_page: Option<Text>,
    pub tail_gen: u64,
    pub tail_live: bool,
    pub live_refresh: bool,
    pub default_preset: usize,
    pub panel: Option<DetailPanel<Text>>,
    pub selected: Option<usize>,
}

/// The first row from `k` on that shows the group with this name.
pub open spec fn row_named(groups: Seq<LogGroupDto>, rows: Seq<int>, name: Text, k: int) -> Option<int>
    decreases rows.len() - k,
{
    if k < 0 || k >= rows.len() {
        None
    } else if groups[rows[k]].name@ == name {
        Some(k)
    } else {
        row_named(groups, rows, name, k + 1)
    }
}

impl LogsModel {
    /// Positions of what the filter shows of the current level.
    pub open spec fn rows(self) -> Seq<int> {
        match self.level {
            Level::Groups => list::shown(self.groups, self.filter),
            Level::Streams { .. } => list::shown(self.streams, self.filter),
            Level::Events { .. } => lines_shown(self.events, self.filter),
            Level::Tail { .. } => lines_shown(self.events, self.filter),
        }
    }

    /// Position of the selected item.
    pub open spec fn row(self) -> Option<int> {
        match self.selected {
            Some(i) => if i < self.rows().len() { Some(self.rows()[i as int]) } else { None },
            None => None,
        }
    }

    /// Name of the selected group, at the level of the groups.
    pub open spec fn group_name(self) -> Option<Text> {
        match self.row() {
            Some(i) => Some(self.groups[i].name@),
            None => None,
        }
    }

    /// Name of the selected stream, at the level of the streams.
    pub open spec fn stream_name(self) -> Option<Text> {
        match self.row() {
            Some(i) => Some(self.streams[i].name@),
            None => None,
        }
    }

    /// The group that the level is about.
    pub open spec fn current_group(self) -> Option<Text> {
        match self.level {
            Level::Groups => self.group_name(),
            Level::Streams { group } => Some(group),
            Level::Events { group, .. } => Some(group),
            Level::Tail { group } => Some(group),
        }
    }

    pub open spec fn clamped(self) -> LogsModel {
        LogsModel { selected: list::clamped(self.selected, self.rows().len()), ..self }
    }

    pub open spec fn to_edge(self, last: bool) -> LogsModel {
        LogsModel { selected: list::edge(self.rows().len(), last), ..self }
    }

    /// Asks for the tail with the current window and pattern.  Without a token the query is fresh,
    /// and answers to earlier ones no longer count; with one it continues a page.
    pub open spec fn tail_asked(self, token: Option<Text>) -> (LogsModel, Seq<ActionText>) {
        match self.level {
            Level::Tail { group } => {
                let m = LogsModel {
                    tail_gen: if token is None { self.tail_gen.wrapping_add(1) } else { self.tail_gen },
                    live_refresh: false,
                    loading: true,
                    ..self
                };
                (
                    m,
                    seq![
                        ActionText::LoadLogTail {
                            group,
                            pattern: m.last_query,
                            window: m.tail_window,
                            token,
                            generation: m.tail_gen,
                        },
                    ],
                )
            },
            _ => (self, seq![]),
        }
    }

    /// The line in full, in a panel.
    pub open spec fn expanded(self) -> LogsModel {
        match self.row() {
            Some(i) => {
                let e = self.events[i];
                let when = match e.ts {
                    Some(ts) => util::instant_text(ts as int),
                    None => "—"@,
                };
                let title = match e.stream {
                    Some(s) => when + " · "@ + s@,
                    None => when,
                };
                LogsModel { panel: Some(DetailPanel { title, raw: e.message@, scroll: 0 }), ..self }
            },
            None => self,
        }
    }

    pub open spec fn drilled(self) -> (LogsModel, Seq<ActionText>) {
        match self.level {
            Level::Groups => match self.group_name() {
                Some(group) => (
                    LogsModel {
                        level: Level::Streams { group },
                        streams: Seq::empty(),
                        streams_partial: false,
                        loading: true,
                        selected: Some(0usize),
                        ..self
                    },
                    seq![ActionText::ClearFilter, ActionText::LoadLogStreams { group }],
                ),
                None => (self, seq![]),
            },
            Level::Streams { group } => match self.stream_name() {
                Some(stream) => (
                    LogsModel {
                        level: Level::Events { group, stream },
                        events: Seq::empty(),
                        next_page: None,
                        loading: true,
                        selected: Some(0usize),
                        ..self
                    },
                    seq![ActionText::ClearFilter, ActionText::LoadLogEvents { group, stream, token: None }],
                ),
                None => (self, seq![]),
            },
            _ => (self.expanded(), seq![]),
        }
    }

    /// The tail of a group, before anything of it is loaded.
    pub open spec fn tail_of(self, group: Text, window: LogWindow, preset: usize) -> LogsModel {
        LogsModel {
            level: Level::Tail { group },
            events: Seq::empty(),
            tail_window: window,
            tail_preset: preset,
            next_page: None,
            tail_live: false,
            last_query: None,
            selected: Some(0usize),
            ..self
        }
    }

    /// Opens the tail of the current group.
    pub open spec fn tail_opened(self, window: LogWindow, preset: usize) -> (LogsModel, Seq<ActionText>) {
        match self.current_group() {
            Some(group) => {
                let (m, asked) = self.tail_of(group, window, preset).tail_asked(None);
                (m, seq![ActionText::ClearFilter] + asked)
            },
            None => (self, seq![]),
        }
    }

    /// The tail emptied and asked for again.
    pub open spec fn tail_reloaded(self) -> (LogsModel, Seq<ActionText>) {
        LogsModel { events: Seq::empty(), next_page: None, selected: Some(0usize), ..self }.tail_asked(None)
    }

    /// The next or the previous preset window.
    pub open spec fn window_cycled(self, forward: bool) -> (LogsModel, Seq<ActionText>) {
        if self.level is Tail {
            let preset = (if forward { (self.tail_preset + 1) % 6 } else { (self.tail_preset + 5) % 6 }) as usize;
            LogsModel { tail_preset: preset, tail_window: LogWindow::Last(preset_length(preset as int)), ..self }
                .tail_reloaded()
        } else {
            (self, seq![])
        }
    }

    pub open spec fn live_toggled(self) -> (LogsModel, Seq<ActionText>) {
        if self.level is Tail {
            let m = LogsModel { tail_live: !self.tail_live, ..self };
            if m.tail_live { m.tail_asked(None) } else { (m, seq![]) }
        } else {
            (self, seq![])
        }
    }

    /// The next page of lines, where there is one: later ones of the tail, older ones of a stream.
    pub open spec fn more_asked(self) -> (LogsModel, Seq<ActionText>) {
        match (self.level, self.next_page) {
            (Level::Tail { .. }, Some(token)) => self.tail_asked(Some(token)),
            (Level::Events { group, stream }, Some(token)) => (
                LogsModel { loading: true, ..self },
                seq![ActionText::LoadLogEvents { group, stream, token: Some(token) }],
            ),
            _ => (self, seq![]),
        }
    }

    pub open spec fn backed(self) -> (LogsModel, Seq<ActionText>) {
        match self.level {
            Level::Events { group, .. } => (
                LogsModel { level: Level::Streams { group }, loading: false, selected: Some(0usize), ..self }.clamped(),
                seq![],
            ),
            Level::Groups => (self, seq![ActionText::Back]),
            _ => {
                let m = LogsModel {
                    level: Level::Groups,
                    tail_live: false,
                    last_query: None,
                    loading: self.last_query is Some,
                    selected: Some(0usize),
                    ..self
                }.clamped();
                (m, if self.last_query is Some { seq![ActionText::LoadLogGroups { query: None }] } else { seq![] })
            },
        }
    }

    pub open spec fn refreshed(self) -> (LogsModel, Seq<ActionText>) {
        let m = LogsModel { loading: true, ..self };
        match self.level {
            Level::Tail { .. } => self.tail_reloaded(),
            Level::Groups => (m, seq![ActionText::LoadLogGroups { query: self.last_query }]),
            Level::Streams { group } => (m, seq![ActionText::LoadLogStreams { group }]),
            Level::Events { group, stream } => (m, seq![ActionText::LoadLogEvents { group, stream, token: None }]),
        }
    }

    /// What `y` copies.
    pub open spec fn copied(self) -> Option<Text> {
        match self.panel {
            Some(p) => Some(p.raw),
            None => match (self.level, self.row()) {
                (_, None) => None,
                (Level::Groups, Some(i)) => match self.groups[i].arn {
                    Some(arn) => Some(arn@),
                    None => Some(self.groups[i].name@),
                },
                (Level::Streams { .. }, Some(i)) => Some(self.streams[i].name@),
                (_, Some(i)) => Some(self.events[i].message@),
            },
        }
    }

    pub open spec fn keyed(self, key: KeyEvent) -> (LogsModel, Seq<ActionText>) {
        if key.code == KeyCode::Char('y') {
            (
                self,
                match self.copied() {
                    Some(text) => seq![ActionText::CopyToClipboard { text }],
                    None => seq![],
                },
            )
        } else {
            match self.panel {
                Some(p) => (
                    LogsModel {
                        panel: if detail::closes(key.code) {
                            None
                        } else {
                            Some(DetailPanel { scroll: detail::scrolled(p.scroll, key.code), ..p })
                        },
                        ..self
                    },
                    seq![],
                ),
                None => self.keyed_in_list(key),
            }
        }
    }

    pub open spec fn keyed_in_list(self, key: KeyEvent) -> (LogsModel, Seq<ActionText>) {
        match key.code {
            KeyCode::Char('j') | KeyCode::Down => (
                LogsModel { selected: list::moved(self.selected, self.rows().len(), 1), ..self },
                seq![],
            ),
            KeyCode::Char('k') | KeyCode::Up => (
                LogsModel { selected: list::moved(self.selected, self.rows().len(), -1), ..self },
                seq![],
            ),
            KeyCode::Char('g') | KeyCode::Home => (self.to_edge(false), seq![]),
            KeyCode::Char('G') | KeyCode::End => (self.to_edge(true), seq![]),
            KeyCode::Enter => self.drilled(),
            KeyCode::Esc => self.backed(),
            KeyCode::Char('r') => self.refreshed(),
            KeyCode::Char('O') => (
                self,
                match self.current_group() {
                    Some(name) => seq![ActionText::OpenConsole { target: ConsoleTarget::LogGroup { name } }],
                    None => seq![],
                },
            ),
            KeyCode::Char('t') => self.tail_opened(
                LogWindow::Last(preset_length(self.default_preset as int)),
                self.default_preset,
            ),
            KeyCode::Char('w') => self.window_cycled(true),
            KeyCode::Char('W') => self.window_cycled(false),
            KeyCode::Char('o') => self.more_asked(),
            KeyCode::Char('f') => self.live_toggled(),
            _ => (self, seq![]),
        }
    }

    /// The group that was selected, selected again where the filter still shows it, and the first
    /// row otherwise.
    pub open spec fn reselected(self, name: Option<Text>) -> LogsModel {
        let row = match name {
            Some(n) => row_named(self.groups, self.rows(), n, 0),
            None => None,
        };
        LogsModel {
            selected: match row {
                Some(k) => Some(k as usize),
                None => Some(0usize),
            },
            ..self
        }.clamped()
    }

    /// The reader stands on the last row, or on none.
    pub open spec fn at_bottom(self) -> bool {
        match self.selected {
            Some(i) => i + 1 >= self.rows().len(),
            None => true,
        }
    }

    pub open spec fn informed(self, message: Message) -> LogsModel {
        match message {
            Message::LogGroupsLoaded { groups, query, more } => if query.deep_view() != self.last_query {
                self
            } else {
                let m = LogsModel { groups: groups@, partial: more, ..self };
                if self.level is Groups {
                    LogsModel { loading: false, ..m }.reselected(self.group_name())
                } else {
                    m
                }
            },
            Message::LogStreamsLoaded { group, streams, more } => if self.level == (Level::Streams { group: group@ }) {
                LogsModel { streams: streams@, streams_partial: more, loading: false, ..self }.clamped()
            } else {
                self
            },
            Message::LogEventsLoaded { group, stream, events, next_token, append } => if self.level == (Level::Events {
                group: group@,
                stream: stream@,
            }) {
                let m = LogsModel {
                    events: if append { events@ + self.events } else { events@ },
                    next_page: next_token.deep_view(),
                    partial: next_token is Some,
                    loading: false,
                    ..self
                };
                if append { m.pushed_down(self) } else { m.to_edge(true) }
            } else {
                self
            },
            Message::LogTailLoaded { group, events, next_token, append, generation } => if generation == self.tail_gen
                && self.level == (Level::Tail { group: group@ }) {
                let m = LogsModel {
                    events: if append { self.events + events@ } else { events@ },
                    next_page: next_token.deep_view(),
                    partial: next_token is Some,
                    loading: false,
                    live_refresh: false,
                    ..self
                };
                if append {
                    m
                } else if self.live_refresh && !self.at_bottom() {
                    m.held(self.selected)
                } else {
                    m.to_edge(true)
                }
            } else {
                self
            },
            Message::Error { .. } => LogsModel { loading: false, ..self },
            _ => self,
        }
    }

    /// The row that was selected, or the last one where the list got shorter.
    pub open spec fn held(self, selected: Option<usize>) -> LogsModel {
        let len = self.rows().len();
        LogsModel {
            selected: if len == 0 {
                None
            } else if list::row_of(selected) >= len {
                Some((len - 1) as usize)
            } else {
                Some(list::row_of(selected) as usize)
            },
            ..self
        }
    }

    /// The line that was selected, now further down by as many rows as came before it.
    pub open spec fn pushed_down(self, before: LogsModel) -> LogsModel {
        let grown = self.rows().len() - before.rows().len();
        LogsModel {
            selected: match before.selected {
                Some(i) => if i + grown <= usize::MAX { Some((i + grown) as usize) } else { Some(i) },
                None => None,
            },
            ..self
        }.clamped()
    }

    pub open spec fn activated(self) -> LogsModel {
        LogsModel {
            level: Level::Groups,
            streams: Seq::empty(),
            events: Seq::empty(),
            loading: true,
            last_query: None,
            partial: false,
            tail_live: false,
            next_page: None,
            tail_preset: self.default_preset,
            tail_window: LogWindow::Last(preset_length(self.default_preset as int)),
            selected: Some(0usize),
            ..self
        }
    }

    pub open spec fn searched(self, query: Text) -> (LogsModel, Seq<ActionText>) {
        let pattern = if query.len() == 0 { None } else { Some(query) };
        match self.level {
            Level::Groups => (
                LogsModel { last_query: pattern, loading: true, ..self },
                seq![ActionText::LoadLogGroups { query: pattern }],
            ),
            Level::Tail { .. } => LogsModel { last_query: pattern, ..self }.tail_reloaded(),
            _ => (self, seq![]),
        }
    }

    pub open spec fn opened(self, context: ViewContext<Text>) -> (LogsModel, Seq<ActionText>) {
        match context {
            ViewContext::LogGroupTail { group, window } => self.tail_of(group, window, self.default_preset).tail_asked(
                None,
            ),
            ViewContext::Favorite { key } => (
                LogsModel {
                    level: Level::Streams { group: key },
                    streams: Seq::empty(),
                    streams_partial: false,
                    loading: true,
                    selected: Some(0usize),
                    ..self
                },
                seq![ActionText::LoadLogStreams { group: key }],
            ),
        }
    }

    pub open spec fn title(self) -> Text {
        match self.level {
            Level::Groups => "logs"@,
            Level::Streams { group } => "logs / "@ + group,
            Level::Events { group, stream } => "logs / "@ + group + " / "@ + stream,
            Level::Tail { group } => "logs / "@ + group + " (tail)"@ + (if self.tail_live { " [LIVE]"@ } else { ""@ }),
        }
    }

    pub open spec fn hints(self) -> Seq<(Text, Text)> {
        if self.panel is Some {
            detail::panel_hints()
        } else {
            match self.level {
                Level::Tail { .. } => seq![
                    ("w"@, "ventana"@),
                    ("o"@, "más"@),
                    ("f"@, if self.tail_live { "detener"@ } else { "tail -f"@ }),
                    (":since"@, "rango"@),
                ],
                Level::Events { .. } => seq![("y"@, "copiar línea"@), ("O"@, "consola"@)],
                _ => seq![("t"@, "logs por tiempo"@), ("y"@, "copiar"@), ("O"@, "consola"@)],
            }
        }
    }

    /// The window of the tail, as captions show it.
    pub open spec fn window_label(self) -> Text {
        match self.tail_window {
            LogWindow::Last(ms) => window_length_text(ms as int),
            LogWindow::Range { from, to } => match to {
                Some(t) => short_instant(from as int) + "→"@ + short_instant(t as int),
                None => short_instant(from as int) + "→ahora"@,
            },
        }
    }

    /// Caption of the list.
    pub open spec fn body_title(self) -> Text {
        let (kind, total) = match self.level {
            Level::Groups => ("log groups"@, self.groups.len()),
            Level::Streams { .. } => ("streams"@, self.streams.len()),
            Level::Events { .. } => ("eventos"@, self.events.len()),
            Level::Tail { .. } => ("líneas"@, self.events.len()),
        };
        let window = if self.level is Tail {
            " ventana "@ + self.window_label() + " · "@
        } else {
            " "@
        };
        let partial = match self.level {
            Level::Groups => if self.partial { " · parcial (/ busca server-side)"@ } else { ""@ },
            Level::Events { .. } => if self.partial { " · parcial (más viejas arriba)"@ } else { ""@ },
            Level::Tail { .. } => if self.partial { " · parcial · o: cargar más"@ } else { ""@ },
            Level::Streams { .. } => if self.streams_partial { " · parcial"@ } else { ""@ },
        };
        if self.filter.len() == 0 {
            let cue = match self.level {
                Level::Groups => " · t: logs por tiempo"@,
                Level::Streams { .. } => " · t: todos los streams por tiempo"@,
                _ => ""@,
            };
            window + text::decimal(total) + " "@ + kind + partial + cue + " "@
        } else {
            window + text::decimal(self.rows().len()) + "/"@ + text::decimal(total) + " "@ + kind + " · filtro: "@
                + self.filter + partial + " "@
        }
    }
}

/// What was computed of each line is in step with the lines.
pub open spec fn in_step(events: Seq<LogEventDto>, rows: Seq<EventRow>) -> bool {
    &&& rows.len() == events.len()
    &&& forall|i: int| 0 <= i < rows.len() ==> (#[trigger] rows[i]).deep_view() == event_row(events[i])
}

/// The rows of a list of lines.
fn rows_of(events: &Vec<LogEventDto>) -> (r: Vec<EventRow>)
    ensures
        in_step(events@, r@),
{
    let mut out: Vec<EventRow> = Vec::new();
    let mut i: usize = 0;
    while i < events.len()
        invariant
            i <= events@.len(),
            out@.len() == i,
            forall|k: int| 0 <= k < i ==> (#[trigger] out@[k]).deep_view() == event_row(events@[k]),
        decreases events@.len() - i,
    {
        out.push(EventRow::new(&events[i]));
        i = i + 1;
    }
    out
}

fn same_query(a: &Option<String>, b: &Option<String>) -> (r: bool)
    ensures
        r == (a.deep_view() == b.deep_view()),
{
    match (a, b) {
        (Some(x), Some(y)) => *x == *y,
        (None, None) => true,
        _ => false,
    }
}

impl LogsView {
    /// Consistent but for the positions that the filter shows.
    pub open spec fn synced(&self) -> bool {
        &&& in_step(self.events@, self.event_rows@)
        &&& self.tail_preset < PRESETS
        &&& self.default_preset < PRESETS
    }

    pub fn new() -> (r: Self)
        ensures
            r.wf(),
            r.model() == (LogsModel {
                level: Level::Groups,
                groups: Seq::empty(),
                streams: Seq::empty(),
                events: Seq::empty(),
                filter: Seq::empty(),
                loading: false,
                last_query: None,
                partial: false,
                streams_partial: false,
                tail_window: LogWindow::Last(preset_length(DEFAULT_PRESET as int)),
                tail_preset: DEFAULT_PRESET,
                next_page: None,
                tail_gen: 0,
                tail_live: false,
                live_refresh: false,
                default_preset: DEFAULT_PRESET,
                panel: None,
                selected: Some(0usize),
            }),
    {
        let v = LogsView {
            level: Level::Groups,
            groups: Vec::new(),
            streams: Vec::new(),
            events: Vec::new(),
            event_rows: Vec::new(),
            filtered: Vec::new(),
            filter: String::new(),
            loading: false,
            last_query: None,
            partial: false,
            streams_partial: false,
            tail_window: LogWindow::Last(preset_millis(DEFAULT_PRESET)),
            tail_preset: DEFAULT_PRESET,
            next_page: None,
            tail_gen: 0,
            tail_live: false,
            live_refresh: false,
            default_preset: DEFAULT_PRESET,
            detail: None,
            state: ListState::new(Some(0)),
        };
        proof {
            assert(util::positions(v.filtered@) =~= v.model().rows());
        }
        v
    }

    /// Opens tails with the preset of this label; other labels are ignored.
    pub fn with_default_window(self, spec: &str) -> (r: Self)
        requires
            self.wf(),
        ensures
            r.wf(),
            r.model() == (match preset_named(spec@) {
                Some(i) => LogsModel {
                    default_preset: i,
                    tail_preset: i,
                    tail_window: LogWindow::Last(preset_length(i as int)),
                    ..self.model()
                },
                None => self.model(),
            }),
    {
        let mut v = self;
        match preset_of(spec) {
            Some(i) => {
                v.default_preset = i;
                v.tail_preset = i;
                v.tail_window = LogWindow::Last(preset_millis(i));
            },
            None => {},
        }
        v
    }

    /// Positions of the lines that match the filter.
    pub fn filtered_event_indices(&self) -> (r: Vec<usize>)
        requires
            self.synced(),
        ensures
            util::positions(r@) == lines_shown(self.events@, self.filter@),
    {
        let needle = text::to_lowercase(self.filter.as_str());
        let all = self.filter.as_str().is_empty();
        let mut out: Vec<usize> = Vec::new();
        let mut i: usize = 0;
        while i < self.event_rows.len()
            invariant
                i <= self.event_rows@.len(),
                in_step(self.events@, self.event_rows@),
                needle@ == text::lowercase(self.filter@),
                all == (self.filter@.len() == 0),
                util::positions(out@) == lines_upto(self.events@, self.filter@, i as int),
            decreases self.event_rows@.len() - i,
        {
            proof {
                assert(self.event_rows@[i as int].deep_view() == event_row(self.events@[i as int]));
            }
            if all || text::contains(self.event_rows[i].lc.as_str(), needle.as_str()) {
                let ghost before = out@;
                out.push(i);
                proof {
                    assert(util::positions(out@) =~= util::positions(before).push(i as int));
                }
            }
            i = i + 1;
        }
        out
    }

    /// Positions of the groups that the filter shows.
    pub fn filtered_group_indices(&self) -> (r: Vec<usize>)
        ensures
            util::positions(r@) == list::shown(self.groups@, self.filter@),
    {
        list::filtered(&self.groups, self.filter.as_str())
    }

    fn recompute_filtered(&mut self)
        requires
            old(self).synced(),
        ensures
            final(self).wf(),
            final(self).model() == old(self).model(),
    {
        let filtered = match self.level {
            Level::Groups => self.filtered_group_indices(),
            Level::Streams { .. } => list::filtered(&self.streams, self.filter.as_str()),
            Level::Events { .. } | Level::Tail { .. } => self.filtered_event_indices(),
        };
        self.filtered = filtered;
    }

    fn set_events(&mut self, events: Vec<LogEventDto>)
        requires
            old(self).synced(),
        ensures
            final(self).wf(),
            final(self).model() == (LogsModel { events: events@, ..old(self).model() }),
    {
        self.event_rows = rows_of(&events);
        self.events = events;
        self.recompute_filtered();
    }

    fn extend_events(&mut self, events: Vec<LogEventDto>)
        requires
            old(self).synced(),
        ensures
            final(self).wf(),
            final(self).model() == (LogsModel { events: old(self).events@ + events@, ..old(self).model() }),
    {
        let mut rows = rows_of(&events);
        let mut more = events;
        self.event_rows.append(&mut rows);
        self.events.append(&mut more);
        self.recompute_filtered();
    }

    /// Older lines go before those already there.
    fn prepend_events(&mut self, events: Vec<LogEventDto>)
        requires
            old(self).synced(),
        ensures
            final(self).wf(),
            final(self).model() == (LogsModel { events: events@ + old(self).events@, ..old(self).model() }),
    {
        let mut rows = rows_of(&events);
        let mut all = events;
        rows.append(&mut self.event_rows);
        all.append(&mut self.events);
        self.event_rows = rows;
        self.events = all;
        self.recompute_filtered();
    }

    /// How many rows the filter shows.
    pub fn visible_len(&self) -> (r: usize)
        requires
            self.wf(),
        ensures
            r == self.model().rows().len(),
    {
        proof {
            assert(util::positions(self.filtered@).len() == self.filtered@.len());
        }
        self.filtered.len()
    }

    /// Position of the selected item.
    fn row(&self) -> (r: Option<usize>)
        requires
            self.wf(),
        ensures
            match r {
                Some(i) => self.model().row() == Some(i as int),
                None => self.model().row() is None,
            },
            r matches Some(i) ==> match self.level {
                Level::Groups => i < self.groups@.len(),
                Level::Streams { .. } => i < self.streams@.len(),
                _ => i < self.events@.len(),
            },
    {
        match self.state.selected {
            Some(sel) => {
                if sel < self.visible_len() {
                    proof {
                        assert(util::positions(self.filtered@)[sel as int] == self.filtered@[sel as int]);
                        list::law_shown_positions(self.groups@, self.filter@);
                        list::law_shown_positions(self.streams@, self.filter@);
                        law_lines_shown(self.events@, self.filter@, self.events@.len() as int);
                    }
                    Some(self.filtered[sel])
                } else {
                    None
                }
            },
            None => None,
        }
    }

    /// Name of the selected group.
    pub fn selected_group_name(&self) -> (r: Option<String>)
        requires
            self.wf(),
            self.level is Groups,
        ensures
            r.deep_view() == self.model().group_name(),
    {
        match self.row() {
            Some(i) => Some(self.groups[i].name.clone()),
            None => None,
        }
    }

    fn current_group(&self) -> (r: Option<String>)
        requires
            self.wf(),
        ensures
            r.deep_view() == self.model().current_group(),
    {
        match &self.level {
            Level::Groups => self.selected_group_name(),
            Level::Streams { group } => Some(group.clone()),
            Level::Tail { group } => Some(group.clone()),
            Level::Events { group, .. } => Some(group.clone()),
        }
    }

    fn clamp_selection(&mut self)
        requires
            old(self).wf(),
        ensures
            final(self).wf(),
            final(self).model() == old(self).model().clamped(),
    {
        let len: usize = self.visible_len();
        self.state.clamp(len);
    }

    fn select_edge(&mut self, last: bool)
        requires
            old(self).wf(),
        ensures
            final(self).wf(),
            final(self).model() == old(self).model().to_edge(last),
    {
        let len: usize = self.visible_len();
        self.state.to_edge(len, last);
    }

    fn tail_query(&mut self, token: Option<String>) -> (r: Vec<Action>)
        requires
            old(self).wf(),
        ensures
            final(self).wf(),
            (final(self).model(), r.deep_view()) == old(self).model().tail_asked(token.deep_view()),
    {
        let group = match &self.level {
            Level::Tail { group } => group.clone(),
            _ => return nothing(),
        };
        if token.is_none() {
            self.tail_gen = self.tail_gen.wrapping_add(1);
        }
        self.live_refresh = false;
        self.loading = true;
        vec![
            Action::LoadLogTail {
                group,
                pattern: self.last_query.clone(),
                window: self.tail_window,
                token,
                generation: self.tail_gen,
            },
        ]
    }

    fn open_detail(&mut self)
        requires
            old(self).wf(),
            old(self).level is Events || old(self).level is Tail,
        ensures
            final(self).wf(),
            final(self).model() == old(self).model().expanded(),
    {
        let panel = match self.row() {
            Some(i) => {
                let e = &self.events[i];
                let mut title = match e.ts {
                    Some(ts) => fmt_epoch_millis(ts),
                    None => "—".to_string(),
                };
                match &e.stream {
                    Some(s) => {
                        title.append(" · ");
                        title.append(s.as_str());
                    },
                    None => {},
                }
                DetailPanel::new(title.as_str(), e.message.as_str())
            },
            None => return,
        };
        self.detail = Some(panel);
    }

    fn drill(&mut self) -> (r: Vec<Action>)
        requires
            old(self).wf(),
        ensures
            final(self).wf(),
            (final(self).model(), r.deep_view()) == old(self).model().drilled(),
    {
        match &self.level {
            Level::Groups => match self.selected_group_name() {
                Some(group) => {
                    self.level = Level::Streams { group: group.clone() };
                    self.streams = Vec::new();
                    self.streams_partial = false;
                    self.recompute_filtered();
                    self.loading = true;
                    self.state.select(Some(0));
                    vec![Action::ClearFilter, Action::LoadLogStreams { group }]
                },
                None => nothing(),
            },
            Level::Streams { group } => {
                let group = group.clone();
                match self.row() {
                    Some(i) => {
                        let stream = self.streams[i].name.clone();
                        self.level = Level::Events { group: group.clone(), stream: stream.clone() };
                        self.set_events(Vec::new());
                        self.next_page = None;
                        self.loading = true;
                        self.state.select(Some(0));
                        vec![Action::ClearFilter, Action::LoadLogEvents { group, stream, token: None }]
                    },
                    None => nothing(),
                }
            },
            _ => {
                self.open_detail();
                nothing()
            },
        }
    }

    fn tail_reload(&mut self) -> (r: Vec<Action>)
        requires
            old(self).wf(),
        ensures
            final(self).wf(),
            (final(self).model(), r.deep_view()) == old(self).model().tail_reloaded(),
    {
        self.set_events(Vec::new());
        self.next_page = None;
        self.state.select(Some(0));
        self.tail_query(None)
    }

    fn enter_tail(&mut self, group: String, window: LogWindow, preset: usize)
        requires
            old(self).wf(),
            preset < PRESETS,
        ensures
            final(self).wf(),
            final(self).model() == old(self).model().tail_of(group@, window, preset),
    {
        self.level = Level::Tail { group };
        self.set_events(Vec::new());
        self.tail_window = window;
        self.tail_preset = preset;
        self.next_page = None;
        self.tail_live = false;
        self.last_query = None;
        self.state.select(Some(0));
    }

    fn open_tail(&mut self, window: LogWindow, preset: usize) -> (r: Vec<Action>)
        requires
            old(self).wf(),
            preset < PRESETS,
        ensures
            final(self).wf(),
            (final(self).model(), r.deep_view()) == old(self).model().tail_opened(window, preset),
    {
        match self.current_group() {
            Some(group) => {
                self.enter_tail(group, window, preset);
                let mut actions: Vec<Action> = vec![Action::ClearFilter];
                let mut asked = self.tail_query(None);
                let ghost first = actions@;
                let ghost second = asked@;
                actions.append(&mut asked);
                proof {
                    assert(actions.deep_view() =~= seq![ActionText::ClearFilter] + Seq::new(
                        second.len(),
                        |i: int| second[i].deep_view(),
                    ));
                }
                actions
            },
            None => nothing(),
        }
    }

    fn cycle_window(&mut self, forward: bool) -> (r: Vec<Action>)
        requires
            old(self).wf(),
        ensures
            final(self).wf(),
            (final(self).model(), r.deep_view()) == old(self).model().window_cycled(forward),
    {
        match self.level {
            Level::Tail { .. } => {
                self.tail_preset = if forward { (self.tail_preset + 1) % 6 } else { (self.tail_preset + 5) % 6 };
                self.tail_window = LogWindow::Last(preset_millis(self.tail_preset));
                self.tail_reload()
            },
            _ => nothing(),
        }
    }

    fn toggle_live(&mut self) -> (r: Vec<Action>)
        requires
            old(self).wf(),
        ensures
            final(self).wf(),
            (final(self).model(), r.deep_view()) == old(self).model().live_toggled(),
    {
        match self.level {
            Level::Tail { .. } => {
                self.tail_live = !self.tail_live;
                if self.tail_live {
                    self.tail_query(None)
                } else {
                    nothing()
                }
            },
            _ => nothing(),
        }
    }

    fn load_more(&mut self) -> (r: Vec<Action>)
        requires
            old(self).wf(),
        ensures
            final(self).wf(),
            (final(self).model(), r.deep_view()) == old(self).model().more_asked(),
    {
        match (&self.level, self.next_page.clone()) {
            (Level::Tail { .. }, Some(token)) => self.tail_query(Some(token)),
            (Level::Events { group, stream }, Some(token)) => {
                let group = group.clone();
                let stream = stream.clone();
                self.loading = true;
                vec![Action::LoadLogEvents { group, stream, token: Some(token) }]
            },
            _ => nothing(),
        }
    }

    fn back(&mut self) -> (r: Vec<Action>)
        requires
            old(self).wf(),
        ensures
            final(self).wf(),
            (final(self).model(), r.deep_view()) == old(self).model().backed(),
    {
        match &self.level {
            Level::Events { group, .. } => {
                let group = group.clone();
                self.level = Level::Streams { group };
                self.recompute_filtered();
                self.state.select(Some(0));
                self.clamp_selection();
                self.loading = false;
                nothing()
            },
            Level::Groups => vec![Action::Back],
            _ => {
                self.level = Level::Groups;
                self.tail_live = false;
                self.recompute_filtered();
                self.state.select(Some(0));
                self.clamp_selection();
                let searched = self.last_query.is_some();
                self.last_query = None;
                self.loading = searched;
                if searched {
                    vec![Action::LoadLogGroups { query: None }]
                } else {
                    nothing()
                }
            },
        }
    }

    fn refresh(&mut self) -> (r: Vec<Action>)
        requires
            old(self).wf(),
        ensures
            final(self).wf(),
            (final(self).model(), r.deep_view()) == old(self).model().refreshed(),
    {
        match &self.level {
            Level::Tail { .. } => self.tail_reload(),
            Level::Groups => {
                self.loading = true;
                vec![Action::LoadLogGroups { query: self.last_query.clone() }]
            },
            Level::Streams { group } => {
                let group = group.clone();
                self.loading = true;
                vec![Action::LoadLogStreams { group }]
            },
            Level::Events { group, stream } => {
                let group = group.clone();
                let stream = stream.clone();
                self.loading = true;
                vec![Action::LoadLogEvents { group, stream, token: None }]
            },
        }
    }

    fn copy_text(&self) -> (r: Option<String>)
        requires
            self.wf(),
        ensures
            r.deep_view() == self.model().copied(),
    {
        match &self.detail {
            Some(p) => Some(p.content().to_string()),
            None => match self.row() {
                None => None,
                Some(i) => match &self.level {
                    Level::Groups => match &self.groups[i].arn {
                        Some(arn) => Some(arn.clone()),
                        None => Some(self.groups[i].name.clone()),
                    },
                    Level::Streams { .. } => Some(self.streams[i].name.clone()),
                    _ => Some(self.events[i].message.clone()),
                },
            },
        }
    }

    fn list_key(&mut self, key: KeyEvent) -> (r: Vec<Action>)
        requires
            old(self).wf(),
        ensures
            final(self).wf(),
            (final(self).model(), r.deep_view()) == old(self).model().keyed_in_list(key),
    {
        match key.code {
            KeyCode::Char('j') | KeyCode::Down => {
                let len: usize = self.visible_len();
                self.state.down(len);
                nothing()
            },
            KeyCode::Char('k') | KeyCode::Up => {
                let len: usize = self.visible_len();
                self.state.up(len);
                nothing()
            },
            KeyCode::Char('g') | KeyCode::Home => {
                self.select_edge(false);
                nothing()
            },
            KeyCode::Char('G') | KeyCode::End => {
                self.select_edge(true);
                nothing()
            },
            KeyCode::Enter => self.drill(),
            KeyCode::Esc => self.back(),
            KeyCode::Char('r') => self.refresh(),
            KeyCode::Char('O') => match self.current_group() {
                Some(name) => vec![Action::OpenConsole { target: ConsoleTarget::LogGroup { name } }],
                None => nothing(),
            },
            KeyCode::Char('t') => {
                let preset: usize = self.default_preset;
                self.open_tail(LogWindow::Last(preset_millis(preset)), preset)
            },
            KeyCode::Char('w') => self.cycle_window(true),
            KeyCode::Char('W') => self.cycle_window(false),
            KeyCode::Char('o') => self.load_more(),
            KeyCode::Char('f') => self.toggle_live(),
            _ => nothing(),
        }
    }

    fn restore_selection(&mut self, name: &Option<String>)
        requires
            old(self).wf(),
            old(self).level is Groups,
        ensures
            final(self).wf(),
            final(self).model() == old(self).model().reselected(name.deep_view()),
    {
        let ghost rows = self.model().rows();
        let mut found: Option<usize> = None;
        match name {
            Some(n) => {
                let mut k: usize = 0;
                while k < self.filtered.len() && found.is_none()
                    invariant
                        k <= self.filtered@.len(),
                        self.wf(),
                        self.level is Groups,
                        self.model() == old(self).model(),
                        rows == self.model().rows(),
                        rows.len() == self.filtered@.len(),
                        match found {
                            Some(f) => row_named(self.groups@, rows, n@, 0) == Some(f as int),
                            None => row_named(self.groups@, rows, n@, k as int) == row_named(self.groups@, rows, n@, 0),
                        },
                    decreases (if found is None { 1int } else { 0int }), self.filtered@.len() - k,
                {
                    proof {
                        assert(util::positions(self.filtered@)[k as int] == self.filtered@[k as int]);
                        list::law_shown_positions(self.groups@, self.filter@);
                    }
                    if self.groups[self.filtered[k]].name == *n {
                        found = Some(k);
                    } else {
                        k = k + 1;
                    }
                }
            },
            None => {},
        }
        match found {
            Some(k) => {
                self.state.select(Some(k));
            },
            None => {
                self.state.select(Some(0));
            },
        }
        self.clamp_selection();
    }

    /// Caption of the window of the tail.
    fn window_label(&self) -> (r: String)
        ensures
            r@ == self.model().window_label(),
    {
        match self.tail_window {
            LogWindow::Last(ms) => fmt_window_duration(ms),
            LogWindow::Range { from, to } => {
                let mut out = short_dt(from);
                match to {
                    Some(t) => {
                        out.append("→");
                        out.append(short_dt(t).as_str());
                    },
                    None => {
                        out.append("→ahora");
                    },
                }
                out
            },
        }
    }

    /// Caption of the list.
    pub fn body_title(&self) -> (r: String)
        requires
            self.wf(),
        ensures
            r@ == self.model().body_title(),
    {
        let (kind, total): (&'static str, usize) = match self.level {
            Level::Groups => ("log groups", self.groups.len()),
            Level::Streams { .. } => ("streams", self.streams.len()),
            Level::Events { .. } => ("eventos", self.events.len()),
            Level::Tail { .. } => ("líneas", self.events.len()),
        };
        let partial: &'static str = match self.level {
            Level::Groups => if self.partial { " · parcial (/ busca server-side)" } else { "" },
            Level::Events { .. } => if self.partial { " · parcial (más viejas arriba)" } else { "" },
            Level::Tail { .. } => if self.partial { " · parcial · o: cargar más" } else { "" },
            Level::Streams { .. } => if self.streams_partial { " · parcial" } else { "" },
        };
        let cue: &'static str = match self.level {
            Level::Groups => " · t: logs por tiempo",
            Level::Streams { .. } => " · t: todos los streams por tiempo",
            _ => "",
        };
        let mut out = match self.level {
            Level::Tail { .. } => {
                let mut window = " ventana ".to_string();
                window.append(self.window_label().as_str());
                window.append(" · ");
                window
            },
            _ => " ".to_string(),
        };
        if !self.filter.as_str().is_empty() {
            out.append(text::dec_text(self.visible_len() as u64).as_str());
            out.append("/");
            out.append(text::dec_text(total as u64).as_str());
            out.append(" ");
            out.append(kind);
            out.append(" · filtro: ");
            out.append(self.filter.as_str());
            out.append(partial);
            out.append(" ");
        } else {
            out.append(text::dec_text(total as u64).as_str());
            out.append(" ");
            out.append(kind);
            out.append(partial);
            out.append(cue);
            out.append(" ");
        }
        out
    }

    /// What the list says where it is empty, which for lines is no failure.
    pub fn empty_line(&self) -> (r: &'static str)
        ensures
            r@ == list::blank_text(
                self.loading,
                self.filter@,
                match self.level {
                    Level::Events { .. } => "(este stream no tiene eventos)"@,
                    Level::Tail { .. } => "(sin eventos en la última hora — prueba otro group o `r`)"@,
                    _ => "(sin resultados)"@,
                },
            ),
    {
        let otherwise = match &self.level {
            Level::Events { .. } => "(este stream no tiene eventos)",
            Level::Tail { .. } => "(sin eventos en la última hora — prueba otro group o `r`)",
            _ => "(sin resultados)",
        };
        list::blank_msg(self.loading, self.filter.as_str(), otherwise)
    }

    fn on_tail(&mut self, events: &Vec<LogEventDto>, next_token: &Option<String>, append: bool)
        requires
            old(self).wf(),
            old(self).level is Tail,
        ensures
            final(self).wf(),
            final(self).model() == ({
                let before = old(self).model();
                let m = LogsModel {
                    events: if append { before.events + events@ } else { events@ },
                    next_page: next_token.deep_view(),
                    partial: next_token is Some,
                    loading: false,
                    live_refresh: false,
                    ..before
                };
                if append {
                    m
                } else if before.live_refresh && !before.at_bottom() {
                    m.held(before.selected)
                } else {
                    m.to_edge(true)
                }
            }),
    {
        let selected = self.state.selected;
        let hold = self.live_refresh && (match selected {
            Some(i) => i < self.visible_len() && self.visible_len() - i > 1,
            None => false,
        });
        let loaded = events.clone();
        assert(loaded@ =~= events@);
        if append {
            self.extend_events(loaded);
        } else {
            self.set_events(loaded);
        }
        self.next_page = next_token.clone();
        self.partial = next_token.is_some();
        self.loading = false;
        self.live_refresh = false;
        if !append {
            if hold {
                let len: usize = self.visible_len();
                let row: usize = match selected {
                    Some(i) => i,
                    None => 0,
                };
                if len == 0 {
                    self.state.select(None);
                } else if row >= len {
                    self.state.select(Some(len - 1));
                } else {
                    self.state.select(Some(row));
                }
            } else {
                self.select_edge(true);
            }
        }
    }

    fn on_events(&mut self, events: &Vec<LogEventDto>, next_token: &Option<String>, append: bool)
        requires
            old(self).wf(),
            old(self).level is Events,
        ensures
            final(self).wf(),
            final(self).model() == ({
                let before = old(self).model();
                let m = LogsModel {
                    events: if append { events@ + before.events } else { events@ },
                    next_page: next_token.deep_view(),
                    partial: next_token is Some,
                    loading: false,
                    ..before
                };
                if append { m.pushed_down(before) } else { m.to_edge(true) }
            }),
    {
        let before_len: usize = self.visible_len();
        let loaded = events.clone();
        assert(loaded@ =~= events@);
        self.next_page = next_token.clone();
        self.partial = next_token.is_some();
        self.loading = false;
        if append {
            let ghost shorter = self.events@;
            self.prepend_events(loaded);
            proof {
                law_older_lines_go_first(events@, shorter, self.filter@);
            }
            let grown: usize = self.visible_len() - before_len;
            match self.state.selected {
                Some(i) => {
                    if i <= usize::MAX - grown {
                        self.state.select(Some(i + grown));
                    }
                },
                None => {},
            }
            self.clamp_selection();
        } else {
            self.set_events(loaded);
            self.select_edge(true);
        }
    }
}

/// Positions moved down by `by`.
pub open spec fn shifted(rows: Seq<int>, by: int) -> Seq<int> {
    rows.map_values(|i: int| i + by)
}

/// What a filter shows of lines put before others: what it shows of each, one after the other.
pub proof fn law_older_lines_go_first(older: Seq<LogEventDto>, newer: Seq<LogEventDto>, filter: Text)
    ensures
        lines_shown(older + newer, filter) == lines_shown(older, filter) + shifted(
            lines_shown(newer, filter),
            older.len() as int,
        ),
{
    lemma_lines_upto_suffix(older, newer, filter, newer.len() as int);
}

proof fn lemma_lines_upto_suffix(older: Seq<LogEventDto>, newer: Seq<LogEventDto>, filter: Text, n: int)
    requires
        0 <= n <= newer.len(),
    ensures
        lines_upto(older + newer, filter, older.len() + n) == lines_shown(older, filter) + shifted(
            lines_upto(newer, filter, n),
            older.len() as int,
        ),
    decreases n,
{
    let all = older + newer;
    let by = older.len() as int;
    if n == 0 {
        lemma_lines_upto_prefix(older, newer, filter, by);
        assert(shifted(Seq::empty(), by) =~= Seq::empty());
    } else {
        lemma_lines_upto_suffix(older, newer, filter, n - 1);
        assert(all[by + n - 1] == newer[n - 1]);
        let before = lines_upto(newer, filter, n - 1);
        if line_matches(newer[n - 1], filter) {
            assert(shifted(before.push(n - 1), by) =~= shifted(before, by).push(by + n - 1));
            assert((lines_shown(older, filter) + shifted(before, by)).push(by + n - 1) =~= lines_shown(older, filter)
                + shifted(before, by).push(by + n - 1));
        }
    }
}

proof fn lemma_lines_upto_prefix(older: Seq<LogEventDto>, newer: Seq<LogEventDto>, filter: Text, n: int)
    requires
        0 <= n <= older.len(),
    ensures
        lines_upto(older + newer, filter, n) == lines_upto(older, filter, n),
    decreases n,
{
    if n > 0 {
        lemma_lines_upto_prefix(older, newer, filter, n - 1);
        assert((older + newer)[n - 1] == older[n - 1]);
    }
}

impl DeckView for LogsView {
    type Model = LogsModel;

    open spec fn model(&self) -> LogsModel {
        LogsModel {
            level: self.level.deep_view(),
            groups: self.groups@,
            streams: self.streams@,
            events: self.events@,
            filter: self.filter@,
            loading: self.loading,
            last_query: self.last_query.deep_view(),
            partial: self.partial,
            streams_partial: self.streams_partial,
            tail_window: self.tail_window,
            tail_preset: self.tail_preset,
            next_page: self.next_page.deep_view(),
            tail_gen: self.tail_gen,
            tail_live: self.tail_live,
            live_refresh: self.live_refresh,
            default_preset: self.default_preset,
            panel: self.detail.deep_view(),
            selected: self.state.selected,
        }
    }

    /// What was computed of the lines and of the filter is up to date.
    open spec fn wf(&self) -> bool {
        &&& self.synced()
        &&& util::positions(self.filtered@) == self.model().rows()
    }

    open spec fn id_text(m: LogsModel) -> Text {
        "logs"@
    }

    open spec fn description_text(m: LogsModel) -> Text {
        "CloudWatch Logs — groups, streams, eventos y tail"@
    }

    open spec fn title_text(m: LogsModel) -> Text {
        m.title()
    }

    open spec fn activated(m: LogsModel) -> (LogsModel, Seq<ActionText>) {
        (m.activated(), seq![ActionText::LoadLogGroups { query: None }])
    }

    open spec fn opened(m: LogsModel, context: ViewContext<Text>) -> (LogsModel, Seq<ActionText>) {
        m.opened(context)
    }

    open spec fn keyed(m: LogsModel, key: KeyEvent) -> (LogsModel, Seq<ActionText>) {
        m.keyed(key)
    }

    open spec fn informed(m: LogsModel, message: Message) -> LogsModel {
        m.informed(message)
    }

    open spec fn narrowed(m: LogsModel, filter: Text) -> LogsModel {
        LogsModel { filter, selected: Some(0usize), ..m }.clamped()
    }

    open spec fn searched(m: LogsModel, query: Text) -> (LogsModel, Seq<ActionText>) {
        m.searched(query)
    }

    open spec fn commanded(m: LogsModel, cmd: Text) -> (LogsModel, Seq<ActionText>) {
        match window_asked(cmd) {
            Some(window) => m.tail_opened(window, m.tail_preset),
            None => (m, seq![]),
        }
    }

    open spec fn ticked(m: LogsModel) -> (LogsModel, Seq<ActionText>) {
        if m.tail_live && m.level is Tail {
            let (asked, actions) = m.tail_asked(None);
            (LogsModel { live_refresh: true, ..asked }, actions)
        } else {
            (m, seq![])
        }
    }

    open spec fn takes_raw_input(m: LogsModel) -> bool {
        false
    }

    open spec fn favorite(m: LogsModel) -> Option<(Text, Text)> {
        match (m.level, m.group_name()) {
            (Level::Groups, Some(name)) => Some((name, name)),
            _ => None,
        }
    }

    open spec fn hint_texts(m: LogsModel) -> Seq<(Text, Text)> {
        m.hints()
    }

    open spec fn at_root(m: LogsModel) -> bool {
        m.level is Groups && m.panel is None
    }

    proof fn law_esc_at_root_goes_back(m: LogsModel, key: KeyEvent) {
    }

    fn id(&self) -> (r: &'static str) {
        "logs"
    }

    fn description(&self) -> (r: &'static str) {
        "CloudWatch Logs — groups, streams, eventos y tail"
    }

    fn title(&self) -> (r: String) {
        match &self.level {
            Level::Groups => "logs".to_string(),
            Level::Streams { group } => {
                let mut out = "logs / ".to_string();
                out.append(group.as_str());
                out
            },
            Level::Events { group, stream } => {
                let mut out = "logs / ".to_string();
                out.append(group.as_str());
                out.append(" / ");
                out.append(stream.as_str());
                out
            },
            Level::Tail { group } => {
                let mut out = "logs / ".to_string();
                out.append(group.as_str());
                out.append(" (tail)");
                out.append(if self.tail_live { " [LIVE]" } else { "" });
                out
            },
        }
    }

    fn on_activate(&mut self) -> (r: Vec<Action>) {
        self.level = Level::Groups;
        self.streams = Vec::new();
        self.set_events(Vec::new());
        self.loading = true;
        self.last_query = None;
        self.partial = false;
        self.tail_live = false;
        self.next_page = None;
        self.tail_preset = self.default_preset;
        self.tail_window = LogWindow::Last(preset_millis(self.default_preset));
        self.state.select(Some(0));
        vec![Action::LoadLogGroups { query: None }]
    }

    fn on_context(&mut self, context: &ViewContext) -> (r: Vec<Action>) {
        match context {
            ViewContext::LogGroupTail { group, window } => {
                let preset: usize = self.default_preset;
                self.enter_tail(group.clone(), *window, preset);
                self.tail_query(None)
            },
            ViewContext::Favorite { key } => {
                self.level = Level::Streams { group: key.clone() };
                self.streams = Vec::new();
                self.streams_partial = false;
                self.recompute_filtered();
                self.loading = true;
                self.state.select(Some(0));
                vec![Action::LoadLogStreams { group: key.clone() }]
            },
        }
    }

    fn on_key(&mut self, key: KeyEvent) -> (r: Vec<Action>) {
        if key.code == KeyCode::Char('y') {
            return match self.copy_text() {
                Some(text) => vec![Action::CopyToClipboard { text }],
                None => nothing(),
            };
        }
        if self.detail.is_some() {
            let mut panel = self.detail.take().unwrap();
            let close = panel.on_key(key);
            if !close {
                self.detail = Some(panel);
            }
            return nothing();
        }
        self.list_key(key)
    }

    fn on_message(&mut self, message: &Message) {
        match message {
            Message::LogGroupsLoaded { groups, query, more } => {
                if same_query(query, &self.last_query) {
                    let listed = match self.level {
                        Level::Groups => true,
                        _ => false,
                    };
                    if listed {
                        let keep = self.selected_group_name();
                        self.groups = groups.clone();
                        assert(self.groups@ =~= groups@);
                        self.partial = *more;
                        self.loading = false;
                        self.recompute_filtered();
                        self.restore_selection(&keep);
                    } else {
                        self.groups = groups.clone();
                        assert(self.groups@ =~= groups@);
                        self.partial = *more;
                    }
                }
            },
            Message::LogStreamsLoaded { group, streams, more } => {
                let current = match &self.level {
                    Level::Streams { group: g } => *g == *group,
                    _ => false,
                };
                if current {
                    self.streams = streams.clone();
                    assert(self.streams@ =~= streams@);
                    self.streams_partial = *more;
                    self.loading = false;
                    self.recompute_filtered();
                    self.clamp_selection();
                }
            },
            Message::LogEventsLoaded { group, stream, events, next_token, append } => {
                let current = match &self.level {
                    Level::Events { group: g, stream: s } => *g == *group && *s == *stream,
                    _ => false,
                };
                if current {
                    self.on_events(events, next_token, *append);
                }
            },
            Message::LogTailLoaded { group, events, next_token, append, generation } => {
                let current = *generation == self.tail_gen && (match &self.level {
                    Level::Tail { group: g } => *g == *group,
                    _ => false,
                });
                if current {
                    self.on_tail(events, next_token, *append);
                }
            },
            Message::Error { .. } => {
                self.loading = false;
            },
            _ => {},
        }
    }

    fn set_filter(&mut self, filter: &str) {
        self.filter = filter.to_string();
        self.recompute_filtered();
        self.state.select(Some(0));
        self.clamp_selection();
    }

    fn search(&mut self, query: &str) -> (r: Vec<Action>) {
        let pattern = if query.is_empty() { None } else { Some(query.to_string()) };
        match &self.level {
            Level::Groups => {
                self.last_query = pattern.clone();
                self.loading = true;
                vec![Action::LoadLogGroups { query: pattern }]
            },
            Level::Tail { .. } => {
                self.last_query = pattern;
                self.tail_reload()
            },
            _ => nothing(),
        }
    }

    fn on_command(&mut self, cmd: &str) -> (r: Vec<Action>) {
        match parse_window(cmd) {
            Some(window) => {
                let preset: usize = self.tail_preset;
                self.open_tail(window, preset)
            },
            None => nothing(),
        }
    }

    fn on_tick(&mut self) -> (r: Vec<Action>) {
        let following = self.tail_live && (match self.level {
            Level::Tail { .. } => true,
            _ => false,
        });
        if following {
            let actions = self.tail_query(None);
            self.live_refresh = true;
            actions
        } else {
            nothing()
        }
    }

    fn wants_raw_input(&self) -> (r: bool) {
        false
    }

    fn selected_favorite(&self) -> (r: Option<(String, String)>) {
        match self.level {
            Level::Groups => match self.selected_group_name() {
                Some(name) => Some((name.clone(), name)),
                None => None,
            },
            _ => None,
        }
    }

    fn hints(&self) -> (r: Vec<(&'static str, &'static str)>) {
        match &self.detail {
            Some(p) => p.hints(),
            None => match self.level {
                Level::Tail { .. } => vec![
                    ("w", "ventana"),
                    ("o", "más"),
                    ("f", if self.tail_live { "detener" } else { "tail -f" }),
                    (":since", "rango"),
                ],
                Level::Events { .. } => vec![("y", "copiar línea"), ("O", "consola")],
                _ => vec![("t", "logs por tiempo"), ("y", "copiar"), ("O", "consola")],
            },
        }
    }
}

/// A size with its unit, with one decimal from a kilobyte on.
pub open spec fn size_text(n: int) -> Text {
    if n < 0x400 {
        text::int_text(n) + " B"@
    } else if n < 0x10_0000 {
        text::tenths_text(text::tenths(n, 0x400)) + " KB"@
    } else if n < 0x4000_0000 {
        text::tenths_text(text::tenths(n, 0x10_0000)) + " MB"@
    } else if n < 0x100_0000_0000 {
        text::tenths_text(text::tenths(n, 0x4000_0000)) + " GB"@
    } else {
        text::tenths_text(text::tenths(n, 0x100_0000_0000)) + " TB"@
    }
}

/// A size with its unit, with one decimal from a kilobyte on.
pub fn human_bytes(n: i64) -> (r: String)
    ensures
        r@ == size_text(n as int),
{
    if n < 0x400 {
        let mut out = text::signed_text(n);
        out.append(" B");
        return out;
    }
    let unit: u64 = if n < 0x10_0000 {
        0x400
    } else if n < 0x4000_0000 {
        0x10_0000
    } else if n < 0x100_0000_0000 {
        0x4000_0000
    } else {
        0x100_0000_0000
    };
    let mut out = text::with_tenths(n as u64, unit);
    out.append(
        if n < 0x10_0000 {
            " KB"
        } else if n < 0x4000_0000 {
            " MB"
        } else if n < 0x100_0000_0000 {
            " GB"
        } else {
            " TB"
        },
    );
    out
}

/// A row of the groups: the name and, in brackets, the size.
pub open spec fn group_texts(g: LogGroupDto<Text>) -> (Text, Text) {
    (
        g.name,
        "["@ + (match g.stored_bytes {
            Some(n) => size_text(n as int),
            None => "—"@,
        }) + "]"@,
    )
}

/// A row of the groups: the name and, in brackets, the size.
pub fn group_row(g: &LogGroupDto) -> (r: (String, String))
    ensures
        (r.0@, r.1@) == group_texts(g.deep_view()),
{
    let mut size = "[".to_string();
    match g.stored_bytes {
        Some(n) => {
            size.append(human_bytes(n).as_str());
        },
        None => {
            size.append("—");
        },
    }
    size.append("]");
    (g.name.clone(), size)
}

/// A row of the streams: the name and the instant of the last line.
pub open spec fn stream_texts(s: LogStreamDto<Text>) -> (Text, Text) {
    (
        s.name,
        match s.last_event_ts {
            Some(ts) => util::instant_text(ts as int),
            None => "—"@,
        },
    )
}

/// A row of the streams: the name and the instant of the last line.
pub fn stream_row(s: &LogStreamDto) -> (r: (String, String))
    ensures
        (r.0@, r.1@) == stream_texts(s.deep_view()),
{
    let when = match s.last_event_ts {
        Some(ts) => fmt_epoch_millis(ts),
        None => "—".to_string(),
    };
    (s.name.clone(), when)
}

// --- laws ------------------------------------------------------------------------------------

/// An answer that is not about what is on screen changes nothing: a search other than the last
/// one, streams of another group, lines of another stream, a tail of another group or of an
/// earlier query.
pub proof fn law_stale_answers_are_ignored(m: LogsModel, message: Message)
    requires
        match message {
            Message::LogGroupsLoaded { query, .. } => query.deep_view() != m.last_query,
            Message::LogStreamsLoaded { group, .. } => m.level != (Level::Streams { group: group@ }),
            Message::LogEventsLoaded { group, stream, .. } => m.level != (Level::Events { group: group@, stream: stream@ }),
            Message::LogTailLoaded { group, generation, .. } => generation != m.tail_gen || m.level != (Level::Tail {
                group: group@,
            }),
            _ => false,
        },
    ensures
        m.informed(message) == m,
{
}

/// A fresh query of the tail outdates every answer to the one before it; a query that continues a
/// page does not.
pub proof fn law_fresh_queries_outdate_earlier_ones(m: LogsModel, token: Text)
    requires
        m.level is Tail,
    ensures
        m.tail_asked(None).0.tail_gen != m.tail_gen,
        m.tail_asked(Some(token)).0.tail_gen == m.tail_gen,
        m.tail_asked(None).1[0] matches Action::LoadLogTail { generation, .. } && generation == m.tail_asked(
            None,
        ).0.tail_gen,
{
}

/// Following a tail does not move a reader away from where they read, unless they stand on the
/// last row; then they stay on the last row.
pub proof fn law_following_does_not_drag_the_reader(m: LogsModel, message: Message)
    requires
        m.live_refresh,
        message matches Message::LogTailLoaded { group, append, generation, .. } && !append && generation == m.tail_gen
            && m.level == (Level::Tail { group: group@ }),
    ensures
        ({
            let after = m.informed(message);
            &&& !m.at_bottom() && list::fits(m.selected, after.rows().len()) ==> after.selected == m.selected
            &&& m.at_bottom() ==> after.selected == list::edge(after.rows().len(), true)
        }),
{
}

/// A query that was asked for by hand shows its newest line.
pub proof fn law_loading_shows_the_newest_line(m: LogsModel, message: Message)
    requires
        match message {
            Message::LogTailLoaded { group, append, generation, .. } => !append && generation == m.tail_gen && m.level
                == (Level::Tail { group: group@ }) && !m.live_refresh,
            Message::LogEventsLoaded { group, stream, append, .. } => !append && m.level == (Level::Events {
                group: group@,
                stream: stream@,
            }),
            _ => false,
        },
    ensures
        m.informed(message).selected == list::edge(m.informed(message).rows().len(), true),
{
}

/// Older lines of a stream go above those already there, and the selected line stays selected.
pub proof fn law_older_lines_keep_the_selected_line(m: LogsModel, message: Message)
    requires
        message matches Message::LogEventsLoaded { group, stream, events, append, .. } && append && m.level
            == (Level::Events { group: group@, stream: stream@ }) && events@.len() + m.events.len() <= usize::MAX,
        m.row() is Some,
    ensures
        ({
            let after = m.informed(message);
            after.row() is Some && after.events[after.row()->0] == m.events[m.row()->0]
        }),
{
    if let Message::LogEventsLoaded { events, .. } = message {
        let older = events@;
        let after = m.informed(message);
        law_older_lines_go_first(older, m.events, m.filter);
        let top = lines_shown(older, m.filter);
        let low = lines_shown(m.events, m.filter);
        let all = lines_shown(older + m.events, m.filter);
        law_lines_shown(m.events, m.filter, m.events.len() as int);
        lemma_lines_count(older, m.filter, older.len() as int);
        lemma_lines_count(m.events, m.filter, m.events.len() as int);
        let i = m.selected->0 as int;
        assert(all.len() == top.len() + low.len());
        assert(all[top.len() + i] == shifted(low, older.len() as int)[i]);
        assert(after.events[older.len() + low[i]] == m.events[low[i]]);
    }
}

proof fn lemma_lines_count(events: Seq<LogEventDto>, filter: Text, n: int)
    requires
        0 <= n <= events.len(),
    ensures
        lines_upto(events, filter, n).len() <= n,
    decreases n,
{
    if n > 0 {
        lemma_lines_count(events, filter, n - 1);
    }
}

proof fn lemma_window_cycled(m: LogsModel, forward: bool)
    requires
        m.level is Tail,
        m.tail_preset < PRESETS,
    ensures
        m.window_cycled(forward).0.level is Tail,
        m.window_cycled(forward).0.tail_preset == (if forward { (m.tail_preset + 1) % 6 } else { (m.tail_preset + 5) % 6 }),
        m.window_cycled(forward).0.tail_window == LogWindow::Last(
            preset_length(m.window_cycled(forward).0.tail_preset as int),
        ),
{
}

/// The two window keys undo each other.
pub proof fn law_window_keys_undo_each_other(m: LogsModel, forward: bool)
    requires
        m.level is Tail,
        m.tail_preset < PRESETS,
    ensures
        m.window_cycled(forward).0.window_cycled(!forward).0.tail_preset == m.tail_preset,
        m.window_cycled(forward).0.window_cycled(!forward).0.tail_window == LogWindow::Last(
            preset_length(m.tail_preset as int),
        ),
{
    lemma_window_cycled(m, forward);
    lemma_window_cycled(m.window_cycled(forward).0, !forward);
}

/// Leaving the tail stops following it, and a tail that was just opened is not followed.
pub proof fn law_tails_are_followed_only_on_request(m: LogsModel, key: KeyEvent, window: LogWindow, preset: usize)
    requires
        m.panel is None,
    ensures
        m.level is Tail && key.code == KeyCode::Esc ==> !m.keyed(key).0.tail_live,
        m.current_group() is Some ==> !m.tail_opened(window, preset).0.tail_live,
        !m.tail_live ==> LogsView::ticked(m) == (m, Seq::<ActionText>::empty()),
{
}

/// A reload of the groups keeps the selected group selected, wherever it now stands.
pub proof fn law_reload_keeps_the_selected_group(m: LogsModel, message: Message, k: int)
    requires
        message matches Message::LogGroupsLoaded { groups, query, .. } && query.deep_view() == m.last_query && m.level
            is Groups && groups@.len() <= usize::MAX,
        m.group_name() is Some,
        ({
            let after = m.informed(message);
            0 <= k < after.rows().len() && after.groups[after.rows()[k]].name@ == m.group_name()->0
        }),
    ensures
        m.informed(message).group_name() == m.group_name(),
{
    if let Message::LogGroupsLoaded { groups, more, .. } = message {
        let loaded = LogsModel { groups: groups@, partial: more, loading: false, ..m };
        lemma_row_named(loaded.groups, loaded.rows(), m.group_name()->0, 0, k);
        list::lemma_shown_count(groups@, m.filter);
    }
}

proof fn lemma_row_named(groups: Seq<LogGroupDto>, rows: Seq<int>, name: Text, from: int, k: int)
    requires
        0 <= from <= k < rows.len(),
        groups[rows[k]].name@ == name,
    ensures
        row_named(groups, rows, name, from) matches Some(f) && from <= f <= k && groups[rows[f]].name@ == name,
    decreases k - from,
{
    if groups[rows[from]].name@ != name {
        lemma_row_named(groups, rows, name, from + 1, k);
    }
}

/// The lists of a view that runs fit in memory.
pub open spec fn fits_in_memory(m: LogsModel) -> bool {
    m.groups.len() <= usize::MAX && m.streams.len() <= usize::MAX && m.events.len() <= usize::MAX
}

/// While a stream has older lines than were loaded, `o` asks for the page before them, and its
/// answer goes before those that were loaded: none is out of reach.
pub proof fn law_no_line_of_a_stream_is_out_of_reach(m: LogsModel, key: KeyEvent, message: Message)
    requires
        m.panel is None,
        key.code == KeyCode::Char('o'),
        m.next_page is Some,
        message matches Message::LogEventsLoaded { group, stream, append, .. } && m.level == (Level::Events {
            group: group@,
            stream: stream@,
        }) && append,
    ensures
        message matches Message::LogEventsLoaded { group, stream, events, next_token, .. } && m.keyed(key).1 == seq![
            ActionText::LoadLogEvents { group: group@, stream: stream@, token: m.next_page },
        ] && m.informed(message).events == events@ + m.events && m.informed(message).next_page
            == next_token.deep_view(),
{
}

/// The selection lies inside the list on screen, or on the first row of a list that is still to
/// come.
pub open spec fn selects_inside(m: LogsModel) -> bool {
    list::inside(m.selected, m.rows().len())
}

proof fn lemma_rows_count(m: LogsModel)
    requires
        fits_in_memory(m),
    ensures
        m.rows().len() <= usize::MAX,
{
    list::lemma_shown_count(m.groups, m.filter);
    list::lemma_shown_count(m.streams, m.filter);
    lemma_lines_count(m.events, m.filter, m.events.len() as int);
}

/// No key takes the selection out of the list.
pub proof fn law_keys_keep_the_selection_inside(m: LogsModel, key: KeyEvent)
    requires
        fits_in_memory(m),
        selects_inside(m),
    ensures
        selects_inside(LogsView::keyed(m, key).0),
{
    lemma_rows_count(m);
    lemma_rows_count(LogsModel { level: Level::Groups, ..m });
    if let Level::Events { group, .. } = m.level {
        lemma_rows_count(LogsModel { level: Level::Streams { group }, ..m });
    }
}

/// No answer leaves the selection outside the list.
pub proof fn law_answers_keep_the_selection_inside(m: LogsModel, message: Message)
    requires
        fits_in_memory(m),
        selects_inside(m),
    ensures
        selects_inside(LogsView::informed(m, message)),
{
    lemma_rows_count(m);
    match message {
        Message::LogGroupsLoaded { groups, .. } => {
            assert(groups@.len() == groups.len());
            list::lemma_shown_count(groups@, m.filter);
        },
        Message::LogStreamsLoaded { streams, .. } => {
            assert(streams@.len() == streams.len());
            list::lemma_shown_count(streams@, m.filter);
        },
        Message::LogEventsLoaded { events, append, .. } => {
            assert(events@.len() == events.len());
            lemma_lines_count(events@, m.filter, events@.len() as int);
            law_older_lines_go_first(events@, m.events, m.filter);
        },
        Message::LogTailLoaded { events, append, .. } => {
            assert(events@.len() == events.len());
            lemma_lines_count(events@, m.filter, events@.len() as int);
            law_older_lines_go_first(m.events, events@, m.filter);
        },
        _ => {},
    }
}

/// Nothing else that happens to the view takes the selection out of the list.
pub proof fn law_other_steps_keep_the_selection_inside(m: LogsModel, context: ViewContext<Text>, line: Text)
    requires
        fits_in_memory(m),
        selects_inside(m),
    ensures
        selects_inside(LogsView::activated(m).0),
        selects_inside(LogsView::opened(m, context).0),
        selects_inside(LogsView::narrowed(m, line)),
        selects_inside(LogsView::searched(m, line).0),
        selects_inside(LogsView::commanded(m, line).0),
        selects_inside(LogsView::ticked(m).0),
{
    lemma_rows_count(m);
    lemma_rows_count(LogsModel { filter: line, ..m });
}

// --- windows by command -----------------------------------------------------------------------

proof fn lemma_window_verbs()
    ensures
        "since "@ == "since"@.push(' '),
        "from "@ == "from"@.push(' '),
        forall|i: int| 0 <= i < "since"@.len() ==> !text::is_space(#[trigger] "since"@[i]),
        forall|i: int| 0 <= i < "from"@.len() ==> !text::is_space(#[trigger] "from"@[i]),
        "since"@ != "from"@,
{
    reveal_strlit("since ");
    reveal_strlit("since");
    reveal_strlit("from ");
    reveal_strlit("from");
    assert("since "@ =~= "since"@.push(' '));
    assert("from "@ =~= "from"@.push(' '));
    assert("since"@.len() == 5 && "from"@.len() == 4);
}

/// `since` with a duration asks for that long up to now, whenever now is; with anything else it
/// asks for nothing.
pub proof fn law_since_asks_for_the_last_while(length: Text, now: int)
    ensures
        match util::duration_value(length) {
            Some(ms) => window_asked("since "@ + length) matches Some(w) && payload::bounds(w, now) == (now - ms, now),
            None => window_asked("since "@ + length) is None,
        },
{
    lemma_window_verbs();
    text::law_commands_come_apart("since"@, ' ', length);
    text::law_trimming_once_is_enough(length);
    assert(util::duration_value(text::trimmed(length)) == util::duration_value(length));
    util::law_durations_are_positive(length);
}

proof fn lemma_instants_fit(s: Text)
    ensures
        util::datetime_value(s) matches Some(t) ==> i64::MIN <= t <= i64::MAX,
        util::datetime_value(text::trimmed(s)) == util::datetime_value(s),
{
    text::law_trimming_once_is_enough(s);
}

/// `from` with an instant asks for everything from there on: it has no end of its own, so it goes
/// up to now, whenever now is.  With anything else it asks for nothing.
pub proof fn law_from_asks_up_to_now(start: Text, now: int)
    requires
        !text::occurs(start, " to "@),
    ensures
        match util::datetime_value(start) {
            Some(t) => window_asked("from "@ + start) matches Some(w) && payload::bounds(w, now) == (t, now),
            None => window_asked("from "@ + start) is None,
        },
{
    lemma_window_verbs();
    text::law_commands_come_apart("from"@, ' ', start);
    text::lemma_trimming_adds_nothing(start, " to "@);
    text::law_texts_come_apart(text::trimmed(start), " to "@);
    lemma_instants_fit(start);
}

/// `from` with two instants asks for what lies between them, whenever now is; where either cannot
/// be read it asks for nothing.
pub proof fn law_from_to_asks_for_a_range(start: Text, end: Text, now: int)
    requires
        start.len() > 0,
        end.len() > 0,
        !text::is_space(start[0]),
        !text::is_space(end.last()),
        forall|k: int| 0 <= k < start.len() ==> !text::occurs_at(start + " to "@ + end, " to "@, k),
    ensures
        match (util::datetime_value(start), util::datetime_value(end)) {
            (Some(a), Some(b)) => window_asked("from "@ + start + " to "@ + end) matches Some(w) && payload::bounds(
                w,
                now,
            ) == (a, b),
            _ => window_asked("from "@ + start + " to "@ + end) is None,
        },
{
    lemma_window_verbs();
    let rest = start + " to "@ + end;
    assert("from "@ + start + " to "@ + end =~= "from "@ + rest);
    text::law_commands_come_apart("from"@, ' ', rest);
    assert(rest[0] == start[0] && rest.last() == end.last());
    text::lemma_already_trimmed(rest);
    text::lemma_occurrence(rest, " to "@, 0);
    let n = start.len() as int;
    assert(rest.subrange(n, n + " to "@.len()) =~= " to "@);
    assert(text::occurs_at(rest, " to "@, n));
    assert(text::occurrence_from(rest, " to "@, 0) == Some(n));
    assert(rest.take(n) =~= start);
    assert(rest.skip(n + " to "@.len()) =~= end);
    lemma_instants_fit(start);
    lemma_instants_fit(end);
}

/// No other command asks for a window.
pub proof fn law_only_since_and_from_ask_for_windows(verb: Text, rest: Text)
    requires
        forall|i: int| 0 <= i < verb.len() ==> !text::is_space(#[trigger] verb[i]),
        verb != "since"@,
        verb != "from"@,
    ensures
        window_asked(verb.push(' ') + rest) is None,
        window_asked(verb) is None,
{
    text::law_commands_come_apart(verb, ' ', rest);
}

/// A command that asks for a window opens the tail of the group on screen over that window, fresh
/// and with every line of it; any other leaves the view alone.
pub proof fn law_window_commands_open_the_tail(m: LogsModel, cmd: Text, group: Text)
    requires
        match m.level {
            Level::Groups => exists|row: int| is_selected_row(m, row) && m.groups[row].name@ == group,
            Level::Streams { group: on_screen } => on_screen == group,
            Level::Events { group: on_screen, .. } => on_screen == group,
            Level::Tail { group: on_screen } => on_screen == group,
        },
    ensures
        ({
            let (n, actions) = LogsView::commanded(m, cmd);
            match window_asked(cmd) {
                Some(window) => {
                    &&& n.level == (Level::Tail { group })
                    &&& n.tail_window == window
                    &&& n.events.len() == 0
                    &&& actions == seq![
                        ActionText::ClearFilter,
                        ActionText::LoadLogTail {
                            group,
                            pattern: None,
                            window,
                            token: None,
                            generation: n.tail_gen,
                        },
                    ]
                },
                None => n == m && actions.len() == 0,
            }
        }),
{
    let (n, actions) = LogsView::commanded(m, cmd);
    if let Some(window) = window_asked(cmd) {
        assert(actions =~= seq![
            ActionText::ClearFilter,
            ActionText::LoadLogTail { group, pattern: None, window, token: None, generation: n.tail_gen },
        ]);
    }
}

/// Item `row` of the list on screen is the selected one.
pub open spec fn is_selected_row(m: LogsModel, row: int) -> bool {
    &&& m.selected is Some
    &&& match m.level {
        Level::Groups => m.selected->0 < list::shown(m.groups, m.filter).len() && row == list::shown(
            m.groups,
            m.filter,
        )[m.selected->0 as int],
        Level::Streams { .. } => m.selected->0 < list::shown(m.streams, m.filter).len() && row == list::shown(
            m.streams,
            m.filter,
        )[m.selected->0 as int],
        _ => m.selected->0 < lines_shown(m.events, m.filter).len() && row == lines_shown(
            m.events,
            m.filter,
        )[m.selected->0 as int],
    }
}

/// The preset windows are a quarter of an hour, one hour, six, a day, three days and a week.  What
/// captions show of a preset reads back as its length.
pub proof fn law_preset_lengths(i: usize)
    requires
        i < PRESETS,
    ensures
        preset_length(0) == 15 * 60 * 1000,
        preset_length(1) == 60 * 60 * 1000,
        preset_length(2) == 6 * preset_length(1),
        preset_length(3) == 24 * preset_length(1),
        preset_length(4) == 3 * preset_length(3),
        preset_length(5) == 7 * preset_length(3),
        util::duration_value(window_length_text(preset_length(i as int) as int)) == Some(preset_length(i as int) as int),
{
    law_window_lengths_are_read_back(preset_length(i as int) as int);
}

proof fn lemma_label(n: int, unit: Text, digits: Text, label: Text)
    requires
        0 < n < 100,
        unit == "m"@ || unit == "h"@ || unit == "d"@,
        digits == text::int_text(n),
        label == digits + unit,
    ensures
        util::duration_value(label) == Some(n * (if unit == "m"@ {
            60_000int
        } else if unit == "h"@ {
            3_600_000
        } else {
            86_400_000
        })),
{
    util::law_durations_are_of_their_unit(n);
}

/// A label that names a preset is a duration, and the preset is that long.  Six labels name one.
pub proof fn law_labels_are_the_lengths_of_their_presets(label: Text)
    ensures
        preset_named("15m"@) is Some && preset_named("1h"@) is Some && preset_named("6h"@) is Some,
        preset_named("24h"@) is Some && preset_named("3d"@) is Some && preset_named("7d"@) is Some,
        preset_named(label) matches Some(i) ==> i < PRESETS && util::duration_value(label) == Some(
            preset_length(i as int) as int,
        ),
{
    reveal_strlit("m");
    reveal_strlit("h");
    reveal_strlit("d");
    if label == "15m"@ {
        reveal_strlit("15m");
        reveal_with_fuel(text::decimal, 2);
        assert(text::int_text(15) =~= seq!['1', '5']);
        assert("15m"@ =~= seq!['1', '5'] + "m"@);
        lemma_label(15, "m"@, seq!['1', '5'], label);
    } else if label == "1h"@ {
        reveal_strlit("1h");
        assert(text::int_text(1) =~= seq!['1']);
        assert("1h"@ =~= seq!['1'] + "h"@);
        lemma_label(1, "h"@, seq!['1'], label);
        assert("h"@[0] == 'h' && "m"@[0] == 'm');
    } else if label == "6h"@ {
        reveal_strlit("6h");
        assert(text::int_text(6) =~= seq!['6']);
        assert("6h"@ =~= seq!['6'] + "h"@);
        lemma_label(6, "h"@, seq!['6'], label);
        assert("h"@[0] == 'h' && "m"@[0] == 'm');
    } else if label == "24h"@ {
        reveal_strlit("24h");
        reveal_with_fuel(text::decimal, 2);
        assert(text::int_text(24) =~= seq!['2', '4']);
        assert("24h"@ =~= seq!['2', '4'] + "h"@);
        lemma_label(24, "h"@, seq!['2', '4'], label);
        assert("h"@[0] == 'h' && "m"@[0] == 'm');
    } else if label == "3d"@ {
        reveal_strlit("3d");
        assert(text::int_text(3) =~= seq!['3']);
        assert("3d"@ =~= seq!['3'] + "d"@);
        lemma_label(3, "d"@, seq!['3'], label);
        assert("d"@[0] == 'd' && "h"@[0] == 'h' && "m"@[0] == 'm');
    } else if label == "7d"@ {
        reveal_strlit("7d");
        assert(text::int_text(7) =~= seq!['7']);
        assert("7d"@ =~= seq!['7'] + "d"@);
        lemma_label(7, "d"@, seq!['7'], label);
        assert("d"@[0] == 'd' && "h"@[0] == 'h' && "m"@[0] == 'm');
    }
}

/// `w` goes to the next longer preset, and from the longest to the shortest; `W` goes the other
/// way.  Either asks for the whole window afresh.
pub proof fn law_window_keys_go_through_the_presets(m: LogsModel, key: KeyEvent, group: Text)
    requires
        m.panel is None,
        m.level == (Level::Tail { group }),
        m.tail_preset < PRESETS,
        key.code == KeyCode::Char('w') || key.code == KeyCode::Char('W'),
    ensures
        ({
            let (n, actions) = LogsView::keyed(m, key);
            let (from, to) = if key.code == KeyCode::Char('w') {
                (m.tail_preset, n.tail_preset)
            } else {
                (n.tail_preset, m.tail_preset)
            };
            &&& n.tail_preset < PRESETS
            &&& from + 1 < PRESETS ==> to == from + 1
            &&& from + 1 == PRESETS ==> to == 0
            &&& n.tail_window == LogWindow::Last(preset_length(n.tail_preset as int))
            &&& n.level == m.level
            &&& n.events.len() == 0
            &&& actions == seq![
                ActionText::LoadLogTail {
                    group,
                    pattern: m.last_query,
                    window: n.tail_window,
                    token: None,
                    generation: n.tail_gen,
                },
            ]
        }),
{
}

// --- keys and answers -------------------------------------------------------------------------

/// `Enter` on a group lists its streams, and on a stream its newest lines.
pub proof fn law_enter_goes_into_what_is_selected(m: LogsModel, key: KeyEvent, row: int)
    requires
        m.panel is None,
        key.code == KeyCode::Enter,
        is_selected_row(m, row),
    ensures
        ({
            let (n, actions) = LogsView::keyed(m, key);
            match m.level {
                Level::Groups => n.level == (Level::Streams { group: m.groups[row].name@ }) && n.streams.len() == 0
                    && actions == seq![
                    ActionText::ClearFilter,
                    ActionText::LoadLogStreams { group: m.groups[row].name@ },
                ],
                Level::Streams { group } => n.level == (Level::Events { group, stream: m.streams[row].name@ })
                    && n.events.len() == 0 && actions == seq![
                    ActionText::ClearFilter,
                    ActionText::LoadLogEvents { group, stream: m.streams[row].name@, token: None },
                ],
                _ => n.level == m.level && actions.len() == 0 && (n.panel matches Some(p) && p.raw
                    == m.events[row].message@),
            }
        }),
{
}

/// `t` opens the tail of the group on screen over the default window.
pub proof fn law_t_opens_the_tail(m: LogsModel, key: KeyEvent, row: int)
    requires
        m.panel is None,
        key.code == KeyCode::Char('t'),
        m.level is Groups ==> is_selected_row(m, row),
    ensures
        ({
            let (n, actions) = LogsView::keyed(m, key);
            let group = match m.level {
                Level::Groups => m.groups[row].name@,
                Level::Streams { group } => group,
                Level::Events { group, .. } => group,
                Level::Tail { group } => group,
            };
            let window = LogWindow::Last(preset_length(m.default_preset as int));
            &&& n.level == (Level::Tail { group })
            &&& n.tail_preset == m.default_preset
            &&& n.tail_window == window
            &&& !n.tail_live
            &&& actions == seq![
                ActionText::ClearFilter,
                ActionText::LoadLogTail { group, pattern: None, window, token: None, generation: n.tail_gen },
            ]
        }),
{
    let (n, actions) = LogsView::keyed(m, key);
    assert(actions.len() == 2);
    assert(actions =~= seq![actions[0], actions[1]]);
}

/// `r` asks again for what is on screen.
pub proof fn law_r_asks_again(m: LogsModel, key: KeyEvent)
    requires
        m.panel is None,
        key.code == KeyCode::Char('r'),
    ensures
        ({
            let (n, actions) = LogsView::keyed(m, key);
            &&& n.level == m.level
            &&& n.loading
            &&& actions == seq![
                match m.level {
                    Level::Groups => ActionText::LoadLogGroups { query: m.last_query },
                    Level::Streams { group } => ActionText::LoadLogStreams { group },
                    Level::Events { group, stream } => ActionText::LoadLogEvents { group, stream, token: None },
                    Level::Tail { group } => ActionText::LoadLogTail {
                        group,
                        pattern: m.last_query,
                        window: m.tail_window,
                        token: None,
                        generation: n.tail_gen,
                    },
                },
            ]
        }),
{
}

/// `o` goes on with the tail where it ended: with the same window and pattern, and the token that
/// the last page came with; its answer goes behind the lines that are there.
pub proof fn law_o_goes_on_with_the_tail(m: LogsModel, key: KeyEvent, message: Message, group: Text)
    requires
        m.panel is None,
        key.code == KeyCode::Char('o'),
        m.level == (Level::Tail { group }),
        m.next_page is Some,
        message matches Message::LogTailLoaded { group: about, append, generation, .. } && about@ == group && append
            && generation == m.tail_gen,
    ensures
        LogsView::keyed(m, key).1 == seq![
            ActionText::LoadLogTail {
                group,
                pattern: m.last_query,
                window: m.tail_window,
                token: m.next_page,
                generation: m.tail_gen,
            },
        ],
        message matches Message::LogTailLoaded { events, next_token, .. } && LogsView::informed(m, message).events
            == m.events + events@ && LogsView::informed(m, message).next_page == next_token.deep_view()
            && LogsView::informed(m, message).selected == m.selected,
{
}

/// Without a token there is nothing more to ask for.
pub proof fn law_o_without_more_does_nothing(m: LogsModel, key: KeyEvent)
    requires
        m.panel is None,
        key.code == KeyCode::Char('o'),
        m.next_page is None || m.level is Groups || m.level is Streams,
    ensures
        LogsView::keyed(m, key) == (m, Seq::<ActionText>::empty()),
{
}

/// `f` starts following a tail, and stops it again; while it is followed, every tick asks for it
/// afresh.
pub proof fn law_f_follows_the_tail(m: LogsModel, key: KeyEvent, group: Text)
    requires
        m.panel is None,
        key.code == KeyCode::Char('f'),
        m.level == (Level::Tail { group }),
    ensures
        LogsView::keyed(m, key).0.tail_live == !m.tail_live,
        m.tail_live ==> LogsView::keyed(m, key).1.len() == 0,
        m.tail_live ==> ({
            let (n, actions) = LogsView::ticked(m);
            n.live_refresh && n.tail_live && n.level == m.level && n.events == m.events && actions == seq![
                ActionText::LoadLogTail {
                    group,
                    pattern: m.last_query,
                    window: m.tail_window,
                    token: None,
                    generation: n.tail_gen,
                },
            ]
        }),
        !m.tail_live ==> LogsView::keyed(m, key).1 == seq![
            ActionText::LoadLogTail {
                group,
                pattern: m.last_query,
                window: m.tail_window,
                token: None,
                generation: LogsView::keyed(m, key).0.tail_gen,
            },
        ],
{
}

/// Answers about what is on screen are shown: groups, streams, the lines of a stream, the lines of a
/// tail; and loading ends.
pub proof fn law_answers_are_shown(m: LogsModel, message: Message)
    ensures
        match message {
            Message::LogGroupsLoaded { groups, query, more } => query.deep_view() == m.last_query && m.level is Groups
                ==> ({
                let n = LogsView::informed(m, message);
                n.groups == groups@ && n.partial == more && !n.loading && n.level == m.level
            }),
            Message::LogStreamsLoaded { group, streams, more } => m.level == (Level::Streams { group: group@ }) ==> ({
                let n = LogsView::informed(m, message);
                n.streams == streams@ && n.streams_partial == more && !n.loading && n.level == m.level
            }),
            Message::LogEventsLoaded { group, stream, events, next_token, append } => m.level == (Level::Events {
                group: group@,
                stream: stream@,
            }) ==> ({
                let n = LogsView::informed(m, message);
                n.events == (if append { events@ + m.events } else { events@ }) && n.next_page == next_token.deep_view()
                    && n.partial == (next_token is Some) && !n.loading && n.level == m.level
            }),
            Message::LogTailLoaded { group, events, next_token, append, generation } => generation == m.tail_gen
                && m.level == (Level::Tail { group: group@ }) ==> ({
                let n = LogsView::informed(m, message);
                n.events == (if append { m.events + events@ } else { events@ }) && n.next_page == next_token.deep_view()
                    && n.partial == (next_token is Some) && !n.loading && n.level == m.level
            }),
            Message::Error { .. } => !LogsView::informed(m, message).loading,
            _ => true,
        },
{
}

/// A search on the groups asks the server for it, and the answer to any other no longer counts; a
/// search on a tail asks for the lines with that pattern.  An empty search is none at all.
pub proof fn law_searches_ask_the_server(m: LogsModel, query: Text)
    ensures
        ({
            let (n, actions) = LogsView::searched(m, query);
            let pattern = if query.len() == 0 { None } else { Some(query) };
            match m.level {
                Level::Groups => n.last_query == pattern && actions == seq![ActionText::LoadLogGroups { query: pattern }],
                Level::Tail { group } => n.last_query == pattern && n.events.len() == 0 && actions == seq![
                    ActionText::LoadLogTail {
                        group,
                        pattern,
                        window: m.tail_window,
                        token: None,
                        generation: n.tail_gen,
                    },
                ],
                _ => n == m && actions.len() == 0,
            }
        }),
{
}

/// Coming from elsewhere, the view shows the tail of that group over that window, or the streams of
/// a favourite.
pub proof fn law_contexts_open_what_they_name(m: LogsModel, group: Text, window: LogWindow)
    ensures
        ({
            let (n, actions) = LogsView::opened(m, ViewContext::LogGroupTail { group, window });
            n.level == (Level::Tail { group }) && n.tail_window == window && actions == seq![
                ActionText::LoadLogTail { group, pattern: None, window, token: None, generation: n.tail_gen },
            ]
        }),
        ({
            let (n, actions) = LogsView::opened(m, ViewContext::Favorite { key: group });
            n.level == (Level::Streams { group }) && n.streams.len() == 0 && actions == seq![
                ActionText::LoadLogStreams { group },
            ]
        }),
        ({
            let (n, actions) = LogsView::activated(m);
            n.level is Groups && n.last_query is None && actions == seq![ActionText::LoadLogGroups { query: None }]
        }),
{
}

/// `y` copies what is selected, `O` opens its group in the web console, and the favourite is the
/// selected group; opened again, that favourite shows the same group.
pub proof fn law_keys_name_what_is_selected(m: LogsModel, key: KeyEvent, row: int)
    requires
        m.panel is None,
        is_selected_row(m, row),
    ensures
        key.code == KeyCode::Char('y') ==> LogsView::keyed(m, key) == (
            m,
            seq![
                ActionText::CopyToClipboard {
                    text: match m.level {
                        Level::Groups => match m.groups[row].arn {
                            Some(arn) => arn@,
                            None => m.groups[row].name@,
                        },
                        Level::Streams { .. } => m.streams[row].name@,
                        _ => m.events[row].message@,
                    },
                },
            ],
        ),
        key.code == KeyCode::Char('O') ==> LogsView::keyed(m, key) == (
            m,
            seq![
                ActionText::OpenConsole {
                    target: ConsoleTarget::LogGroup {
                        name: match m.level {
                            Level::Groups => m.groups[row].name@,
                            Level::Streams { group } => group,
                            Level::Events { group, .. } => group,
                            Level::Tail { group } => group,
                        },
                    },
                },
            ],
        ),
        LogsView::favorite(m) == (if m.level is Groups {
            Some((m.groups[row].name@, m.groups[row].name@))
        } else {
            None
        }),
{
}

/// `j` and `k` move to the neighbouring row of what the filter shows, `g` and `G` to its ends.
pub proof fn law_keys_move_the_selection(m: LogsModel, key: KeyEvent, row: usize)
    requires
        m.panel is None,
        m.selected == Some(row),
    ensures
        ({
            let n = LogsView::keyed(m, key).0;
            let len = match m.level {
                Level::Groups => list::shown(m.groups, m.filter).len(),
                Level::Streams { .. } => list::shown(m.streams, m.filter).len(),
                _ => lines_shown(m.events, m.filter).len(),
            };
            &&& row + 1 < len <= usize::MAX && (key.code == KeyCode::Char('j') || key.code == KeyCode::Down) ==> n.selected
                == Some((row + 1) as usize)
            &&& 0 < row < len <= usize::MAX && (key.code == KeyCode::Char('k') || key.code == KeyCode::Up) ==> n.selected
                == Some((row - 1) as usize)
            &&& 0 < len <= usize::MAX && (key.code == KeyCode::Char('g') || key.code == KeyCode::Home) ==> n.selected
                == Some(0usize)
            &&& 0 < len <= usize::MAX && (key.code == KeyCode::Char('G') || key.code == KeyCode::End) ==> n.selected
                == Some((len - 1) as usize)
        }),
{
}

/// `Esc` goes from the lines of a stream to the streams of its group, and from the streams or the
/// tail of a group to the groups.
pub proof fn law_esc_goes_up(m: LogsModel, key: KeyEvent)
    requires
        m.panel is None,
        key.code == KeyCode::Esc,
    ensures
        match m.level {
            Level::Events { group, .. } => LogsView::keyed(m, key).0.level == (Level::Streams { group })
                && LogsView::keyed(m, key).0.streams == m.streams,
            Level::Streams { .. } => LogsView::keyed(m, key).0.level is Groups && LogsView::keyed(m, key).0.groups
                == m.groups,
            Level::Tail { .. } => LogsView::keyed(m, key).0.level is Groups && LogsView::keyed(m, key).0.groups
                == m.groups && LogsView::keyed(m, key).0.last_query is None && (m.last_query is Some ==> LogsView::keyed(
                m,
                key,
            ).1 == seq![ActionText::LoadLogGroups { query: None }]),
            Level::Groups => LogsView::keyed(m, key).1 == seq![ActionText::Back],
        },
{
}

/// A line stands out by the words in it, wherever they stand: as an error by three of them, as a
/// warning by one where none of those stands in it.
pub proof fn law_lines_stand_out_by_their_words(before: Text, after: Text, other: Text)
    ensures
        severity(before + "ERROR"@ + after) == Severity::Error,
        severity(before + "Exception"@ + after) == Severity::Error,
        severity(before + "panic"@ + after) == Severity::Error,
        severity(before + "WARN"@ + after) != Severity::Plain,
        !text::occurs(other, "ERROR"@) && !text::occurs(other, "Exception"@) && !text::occurs(other, "panic"@) ==> (
        severity(other) == (if text::occurs(other, "WARN"@) { Severity::Warning } else { Severity::Plain })),
{
    text::lemma_occurs_between(before, "ERROR"@, after);
    text::lemma_occurs_between(before, "Exception"@, after);
    text::lemma_occurs_between(before, "panic"@, after);
    text::lemma_occurs_between(before, "WARN"@, after);
}

/// A row shows its line: the time of day of its instant, its message on one line, and the end of
/// the name of its stream; what the filter looks into is the message.
pub proof fn law_rows_show_their_lines(e: LogEventDto)
    ensures
        e.ts matches Some(ts) ==> event_row(e).clock == util::clock_text((ts as int / 1000) % 86_400),
        e.ts is None ==> event_row(e).clock == "--:--:--"@,
        event_row(e).preview.len() == e.message@.len(),
        !event_row(e).preview.contains('\n'),
        event_row(e).severity == severity(e.message@),
        event_row(e).lc == text::lowercase(e.message@),
        event_row(e).stream is Some <==> e.stream is Some,
{
    text::law_previews(e.message@, 0);
}

/// The telling end of a stream's name is what follows its last bracket, as far as twelve characters
/// of it; the start of the name where nothing follows a bracket.
pub proof fn law_streams_are_told_by_their_end(head: Text, tail: Text)
    requires
        !tail.contains(']'),
    ensures
        tail.len() > 0 ==> stream_tail(head + seq![']'] + tail) == text::head_of(tail, 12),
        tail.len() > 0 ==> stream_tail(tail) == text::head_of(tail, 12),
        stream_tail(head + seq![']']) == text::head_of(head + seq![']'], 12),
{
    text::law_the_last_part_follows_the_last_separator(head, ']', tail);
    text::law_the_last_part_follows_the_last_separator(head, ']', Seq::empty());
    assert(head + seq![']'] + Seq::<char>::empty() =~= head + seq![']']);
}

/// What matches a filter is shown whatever the case of either, and nothing else.
pub proof fn law_filters_look_into_messages(e: LogEventDto, filter: Text)
    ensures
        filter.len() == 0 ==> line_matches(e, filter),
        filter.len() > 0 ==> (line_matches(e, filter) <==> text::occurs(
            text::lowercase(e.message@),
            text::lowercase(filter),
        )),
{
}

/// A filter narrows the list on screen and selects the first row that is left; it loads nothing and
/// changes nothing else.
pub proof fn law_filters_narrow_the_list(m: LogsModel, filter: Text)
    ensures
        LogsView::narrowed(m, filter).filter == filter,
        LogsView::narrowed(m, filter) == (LogsModel { filter, selected: LogsView::narrowed(m, filter).selected, ..m }),
        ({
            let len = match m.level {
                Level::Groups => list::shown(m.groups, filter).len(),
                Level::Streams { .. } => list::shown(m.streams, filter).len(),
                _ => lines_shown(m.events, filter).len(),
            };
            0 < len <= usize::MAX ==> LogsView::narrowed(m, filter).selected == Some(0usize)
        }),
{
}

/// Over a list, the panel takes the keys: `y` copies its text, `Esc` and `Enter` close it, `j` and `k`
/// scroll it, and nothing is asked for.
pub proof fn law_the_panel_takes_the_keys(m: LogsModel, key: KeyEvent, p: DetailPanel<Text>)
    requires
        m.panel == Some(p),
    ensures
        ({
            let (n, actions) = LogsView::keyed(m, key);
            &&& key.code == KeyCode::Char('y') ==> n == m && actions == seq![ActionText::CopyToClipboard { text: p.raw }]
            &&& key.code == KeyCode::Esc || key.code == KeyCode::Enter ==> n == (LogsModel { panel: None, ..m })
                && actions.len() == 0
            &&& key.code != KeyCode::Char('y') && key.code != KeyCode::Esc && key.code != KeyCode::Enter ==> actions.len()
                == 0 && n == (LogsModel { panel: n.panel, ..m }) && (n.panel matches Some(q) && q.raw == p.raw && q.title
                == p.title)
            &&& key.code == KeyCode::Char('j') && p.scroll < u16::MAX ==> (n.panel matches Some(q) && q.scroll == p.scroll
                + 1)
            &&& key.code == KeyCode::Char('k') && p.scroll > 0 ==> (n.panel matches Some(q) && q.scroll == p.scroll - 1)
        }),
{
}

/// The title names the group and the stream on screen, and says that a tail is followed.
pub proof fn law_titles_name_the_place(m: LogsModel)
    ensures
        m.level is Groups ==> LogsView::title_text(m) == LogsView::id_text(m),
        m.level matches Level::Streams { group } ==> text::has_suffix(LogsView::title_text(m), group),
        m.level matches Level::Events { group, stream } ==> text::has_suffix(LogsView::title_text(m), stream)
            && text::occurs(LogsView::title_text(m), group),
        m.level matches Level::Tail { group } ==> text::occurs(LogsView::title_text(m), group) && (m.tail_live
            ==> text::has_suffix(LogsView::title_text(m), "[LIVE]"@)),
{
    match m.level {
        Level::Streams { group } => {
            let t = "logs / "@ + group;
            assert(t.skip(t.len() - group.len()) =~= group);
        },
        Level::Events { group, stream } => {
            let t = "logs / "@ + group + " / "@ + stream;
            assert(t.skip(t.len() - stream.len()) =~= stream);
            assert(t =~= "logs / "@ + group + (" / "@ + stream));
            text::lemma_occurs_between("logs / "@, group, " / "@ + stream);
        },
        Level::Tail { group } => {
            let live = if m.tail_live { " [LIVE]"@ } else { ""@ };
            let t = "logs / "@ + group + " (tail)"@ + live;
            assert(t =~= "logs / "@ + group + (" (tail)"@ + live));
            text::lemma_occurs_between("logs / "@, group, " (tail)"@ + live);
            reveal_strlit(" [LIVE]");
            reveal_strlit("[LIVE]");
            if m.tail_live {
                assert(t.skip(t.len() - "[LIVE]"@.len()) =~= "[LIVE]"@);
            }
        },
        Level::Groups => {},
    }
}

/// The caption of a tail tells its window: how long it is, or from when to when, or up to now.
pub proof fn law_captions_tell_the_window(m: LogsModel, from: i64, to: i64, length: i64)
    ensures
        m.tail_window == LogWindow::Last(length) ==> m.window_label() == window_length_text(length as int),
        m.tail_window == (LogWindow::Range { from, to: Some(to) }) ==> m.window_label() == text::head_of(
            util::instant_text(from as int),
            16,
        ) + "→"@ + text::head_of(util::instant_text(to as int), 16),
        m.tail_window == (LogWindow::Range { from, to: None }) ==> m.window_label() == text::head_of(
            util::instant_text(from as int),
            16,
        ) + "→ahora"@,
{
}

/// A size is shown in the largest unit that it fills, each a thousand and twenty-four of the one
/// before, to a tenth.
pub proof fn law_sizes_are_shown(n: int)
    requires
        0 <= n,
    ensures
        n < 1024 ==> size_text(n) == text::decimal(n as nat) + " B"@,
        1024 <= n < 1024 * 1024 ==> size_text(n) == text::tenths_text(text::tenths(n, 1024)) + " KB"@,
        1024 * 1024 <= n < 1024 * 1024 * 1024 ==> size_text(n) == text::tenths_text(text::tenths(n, 1_048_576))
            + " MB"@,
        1024 * 1024 * 1024 <= n < 1024 * 1024 * 1024 * 1024 ==> size_text(n) == text::tenths_text(
            text::tenths(n, 1_073_741_824),
        ) + " GB"@,
        n >= 1024 * 1024 * 1024 * 1024 ==> size_text(n) == text::tenths_text(text::tenths(n, 1_099_511_627_776))
            + " TB"@,
{
}

/// The keys that move the selection change nothing else and ask for nothing; keys that mean nothing
/// here change nothing at all.
pub proof fn law_moving_changes_nothing_else(m: LogsModel, key: KeyEvent)
    requires
        m.panel is None,
    ensures
        ({
            let (n, actions) = LogsView::keyed(m, key);
            &&& key.code == KeyCode::Char('j') || key.code == KeyCode::Char('k') || key.code == KeyCode::Char('g')
                || key.code == KeyCode::Char('G') || key.code == KeyCode::Down || key.code == KeyCode::Up || key.code
                == KeyCode::Home || key.code == KeyCode::End ==> n == (LogsModel { selected: n.selected, ..m }) && actions.len()
                == 0
            &&& key.code == KeyCode::Tab || key.code == KeyCode::Left || key.code == KeyCode::Right || key.code
                == KeyCode::Backspace || key.code == KeyCode::Other ==> n == m && actions.len() == 0
        }),
{
}

/// What goes to another level by `Enter` starts on its first row and loads; the lists above it and
/// the filter stay.
pub proof fn law_going_in_keeps_what_is_above(m: LogsModel, key: KeyEvent)
    requires
        m.panel is None,
        key.code == KeyCode::Enter,
    ensures
        ({
            let n = LogsView::keyed(m, key).0;
            &&& n.level != m.level ==> n.loading && n.selected == Some(0usize) && n.panel is None
            &&& n.filter == m.filter
            &&& n.groups == m.groups && n.partial == m.partial && n.default_preset == m.default_preset && n.tail_gen == m.tail_gen
            &&& n.level == m.level ==> n == (LogsModel { panel: n.panel, ..m })
        }),
{
}

/// A failure ends the loading and leaves what is shown; so does an answer about something else.
pub proof fn law_failures_leave_what_is_shown(m: LogsModel, message: Message)
    ensures
        message is Error ==> LogsView::informed(m, message) == (LogsModel { loading: false, ..m }),
        message is QueuesLoaded ==> LogsView::informed(m, message) == m,
{
}

/// A view that is activated starts at its root, on the first row, and loads what is there.
pub proof fn law_activation_starts_at_the_root(m: LogsModel)
    ensures
        ({
            let (n, actions) = LogsView::activated(m);
            &&& n.level is Groups
            &&& n.loading
            &&& n.selected == Some(0usize)
            &&& n.filter == m.filter
            &&& n.groups == m.groups
            &&& actions == seq![ActionText::LoadLogGroups { query: None }]
            &&& n.streams.len() == 0 && n.events.len() == 0 && n.next_page is None && n.last_query is None
            &&& !n.tail_live && n.tail_preset == m.default_preset && n.tail_gen == m.tail_gen
            &&& n.tail_window == LogWindow::Last(preset_length(m.default_preset as int))
        }),
{
}

/// The hints announce the keys that do something where one is; for a tail that is followed, how to
/// stop it.
pub proof fn law_hints_announce_what_keys_do(m: LogsModel)
    ensures
        ({
            let h = LogsView::hint_texts(m);
            &&& m.panel is Some ==> h == seq![("j/k"@, "scroll"@), ("y"@, "copiar"@), ("esc"@, "cerrar"@)]
            &&& m.panel is None && m.level is Tail ==> h.len() == 4 && h[0] == ("w"@, "ventana"@) && h[1] == (
                "o"@,
                "más"@,
            ) && h[2].0 == "f"@ && h[3] == (":since"@, "rango"@)
            &&& m.panel is None && m.level is Tail && m.tail_live ==> h[2].1 == "detener"@
            &&& m.panel is None && m.level is Tail && !m.tail_live ==> h[2].1 == "tail -f"@
            &&& m.panel is None && m.level is Events ==> h == seq![("y"@, "copiar línea"@), ("O"@, "consola"@)]
            &&& m.panel is None && (m.level is Groups || m.level is Streams) ==> h == seq![
                ("t"@, "logs por tiempo"@),
                ("y"@, "copiar"@),
                ("O"@, "consola"@),
            ]
        }),
{
}

/// What is shown of a list is counted in its caption: the whole where nothing is filtered, and how
/// many of how many under a filter, which is named.
pub proof fn law_captions_count_what_is_shown(m: LogsModel)
    ensures
        ({
            let (total, shown) = match m.level {
                Level::Groups => (m.groups.len(), list::shown(m.groups, m.filter).len()),
                Level::Streams { .. } => (m.streams.len(), list::shown(m.streams, m.filter).len()),
                _ => (m.events.len(), lines_shown(m.events, m.filter).len()),
            };
            &&& m.filter.len() == 0 ==> text::occurs(m.body_title(), text::decimal(total))
            &&& m.filter.len() > 0 ==> text::occurs(
                m.body_title(),
                text::decimal(shown) + "/"@ + text::decimal(total),
            ) && text::occurs(m.body_title(), " · filtro: "@ + m.filter)
            &&& m.level is Tail ==> text::occurs(m.body_title(), m.window_label())
        }),
{
    let (kind, total) = match m.level {
        Level::Groups => ("log groups"@, m.groups.len()),
        Level::Streams { .. } => ("streams"@, m.streams.len()),
        Level::Events { .. } => ("eventos"@, m.events.len()),
        Level::Tail { .. } => ("líneas"@, m.events.len()),
    };
    let window = if m.level is Tail { " ventana "@ + m.window_label() + " · "@ } else { " "@ };
    let partial = match m.level {
        Level::Groups => if m.partial { " · parcial (/ busca server-side)"@ } else { ""@ },
        Level::Events { .. } => if m.partial { " · parcial (más viejas arriba)"@ } else { ""@ },
        Level::Tail { .. } => if m.partial { " · parcial · o: cargar más"@ } else { ""@ },
        Level::Streams { .. } => if m.streams_partial { " · parcial"@ } else { ""@ },
    };
    let cue = match m.level {
        Level::Groups => " · t: logs por tiempo"@,
        Level::Streams { .. } => " · t: todos los streams por tiempo"@,
        _ => ""@,
    };
    lemma_plain_caption(window, text::decimal(total), kind, partial, cue);
    lemma_filtered_caption(window, text::decimal(m.rows().len()), text::decimal(total), kind, m.filter, partial);
    if m.level is Tail {
        lemma_window_caption(m.window_label(), m.body_title(), if m.filter.len() == 0 {
            text::decimal(total) + " "@ + kind + partial + cue + " "@
        } else {
            text::decimal(m.rows().len()) + "/"@ + text::decimal(total) + " "@ + kind + " · filtro: "@ + m.filter + partial
                + " "@
        });
    }
}

proof fn lemma_plain_caption(window: Text, digits: Text, kind: Text, partial: Text, cue: Text)
    ensures
        text::occurs(window + digits + " "@ + kind + partial + cue + " "@, digits),
        window + digits + " "@ + kind + partial + cue + " "@ == window + (digits + " "@ + kind + partial + cue + " "@),
{
    let rest = " "@ + kind + partial + cue + " "@;
    assert(window + digits + " "@ + kind + partial + cue + " "@ =~= window + digits + rest);
    assert(window + (digits + " "@ + kind + partial + cue + " "@) =~= window + digits + rest);
    text::lemma_occurs_between(window, digits, rest);
}

proof fn lemma_filtered_caption(window: Text, shown: Text, digits: Text, kind: Text, filter: Text, partial: Text)
    ensures
        ({
            let t = window + shown + "/"@ + digits + " "@ + kind + " · filtro: "@ + filter + partial + " "@;
            &&& text::occurs(t, shown + "/"@ + digits)
            &&& text::occurs(t, " · filtro: "@ + filter)
            &&& t == window + (shown + "/"@ + digits + " "@ + kind + " · filtro: "@ + filter + partial + " "@)
        }),
{
    let t = window + shown + "/"@ + digits + " "@ + kind + " · filtro: "@ + filter + partial + " "@;
    let count = shown + "/"@ + digits;
    let rest = " "@ + kind + " · filtro: "@ + filter + partial + " "@;
    assert(t =~= window + count + rest);
    text::lemma_occurs_between(window, count, rest);
    let head = window + count + " "@ + kind;
    let named = " · filtro: "@ + filter;
    assert(t =~= head + named + (partial + " "@));
    text::lemma_occurs_between(head, named, partial + " "@);
    assert(t =~= window + (shown + "/"@ + digits + " "@ + kind + " · filtro: "@ + filter + partial + " "@));
}

proof fn lemma_window_caption(label: Text, t: Text, rest: Text)
    requires
        t == " ventana "@ + label + " · "@ + rest,
    ensures
        text::occurs(t, label),
{
    assert(t =~= " ventana "@ + label + (" · "@ + rest));
    text::lemma_occurs_between(" ventana "@, label, " · "@ + rest);
}

/// The rows of groups and streams tell their size and the instant of their last line, a dash where it
/// is not known.
pub proof fn law_rows_tell_size_and_instant(g: LogGroupDto<Text>, s: LogStreamDto<Text>)
    ensures
        group_texts(g).0 == g.name,
        g.stored_bytes matches Some(n) ==> group_texts(g).1 == "["@ + size_text(n as int) + "]"@,
        g.stored_bytes is None ==> group_texts(g).1 == "["@ + "—"@ + "]"@,
        stream_texts(s).0 == s.name,
        s.last_event_ts matches Some(ts) ==> stream_texts(s).1 == util::instant_text(ts as int),
        s.last_event_ts is None ==> stream_texts(s).1 == "—"@,
{
}

/// `Enter` on a line shows it in full, under its instant and its stream.
pub proof fn law_enter_shows_the_line(m: LogsModel, key: KeyEvent, row: int)
    requires
        m.panel is None,
        m.level is Events || m.level is Tail,
        is_selected_row(m, row),
        key.code == KeyCode::Enter,
    ensures
        ({
            let e = m.events[row];
            let when = match e.ts {
                Some(ts) => util::instant_text(ts as int),
                None => "—"@,
            };
            LogsView::keyed(m, key) == (
                LogsModel {
                    panel: Some(
                        DetailPanel {
                            title: match e.stream {
                                Some(s) => when + " · "@ + s@,
                                None => when,
                            },
                            raw: e.message@,
                            scroll: 0,
                        },
                    ),
                    ..m
                },
                Seq::<ActionText>::empty(),
            )
        }),
{
}

/// A list that is not whole is marked in its caption, with the key that loads more of it.
pub proof fn law_captions_mark_what_is_not_whole(m: LogsModel)
    requires
        m.filter.len() == 0,
    ensures
        m.level is Groups && m.partial ==> m.body_title() == " "@ + text::decimal(m.groups.len()) + " "@ + "log groups"@
            + " · parcial (/ busca server-side)"@ + " · t: logs por tiempo"@ + " "@,
        m.level is Streams && m.streams_partial ==> m.body_title() == " "@ + text::decimal(m.streams.len()) + " "@
            + "streams"@ + " · parcial"@ + " · t: todos los streams por tiempo"@ + " "@,
        m.level is Events && m.partial ==> m.body_title() == " "@ + text::decimal(m.events.len()) + " "@ + "eventos"@
            + " · parcial (más viejas arriba)"@ + ""@ + " "@,
        m.level is Tail && m.partial ==> m.body_title() == " ventana "@ + m.window_label() + " · "@ + text::decimal(
            m.events.len(),
        ) + " "@ + "líneas"@ + " · parcial · o: cargar más"@ + ""@ + " "@,
{
}

/// A tail that nobody chose a window for goes back one hour.
pub proof fn law_the_first_window_is_an_hour()
    ensures
        preset_length(DEFAULT_PRESET as int) == 60 * 60 * 1000,
        DEFAULT_PRESET < PRESETS,
{
}

/// `Esc` leaves the lists above as they are and shows them from their first row; from a tail or from
/// streams that were searched for, the groups are asked for again without a search.
pub proof fn law_esc_keeps_what_is_above(m: LogsModel, key: KeyEvent)
    requires
        m.panel is None,
        key.code == KeyCode::Esc,
    ensures
        ({
            let (n, actions) = LogsView::keyed(m, key);
            match m.level {
                Level::Events { group, .. } => {
                    &&& n == (LogsModel { level: Level::Streams { group }, loading: false, selected: n.selected, ..m })
                    &&& 0 < list::shown(m.streams, m.filter).len() <= usize::MAX ==> n.selected == Some(0usize)
                    &&& actions.len() == 0
                },
                Level::Groups => n == m && actions == seq![ActionText::Back],
                _ => {
                    &&& n == (LogsModel {
                        level: Level::Groups,
                        tail_live: false,
                        last_query: None,
                        loading: m.last_query is Some,
                        selected: n.selected,
                        ..m
                    })
                    &&& 0 < list::shown(m.groups, m.filter).len() <= usize::MAX ==> n.selected == Some(0usize)
                    &&& m.last_query is Some ==> actions == seq![ActionText::LoadLogGroups { query: None }]
                    &&& m.last_query is None ==> actions.len() == 0
                },
            }
        }),
{
}

/// A key changes what it is about and nothing else: going in forgets what was known of the one before,
/// asking again leaves the list until the answer comes, and a fresh query of a tail empties it.
pub proof fn law_keys_change_what_they_are_about(m: LogsModel, key: KeyEvent)
    requires
        m.panel is None,
    ensures
        ({
            let n = LogsView::keyed(m, key).0;
            &&& key.code == KeyCode::Enter && m.level is Groups && n.level != m.level ==> n == (LogsModel {
                level: n.level,
                streams: Seq::empty(),
                streams_partial: false,
                loading: true,
                selected: Some(0usize),
                ..m
            })
            &&& key.code == KeyCode::Enter && m.level is Streams && n.level != m.level ==> n == (LogsModel {
                level: n.level,
                events: Seq::empty(),
                next_page: None,
                loading: true,
                selected: Some(0usize),
                ..m
            })
            &&& key.code == KeyCode::Char('r') && !(m.level is Tail) ==> n == (LogsModel { loading: true, ..m })
            &&& key.code == KeyCode::Char('r') && m.level is Tail ==> n == (LogsModel {
                events: Seq::empty(),
                next_page: None,
                selected: Some(0usize),
                tail_gen: m.tail_gen.wrapping_add(1),
                live_refresh: false,
                loading: true,
                ..m
            })
            &&& key.code == KeyCode::Char('o') && m.level is Events && m.next_page is Some ==> n == (LogsModel {
                loading: true,
                ..m
            })
            &&& key.code == KeyCode::Char('o') && m.level is Tail && m.next_page is Some ==> n == (LogsModel {
                live_refresh: false,
                loading: true,
                ..m
            })
            &&& key.code == KeyCode::Char('f') && m.level is Tail && m.tail_live ==> n == (LogsModel {
                tail_live: false,
                ..m
            })
            &&& key.code == KeyCode::Char('f') && m.level is Tail && !m.tail_live ==> n == (LogsModel {
                tail_live: true,
                tail_gen: m.tail_gen.wrapping_add(1),
                live_refresh: false,
                loading: true,
                ..m
            })
            &&& key.code == KeyCode::Char('t') && n != m ==> n == (LogsModel {
                level: n.level,
                events: Seq::empty(),
                tail_window: n.tail_window,
                tail_preset: m.default_preset,
                next_page: None,
                tail_live: false,
                last_query: None,
                selected: Some(0usize),
                tail_gen: m.tail_gen.wrapping_add(1),
                live_refresh: false,
                loading: true,
                ..m
            })
            &&& (key.code == KeyCode::Char('w') || key.code == KeyCode::Char('W')) && m.level is Tail ==> n == (LogsModel {
                tail_preset: n.tail_preset,
                tail_window: n.tail_window,
                events: Seq::empty(),
                next_page: None,
                selected: Some(0usize),
                tail_gen: m.tail_gen.wrapping_add(1),
                live_refresh: false,
                loading: true,
                ..m
            })
            &&& (key.code == KeyCode::Char('w') || key.code == KeyCode::Char('W') || key.code == KeyCode::Char('f')) && !(
            m.level is Tail) ==> n == m
        }),
{
}

/// An answer changes what it is about and nothing else.
pub proof fn law_answers_change_what_they_are_about(m: LogsModel, message: Message)
    ensures
        ({
            let n = LogsView::informed(m, message);
            match message {
                Message::LogGroupsLoaded { groups, more, .. } => n == m || n == (LogsModel {
                    groups: groups@,
                    partial: more,
                    loading: if m.level is Groups { false } else { m.loading },
                    selected: n.selected,
                    ..m
                }) && (!(m.level is Groups) ==> n.selected == m.selected),
                Message::LogStreamsLoaded { streams, more, .. } => n == m || n == (LogsModel {
                    streams: streams@,
                    streams_partial: more,
                    loading: false,
                    selected: n.selected,
                    ..m
                }),
                Message::LogEventsLoaded { events, next_token, append, .. } => n == m || n == (LogsModel {
                    events: if append { events@ + m.events } else { events@ },
                    next_page: next_token.deep_view(),
                    partial: next_token is Some,
                    loading: false,
                    selected: n.selected,
                    ..m
                }),
                Message::LogTailLoaded { events, next_token, append, .. } => n == m || n == (LogsModel {
                    events: if append { m.events + events@ } else { events@ },
                    next_page: next_token.deep_view(),
                    partial: next_token is Some,
                    loading: false,
                    live_refresh: false,
                    selected: n.selected,
                    ..m
                }),
                _ => n == (LogsModel { loading: n.loading, ..m }),
            }
        }),
{
}

/// A search, a context and a tick change what they are about and nothing else.
pub proof fn law_other_steps_change_what_they_are_about(m: LogsModel, query: Text, group: Text, window: LogWindow)
    ensures
        m.level is Groups ==> ({
            let n = LogsView::searched(m, query).0;
            n == (LogsModel { last_query: n.last_query, loading: true, ..m })
        }),
        ({
            let n = LogsView::opened(m, ViewContext::LogGroupTail { group, window }).0;
            n == (LogsModel {
                level: Level::Tail { group },
                events: Seq::empty(),
                tail_window: window,
                tail_preset: m.default_preset,
                next_page: None,
                tail_live: false,
                last_query: None,
                selected: Some(0usize),
                tail_gen: m.tail_gen.wrapping_add(1),
                live_refresh: false,
                loading: true,
                ..m
            })
        }),
        ({
            let n = LogsView::opened(m, ViewContext::Favorite { key: group }).0;
            n == (LogsModel {
                level: Level::Streams { group },
                streams: Seq::empty(),
                streams_partial: false,
                loading: true,
                selected: Some(0usize),
                ..m
            })
        }),
        !m.tail_live || !(m.level is Tail) ==> LogsView::ticked(m) == (m, Seq::<ActionText>::empty()),
{
}

/// While a tail is followed, a reader on the last row goes on to the new last row, and a reader on any
/// row above it stays there, as long as there is such a row.
pub proof fn law_only_readers_at_the_end_go_on(m: LogsModel, message: Message, row: usize)
    requires
        m.selected == Some(row),
        m.live_refresh,
        message matches Message::LogTailLoaded { group, append, generation, .. } && m.level == (Level::Tail {
            group: group@,
        }) && !append && generation == m.tail_gen,
    ensures
        message matches Message::LogTailLoaded { events, .. } && ({
            let n = LogsView::informed(m, message);
            let before = lines_shown(m.events, m.filter).len();
            let after = lines_shown(events@, m.filter).len();
            &&& row + 1 < before && row < after <= usize::MAX ==> n.selected == Some(row)
            &&& row + 1 < before && 0 < after <= row ==> n.selected == Some((after - 1) as usize)
            &&& row + 1 >= before && 0 < after <= usize::MAX ==> n.selected == Some((after - 1) as usize)
        }),
{
}

} // verus!
