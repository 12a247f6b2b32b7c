//! Helpers shared by the views: times in and out of text, and the fuzzy ranking of lists.

use vstd::prelude::*;

use crate::calendar;
use crate::calendar::{civil_from_days, days_from_civil, days_in_month, floor_div};
use crate::text;

verus! {

// --- instants to text ------------------------------------------------------------------------

/// `HH:MM:SS` of a second of the day.
pub open spec fn clock_text(second: int) -> Seq<char> {
    text::int_padded(second / 3600, 2) + ":"@ + text::int_padded((second % 3600) / 60, 2) + ":"@ + text::int_padded(second % 60, 2)
}

/// `YYYY-MM-DD HH:MM:SSZ` (UTC) of an instant in milliseconds since the epoch.
pub open spec fn instant_text(ms: int) -> Seq<char> {
    let second = ms / 1000;
    let (y, m, d) = calendar::date_of(second / 86_400);
    text::int_padded(y, 4) + "-"@ + text::int_padded(m, 2) + "-"@ + text::int_padded(d, 2) + " "@ + clock_text(second % 86_400)
        + "Z"@
}

fn clock_of(second: i64) -> (r: String)
    requires
        0 <= second < 86_400,
    ensures
        r@ == clock_text(second as int),
{
    let mut out = text::padded_text(second / 3600, 2);
    out.append(":");
    out.append(text::padded_text((second % 3600) / 60, 2).as_str());
    out.append(":");
    out.append(text::padded_text(second % 60, 2).as_str());
    out
}

/// Milliseconds since the epoch as `YYYY-MM-DD HH:MM:SSZ` (UTC).
pub fn fmt_epoch_millis(ms: i64) -> (r: String)
    ensures
        r@ == instant_text(ms as int),
{
    let second: i64 = floor_div(ms, 1000);
    let day: i64 = floor_div(second, 86_400);
    let of_day: i64 = second - day * 86_400;
    let (y, m, d) = civil_from_days(day);
    let mut out = text::padded_text(y, 4);
    out.append("-");
    out.append(text::padded_text(m as i64, 2).as_str());
    out.append("-");
    out.append(text::padded_text(d as i64, 2).as_str());
    out.append(" ");
    out.append(clock_of(of_day).as_str());
    out.append("Z");
    out
}

/// Milliseconds since the epoch as `HH:MM:SS` (UTC), for lists where the date would waste room.
pub fn fmt_clock_millis(ms: i64) -> (r: String)
    ensures
        r@ == clock_text((ms as int / 1000) % 86_400),
{
    let second: i64 = floor_div(ms, 1000);
    let of_day: i64 = second - floor_div(second, 86_400) * 86_400;
    clock_of(of_day)
}

// --- durations and instants from text ---------------------------------------------------------

/// Milliseconds in a unit of time: `m`/`min`, `h`, `d` or `w`.
pub open spec fn unit_millis(unit: Seq<char>) -> Option<int> {
    if unit == "m"@ || unit == "min"@ {
        Some(60_000)
    } else if unit == "h"@ {
        Some(3_600_000)
    } else if unit == "d"@ {
        Some(86_400_000)
    } else if unit == "w"@ {
        Some(604_800_000)
    } else {
        None
    }
}

/// The predicate of the ASCII letters.
pub open spec fn ascii_letters() -> spec_fn(char) -> bool {
    |c: char| text::is_ascii_letter(c)
}

/// The duration that `<n><unit>` stands for, in milliseconds: a positive number, then a unit,
/// with whitespace allowed around both.  A duration past the `i64` range is no duration.
pub open spec fn duration_value(s: Seq<char>) -> Option<int> {
    let t = text::trimmed(s);
    let at = text::first_where(t, ascii_letters());
    if at >= t.len() {
        None
    } else {
        match (text::i64_value(text::trimmed(t.take(at))), unit_millis(text::trimmed(t.skip(at)))) {
            (Some(n), Some(unit)) => if n > 0 && n * unit <= i64::MAX {
                Some(n * unit)
            } else {
                None
            },
            _ => None,
        }
    }
}

fn unit_of(unit: &str) -> (r: Option<i64>)
    ensures
        match r {
            Some(ms) => unit_millis(unit@) == Some(ms as int),
            None => unit_millis(unit@) is None,
        },
        r matches Some(ms) ==> 60_000 <= ms <= 604_800_000,
{
    if text::same(unit, "m") || text::same(unit, "min") {
        Some(60_000)
    } else if text::same(unit, "h") {
        Some(3_600_000)
    } else if text::same(unit, "d") {
        Some(86_400_000)
    } else if text::same(unit, "w") {
        Some(604_800_000)
    } else {
        None
    }
}

/// Reads a duration such as `30m`, `6h`, `2d` or `1w`, in milliseconds.
pub fn parse_duration(s: &str) -> (r: Option<i64>)
    ensures
        match r {
            Some(ms) => duration_value(s@) == Some(ms as int),
            None => duration_value(s@) is None,
        },
{
    let t = text::trim(s);
    let v = text::chars_of(t.as_str());
    let mut at: usize = 0;
    while at < v.len() && !(('a' <= v[at] && v[at] <= 'z') || ('A' <= v[at] && v[at] <= 'Z'))
        invariant
            at <= v@.len(),
            forall|k: int| 0 <= k < at ==> !text::is_ascii_letter(v@[k]),
        decreases v@.len() - at,
    {
        at = at + 1;
    }
    proof {
        assert forall|k: int| 0 <= k < at implies !ascii_letters()(#[trigger] v@[k]) by {
            assert(!text::is_ascii_letter(v@[k]));
        }
        text::lemma_first_where_unique(v@, ascii_letters(), at as int);
        assert(v@.subrange(0, at as int) =~= v@.take(at as int));
        assert(v@.subrange(at as int, v@.len() as int) =~= v@.skip(at as int));
    }
    if at == v.len() {
        return None;
    }
    let number = text::trim_range(&v, 0, at);
    let unit = text::trim_range(&v, at, v.len());
    match (text::parse_i64(number.as_str()), unit_of(unit.as_str())) {
        (Some(n), Some(ms)) => {
            if n <= 0 {
                None
            } else {
                let total: i128 = mul_wide(n, ms);
                if total <= 9_223_372_036_854_775_807 {
                    Some(total as i64)
                } else {
                    None
                }
            }
        },
        _ => None,
    }
}

fn mul_wide(a: i64, b: i64) -> (r: i128)
    ensures
        r == a * b,
{
    proof {
        assert(-170141183460469231731687303715884105728 <= a * b <= 170141183460469231731687303715884105727)
            by (nonlinear_arith)
            requires
                -9223372036854775808 <= a <= 9223372036854775807,
                -9223372036854775808 <= b <= 9223372036854775807,
        ;
    }
    (a as i128) * (b as i128)
}

/// Separates a date from a time of day.
pub open spec fn date_separator() -> spec_fn(char) -> bool {
    |c: char| c == 'T' || c == ' '
}

/// `(year, month, day)` of a `YYYY-MM-DD` text that names a day of the calendar.
pub open spec fn date_value(s: Seq<char>) -> Option<(int, int, int)> {
    let parts = text::split_on(s, '-');
    if parts.len() != 3 {
        None
    } else {
        match (text::i64_value(parts[0]), text::i64_value(parts[1]), text::i64_value(parts[2])) {
            (Some(y), Some(m), Some(d)) => if calendar::is_date(y, m, d) {
                Some((y, m, d))
            } else {
                None
            },
            _ => None,
        }
    }
}

/// Second of the day that `HH:MM` or `HH:MM:SS` stands for.
pub open spec fn time_value(s: Seq<char>) -> Option<int> {
    let parts = text::split_on(s, ':');
    if parts.len() == 2 || parts.len() == 3 {
        let second = if parts.len() == 3 { text::i64_value(parts[2]) } else { Some(0) };
        match (text::i64_value(parts[0]), text::i64_value(parts[1]), second) {
            (Some(h), Some(m), Some(sec)) => if 0 <= h <= 23 && 0 <= m <= 59 && 0 <= sec <= 59 {
                Some(h * 3600 + m * 60 + sec)
            } else {
                None
            },
            _ => None,
        }
    } else {
        None
    }
}

/// The instant that a date and second of the day stand for, in milliseconds since the epoch.  An
/// instant past the `i64` range is no instant.
pub open spec fn instant_of(date: Option<(int, int, int)>, second: Option<int>) -> Option<int> {
    match (date, second) {
        (Some((y, m, d)), Some(sec)) => {
            let ms = (calendar::epoch_day(y, m, d) * 86_400 + sec) * 1000;
            if i64::MIN <= ms <= i64::MAX { Some(ms) } else { None }
        },
        _ => None,
    }
}

/// The instant (UTC) that a text stands for: a date, or a date, a `T` or a space, and a time.
pub open spec fn datetime_value(s: Seq<char>) -> Option<int> {
    let t = text::trimmed(s);
    let at = text::first_where(t, date_separator());
    if at >= t.len() {
        instant_of(date_value(t), Some(0))
    } else {
        let time = text::trimmed(t.skip(at + 1));
        instant_of(date_value(t.take(at)), if time.len() == 0 { Some(0) } else { time_value(time) })
    }
}

fn date_parts(s: &str) -> (r: Option<(i64, i64, i64)>)
    ensures
        match r {
            Some((y, m, d)) => date_value(s@) == Some((y as int, m as int, d as int)),
            None => date_value(s@) is None,
        },
        r matches Some((y, m, d)) ==> calendar::is_date(y as int, m as int, d as int),
{
    let parts = text::split(s, '-');
    proof {
        assert(parts@.len() == parts.deep_view().len());
        assert(forall|i: int| 0 <= i < parts@.len() ==> parts.deep_view()[i] == (#[trigger] parts@[i])@);
    }
    if parts.len() != 3 {
        return None;
    }
    let year = text::parse_i64(parts[0].as_str());
    let month = text::parse_i64(parts[1].as_str());
    let day = text::parse_i64(parts[2].as_str());
    match (year, month, day) {
        (Some(y), Some(m), Some(d)) => {
            if 1 <= m && m <= 12 && 1 <= d && d <= days_in_month(y, m) {
                Some((y, m, d))
            } else {
                None
            }
        },
        _ => None,
    }
}

fn time_second(s: &str) -> (r: Option<i64>)
    ensures
        match r {
            Some(second) => time_value(s@) == Some(second as int),
            None => time_value(s@) is None,
        },
        r matches Some(second) ==> 0 <= second < 86_400,
{
    let parts = text::split(s, ':');
    proof {
        assert(parts@.len() == parts.deep_view().len());
        assert(forall|i: int| 0 <= i < parts@.len() ==> parts.deep_view()[i] == (#[trigger] parts@[i])@);
    }
    if parts.len() != 2 && parts.len() != 3 {
        return None;
    }
    let hour = text::parse_i64(parts[0].as_str());
    let minute = text::parse_i64(parts[1].as_str());
    let second = if parts.len() == 3 { text::parse_i64(parts[2].as_str()) } else { Some(0) };
    match (hour, minute, second) {
        (Some(h), Some(m), Some(sec)) => {
            if 0 <= h && h <= 23 && 0 <= m && m <= 59 && 0 <= sec && sec <= 59 {
                Some(h * 3600 + m * 60 + sec)
            } else {
                None
            }
        },
        _ => None,
    }
}

/// Years this far from the epoch have no instant in the `i64` range.
proof fn lemma_year_out_of_range(y: int, m: int, d: int, sec: int)
    requires
        calendar::is_date(y, m, d),
        0 <= sec < 86_400,
        y < -300_000_000 || y > 300_000_000,
    ensures
        !(i64::MIN <= (calendar::epoch_day(y, m, d) * 86_400 + sec) * 1000 <= i64::MAX),
{
}

fn instant_millis(date: Option<(i64, i64, i64)>, second: Option<i64>) -> (r: Option<i64>)
    requires
        date matches Some((y, m, d)) ==> calendar::is_date(y as int, m as int, d as int),
        second matches Some(sec) ==> 0 <= sec < 86_400,
    ensures
        ({
            let wide_date = match date {
                Some((y, m, d)) => Some((y as int, m as int, d as int)),
                None => None,
            };
            let wide_second = match second {
                Some(sec) => Some(sec as int),
                None => None,
            };
            match r {
                Some(ms) => instant_of(wide_date, wide_second) == Some(ms as int),
                None => instant_of(wide_date, wide_second) is None,
            }
        }),
{
    match (date, second) {
        (Some((y, m, d)), Some(sec)) => {
            if y < -300_000_000 || y > 300_000_000 {
                proof {
                    lemma_year_out_of_range(y as int, m as int, d as int, sec as int);
                }
                return None;
            }
            let days: i64 = days_from_civil(y, m, d);
            let ms: i128 = (days as i128 * 86_400 + sec as i128) * 1000;
            if -9_223_372_036_854_775_808 <= ms && ms <= 9_223_372_036_854_775_807 {
                Some(ms as i64)
            } else {
                None
            }
        },
        _ => None,
    }
}

/// Reads an instant (UTC): `YYYY-MM-DD` for midnight, or that followed by `T` or a space and
/// `HH:MM[:SS]`; in milliseconds since the epoch.  `None` where the text is neither, or names a day
/// that its month does not have, a time of day that does not exist, or an instant past the `i64`
/// range.
pub fn parse_datetime(s: &str) -> (r: Option<i64>)
    ensures
        match r {
            Some(ms) => datetime_value(s@) == Some(ms as int),
            None => datetime_value(s@) is None,
        },
{
    let t = text::trim(s);
    let v = text::chars_of(t.as_str());
    let mut at: usize = 0;
    while at < v.len() && v[at] != 'T' && v[at] != ' '
        invariant
            at <= v@.len(),
            forall|k: int| 0 <= k < at ==> v@[k] != 'T' && v@[k] != ' ',
        decreases v@.len() - at,
    {
        at = at + 1;
    }
    proof {
        assert forall|k: int| 0 <= k < at implies !date_separator()(#[trigger] v@[k]) by {
            assert(v@[k] != 'T' && v@[k] != ' ');
        }
        text::lemma_first_where_unique(v@, date_separator(), at as int);
        assert(v@.subrange(0, at as int) =~= v@.take(at as int));
        assert(at == v@.len() ==> v@.take(at as int) =~= v@);
    }
    let date = date_parts(text::text_of(&v, 0, at).as_str());
    if at == v.len() {
        return instant_millis(date, Some(0));
    }
    proof {
        assert(v@.subrange(at as int + 1, v@.len() as int) =~= v@.skip(at as int + 1));
    }
    let time = text::trim_range(&v, at + 1, v.len());
    let second = if time.as_str().is_empty() { Some(0) } else { time_second(time.as_str()) };
    instant_millis(date, second)
}

proof fn lemma_trimmed(s: Seq<char>)
    requires
        s.len() > 0,
        !text::is_space(s[0]),
        !text::is_space(s.last()),
    ensures
        text::trimmed(s) == s,
{
}

/// A positive number of minutes, hours, days or weeks that is written in decimal with its unit is
/// read back as that duration.
pub proof fn law_durations_are_read_back(n: int, unit: char, ms: int)
    requires
        unit == 'm' || unit == 'h' || unit == 'd' || unit == 'w',
        unit_millis(seq![unit]) == Some(ms),
        0 < n <= i64::MAX,
        n * ms <= i64::MAX,
    ensures
        duration_value(text::int_text(n).push(unit)) == Some(n * ms),
{
    let digits = text::int_text(n);
    let t = digits.push(unit);
    text::law_numbers_are_read_back(n);
    text::law_padded_numbers_are_read_back(n, 0);
    lemma_trimmed(t);
    lemma_trimmed(digits);
    lemma_trimmed(seq![unit]);
    assert forall|k: int| 0 <= k < digits.len() implies !ascii_letters()(#[trigger] t[k]) by {
        assert(t[k] == digits[k]);
    }
    text::lemma_first_where_unique(t, ascii_letters(), digits.len() as int);
    assert(t.take(digits.len() as int) =~= digits);
    assert(t.skip(digits.len() as int) =~= seq![unit]);
}

proof fn lemma_no_separator(s: Seq<char>, sep: char)
    requires
        text::all_digits(s),
        !text::is_digit(sep),
    ensures
        !s.contains(sep),
{
}

/// Three numbers with separators between them are read part by part.
proof fn lemma_three_parts(a: Seq<char>, b: Seq<char>, c: Seq<char>, sep: char)
    requires
        text::all_digits(a),
        text::all_digits(b),
        text::all_digits(c),
        !text::is_digit(sep),
    ensures
        text::split_on(a + seq![sep] + b + seq![sep] + c, sep) == seq![a, b, c],
{
    lemma_no_separator(a, sep);
    lemma_no_separator(b, sep);
    lemma_no_separator(c, sep);
    let rest = b + seq![sep] + c;
    assert(a + seq![sep] + b + seq![sep] + c =~= a + seq![sep] + rest);
    text::lemma_split_first(a, sep, rest);
    text::lemma_split_first(b, sep, c);
    text::lemma_split_first(c, sep, Seq::empty());
    assert(seq![a] + (seq![b] + seq![c]) =~= seq![a, b, c]);
}

proof fn lemma_clock_read_back(second: int)
    requires
        0 <= second < 86_400,
    ensures
        time_value(clock_text(second)) == Some(second),
        clock_text(second).len() > 0,
        text::is_digit(clock_text(second)[0]),
        text::is_digit(clock_text(second).last()),
{
    reveal_strlit(":");
    assert(":"@ =~= seq![':']);
    let h = text::int_padded(second / 3600, 2);
    let m = text::int_padded((second % 3600) / 60, 2);
    let s = text::int_padded(second % 60, 2);
    text::law_padded_numbers_are_read_back(second / 3600, 2);
    text::law_padded_numbers_are_read_back((second % 3600) / 60, 2);
    text::law_padded_numbers_are_read_back(second % 60, 2);
    lemma_three_parts(h, m, s, ':');
    assert(clock_text(second)[0] == h[0]);
    assert(clock_text(second).last() == s.last());
}

/// An instant from the year 0 on that is written and read again, without its zone, is the same
/// instant to the second.
pub proof fn law_instants_are_read_back(ms: int)
    requires
        i64::MIN <= ms <= i64::MAX,
        calendar::date_of(ms / 1000 / 86_400).0 >= 0,
    ensures
        datetime_value(instant_text(ms).drop_last()) == Some(ms - ms % 1000),
{
    let second = ms / 1000;
    let day = second / 86_400;
    let (y, m, d) = calendar::date_of(day);
    calendar::law_every_day_has_a_date(day);
    reveal_strlit("-");
    reveal_strlit(" ");
    reveal_strlit("Z");
    assert("-"@ =~= seq!['-']);
    let ys = text::int_padded(y, 4);
    let ms2 = text::int_padded(m, 2);
    let ds = text::int_padded(d, 2);
    let clock = clock_text(second % 86_400);
    text::law_padded_numbers_are_read_back(y, 4);
    text::law_padded_numbers_are_read_back(m, 2);
    text::law_padded_numbers_are_read_back(d, 2);
    lemma_clock_read_back(second % 86_400);
    let date = ys + "-"@ + ms2 + "-"@ + ds;
    lemma_three_parts(ys, ms2, ds, '-');
    let t = instant_text(ms).drop_last();
    assert(t =~= date + " "@ + clock);
    assert(t[0] == ys[0]);
    assert(t.last() == clock.last());
    lemma_trimmed(t);
    lemma_trimmed(clock);
    assert forall|k: int| 0 <= k < date.len() implies !date_separator()(#[trigger] t[k]) by {
        assert(t[k] == date[k]);
        if k < ys.len() {
            assert(date[k] == ys[k]);
        } else if ys.len() < k < ys.len() + 1 + ms2.len() {
            assert(date[k] == ms2[k - ys.len() - 1]);
        } else if k > ys.len() + 1 + ms2.len() {
            assert(date[k] == ds[k - ys.len() - 2 - ms2.len()]);
        }
    }
    assert(t[date.len() as int] == ' ');
    text::lemma_first_where_unique(t, date_separator(), date.len() as int);
    assert(t.take(date.len() as int) =~= date);
    assert(t.skip(date.len() as int + 1) =~= clock);
}

/// The clock of an instant is the tail of its full text.
pub proof fn law_clocks_are_tails_of_instants(ms: int)
    ensures
        text::has_suffix(instant_text(ms), clock_text((ms / 1000) % 86_400) + "Z"@),
{
    let tail = clock_text((ms / 1000) % 86_400) + "Z"@;
    let whole = instant_text(ms);
    assert(whole.skip(whole.len() - tail.len()) =~= tail);
}

// --- fuzzy matching --------------------------------------------------------------------------

/// A match at position `i` starts a segment of the name.
pub open spec fn starts_segment(hay: Seq<char>, i: int) -> bool {
    i == 0 || hay[i - 1] == '-' || hay[i - 1] == '_' || hay[i - 1] == '/' || hay[i - 1] == '.' || hay[i - 1] == ' '
        || hay[i - 1] == ':'
}

/// What a match at position `i` is worth, when the match before it stands at `prev`.
pub open spec fn match_worth(hay: Seq<char>, i: int, prev: Option<int>) -> int {
    (if starts_segment(hay, i) { 15int } else { 0int }) + (if prev == Some(i - 1) { 10int } else { 0int }) - i / 4
}

/// Score of matching `needle`, character by character and each as early as possible, in `hay`
/// from position `i` on; letters match whatever their ASCII case.
pub open spec fn score_from(hay: Seq<char>, needle: Seq<char>, i: int, prev: Option<int>) -> Option<int>
    decreases hay.len() - i,
{
    if needle.len() == 0 {
        Some(0)
    } else if i < 0 || i >= hay.len() {
        None
    } else if text::ascii_lower(hay[i]) == text::ascii_lower(needle[0]) {
        match score_from(hay, needle.skip(1), i + 1, Some(i)) {
            Some(rest) => Some(match_worth(hay, i, prev) + rest),
            None => None,
        }
    } else {
        score_from(hay, needle, i + 1, prev)
    }
}

/// A score brought into the range of `i32`.
pub open spec fn in_range(score: int) -> int {
    if score < i32::MIN {
        i32::MIN as int
    } else if score > i32::MAX {
        i32::MAX as int
    } else {
        score
    }
}

/// Score of `needle` in `hay`; higher is better, `None` where `needle` is no subsequence.
pub open spec fn fuzzy(hay: Seq<char>, needle: Seq<char>) -> Option<int> {
    match score_from(hay, needle, 0, None) {
        Some(score) => Some(in_range(score)),
        None => None,
    }
}

/// `at` lists, in increasing order, positions of `hay` that spell `needle` up to ASCII case.
pub open spec fn spells(hay: Seq<char>, needle: Seq<char>, at: Seq<int>) -> bool {
    &&& at.len() == needle.len()
    &&& forall|k: int| 0 <= k < at.len() ==> 0 <= #[trigger] at[k] < hay.len() && text::ascii_lower(hay[at[k]])
        == text::ascii_lower(needle[k])
    &&& forall|j: int, k: int| 0 <= j < k < at.len() ==> #[trigger] at[j] < #[trigger] at[k]
}

/// `needle` is a subsequence of `hay` up to ASCII case.
pub open spec fn is_subsequence(hay: Seq<char>, needle: Seq<char>) -> bool {
    exists|at: Seq<int>| spells(hay, needle, at)
}

proof fn lemma_score_finds(hay: Seq<char>, needle: Seq<char>, i: int, prev: Option<int>, at: Seq<int>)
    requires
        0 <= i,
        spells(hay, needle, at),
        at.len() > 0 ==> at[0] >= i,
    ensures
        score_from(hay, needle, i, prev) is Some,
    decreases hay.len() - i,
{
    if needle.len() > 0 {
        assert(0 <= at[0] < hay.len());
        if text::ascii_lower(hay[i]) == text::ascii_lower(needle[0]) {
            let rest = at.skip(1);
            assert(spells(hay, needle.skip(1), rest)) by {
                assert forall|k: int| 0 <= k < rest.len() implies 0 <= #[trigger] rest[k] < hay.len()
                    && text::ascii_lower(hay[rest[k]]) == text::ascii_lower(needle.skip(1)[k]) by {
                    assert(rest[k] == at[k + 1]);
                }
                assert forall|j: int, k: int| 0 <= j < k < rest.len() implies #[trigger] rest[j]
                    < #[trigger] rest[k] by {
                    assert(at[j + 1] < at[k + 1]);
                }
            }
            if rest.len() > 0 {
                assert(at[0] < at[1]);
            }
            lemma_score_finds(hay, needle.skip(1), i + 1, Some(i), rest);
        } else {
            lemma_score_finds(hay, needle, i + 1, prev, at);
        }
    }
}

proof fn lemma_score_spells(hay: Seq<char>, needle: Seq<char>, i: int, prev: Option<int>) -> (at: Seq<int>)
    requires
        0 <= i,
        score_from(hay, needle, i, prev) is Some,
    ensures
        spells(hay, needle, at),
        forall|k: int| 0 <= k < at.len() ==> #[trigger] at[k] >= i,
    decreases hay.len() - i,
{
    if needle.len() == 0 {
        Seq::empty()
    } else if text::ascii_lower(hay[i]) == text::ascii_lower(needle[0]) {
        let rest = lemma_score_spells(hay, needle.skip(1), i + 1, Some(i));
        let at = seq![i] + rest;
        assert(spells(hay, needle, at)) by {
            assert forall|k: int| 0 <= k < at.len() implies 0 <= #[trigger] at[k] < hay.len() && text::ascii_lower(
                hay[at[k]],
            ) == text::ascii_lower(needle[k]) by {
                if k > 0 {
                    assert(at[k] == rest[k - 1]);
                    assert(needle.skip(1)[k - 1] == needle[k]);
                }
            }
            assert forall|j: int, k: int| 0 <= j < k < at.len() implies #[trigger] at[j] < #[trigger] at[k] by {
                assert(at[k] == rest[k - 1]);
                if j > 0 {
                    assert(at[j] == rest[j - 1]);
                }
            }
        }
        at
    } else {
        lemma_score_spells(hay, needle, i + 1, prev)
    }
}

/// A needle scores exactly where it is a subsequence of the haystack, whatever the ASCII case.
pub proof fn law_fuzzy_is_subsequence(hay: Seq<char>, needle: Seq<char>)
    ensures
        fuzzy(hay, needle) is Some <==> is_subsequence(hay, needle),
{
    if is_subsequence(hay, needle) {
        let at = choose|at: Seq<int>| spells(hay, needle, at);
        if at.len() > 0 {
            assert(0 <= at[0]);
        }
        lemma_score_finds(hay, needle, 0, None, at);
    }
    if fuzzy(hay, needle) is Some {
        let at = lemma_score_spells(hay, needle, 0, None);
        assert(spells(hay, needle, at));
    }
}

proof fn lemma_shifted_score(pad: Seq<char>, hay: Seq<char>, needle: Seq<char>, i: int, prev: Option<int>)
    requires
        0 <= i,
        prev matches Some(p) ==> 0 <= p < i,
    ensures
        ({
            let later = match prev {
                Some(p) => Some(p + pad.len()),
                None => None,
            };
            match (score_from(hay, needle, i, prev), score_from(pad + hay, needle, i + pad.len(), later)) {
                (Some(a), Some(b)) => a >= b,
                (None, None) => true,
                _ => false,
            }
        }),
    decreases hay.len() - i,
{
    if needle.len() > 0 && i < hay.len() {
        assert((pad + hay)[i + pad.len()] == hay[i]);
        if i > 0 {
            assert((pad + hay)[i + pad.len() - 1] == hay[i - 1]);
        }
        if text::ascii_lower(hay[i]) == text::ascii_lower(needle[0]) {
            lemma_shifted_score(pad, hay, needle.skip(1), i + 1, Some(i));
        } else {
            lemma_shifted_score(pad, hay, needle, i + 1, prev);
        }
    }
}

proof fn lemma_score_skips(pad: Seq<char>, hay: Seq<char>, needle: Seq<char>, i: int)
    requires
        0 <= i <= pad.len(),
        needle.len() > 0,
        forall|k: int| 0 <= k < pad.len() ==> text::ascii_lower(#[trigger] pad[k]) != text::ascii_lower(needle[0]),
    ensures
        score_from(pad + hay, needle, i, None) == score_from(pad + hay, needle, pad.len() as int, None),
    decreases pad.len() - i,
{
    if i < pad.len() {
        assert((pad + hay)[i] == pad[i]);
        lemma_score_skips(pad, hay, needle, i + 1);
    }
}

/// The earlier a match stands, the better it scores: the same name behind other text, in which the
/// match cannot start, matches as well but never scores higher.
pub proof fn law_earlier_matches_score_no_worse(pad: Seq<char>, hay: Seq<char>, needle: Seq<char>)
    requires
        needle.len() > 0 ==> forall|k: int|
            0 <= k < pad.len() ==> text::ascii_lower(#[trigger] pad[k]) != text::ascii_lower(needle[0]),
    ensures
        match (fuzzy(hay, needle), fuzzy(pad + hay, needle)) {
            (Some(early), Some(late)) => early >= late,
            (None, None) => true,
            _ => false,
        },
{
    if needle.len() > 0 {
        lemma_score_skips(pad, hay, needle, 0);
        lemma_shifted_score(pad, hay, needle, 0, None);
    }
}

/// `at` is where a letter first stands in a text from position `from` on, whatever its ASCII case.
pub open spec fn first_stands(hay: Seq<char>, c: char, from: int, at: int) -> bool {
    &&& from <= at < hay.len()
    &&& text::ascii_lower(hay[at]) == text::ascii_lower(c)
    &&& forall|k: int| from <= k < at ==> text::ascii_lower(#[trigger] hay[k]) != text::ascii_lower(c)
}

/// A letter that starts the text or follows one of the marks that names are divided by.
pub open spec fn follows_a_mark(hay: Seq<char>, at: int) -> bool {
    at == 0 || seq!['-', '_', '/', '.', ' ', ':'].contains(hay[at - 1])
}

proof fn lemma_score_at(hay: Seq<char>, needle: Seq<char>, i: int, at: int, prev: Option<int>)
    requires
        0 <= i,
        needle.len() > 0,
        first_stands(hay, needle[0], i, at),
    ensures
        score_from(hay, needle, i, prev) == score_from(hay, needle, at, prev),
    decreases at - i,
{
    if i < at {
        lemma_score_at(hay, needle, i + 1, at, prev);
    }
}

proof fn lemma_marks(hay: Seq<char>, at: int)
    requires
        0 <= at < hay.len(),
    ensures
        starts_segment(hay, at) <==> follows_a_mark(hay, at),
{
    let marks = seq!['-', '_', '/', '.', ' ', ':'];
    assert(marks[0] == '-' && marks[1] == '_' && marks[2] == '/' && marks[3] == '.' && marks[4] == ' ' && marks[5]
        == ':');
}

/// What two letters score in a name: each is found as early as it can be; a letter behind a mark
/// counts fifteen, one right behind the letter before it ten more, and one point is lost for every
/// four letters in front of it.
pub proof fn law_scores_of_two_letters(hay: Seq<char>, a: char, b: char, i: int, j: int)
    requires
        hay.len() <= 1_000_000,
        first_stands(hay, a, 0, i),
        first_stands(hay, b, i + 1, j),
    ensures
        fuzzy(hay, seq![a]) == Some((if follows_a_mark(hay, i) { 15int } else { 0 }) - i / 4),
        fuzzy(hay, seq![a, b]) == Some(
            (if follows_a_mark(hay, i) { 15int } else { 0 }) - i / 4 + (if follows_a_mark(hay, j) { 15int } else { 0 })
                + (if j == i + 1 { 10int } else { 0 }) - j / 4,
        ),
{
    let one = seq![a];
    let two = seq![a, b];
    lemma_marks(hay, i);
    lemma_marks(hay, j);
    lemma_score_at(hay, one, 0, i, None);
    lemma_score_at(hay, two, 0, i, None);
    assert(one.skip(1) =~= Seq::empty());
    assert(two.skip(1) =~= seq![b]);
    lemma_score_at(hay, seq![b], i + 1, j, Some(i));
    assert(seq![b].skip(1) =~= Seq::empty());
    assert(score_from(hay, Seq::empty(), i + 1, Some(i)) == Some(0int));
    assert(score_from(hay, Seq::empty(), j + 1, Some(j)) == Some(0int));
    assert(score_from(hay, one, i, None) == Some(match_worth(hay, i, None) + 0));
    assert(score_from(hay, seq![b], j, Some(i)) == Some(match_worth(hay, j, Some(i)) + 0));
}

/// Score of `needle` in `haystack`, `None` where it is no subsequence.  Matches that start a
/// segment, follow each other or come early score higher.  A score past the range of `i32` counts
/// as the end of that range.
pub fn fuzzy_score(haystack: &str, needle: &str) -> (r: Option<i32>)
    ensures
        match r {
            Some(score) => fuzzy(haystack@, needle@) == Some(score as int),
            None => fuzzy(haystack@, needle@) is None,
        },
{
    let hay = text::chars_of(haystack);
    let want = text::chars_of(needle);
    let mut score: i128 = 0;
    let mut prev: Option<usize> = None;
    let ghost mut prev_at: Option<int> = None;
    let mut j: usize = 0;
    let mut i: usize = 0;
    proof {
        assert(want@.skip(0) =~= want@);
    }
    while i < hay.len() && j < want.len()
        invariant
            i <= hay@.len(),
            j <= want@.len(),
            hay@ == haystack@,
            want@ == needle@,
            j <= i,
            match prev {
                Some(p) => prev_at == Some(p as int) && p < i,
                None => prev_at is None,
            },
            -(i * 4611686018427387904) <= score <= i * 25,
            match score_from(hay@, want@.skip(j as int), i as int, prev_at) {
                Some(rest) => score_from(hay@, want@, 0, None) == Some(score + rest),
                None => score_from(hay@, want@, 0, None) is None,
            },
        decreases hay@.len() - i,
    {
        let ghost left = want@.skip(j as int);
        proof {
            assert(left.skip(1) =~= want@.skip(j as int + 1));
        }
        if text::lower_char(hay[i]) == text::lower_char(want[j]) {
            let boundary = i == 0 || hay[i - 1] == '-' || hay[i - 1] == '_' || hay[i - 1] == '/' || hay[i - 1] == '.'
                || hay[i - 1] == ' ' || hay[i - 1] == ':';
            if boundary {
                score = score + 15;
            }
            let follows = match prev {
                Some(p) => p + 1 == i,
                None => false,
            };
            if follows {
                score = score + 10;
            }
            score = score - (i / 4) as i128;
            prev = Some(i);
            proof {
                prev_at = Some(i as int);
            }
            j = j + 1;
        }
        i = i + 1;
    }
    if j < want.len() {
        None
    } else if score < -2_147_483_648 {
        Some(i32::MIN)
    } else if score > 2_147_483_647 {
        Some(i32::MAX)
    } else {
        Some(score as i32)
    }
}

// --- ranking ---------------------------------------------------------------------------------

/// Where item `i` goes in `order`: behind everything that scores at least as high.
pub open spec fn rank_of(scores: Seq<Option<int>>, order: Seq<int>, i: int) -> int
    decreases order.len(),
{
    if order.len() == 0 {
        0
    } else if scores[order.last()]->0 >= scores[i]->0 {
        order.len() as int
    } else {
        rank_of(scores, order.drop_last(), i)
    }
}

/// The items among the first `n` that have a score, best first; among equals the earlier first.
pub open spec fn ranking_of(scores: Seq<Option<int>>, n: int) -> Seq<int>
    decreases n,
{
    if n <= 0 {
        Seq::empty()
    } else {
        let order = ranking_of(scores, n - 1);
        if scores[n - 1] is Some {
            order.insert(rank_of(scores, order, n - 1), n - 1)
        } else {
            order
        }
    }
}

/// What a list shows under `filter`: every item in its place when the filter is empty, and
/// otherwise the items that have a score, best first.
pub open spec fn ranking(filter: Seq<char>, scores: Seq<Option<int>>) -> Seq<int> {
    if filter.len() == 0 {
        Seq::new(scores.len(), |i: int| i)
    } else {
        ranking_of(scores, scores.len() as int)
    }
}

/// `a` belongs before `b`: it scores higher, or as high and stands earlier.
pub open spec fn ranks_before(scores: Seq<Option<int>>, a: int, b: int) -> bool {
    scores[a]->0 > scores[b]->0 || (scores[a]->0 == scores[b]->0 && a < b)
}

/// `order` holds each of the first `n` items that have a score exactly once, in rank order.
pub open spec fn is_ranked(scores: Seq<Option<int>>, n: int, order: Seq<int>) -> bool {
    &&& forall|k: int| 0 <= k < order.len() ==> 0 <= #[trigger] order[k] < n && scores[order[k]] is Some
    &&& forall|j: int, k: int| 0 <= j < k < order.len() ==> ranks_before(scores, #[trigger] order[j], #[trigger] order[k])
    &&& forall|i: int| 0 <= i < n && (#[trigger] scores[i]) is Some ==> order.contains(i)
}

proof fn lemma_rank_of(scores: Seq<Option<int>>, order: Seq<int>, i: int)
    requires
        is_ranked(scores, i, order),
        scores[i] is Some,
    ensures
        0 <= rank_of(scores, order, i) <= order.len(),
        forall|k: int| 0 <= k < rank_of(scores, order, i) ==> scores[#[trigger] order[k]]->0 >= scores[i]->0,
        forall|k: int| rank_of(scores, order, i) <= k < order.len() ==> scores[#[trigger] order[k]]->0 < scores[i]->0,
    decreases order.len(),
{
    lemma_rank_of_sorted(scores, order, i);
}

/// `lemma_rank_of`, asking only that scores do not rise along `order`.
proof fn lemma_rank_of_sorted(scores: Seq<Option<int>>, order: Seq<int>, i: int)
    requires
        forall|j: int, k: int| 0 <= j < k < order.len() ==> scores[#[trigger] order[j]]->0 >= scores[#[trigger] order[k]]->0,
    ensures
        0 <= rank_of(scores, order, i) <= order.len(),
        forall|k: int| 0 <= k < rank_of(scores, order, i) ==> scores[#[trigger] order[k]]->0 >= scores[i]->0,
        forall|k: int| rank_of(scores, order, i) <= k < order.len() ==> scores[#[trigger] order[k]]->0 < scores[i]->0,
    decreases order.len(),
{
    if order.len() > 0 {
        if scores[order.last()]->0 >= scores[i]->0 {
            assert forall|k: int| 0 <= k < order.len() implies scores[#[trigger] order[k]]->0 >= scores[i]->0 by {
                if k < order.len() - 1 {
                    assert(scores[order[k]]->0 >= scores[order[order.len() - 1]]->0);
                }
            }
        } else {
            let shorter = order.drop_last();
            lemma_rank_of_sorted(scores, shorter, i);
            let r = rank_of(scores, shorter, i);
            assert forall|k: int| 0 <= k < r implies scores[#[trigger] order[k]]->0 >= scores[i]->0 by {
                assert(shorter[k] == order[k]);
            }
            assert forall|k: int| r <= k < order.len() implies scores[#[trigger] order[k]]->0 < scores[i]->0 by {
                if k < order.len() - 1 {
                    assert(shorter[k] == order[k]);
                }
            }
        }
    }
}

/// One more item lengthens a ranking by one at most.
pub proof fn lemma_ranking_grows(scores: Seq<Option<int>>, n: int)
    requires
        0 < n <= scores.len(),
    ensures
        ranking_of(scores, n).len() <= ranking_of(scores, n - 1).len() + 1,
{
    law_ranking_is_ranked(scores, n - 1);
    if scores[n - 1] is Some {
        lemma_rank_of(scores, ranking_of(scores, n - 1), n - 1);
    }
}

/// A ranking holds each item that has a score exactly once, best first, and among equal scores
/// in the order of the list.
pub proof fn law_ranking_is_ranked(scores: Seq<Option<int>>, n: int)
    requires
        0 <= n <= scores.len(),
    ensures
        is_ranked(scores, n, ranking_of(scores, n)),
    decreases n,
{
    if n > 0 {
        law_ranking_is_ranked(scores, n - 1);
        let order = ranking_of(scores, n - 1);
        let i = n - 1;
        if scores[i] is Some {
            lemma_rank_of(scores, order, i);
            let r = rank_of(scores, order, i);
            let grown = order.insert(r, i);
            assert forall|k: int| 0 <= k < grown.len() implies 0 <= #[trigger] grown[k] < n && scores[grown[k]] is Some by {
                if k < r {
                    assert(grown[k] == order[k]);
                } else if k > r {
                    assert(grown[k] == order[k - 1]);
                }
            }
            assert forall|j: int, k: int| 0 <= j < k < grown.len() implies ranks_before(
                scores,
                #[trigger] grown[j],
                #[trigger] grown[k],
            ) by {
                let a = if j < r { j } else { j - 1 };
                let b = if k < r { k } else { k - 1 };
                if j != r {
                    assert(grown[j] == order[a]);
                }
                if k != r {
                    assert(grown[k] == order[b]);
                }
                if j != r && k != r {
                    assert(ranks_before(scores, order[a], order[b]));
                }
            }
            assert forall|x: int| 0 <= x < n && (#[trigger] scores[x]) is Some implies grown.contains(x) by {
                if x == i {
                    assert(grown[r] == x);
                } else {
                    assert(order.contains(x));
                    let k = choose|k: int| 0 <= k < order.len() && order[k] == x;
                    if k < r {
                        assert(grown[k] == x);
                    } else {
                        assert(grown[k + 1] == x);
                    }
                }
            }
        } else {
            assert forall|x: int| 0 <= x < n && (#[trigger] scores[x]) is Some implies order.contains(x) by {
                assert(x != i);
            }
        }
    }
}

/// The positions that a list of `usize` holds.
pub open spec fn positions(v: Seq<usize>) -> Seq<int> {
    v.map_values(|i: usize| i as int)
}

/// The scores that a list of `i32` scores holds.
pub open spec fn score_values(v: Seq<Option<i32>>) -> Seq<Option<int>> {
    v.map_values(
        |s: Option<i32>|
            match s {
                Some(n) => Some(n as int),
                None => None,
            },
    )
}

fn rank_at(scores: &Vec<Option<i32>>, order: &Vec<usize>, score: i32, item: usize) -> (r: usize)
    requires
        item < scores@.len(),
        scores@[item as int] == Some(score),
        forall|k: int| 0 <= k < order@.len() ==> #[trigger] order@[k] < scores@.len() && scores@[order@[k] as int] is Some,
    ensures
        r <= order@.len(),
        r == rank_of(score_values(scores@), positions(order@), item as int),
{
    let ghost all = positions(order@);
    let ghost values = score_values(scores@);
    let mut r: usize = order.len();
    proof {
        assert(all.take(r as int) =~= all);
    }
    while r > 0
        invariant
            r <= order@.len(),
            item < scores@.len(),
            scores@[item as int] == Some(score),
            all == positions(order@),
            values == score_values(scores@),
            forall|k: int| 0 <= k < order@.len() ==> #[trigger] order@[k] < scores@.len() && scores@[order@[k] as int] is Some,
            rank_of(values, all.take(r as int), item as int) == rank_of(values, all, item as int),
        decreases r,
    {
        let other: usize = order[r - 1];
        proof {
            assert(all.take(r as int).last() == other);
            assert(all.take(r as int).drop_last() =~= all.take(r as int - 1));
        }
        let higher = match scores[other] {
            Some(s) => s >= score,
            None => true,
        };
        if higher {
            return r;
        }
        r = r - 1;
    }
    r
}

/// Some scores that a scoring function gives to the items of a list.
pub open spec fn are_scores<F: Fn(usize) -> Option<i32>>(score: F, scores: Seq<Option<i32>>) -> bool {
    forall|i: usize| i < scores.len() ==> call_ensures(score, (i,), #[trigger] scores[i as int])
}

/// The positions below `len`, in order.
fn all_positions(len: usize) -> (r: Vec<usize>)
    ensures
        positions(r@) == Seq::new(len as nat, |i: int| i),
        r@.len() == len,
{
    let mut order: Vec<usize> = Vec::new();
    let mut i: usize = 0;
    while i < len
        invariant
            i <= len,
            positions(order@) == Seq::new(i as nat, |k: int| k),
            order@.len() == i,
        decreases len - i,
    {
        let ghost before = order@;
        order.push(i);
        proof {
            assert(positions(order@) =~= positions(before).push(i as int));
            assert(Seq::new(i as nat + 1, |k: int| k) =~= Seq::new(i as nat, |k: int| k).push(i as int));
        }
        i = i + 1;
    }
    order
}

/// The items that have a score, best first; among equals the earlier first.
fn best_first(scores: &Vec<Option<i32>>) -> (r: Vec<usize>)
    ensures
        positions(r@) == ranking_of(score_values(scores@), scores@.len() as int),
        forall|k: int| 0 <= k < r@.len() ==> #[trigger] r@[k] < scores@.len(),
{
    let mut order: Vec<usize> = Vec::new();
    let mut i: usize = 0;
    proof {
        assert(positions(order@) =~= Seq::empty());
    }
    let ghost values = score_values(scores@);
    while i < scores.len()
        invariant
            i <= scores@.len(),
            values == score_values(scores@),
            positions(order@) == ranking_of(values, i as int),
            forall|k: int| 0 <= k < order@.len() ==> #[trigger] order@[k] < scores@.len() && scores@[order@[k] as int] is Some,
        decreases scores@.len() - i,
    {
        match scores[i] {
            Some(score) => {
                let at: usize = rank_at(scores, &order, score, i);
                let ghost before = order@;
                order.insert(at, i);
                proof {
                    assert(positions(order@) =~= positions(before).insert(at as int, i as int));
                    assert forall|k: int| 0 <= k < order@.len() implies #[trigger] order@[k] < scores@.len()
                        && scores@[order@[k] as int] is Some by {
                        if k < at {
                            assert(order@[k] == before[k]);
                        } else if k > at {
                            assert(order@[k] == before[k - 1]);
                        }
                    }
                }
            },
            None => {},
        }
        i = i + 1;
    }
    order
}

/// Positions of a list of `len` items to show under `filter`: all of them in order when the filter
/// is empty, and otherwise those that `score` gives a score, best first; among equals the earlier
/// first.
pub fn ranked(len: usize, filter: &str, score: impl Fn(usize) -> Option<i32>) -> (r: Vec<usize>)
    requires
        forall|i: usize| i < len ==> call_requires(score, (i,)),
    ensures
        filter@.len() == 0 ==> positions(r@) == Seq::new(len as nat, |i: int| i),
        filter@.len() > 0 ==> exists|scores: Seq<Option<i32>>|
            scores.len() == len && #[trigger] are_scores(score, scores) && positions(r@) == ranking(
                filter@,
                score_values(scores),
            ),
        forall|k: int| 0 <= k < r@.len() ==> #[trigger] r@[k] < len,
{
    if filter.is_empty() {
        let r = all_positions(len);
        proof {
            assert forall|k: int| 0 <= k < r@.len() implies #[trigger] r@[k] < len by {
                assert(positions(r@)[k] == r@[k]);
            }
        }
        return r;
    }
    let mut scores: Vec<Option<i32>> = Vec::new();
    let mut i: usize = 0;
    while i < len
        invariant
            i <= len,
            scores@.len() == i,
            forall|k: usize| k < len ==> call_requires(score, (k,)),
            are_scores(score, scores@),
        decreases len - i,
    {
        let ghost before = scores@;
        scores.push(score(i));
        proof {
            assert forall|k: usize| k < scores@.len() implies call_ensures(score, (k,), #[trigger] scores@[k as int]) by {
                if k < before.len() {
                    assert(scores@[k as int] == before[k as int]);
                }
            }
        }
        i = i + 1;
    }
    best_first(&scores)
}

// --- names across services -------------------------------------------------------------------

/// `s` with its first letter, and every letter that follows a hyphen, in upper case.
pub open spec fn title_cased(s: Seq<char>, hyphens: bool) -> Seq<char> {
    Seq::new(
        s.len(),
        |i: int|
            if i == 0 || (hyphens && s[i - 1] == '-') {
                text::ascii_upper(s[i])
            } else {
                s[i]
            },
    )
}

fn title_case(s: &str, hyphens: bool) -> (r: String)
    ensures
        r@ == title_cased(s@, hyphens),
{
    let v = text::chars_of(s);
    let mut out: String = String::new();
    let mut i: usize = 0;
    while i < v.len()
        invariant
            i <= v@.len(),
            v@ == s@,
            out@ == title_cased(s@, hyphens).take(i as int),
        decreases v@.len() - i,
    {
        let c: char = v[i];
        if i == 0 || (hyphens && v[i - 1] == '-') {
            out.push(text::upper_char(c));
        } else {
            out.push(c);
        }
        i = i + 1;
        proof {
            assert(title_cased(s@, hyphens).take(i as int) =~= title_cased(s@, hyphens).take(i as int - 1).push(
                title_cased(s@, hyphens)[i as int - 1],
            ));
        }
    }
    proof {
        assert(title_cased(s@, hyphens).take(s@.len() as int) =~= title_cased(s@, hyphens));
    }
    out
}

/// `all` with `one` at its end, where it is not among them yet.
pub open spec fn with_new(all: Seq<Seq<char>>, one: Seq<char>) -> Seq<Seq<char>> {
    if all.contains(one) {
        all
    } else {
        all.push(one)
    }
}

/// The spellings of `q` to search for where a search minds the case: as it is, in lower case, in
/// upper case, with its first letter in upper case, and with each of its hyphenated words so.
pub open spec fn case_variants_of(q: Seq<char>) -> Seq<Seq<char>> {
    with_new(
        with_new(
            with_new(with_new(seq![q], text::ascii_lower_all(q)), text::ascii_upper_all(q)),
            title_cased(q, false),
        ),
        title_cased(q, true),
    )
}

/// The spellings are at most five, `q` itself is the first, and none comes twice.
pub proof fn law_case_variants(q: Seq<char>)
    ensures
        1 <= case_variants_of(q).len() <= 5,
        case_variants_of(q)[0] == q,
        forall|i: int, j: int|
            0 <= i < j < case_variants_of(q).len() ==> #[trigger] case_variants_of(q)[i] != #[trigger] case_variants_of(
                q,
            )[j],
{
    lemma_with_new(seq![q], text::ascii_lower_all(q));
    let two = with_new(seq![q], text::ascii_lower_all(q));
    lemma_with_new(two, text::ascii_upper_all(q));
    let three = with_new(two, text::ascii_upper_all(q));
    lemma_with_new(three, title_cased(q, false));
    let four = with_new(three, title_cased(q, false));
    lemma_with_new(four, title_cased(q, true));
}

proof fn lemma_with_new(all: Seq<Seq<char>>, one: Seq<char>)
    requires
        all.len() > 0,
        forall|i: int, j: int| 0 <= i < j < all.len() ==> #[trigger] all[i] != #[trigger] all[j],
    ensures
        all.len() <= with_new(all, one).len() <= all.len() + 1,
        with_new(all, one)[0] == all[0],
        forall|i: int, j: int|
            0 <= i < j < with_new(all, one).len() ==> #[trigger] with_new(all, one)[i] != #[trigger] with_new(
                all,
                one,
            )[j],
{
}

fn push_new(all: &mut Vec<String>, one: String)
    ensures
        final(all).deep_view() == with_new(old(all).deep_view(), one@),
{
    let mut i: usize = 0;
    while i < all.len()
        invariant
            i <= all@.len(),
            all.deep_view() == old(all).deep_view(),
            forall|k: int| 0 <= k < i ==> #[trigger] all.deep_view()[k] != one@,
        decreases all@.len() - i,
    {
        if text::same(all[i].as_str(), one.as_str()) {
            proof {
                assert(all.deep_view()[i as int] == one@);
            }
            return;
        }
        i = i + 1;
    }
    all.push(one);
    proof {
        assert(all.deep_view() =~= old(all).deep_view().push(one@));
    }
}

/// The spellings of `q` to search for where a search minds the case.
pub fn case_variants(q: &str) -> (r: Vec<String>)
    ensures
        r.deep_view() == case_variants_of(q@),
{
    let mut all: Vec<String> = vec![q.to_string()];
    proof {
        assert(all.deep_view() =~= seq![q@]);
    }
    push_new(&mut all, text::to_ascii_lower(q));
    push_new(&mut all, text::to_ascii_upper(q));
    push_new(&mut all, title_case(q, false));
    push_new(&mut all, title_case(q, true));
    all
}

/// What stands before the first colon of `s`.
pub open spec fn before_colon(s: Seq<char>) -> Seq<char> {
    match text::parts_around(s, ":"@) {
        Some((head, _)) => head,
        None => s,
    }
}

/// Name of the Lambda function that an ARN, with or without a version, or a bare name stands for.
pub open spec fn lambda_name(id: Seq<char>) -> Option<Seq<char>> {
    let name = match text::parts_around(id, ":function:"@) {
        Some((_, tail)) => before_colon(tail),
        None => if text::has_prefix(id, "arn:"@) {
            Seq::empty()
        } else {
            before_colon(id)
        },
    };
    if name.len() == 0 {
        None
    } else {
        Some(name)
    }
}

/// The log group of a Lambda function.
pub open spec fn lambda_group(id: Seq<char>) -> Option<Seq<char>> {
    match lambda_name(id) {
        Some(name) => Some("/aws/lambda/"@ + name),
        None => None,
    }
}

fn head_before_colon(s: &str) -> (r: String)
    ensures
        r@ == before_colon(s@),
{
    match text::split_once(s, ":") {
        Some((head, _)) => head,
        None => s.to_string(),
    }
}

/// The log group of the Lambda function that an ARN, with or without a version, or a bare name
/// stands for.
pub fn lambda_log_group_from_arn(id: &str) -> (r: Option<String>)
    ensures
        r.deep_view() == lambda_group(id@),
{
    let name = match text::split_once(id, ":function:") {
        Some((_, tail)) => head_before_colon(tail.as_str()),
        None => {
            if text::strip_prefix(id, "arn:").is_some() {
                return None;
            }
            head_before_colon(id)
        },
    };
    if name.as_str().is_empty() {
        return None;
    }
    let mut out = "/aws/lambda/".to_string();
    out.append(name.as_str());
    Some(out)
}

// --- laws ------------------------------------------------------------------------------------

/// A positive number of minutes, hours, days or weeks is the duration that its name says, with or
/// without whitespace around it; none of them is a duration where the number is not positive.
pub proof fn law_durations_are_of_their_unit(n: int)
    requires
        0 < n <= i64::MAX / 604_800_000,
    ensures
        duration_value(text::int_text(n) + "m"@) == Some(n * 60 * 1000),
        duration_value(text::int_text(n) + "min"@) == Some(n * 60 * 1000),
        duration_value(text::int_text(n) + "h"@) == Some(n * 60 * 60 * 1000),
        duration_value(text::int_text(n) + "d"@) == Some(n * 24 * 60 * 60 * 1000),
        duration_value(text::int_text(n) + "w"@) == Some(n * 7 * 24 * 60 * 60 * 1000),
{
    reveal_strlit("m");
    reveal_strlit("min");
    reveal_strlit("h");
    reveal_strlit("d");
    reveal_strlit("w");
    assert("m"@[0] == 'm' && "h"@[0] == 'h' && "d"@[0] == 'd' && "w"@[0] == 'w' && "min"@.len() == 3);
    assert(unit_millis("m"@) == Some(60_000int));
    assert(unit_millis("min"@) == Some(60_000int));
    assert(unit_millis("h"@) == Some(3_600_000int));
    assert(unit_millis("d"@) == Some(86_400_000int));
    assert(unit_millis("w"@) == Some(604_800_000int));
    lemma_duration(n, "m"@, 60_000);
    lemma_duration(n, "min"@, 60_000);
    lemma_duration(n, "h"@, 3_600_000);
    lemma_duration(n, "d"@, 86_400_000);
    lemma_duration(n, "w"@, 604_800_000);
}

proof fn lemma_duration(n: int, unit: Seq<char>, millis: int)
    requires
        0 < n <= i64::MAX,
        unit.len() > 0,
        forall|i: int| 0 <= i < unit.len() ==> text::is_ascii_letter(#[trigger] unit[i]),
        unit_millis(unit) == Some(millis),
        n * millis <= i64::MAX,
    ensures
        duration_value(text::int_text(n) + unit) == Some(n * millis),
{
    let digits = text::int_text(n);
    let t = digits + unit;
    text::law_numbers_are_read_back(n);
    text::law_padded_numbers_are_read_back(n, 0);
    assert(text::is_ascii_letter(unit[0]) && text::is_ascii_letter(unit.last()));
    assert(t[0] == digits[0] && t.last() == unit.last());
    lemma_trimmed(t);
    lemma_trimmed(digits);
    lemma_trimmed(unit);
    assert forall|k: int| 0 <= k < digits.len() implies !ascii_letters()(#[trigger] t[k]) by {
        assert(t[k] == digits[k]);
    }
    assert(t[digits.len() as int] == unit[0]);
    text::lemma_first_where_unique(t, ascii_letters(), digits.len() as int);
    assert(t.take(digits.len() as int) =~= digits);
    assert(t.skip(digits.len() as int) =~= unit);
}

/// What does not name a positive number is no duration.
pub proof fn law_durations_are_positive(s: Seq<char>)
    ensures
        duration_value(s) matches Some(ms) ==> 60_000 <= ms <= i64::MAX && ms % 60_000 == 0,
{
    let t = text::trimmed(s);
    let at = text::first_where(t, ascii_letters());
    if let (Some(n), Some(unit)) = (
        text::i64_value(text::trimmed(t.take(at))),
        unit_millis(text::trimmed(t.skip(at))),
    ) {
        if n > 0 {
            assert(n * unit >= 60_000 && (n * unit) % 60_000 == 0) by (nonlinear_arith)
                requires
                    n > 0,
                    unit == 60_000 || unit == 60_000 * 60 || unit == 60_000 * 1440 || unit == 60_000 * 10_080,
            ;
        }
    }
}

/// A time of day that is written `HH:MM:SS` or `HH:MM` is read as so many hours, minutes and
/// seconds; an hour past 23, or a minute or second past 59, is no time of day.
pub proof fn law_times_of_day_are_read(h: int, m: int, s: int)
    requires
        0 <= h <= 99,
        0 <= m <= 99,
        0 <= s <= 99,
    ensures
        time_value(text::int_padded(h, 2) + ":"@ + text::int_padded(m, 2) + ":"@ + text::int_padded(s, 2)) == (if h < 24
            && m < 60 && s < 60 {
            Some((h * 60 + m) * 60 + s)
        } else {
            None
        }),
        time_value(text::int_padded(h, 2) + ":"@ + text::int_padded(m, 2)) == (if h < 24 && m < 60 {
            Some((h * 60 + m) * 60)
        } else {
            None
        }),
{
    reveal_strlit(":");
    assert(":"@ =~= seq![':']);
    let (a, b, c) = (text::int_padded(h, 2), text::int_padded(m, 2), text::int_padded(s, 2));
    text::law_padded_numbers_are_read_back(h, 2);
    text::law_padded_numbers_are_read_back(m, 2);
    text::law_padded_numbers_are_read_back(s, 2);
    lemma_three_parts(a, b, c, ':');
    lemma_no_separator(a, ':');
    lemma_no_separator(b, ':');
    text::lemma_split_first(a, ':', b);
    text::lemma_split_first(b, ':', Seq::empty());
    assert(seq![a] + seq![b] =~= seq![a, b]);
}

/// A date of the calendar.
pub open spec fn date_text(y: int, m: int, d: int) -> Seq<char> {
    text::int_padded(y, 4) + "-"@ + text::int_padded(m, 2) + "-"@ + text::int_padded(d, 2)
}

proof fn lemma_date_text(y: int, m: int, d: int)
    requires
        0 <= y <= i64::MAX,
        calendar::is_date(y, m, d),
    ensures
        date_value(date_text(y, m, d)) == Some((y, m, d)),
        date_text(y, m, d).len() > 0,
        text::is_digit(date_text(y, m, d)[0]),
        text::is_digit(date_text(y, m, d).last()),
        forall|k: int| 0 <= k < date_text(y, m, d).len() ==> !date_separator()(#[trigger] date_text(y, m, d)[k]),
{
    reveal_strlit("-");
    assert("-"@ =~= seq!['-']);
    let (ys, ms, ds) = (text::int_padded(y, 4), text::int_padded(m, 2), text::int_padded(d, 2));
    text::law_padded_numbers_are_read_back(y, 4);
    text::law_padded_numbers_are_read_back(m, 2);
    text::law_padded_numbers_are_read_back(d, 2);
    lemma_three_parts(ys, ms, ds, '-');
    let date = date_text(y, m, d);
    assert(date[0] == ys[0]);
    assert(date.last() == ds.last());
    assert forall|k: int| 0 <= k < date.len() implies !date_separator()(#[trigger] date[k]) by {
        if k < ys.len() {
            assert(date[k] == ys[k]);
        } else if ys.len() < k < ys.len() + 1 + ms.len() {
            assert(date[k] == ms[k - ys.len() - 1]);
        } else if k > ys.len() + 1 + ms.len() {
            assert(date[k] == ds[k - ys.len() - 2 - ms.len()]);
        }
    }
}

/// A date alone is read as its midnight; with a `T` or a space and a time behind it, as so many
/// seconds past that midnight.
pub proof fn law_dates_are_read(y: int, m: int, d: int, second: int, sep: char)
    requires
        0 <= y <= 9999,
        calendar::is_date(y, m, d),
        0 <= second < 86_400,
        sep == 'T' || sep == ' ',
    ensures
        datetime_value(date_text(y, m, d)) == Some(calendar::epoch_day(y, m, d) * 86_400_000),
        datetime_value(date_text(y, m, d).push(sep) + clock_text(second)) == Some(
            calendar::epoch_day(y, m, d) * 86_400_000 + second * 1000,
        ),
{
    let date = date_text(y, m, d);
    lemma_date_text(y, m, d);
    lemma_trimmed(date);
    text::lemma_first_where_unique(date, date_separator(), date.len() as int);
    let clock = clock_text(second);
    lemma_clock_read_back(second);
    lemma_trimmed(clock);
    let t = date.push(sep) + clock;
    assert(t[0] == date[0]);
    assert(t.last() == clock.last());
    lemma_trimmed(t);
    assert forall|k: int| 0 <= k < date.len() implies !date_separator()(#[trigger] t[k]) by {
        assert(t[k] == date[k]);
    }
    assert(t[date.len() as int] == sep);
    text::lemma_first_where_unique(t, date_separator(), date.len() as int);
    assert(t.take(date.len() as int) =~= date);
    assert(t.skip(date.len() as int + 1) =~= clock);
}

/// An instant is shown by its date and its time of day, to the second.
pub proof fn law_instants_show_their_date(y: int, m: int, d: int, second: int, ms: int)
    requires
        calendar::is_date(y, m, d),
        0 <= second < 86_400,
        0 <= ms < 1000,
    ensures
        instant_text(calendar::epoch_day(y, m, d) * 86_400_000 + second * 1000 + ms) == date_text(y, m, d) + " "@
            + text::int_padded(second / 3600, 2) + ":"@ + text::int_padded(second / 60 % 60, 2) + ":"@
            + text::int_padded(second % 60, 2) + "Z"@,
        clock_text(second) == text::int_padded(second / 3600, 2) + ":"@ + text::int_padded(second / 60 % 60, 2) + ":"@
            + text::int_padded(second % 60, 2),
{
    let day = calendar::epoch_day(y, m, d);
    let at = day * 86_400_000 + second * 1000 + ms;
    assert(at / 1000 == day * 86_400 + second);
    assert((at / 1000) / 86_400 == day);
    assert((at / 1000) % 86_400 == second);
    calendar::law_date_round_trip(y, m, d);
    assert((second % 3600) / 60 == second / 60 % 60);
    let (hh, mm, ss) = (
        text::int_padded(second / 3600, 2),
        text::int_padded(second / 60 % 60, 2),
        text::int_padded(second % 60, 2),
    );
    let date = date_text(y, m, d);
    assert(instant_text(at) =~= date + " "@ + (hh + ":"@ + mm + ":"@ + ss) + "Z"@);
    assert(date + " "@ + (hh + ":"@ + mm + ":"@ + ss) + "Z"@ =~= date + " "@ + hh + ":"@ + mm + ":"@ + ss + "Z"@);
}

/// The search for a text also looks for it in lower case, in upper case, with its first letter in
/// upper case, and with the first letter of each of its hyphenated words in upper case, and for
/// nothing else.
pub proof fn law_searched_spellings(q: Seq<char>, word: Seq<char>)
    ensures
        case_variants_of(q).contains(q),
        case_variants_of(q).contains(q.map_values(|c: char| text::ascii_lower(c))),
        case_variants_of(q).contains(q.map_values(|c: char| text::ascii_upper(c))),
        q.len() > 0 ==> case_variants_of(q).contains(seq![text::ascii_upper(q[0])] + q.skip(1)),
        case_variants_of(q).contains(word) ==> word.len() == q.len() && forall|i: int|
            0 <= i < q.len() ==> text::ascii_lower(#[trigger] word[i]) == text::ascii_lower(q[i]),
        forall|spelt: Seq<char>|
            spelt.len() == q.len() && (forall|i: int|
                0 <= i < q.len() ==> #[trigger] spelt[i] == (if i == 0 || q[i - 1] == '-' {
                    text::ascii_upper(q[i])
                } else {
                    q[i]
                })) ==> #[trigger] case_variants_of(q).contains(spelt),
{
    let lower = text::ascii_lower_all(q);
    let upper = text::ascii_upper_all(q);
    let first = title_cased(q, false);
    let each = title_cased(q, true);
    lemma_with_new_holds(seq![q], lower);
    let two = with_new(seq![q], lower);
    lemma_with_new_holds(two, upper);
    let three = with_new(two, upper);
    lemma_with_new_holds(three, first);
    let four = with_new(three, first);
    lemma_with_new_holds(four, each);
    assert(seq![q][0] == q);
    assert(lower =~= q.map_values(|c: char| text::ascii_lower(c)));
    assert(upper =~= q.map_values(|c: char| text::ascii_upper(c)));
    if q.len() > 0 {
        assert(first =~= seq![text::ascii_upper(q[0])] + q.skip(1));
    }
    assert forall|spelt: Seq<char>|
        spelt.len() == q.len() && (forall|i: int|
            0 <= i < q.len() ==> #[trigger] spelt[i] == (if i == 0 || q[i - 1] == '-' {
                text::ascii_upper(q[i])
            } else {
                q[i]
            })) implies #[trigger] case_variants_of(q).contains(spelt) by {
        assert(spelt =~= each);
    }
    if case_variants_of(q).contains(word) {
        assert(word == q || word == lower || word == upper || word == first || word == each);
        assert forall|i: int| 0 <= i < q.len() implies text::ascii_lower(#[trigger] word[i]) == text::ascii_lower(
            q[i],
        ) by {
            lemma_case_of(q[i]);
        }
    }
}

proof fn lemma_case_of(c: char)
    ensures
        text::ascii_lower(text::ascii_upper(c)) == text::ascii_lower(c),
        text::ascii_lower(text::ascii_lower(c)) == text::ascii_lower(c),
{
}

proof fn lemma_with_new_holds(all: Seq<Seq<char>>, one: Seq<char>)
    ensures
        forall|s: Seq<char>| #[trigger] with_new(all, one).contains(s) <==> all.contains(s) || s == one,
{
    assert forall|s: Seq<char>| #[trigger] with_new(all, one).contains(s) <==> all.contains(s) || s == one by {
        if all.contains(s) && !all.contains(one) {
            let k = all.index_of(s);
            assert(all.push(one)[k] == s);
        }
        if !all.contains(one) {
            assert(all.push(one)[all.len() as int] == one);
        }
        if with_new(all, one).contains(s) && !all.contains(one) {
            let k = all.push(one).index_of(s);
            if k < all.len() {
                assert(all[k] == s);
            }
        }
    }
}

/// The logs of a function are those of its name: whatever region and account its ARN names, and
/// whether or not a version or an alias follows, and as well where only the name is given.
pub proof fn law_logs_of_a_function_go_by_its_name(head: Seq<char>, name: Seq<char>, version: Seq<char>)
    requires
        name.len() > 0,
        !name.contains(':'),
        forall|at: int| 0 <= at < head.len() ==> !text::occurs_at(head + ":function:"@, ":function:"@, at),
    ensures
        lambda_group(head + ":function:"@ + name) == Some("/aws/lambda/"@ + name),
        lambda_group(head + ":function:"@ + name + ":"@ + version) == Some("/aws/lambda/"@ + name),
        lambda_group(name) == Some("/aws/lambda/"@ + name),
        name != "arn"@ && !text::occurs(name + ":"@ + version, ":function:"@) ==> lambda_group(name + ":"@ + version)
            == Some("/aws/lambda/"@ + name),
        lambda_group("arn:"@ + version) is Some ==> text::occurs("arn:"@ + version, ":function:"@),
{
    reveal_strlit(":");
    reveal_strlit(":function:");
    reveal_strlit("arn:");
    assert(":"@ =~= seq![':']);
    let mark = ":function:"@;
    assert((head + mark).subrange(head.len() as int, head.len() + mark.len() as int) =~= mark);
    assert(text::occurs_at(head + mark, mark, head.len() as int));
    text::lemma_occurrence(head + mark, mark, 0);
    let plain = head + mark + name;
    let versioned = head + mark + name + ":"@ + version;
    lemma_occurrence_in_longer(head + mark, name, mark, 0);
    lemma_occurrence_in_longer(head + mark, name + ":"@ + version, mark, 0);
    assert(versioned =~= head + mark + (name + ":"@ + version));
    assert(plain.skip(head.len() + mark.len() as int) =~= name);
    assert(versioned.skip(head.len() + mark.len() as int) =~= name + ":"@ + version);
    lemma_before_colon(name, version);
    // A bare name holds no mark and does not start as an ARN does.
    if let Some(at) = text::occurrence_from(name, mark, 0) {
        text::lemma_occurrence(name, mark, 0);
        assert(name.subrange(at, at + mark.len())[0] == name[at]);
        assert(name.contains(name[at]));
    }
    if text::has_prefix(name, "arn:"@) {
        assert(name.take(4)[3] == ':');
        assert(name.contains(name[3]));
    }
    let numbered = name + ":"@ + version;
    text::lemma_occurrence(numbered, mark, 0);
    if let Some(at) = text::occurrence_from(numbered, mark, 0) {
        assert(text::occurs_at(numbered, mark, at));
    }
    if text::has_prefix(numbered, "arn:"@) {
        let start = numbered.take(4);
        assert(start[0] == 'a' && start[1] == 'r' && start[2] == 'n' && start[3] == ':');
        if name.len() > 3 {
            assert(name.contains(name[3]));
        }
        assert(numbered[name.len() as int] == ':');
        reveal_strlit("arn");
        assert(name =~= "arn"@);
    }
    let whole = "arn:"@ + version;
    text::lemma_occurrence(whole, mark, 0);
    assert(whole.take(4) =~= "arn:"@);
    if let Some(at) = text::occurrence_from(whole, mark, 0) {
        assert(text::occurs_at(whole, mark, at));
    }
}

/// What a text holds first is found in a longer one too.
proof fn lemma_occurrence_in_longer(s: Seq<char>, more: Seq<char>, sep: Seq<char>, i: int)
    requires
        0 <= i,
        text::occurrence_from(s, sep, i) is Some,
    ensures
        text::occurrence_from(s + more, sep, i) == text::occurrence_from(s, sep, i),
    decreases s.len() + 1 - i,
{
    assert((s + more).subrange(i, i + sep.len()) =~= s.subrange(i, i + sep.len()));
    if !text::occurs_at(s, sep, i) {
        lemma_occurrence_in_longer(s, more, sep, i + 1);
    }
}

proof fn lemma_before_colon(name: Seq<char>, version: Seq<char>)
    requires
        !name.contains(':'),
        ":"@ == seq![':'],
    ensures
        before_colon(name) == name,
        before_colon(name + ":"@ + version) == name,
{
    if let Some(at) = text::occurrence_from(name, ":"@, 0) {
        text::lemma_occurrence(name, ":"@, 0);
        assert(name.subrange(at, at + 1)[0] == name[at]);
        assert(name.contains(name[at]));
    }
    let long = name + ":"@ + version;
    text::lemma_occurrence(long, ":"@, 0);
    assert(long.subrange(name.len() as int, name.len() + 1int) =~= ":"@);
    assert(text::occurs_at(long, ":"@, name.len() as int));
    if let Some(at) = text::occurrence_from(long, ":"@, 0) {
        assert(long.subrange(at, at + 1)[0] == long[at]);
        if at < name.len() {
            assert(name.contains(name[at]));
        } else if at > name.len() {
            lemma_first_colon(long, name.len() as int, 0);
        }
        assert(long.take(at) =~= name);
    }
}

proof fn lemma_first_colon(s: Seq<char>, at: int, i: int)
    requires
        0 <= i <= at,
        text::occurs_at(s, ":"@, at),
    ensures
        text::occurrence_from(s, ":"@, i) matches Some(k) && k <= at,
    decreases at - i,
{
    if !text::occurs_at(s, ":"@, i) {
        lemma_first_colon(s, at, i + 1);
    }
}

} // verus!
