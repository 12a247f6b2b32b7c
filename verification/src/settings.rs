//! Changing a default in the text of the configuration while everything else in it stays: comments,
//! blank lines and tables.

use vstd::prelude::*;
use vstd::string::*;

use crate::message::Text;
use crate::text;

verus! {

/// The keys of the configuration that hold a default.
pub open spec fn is_default_key(key: Text) -> bool {
    key == "default_profile"@ || key == "default_region"@ || key == "default_tail_window"@
}

/// Whether a default can be set under this key.
pub fn holds_default(key: &str) -> (r: bool)
    ensures
        r == is_default_key(key@),
{
    text::same(key, "default_profile") || text::same(key, "default_region") || text::same(key, "default_tail_window")
}

/// A character that a quoted text cannot hold as it is.
pub open spec fn is_control(c: char) -> bool {
    (c as u32) < 32 || c == '\u{7f}'
}

/// A character between quotes.
pub open spec fn quoted_char(c: char) -> Text {
    if c == '"' || c == '\\' {
        seq!['\\', c]
    } else if is_control(c) {
        "\\u"@ + text::zero_fill(text::hexadecimal(c as u32 as nat, true), 4)
    } else {
        seq![c]
    }
}

/// The characters of a text between quotes.
pub open spec fn quoted(s: Text) -> Text
    decreases s.len(),
{
    if s.len() == 0 {
        Seq::empty()
    } else {
        quoted(s.drop_last()) + quoted_char(s.last())
    }
}

/// How a text that is open in the configuration was quoted.
#[derive(Clone, Copy, Debug, PartialEq, Eq, Structural)]
pub enum Quote {
    Basic,
    Literal,
    /// Between three double quotes, over several lines perhaps.
    LongBasic,
    /// Between three single quotes, over several lines perhaps.
    LongLiteral,
}

/// What a position of the configuration lies inside of: so many brackets, and a quoted text where
/// one is open.
#[derive(Clone, Copy, Debug)]
pub struct Inside {
    pub depth: usize,
    pub quote: Option<Quote>,
}

impl Inside {
    /// Inside of nothing.
    pub open spec fn nothing() -> Inside {
        Inside { depth: 0, quote: None }
    }

    pub open spec fn at_top(self) -> bool {
        self.depth == 0 && self.quote is None
    }

    pub open spec fn quoting(self, quote: Quote) -> Inside {
        Inside { quote: Some(quote), ..self }
    }

    pub open spec fn unquoted(self) -> Inside {
        Inside { quote: None, ..self }
    }

    pub open spec fn deeper(self) -> Inside {
        Inside { depth: if self.depth < usize::MAX { (self.depth + 1) as usize } else { self.depth }, ..self }
    }

    pub open spec fn shallower(self) -> Inside {
        Inside { depth: if self.depth > 0 { (self.depth - 1) as usize } else { 0 }, ..self }
    }

    /// Past the end of a line, which a short quoted text does not outlast.
    pub open spec fn past_line(self) -> Inside {
        if self.quote == Some(Quote::Basic) || self.quote == Some(Quote::Literal) {
            self.unquoted()
        } else {
            self
        }
    }
}

/// Three times the same character at a position.
pub open spec fn tripled(s: Text, i: int, c: char) -> bool {
    i + 2 < s.len() && s[i] == c && s[i + 1] == c && s[i + 2] == c
}

/// How many quotes close a long text: three, behind up to two that belong to it.
pub open spec fn closing(s: Text, i: int, c: char) -> int {
    if i + 3 < s.len() && s[i + 3] == c {
        if i + 4 < s.len() && s[i + 4] == c { 5 } else { 4 }
    } else {
        3
    }
}

/// How many characters to go on by at a position of a line, and what one is inside of then.
pub open spec fn step(s: Text, i: int, at: Inside) -> (int, Inside) {
    let c = s[i];
    match at.quote {
        None => if c == '"' {
            if tripled(s, i, c) { (3, at.quoting(Quote::LongBasic)) } else { (1, at.quoting(Quote::Basic)) }
        } else if c == '\'' {
            if tripled(s, i, c) { (3, at.quoting(Quote::LongLiteral)) } else { (1, at.quoting(Quote::Literal)) }
        } else if c == '[' || c == '{' {
            (1, at.deeper())
        } else if c == ']' || c == '}' {
            (1, at.shallower())
        } else {
            (1, at)
        },
        Some(Quote::Basic) => if c == '\\' {
            (2, at)
        } else if c == '"' {
            (1, at.unquoted())
        } else {
            (1, at)
        },
        Some(Quote::Literal) => if c == '\'' { (1, at.unquoted()) } else { (1, at) },
        Some(Quote::LongBasic) => if c == '\\' {
            (2, at)
        } else if tripled(s, i, '"') {
            (closing(s, i, '"'), at.unquoted())
        } else {
            (1, at)
        },
        Some(Quote::LongLiteral) => if tripled(s, i, '\'') {
            (closing(s, i, '\''), at.unquoted())
        } else {
            (1, at)
        },
    }
}

/// Where the comment of a line starts, read from position `i` on, which lies inside of `at`; the end
/// of the line where it has no comment.  And what one is inside of behind the line.
pub open spec fn scanned(s: Text, i: int, at: Inside) -> (int, Inside)
    decreases s.len() + 5 - i,
{
    if i < 0 || i >= s.len() {
        (s.len() as int, at.past_line())
    } else if at.quote is None && s[i] == '#' {
        (i, at)
    } else {
        let (n, next) = step(s, i, at);
        scanned(s, i + n, next)
    }
}

/// A line opens a table.
pub open spec fn opens_table(line: Text) -> bool {
    text::has_prefix(text::trimmed(line), "["@)
}

/// A key without the quotes around it.
pub open spec fn bare_key(name: Text) -> Text {
    if name.len() >= 2 && (name[0] == '"' || name[0] == '\'') && name.last() == name[0] {
        name.subrange(1, name.len() - 1)
    } else {
        name
    }
}

/// A line gives a value to a key.
pub open spec fn assigns(line: Text, key: Text) -> bool {
    text::parts_around(line, "="@) matches Some((name, _)) && bare_key(text::trimmed(name)) == key
}

/// The first line from `i` on, outside of any value and before any table, that gives a value to a
/// key; line `i` starts inside of `at`.
pub open spec fn place_of(lines: Seq<Text>, key: Text, i: int, at: Inside) -> Option<int>
    decreases lines.len() - i,
{
    if i < 0 || i >= lines.len() || (at.at_top() && opens_table(lines[i])) {
        None
    } else if at.at_top() && assigns(lines[i], key) {
        Some(i)
    } else {
        place_of(lines, key, i + 1, scanned(lines[i], 0, at).1)
    }
}

/// The line, from `i` on, on which what line `i` starts inside of, and what it opens, comes to its
/// end, and where the comment of that line starts.
pub open spec fn end_from(lines: Seq<Text>, i: int, at: Inside) -> Option<(int, int)>
    decreases lines.len() - i,
{
    if i < 0 || i >= lines.len() {
        None
    } else {
        let (comment, next) = scanned(lines[i], 0, at);
        if next.at_top() {
            Some((i, comment))
        } else {
            end_from(lines, i + 1, next)
        }
    }
}

/// The last line of the value that line `i` gives, and where the comment of that line starts; the
/// line itself where the value never ends.
pub open spec fn value_end(lines: Seq<Text>, i: int) -> (int, int) {
    match end_from(lines, i, Inside::nothing()) {
        Some(found) => found,
        None => (i, scanned(lines[i], 0, Inside::nothing()).0),
    }
}

/// A key with a value.
pub open spec fn setting(key: Text, value: Text) -> Text {
    key + " = \""@ + quoted(value) + "\""@
}

/// A key with a value, and behind it the comment of the line that gave it another one.
pub open spec fn reset(comment: Text, key: Text, value: Text) -> Text {
    if comment.len() > 0 {
        setting(key, value) + " "@ + comment
    } else {
        setting(key, value)
    }
}

/// The lines of the configuration with a default set: in place of the lines that set it already, or
/// in a new first line.
pub open spec fn lines_with_default(lines: Seq<Text>, key: Text, value: Text) -> Seq<Text> {
    match place_of(lines, key, 0, Inside::nothing()) {
        Some(i) => {
            let (last, at) = value_end(lines, i);
            lines.take(i).push(reset(lines[last].skip(at), key, value)) + lines.skip(last + 1)
        },
        None => seq![setting(key, value)] + lines,
    }
}

/// The text of the configuration with a default set.
pub open spec fn with_default(all: Text, key: Text, value: Text) -> Text {
    text::joined(lines_with_default(text::split_on(all, '\n'), key, value), "\n"@)
}

fn push_quoted(out: &mut String, s: &str)
    ensures
        final(out)@ == old(out)@ + quoted(s@),
{
    let v = text::chars_of(s);
    let ghost start = out@;
    let mut i: usize = 0;
    proof {
        assert(s@.take(0) =~= Seq::empty());
        assert(start + Seq::<char>::empty() =~= start);
    }
    while i < v.len()
        invariant
            i <= v@.len(),
            v@ == s@,
            start == old(out)@,
            out@ == start + quoted(s@.take(i as int)),
        decreases v@.len() - i,
    {
        let c: char = v[i];
        let ghost before = out@;
        proof {
            assert(s@.take(i as int + 1).drop_last() =~= s@.take(i as int));
            assert(s@.take(i as int + 1).last() == c);
        }
        if c == '"' || c == '\\' {
            out.push('\\');
            out.push(c);
            proof {
                assert(out@ =~= before + quoted_char(c));
            }
        } else if (c as u32) < 32 || c == '\u{7f}' {
            let code: u32 = c as u32;
            let hex = text::hex_text(code as u64, true);
            out.append("\\u");
            out.append(text::fill_zeros(hex.as_str(), 4).as_str());
            proof {
                assert(out@ =~= before + ("\\u"@ + text::zero_fill(text::hexadecimal(c as u32 as nat, true), 4)));
            }
        } else {
            out.push(c);
            proof {
                assert(out@ =~= before + quoted_char(c));
            }
        }
        proof {
            assert(out@ =~= start + quoted(s@.take(i as int + 1)));
        }
        i = i + 1;
    }
    proof {
        assert(s@.take(s@.len() as int) =~= s@);
    }
}

fn setting_line(key: &str, value: &str) -> (r: String)
    ensures
        r@ == setting(key@, value@),
{
    let mut out = key.to_string();
    out.append(" = \"");
    push_quoted(&mut out, value);
    out.append("\"");
    out
}

fn tripled_at(v: &Vec<char>, i: usize, c: char) -> (r: bool)
    requires
        i < v@.len(),
    ensures
        r == tripled(v@, i as int, c),
{
    v.len() - i > 2 && v[i] == c && v[i + 1] == c && v[i + 2] == c
}

fn closing_at(v: &Vec<char>, i: usize, c: char) -> (r: usize)
    requires
        i < v@.len(),
    ensures
        r == closing(v@, i as int, c),
{
    if v.len() - i > 3 && v[i + 3] == c {
        if v.len() - i > 4 && v[i + 4] == c {
            5
        } else {
            4
        }
    } else {
        3
    }
}

fn step_at(v: &Vec<char>, i: usize, at: Inside) -> (r: (usize, Inside))
    requires
        i < v@.len(),
    ensures
        (r.0 as int, r.1) == step(v@, i as int, at),
{
    let c: char = v[i];
    match at.quote {
        None => {
            if c == '"' {
                if tripled_at(v, i, c) {
                    (3, Inside { quote: Some(Quote::LongBasic), ..at })
                } else {
                    (1, Inside { quote: Some(Quote::Basic), ..at })
                }
            } else if c == '\'' {
                if tripled_at(v, i, c) {
                    (3, Inside { quote: Some(Quote::LongLiteral), ..at })
                } else {
                    (1, Inside { quote: Some(Quote::Literal), ..at })
                }
            } else if c == '[' || c == '{' {
                let depth: usize = if at.depth < usize::MAX { at.depth + 1 } else { at.depth };
                (1, Inside { depth, ..at })
            } else if c == ']' || c == '}' {
                let depth: usize = if at.depth > 0 { at.depth - 1 } else { 0 };
                (1, Inside { depth, ..at })
            } else {
                (1, at)
            }
        },
        Some(Quote::Basic) => {
            if c == '\\' {
                (2, at)
            } else if c == '"' {
                (1, Inside { quote: None, ..at })
            } else {
                (1, at)
            }
        },
        Some(Quote::Literal) => {
            if c == '\'' {
                (1, Inside { quote: None, ..at })
            } else {
                (1, at)
            }
        },
        Some(Quote::LongBasic) => {
            if c == '\\' {
                (2, at)
            } else if tripled_at(v, i, '"') {
                (closing_at(v, i, '"'), Inside { quote: None, ..at })
            } else {
                (1, at)
            }
        },
        Some(Quote::LongLiteral) => {
            if tripled_at(v, i, '\'') {
                (closing_at(v, i, '\''), Inside { quote: None, ..at })
            } else {
                (1, at)
            }
        },
    }
}

fn past_line(at: Inside) -> (r: Inside)
    ensures
        r == at.past_line(),
{
    match at.quote {
        Some(Quote::Basic) | Some(Quote::Literal) => Inside { quote: None, ..at },
        _ => at,
    }
}

fn scan(line: &str, from: Inside) -> (r: (usize, Inside))
    ensures
        (r.0 as int, r.1) == scanned(line@, 0, from),
        r.0 <= line@.len(),
{
    let v = text::chars_of(line);
    let mut at = from;
    let mut i: usize = 0;
    while i < v.len()
        invariant
            i <= v@.len(),
            v@ == line@,
            scanned(v@, 0, from) == scanned(v@, i as int, at),
        decreases v@.len() - i,
    {
        if at.quote.is_none() && v[i] == '#' {
            return (i, at);
        }
        let (n, next) = step_at(&v, i, at);
        if n >= v.len() - i {
            assert(scanned(v@, i + n, next) == (v@.len() as int, next.past_line()));
            return (v.len(), past_line(next));
        }
        i = i + n;
        at = next;
    }
    (v.len(), past_line(at))
}

fn gives_value(line: &str, key: &str) -> (r: bool)
    ensures
        r == assigns(line@, key@),
{
    match text::split_once(line, "=") {
        Some((name, _)) => {
            let name = text::trim(name.as_str());
            let v = text::chars_of(name.as_str());
            if v.len() >= 2 && (v[0] == '"' || v[0] == '\'') && v[v.len() - 1] == v[0] {
                text::same(text::text_of(&v, 1, v.len() - 1).as_str(), key)
            } else {
                text::same(name.as_str(), key)
            }
        },
        None => false,
    }
}

fn find_place(lines: &Vec<String>, key: &str) -> (r: Option<usize>)
    ensures
        match r {
            Some(i) => place_of(lines.deep_view(), key@, 0, Inside::nothing()) == Some(i as int) && i < lines@.len(),
            None => place_of(lines.deep_view(), key@, 0, Inside::nothing()) is None,
        },
{
    let ghost parts = lines.deep_view();
    let mut at = Inside { depth: 0, quote: None };
    let mut i: usize = 0;
    while i < lines.len()
        invariant
            i <= lines@.len(),
            parts == lines.deep_view(),
            place_of(parts, key@, 0, Inside::nothing()) == place_of(parts, key@, i as int, at),
        decreases lines@.len() - i,
    {
        assert(parts[i as int] == lines@[i as int]@);
        let line = lines[i].as_str();
        if at.depth == 0 && at.quote.is_none() {
            if text::strip_prefix(text::trim(line).as_str(), "[").is_some() {
                return None;
            }
            if gives_value(line, key) {
                return Some(i);
            }
        }
        at = scan(line, at).1;
        i = i + 1;
    }
    None
}

fn find_end(lines: &Vec<String>, place: usize) -> (r: (usize, usize))
    requires
        place < lines@.len(),
    ensures
        (r.0 as int, r.1 as int) == value_end(lines.deep_view(), place as int),
        place <= r.0 < lines@.len(),
        r.1 <= lines@[r.0 as int]@.len(),
{
    let ghost parts = lines.deep_view();
    let mut at = Inside { depth: 0, quote: None };
    let mut i: usize = place;
    while i < lines.len()
        invariant
            place <= i <= lines@.len(),
            place < lines@.len(),
            parts == lines.deep_view(),
            end_from(parts, place as int, Inside::nothing()) == end_from(parts, i as int, at),
        decreases lines@.len() - i,
    {
        assert(parts[i as int] == lines@[i as int]@);
        let (comment, next) = scan(lines[i].as_str(), at);
        if next.depth == 0 && next.quote.is_none() {
            return (i, comment);
        }
        at = next;
        i = i + 1;
    }
    assert(parts[place as int] == lines@[place as int]@);
    (place, scan(lines[place].as_str(), Inside { depth: 0, quote: None }).0)
}

fn reset_line(comment: &str, key: &str, value: &str) -> (r: String)
    ensures
        r@ == reset(comment@, key@, value@),
{
    let mut out = setting_line(key, value);
    if !comment.is_empty() {
        out.append(" ");
        out.append(comment);
    }
    out
}

/// Sets a default in the text of the configuration.
pub fn set_default(all: &str, key: &str, value: &str) -> (r: String)
    ensures
        r@ == with_default(all@, key@, value@),
{
    let mut lines = text::split(all, '\n');
    let ghost parts = lines.deep_view();
    match find_place(&lines, key) {
        Some(place) => {
            let (last, at) = find_end(&lines, place);
            let v = text::chars_of(lines[last].as_str());
            proof {
                assert(parts[last as int] == lines@[last as int]@);
                assert(v@.subrange(at as int, v@.len() as int) =~= parts[last as int].skip(at as int));
            }
            let fresh = reset_line(text::text_of(&v, at, v.len()).as_str(), key, value);
            let ghost shown = fresh@;
            assert(last < lines.len());
            let mut rest = lines.split_off(last + 1);
            lines.truncate(place);
            lines.push(fresh);
            lines.append(&mut rest);
            proof {
                assert(lines.deep_view() =~= lines_with_default(parts, key@, value@));
            }
        },
        None => {
            lines.insert(0, setting_line(key, value));
            proof {
                assert(lines.deep_view() =~= lines_with_default(parts, key@, value@));
            }
        },
    }
    text::join(&lines, "\n")
}

// --- laws ------------------------------------------------------------------------------------

/// No line break stands in a text.
pub open spec fn on_one_line(s: Text) -> bool {
    forall|i: int| 0 <= i < s.len() ==> #[trigger] s[i] != '\n'
}

proof fn lemma_one_line_sum(a: Text, b: Text)
    requires
        on_one_line(a),
        on_one_line(b),
    ensures
        on_one_line(a + b),
{
    assert forall|i: int| 0 <= i < (a + b).len() implies #[trigger] (a + b)[i] != '\n' by {
        if i < a.len() {
            assert(a[i] != '\n');
        } else {
            assert(b[i - a.len()] != '\n');
        }
    }
}

proof fn lemma_hex_on_one_line(n: nat)
    ensures
        on_one_line(text::hexadecimal(n, true)),
        on_one_line(text::zero_fill(text::hexadecimal(n, true), 4)),
    decreases n,
{
    if n >= 16 {
        lemma_hex_on_one_line(n / 16);
        assert(on_one_line(text::hexadecimal(n, true)));
    } else {
        assert(on_one_line(text::hexadecimal(n, true)));
    }
    let s = text::hexadecimal(n, true);
    if s.len() < 4 {
        lemma_one_line_sum(Seq::new((4 - s.len()) as nat, |i: int| '0'), s);
    }
}

proof fn lemma_quoted_on_one_line(s: Text)
    ensures
        on_one_line(quoted(s)),
    decreases s.len(),
{
    if s.len() > 0 {
        lemma_quoted_on_one_line(s.drop_last());
        let c = s.last();
        reveal_strlit("\\u");
        if c == '"' || c == '\\' {
        } else if is_control(c) {
            lemma_hex_on_one_line(c as u32 as nat);
            lemma_one_line_sum("\\u"@, text::zero_fill(text::hexadecimal(c as u32 as nat, true), 4));
        }
        assert(on_one_line(quoted_char(c)));
        lemma_one_line_sum(quoted(s.drop_last()), quoted_char(c));
    }
}

proof fn lemma_setting_on_one_line(key: Text, value: Text)
    requires
        is_default_key(key),
    ensures
        on_one_line(setting(key, value)),
{
    reveal_strlit("default_profile");
    reveal_strlit("default_region");
    reveal_strlit("default_tail_window");
    reveal_strlit(" = \"");
    reveal_strlit("\"");
    lemma_quoted_on_one_line(value);
    assert(on_one_line(key));
    lemma_one_line_sum(key, " = \""@);
    lemma_one_line_sum(key + " = \""@, quoted(value));
    lemma_one_line_sum(key + " = \""@ + quoted(value), "\""@);
}

proof fn lemma_split_parts_on_one_line(s: Text)
    ensures
        forall|i: int| 0 <= i < text::split_on(s, '\n').len() ==> on_one_line(#[trigger] text::split_on(s, '\n')[i]),
    decreases s.len(),
{
    let at = text::first_char(s, '\n');
    text::lemma_first_where(s, text::is_char('\n'));
    if at >= s.len() {
        assert forall|i: int| 0 <= i < s.len() implies #[trigger] s[i] != '\n' by {
            assert(!(text::is_char('\n'))(s[i]));
        }
    } else {
        lemma_split_parts_on_one_line(s.skip(at + 1));
        assert forall|i: int| 0 <= i < s.take(at).len() implies #[trigger] s.take(at)[i] != '\n' by {
            assert(!(text::is_char('\n'))(s[i]));
        }
        assert forall|i: int| 0 <= i < text::split_on(s, '\n').len() implies on_one_line(
            #[trigger] text::split_on(s, '\n')[i],
        ) by {
            if i > 0 {
                assert(text::split_on(s, '\n')[i] == text::split_on(s.skip(at + 1), '\n')[i - 1]);
            }
        }
    }
}

/// A first part that holds no line break comes off a text.
proof fn lemma_split_first(a: Text, rest: Text)
    requires
        on_one_line(a),
    ensures
        text::split_on(a + "\n"@ + rest, '\n') == seq![a] + text::split_on(rest, '\n'),
        text::split_on(a, '\n') == seq![a],
{
    reveal_strlit("\n");
    assert("\n"@ =~= seq!['\n']);
    text::lemma_split_first(a, '\n', rest);
}

proof fn lemma_joined_first(parts: Seq<Text>)
    requires
        parts.len() > 1,
    ensures
        text::joined(parts, "\n"@) == parts[0] + "\n"@ + text::joined(parts.skip(1), "\n"@),
    decreases parts.len(),
{
    if parts.len() == 2 {
        assert(parts.drop_last()[0] == parts[0]);
        assert(text::joined(parts.drop_last(), "\n"@) == parts[0]);
        assert(text::joined(parts.skip(1), "\n"@) == parts[1]);
    } else {
        lemma_joined_first(parts.drop_last());
        assert(parts.drop_last().skip(1) =~= parts.skip(1).drop_last());
        assert(parts.skip(1).last() == parts.last());
        let inner = text::joined(parts.skip(1).drop_last(), "\n"@);
        assert(parts[0] + "\n"@ + inner + "\n"@ + parts.last() =~= parts[0] + "\n"@ + (inner + "\n"@ + parts.last()));
    }
}

/// Joined lines split into the same lines.
proof fn lemma_split_joined(parts: Seq<Text>)
    requires
        parts.len() > 0,
        forall|i: int| 0 <= i < parts.len() ==> on_one_line(#[trigger] parts[i]),
    ensures
        text::split_on(text::joined(parts, "\n"@), '\n') == parts,
    decreases parts.len(),
{
    if parts.len() == 1 {
        lemma_split_first(parts[0], Seq::empty());
        assert(seq![parts[0]] =~= parts);
    } else {
        lemma_joined_first(parts);
        let rest = parts.skip(1);
        assert forall|i: int| 0 <= i < rest.len() implies on_one_line(#[trigger] rest[i]) by {
            assert(rest[i] == parts[i + 1]);
        }
        lemma_split_joined(rest);
        lemma_split_first(parts[0], text::joined(rest, "\n"@));
        assert(seq![parts[0]] + rest =~= parts);
    }
}

proof fn lemma_scan_bounds(s: Text, i: int, at: Inside)
    requires
        0 <= i,
    ensures
        0 <= scanned(s, i, at).0 <= s.len(),
        scanned(s, i, at).0 < s.len() ==> s[scanned(s, i, at).0] == '#',
    decreases s.len() + 5 - i,
{
    if i < s.len() && !(at.quote is None && s[i] == '#') {
        let (n, next) = step(s, i, at);
        lemma_scan_bounds(s, i + n, next);
    }
}

proof fn lemma_place(lines: Seq<Text>, key: Text, i: int, at: Inside)
    requires
        0 <= i,
    ensures
        place_of(lines, key, i, at) matches Some(p) ==> i <= p < lines.len(),
    decreases lines.len() - i,
{
    if i < lines.len() {
        lemma_place(lines, key, i + 1, scanned(lines[i], 0, at).1);
    }
}

proof fn lemma_end(lines: Seq<Text>, i: int, at: Inside)
    requires
        0 <= i,
    ensures
        end_from(lines, i, at) matches Some((last, comment)) ==> i <= last < lines.len() && 0 <= comment
            <= lines[last].len() && (comment < lines[last].len() ==> lines[last][comment] == '#'),
    decreases lines.len() - i,
{
    if i < lines.len() {
        lemma_scan_bounds(lines[i], 0, at);
        lemma_end(lines, i + 1, scanned(lines[i], 0, at).1);
    }
}

/// Where a value ends, and the comment behind it.
proof fn lemma_value_end(lines: Seq<Text>, i: int)
    requires
        0 <= i < lines.len(),
    ensures
        ({
            let (last, at) = value_end(lines, i);
            &&& i <= last < lines.len()
            &&& 0 <= at <= lines[last].len()
            &&& lines[last].skip(at).len() > 0 ==> lines[last].skip(at)[0] == '#'
        }),
{
    lemma_end(lines, i, Inside::nothing());
    lemma_scan_bounds(lines[i], 0, Inside::nothing());
}

/// Setting a default changes one value alone: the lines that gave it before become one line, or a
/// new first line is added.  Every other line of the configuration stays, in its order.
pub proof fn law_setting_changes_one_value(all: Text, key: Text, value: Text)
    requires
        is_default_key(key),
    ensures
        ({
            let before = text::split_on(all, '\n');
            let after = text::split_on(with_default(all, key, value), '\n');
            match place_of(before, key, 0, Inside::nothing()) {
                Some(i) => {
                    let (last, at) = value_end(before, i);
                    &&& 0 <= i <= last < before.len()
                    &&& after == before.take(i) + seq![reset(before[last].skip(at), key, value)] + before.skip(last + 1)
                },
                None => after == seq![setting(key, value)] + before,
            }
        }),
{
    let before = text::split_on(all, '\n');
    let after = lines_with_default(before, key, value);
    lemma_setting_on_one_line(key, value);
    lemma_split_parts_on_one_line(all);
    lemma_place(before, key, 0, Inside::nothing());
    match place_of(before, key, 0, Inside::nothing()) {
        Some(i) => {
            lemma_value_end(before, i);
            let (last, at) = value_end(before, i);
            let comment = before[last].skip(at);
            let fresh = reset(comment, key, value);
            assert(on_one_line(fresh)) by {
                reveal_strlit(" ");
                assert(on_one_line(before[last]));
                assert forall|k: int| 0 <= k < comment.len() implies #[trigger] comment[k] != '\n' by {
                    assert(before[last][at + k] != '\n');
                }
                lemma_one_line_sum(setting(key, value), " "@);
                lemma_one_line_sum(setting(key, value) + " "@, comment);
            }
            assert forall|j: int| 0 <= j < after.len() implies on_one_line(#[trigger] after[j]) by {
                if j < i {
                    assert(after[j] == before[j]);
                } else if j > i {
                    assert(after[j] == before[j - i + last]);
                }
            }
            assert(after =~= before.take(i) + seq![fresh] + before.skip(last + 1));
        },
        None => {
            assert forall|j: int| 0 <= j < after.len() implies on_one_line(#[trigger] after[j]) by {
                if j > 0 {
                    assert(after[j] == before[j - 1]);
                }
            }
        },
    }
    lemma_split_joined(after);
}

/// A comment behind a value survives a change of the value.
pub proof fn law_comments_stay(comment: Text, key: Text, value: Text)
    ensures
        text::has_suffix(reset(comment, key, value), comment),
{
    let fresh = reset(comment, key, value);
    assert(fresh.skip(fresh.len() - comment.len()) =~= comment);
}

/// A key that is made of small letters and underscores.
spec fn is_plain_key(key: Text) -> bool {
    key.len() > 0 && forall|i: int| 0 <= i < key.len() ==> ('a' <= #[trigger] key[i] <= 'z' || key[i] == '_')
}

proof fn lemma_default_keys_are_plain(key: Text)
    requires
        is_default_key(key),
    ensures
        is_plain_key(key),
{
    reveal_strlit("default_profile");
    reveal_strlit("default_region");
    reveal_strlit("default_tail_window");
}

/// Characters that open nothing are passed over.
proof fn lemma_scan_plain(s: Text, i: int, n: int, at: Inside)
    requires
        0 <= i,
        0 <= n,
        i + n <= s.len(),
        at.quote is None,
        forall|k: int|
            i <= k < i + n ==> ('a' <= #[trigger] s[k] <= 'z' || s[k] == '_' || s[k] == ' ' || s[k] == '='),
    ensures
        scanned(s, i, at) == scanned(s, i + n, at),
    decreases n,
{
    if n > 0 {
        assert('a' <= s[i] <= 'z' || s[i] == '_' || s[i] == ' ' || s[i] == '=');
        assert(step(s, i, at) == (1int, at));
        lemma_scan_plain(s, i + 1, n - 1, at);
    }
}

/// Inside of a short text, characters that neither close it nor escape are passed over.
proof fn lemma_scan_inner(s: Text, i: int, n: int, at: Inside)
    requires
        0 <= i,
        0 <= n,
        i + n <= s.len(),
        at.quote == Some(Quote::Basic),
        forall|k: int| i <= k < i + n ==> #[trigger] s[k] != '"' && s[k] != '\\',
    ensures
        scanned(s, i, at) == scanned(s, i + n, at),
    decreases n,
{
    if n > 0 {
        assert(s[i] != '"' && s[i] != '\\');
        assert(step(s, i, at) == (1int, at));
        lemma_scan_inner(s, i + 1, n - 1, at);
    }
}

proof fn lemma_hex_is_inner(n: nat)
    ensures
        forall|k: int|
            0 <= k < text::hexadecimal(n, true).len() ==> #[trigger] text::hexadecimal(n, true)[k] != '"'
                && text::hexadecimal(n, true)[k] != '\\',
    decreases n,
{
    if n >= 16 {
        lemma_hex_is_inner(n / 16);
        let all = text::hexadecimal(n, true);
        assert forall|k: int| 0 <= k < all.len() implies #[trigger] all[k] != '"' && all[k] != '\\' by {
            if k < all.len() - 1 {
                assert(all[k] == text::hexadecimal(n / 16, true)[k]);
            }
        }
    }
}

/// A quoted character does not end the text that it stands in.
proof fn lemma_scan_quoted_char(s: Text, i: int, c: char, at: Inside)
    requires
        0 <= i,
        i + quoted_char(c).len() <= s.len(),
        s.subrange(i, i + quoted_char(c).len()) == quoted_char(c),
        at.quote == Some(Quote::Basic),
    ensures
        scanned(s, i, at) == scanned(s, i + quoted_char(c).len(), at),
{
    let code = quoted_char(c);
    let part = s.subrange(i, i + code.len());
    if c == '"' || c == '\\' {
        assert(s[i] == part[0]);
        assert(step(s, i, at) == (2int, at));
    } else if is_control(c) {
        reveal_strlit("\\u");
        let hex = text::hexadecimal(c as u32 as nat, true);
        let digits = text::zero_fill(hex, 4);
        lemma_hex_is_inner(c as u32 as nat);
        assert(s[i] == part[0]);
        assert(part[0] == "\\u"@[0]);
        assert(step(s, i, at) == (2int, at));
        assert forall|k: int| i + 2 <= k < i + code.len() implies #[trigger] s[k] != '"' && s[k] != '\\' by {
            assert(s[k] == part[k - i]);
            assert(part[k - i] == digits[k - i - 2]);
            if hex.len() < 4 && k - i - 2 >= 4 - hex.len() {
                assert(digits[k - i - 2] == hex[k - i - 2 - (4 - hex.len())]);
            }
        }
        lemma_scan_inner(s, i + 2, code.len() - 2, at);
    } else {
        assert(s[i] == part[0]);
        assert(step(s, i, at) == (1int, at));
    }
}

proof fn lemma_quoted_first(v: Text)
    requires
        v.len() > 0,
    ensures
        quoted(v) == quoted_char(v[0]) + quoted(v.drop_first()),
    decreases v.len(),
{
    if v.len() == 1 {
        assert(v.drop_last() =~= Seq::empty());
        assert(v.drop_first() =~= Seq::empty());
        assert(quoted(v) =~= quoted_char(v[0]) + quoted(v.drop_first()));
    } else {
        lemma_quoted_first(v.drop_last());
        assert(v.drop_last().drop_first() =~= v.drop_first().drop_last());
        let (a, b, c) = (quoted_char(v[0]), quoted(v.drop_first().drop_last()), quoted_char(v.last()));
        assert(a + b + c =~= a + (b + c));
    }
}

/// A quoted text does not end before its closing quote.
proof fn lemma_scan_quoted(s: Text, i: int, value: Text, at: Inside)
    requires
        0 <= i,
        i + quoted(value).len() <= s.len(),
        s.subrange(i, i + quoted(value).len()) == quoted(value),
        at.quote == Some(Quote::Basic),
    ensures
        scanned(s, i, at) == scanned(s, i + quoted(value).len(), at),
    decreases value.len(),
{
    if value.len() > 0 {
        lemma_quoted_first(value);
        let first = quoted_char(value[0]);
        let rest = quoted(value.drop_first());
        let whole = s.subrange(i, i + quoted(value).len());
        assert(s.subrange(i, i + first.len()) =~= whole.take(first.len() as int));
        assert((first + rest).take(first.len() as int) =~= first);
        lemma_scan_quoted_char(s, i, value[0], at);
        let next = i + first.len();
        assert(s.subrange(next, next + rest.len()) =~= whole.skip(first.len() as int));
        assert((first + rest).skip(first.len() as int) =~= rest);
        lemma_scan_quoted(s, next, value.drop_first(), at);
    }
}

/// A line that sets a default holds its value as a whole, and its comment is found again.
proof fn lemma_scan_reset(comment: Text, key: Text, value: Text)
    requires
        is_plain_key(key),
        comment.len() > 0 ==> comment[0] == '#',
    ensures
        ({
            let s = reset(comment, key, value);
            let (at, behind) = scanned(s, 0, Inside::nothing());
            0 <= at <= s.len() && s.skip(at) == comment && behind == Inside::nothing()
        }),
{
    reveal_strlit(" = \"");
    reveal_strlit("\"");
    reveal_strlit(" ");
    let top = Inside::nothing();
    let s = reset(comment, key, value);
    let open: int = key.len() + 3int;
    let body = quoted(value);
    let close: int = open + 1 + body.len();
    assert forall|k: int| 0 <= k < open implies ('a' <= #[trigger] s[k] <= 'z' || s[k] == '_' || s[k] == ' ' || s[k]
        == '=') by {
        if k < key.len() {
            assert(s[k] == key[k]);
        }
    }
    lemma_scan_plain(s, 0, open, top);
    assert(s[open] == '"');
    assert(s[close] == '"');
    assert(s.subrange(open + 1, close) =~= body);
    assert(!tripled(s, open, '"')) by {
        if body.len() > 0 {
            lemma_quoted_first_char(value);
            assert(s[open + 1] == body[0]);
        }
    }
    assert(step(s, open, top) == (1int, top.quoting(Quote::Basic)));
    lemma_scan_quoted(s, open + 1, value, top.quoting(Quote::Basic));
    assert(step(s, close, top.quoting(Quote::Basic)) == (1int, top));
    if comment.len() > 0 {
        assert(s[close + 1] == ' ');
        assert(step(s, close + 1, top) == (1int, top));
        assert(s[close + 2] == comment[0]);
        assert(s.skip(close + 2) =~= comment);
        assert(scanned(s, close + 2, top) == (close + 2, top));
        assert(scanned(s, close + 1, top) == scanned(s, close + 2, top));
    } else {
        assert(scanned(s, close + 1, top) == (close + 1, top));
        assert(s.skip(close + 1) =~= comment);
    }
}

/// A quoted text does not start with a quote.
proof fn lemma_quoted_first_char(value: Text)
    requires
        value.len() > 0,
    ensures
        quoted(value).len() > 0,
        quoted(value)[0] != '"',
{
    lemma_quoted_first(value);
    reveal_strlit("\\u");
    assert(quoted(value)[0] == quoted_char(value[0])[0]);
}

/// A line that sets a default gives a value to that key, and opens no table.
proof fn lemma_reset_assigns(comment: Text, key: Text, value: Text)
    requires
        is_plain_key(key),
        comment.len() > 0 ==> comment[0] == '#',
    ensures
        assigns(reset(comment, key, value), key),
        !opens_table(reset(comment, key, value)),
{
    reveal_strlit(" = \"");
    reveal_strlit("=");
    reveal_strlit("[");
    reveal_strlit(" ");
    let s = reset(comment, key, value);
    assert(s[0] == key[0]);
    assert(s[key.len() as int] == ' ' && s[key.len() + 1int] == '=');
    assert("="@ =~= seq!['=']);
    lemma_first_equals(s, key.len() + 1int, 0);
    let name = s.take(key.len() + 1int);
    assert(name =~= key.push(' '));
    assert(!text::is_space(key[0]) && !text::is_space(key.last()));
    assert(text::trim_start(name) == name);
    assert(name.drop_last() =~= key);
    assert(text::trim_end(key) == key);
    assert(text::trim_end(name) == text::trim_end(key));
    assert(text::trimmed(name) == key);
    assert(text::trim_start(s) == s);
    lemma_trim_end_keeps_first(s);
    let bare = text::trimmed(s);
    if text::has_prefix(bare, "["@) {
        assert(bare.take(1)[0] == "["@[0]);
    }
}

proof fn lemma_trim_end_keeps_first(s: Text)
    requires
        s.len() > 0,
        !text::is_space(s[0]),
    ensures
        text::trim_end(s).len() > 0,
        text::trim_end(s)[0] == s[0],
    decreases s.len(),
{
    if text::is_space(s.last()) {
        lemma_trim_end_keeps_first(s.drop_last());
    }
}

proof fn lemma_first_equals(s: Text, at: int, i: int)
    requires
        0 <= i <= at < s.len(),
        s[at] == '=',
        "="@ == seq!['='],
        forall|k: int| 0 <= k < at ==> #[trigger] s[k] != '=',
    ensures
        text::occurrence_from(s, "="@, i) == Some(at),
    decreases at - i,
{
    if i == at {
        assert(s.subrange(i, i + 1) =~= seq!['=']);
    } else {
        assert(s.subrange(i, i + 1)[0] == s[i]);
        lemma_first_equals(s, at, i + 1);
    }
}

/// Lines that agree up to a line that gives a value lead to the same place.
proof fn lemma_same_place(a: Seq<Text>, b: Seq<Text>, key: Text, p: int, i: int, at: Inside)
    requires
        0 <= i <= p < b.len(),
        place_of(a, key, i, at) == Some(p),
        forall|k: int| 0 <= k < p ==> #[trigger] a[k] == b[k],
        assigns(b[p], key),
        !opens_table(b[p]),
    ensures
        place_of(b, key, i, at) == Some(p),
    decreases p - i,
{
    lemma_place(a, key, i, at);
    if i < p {
        assert(a[i] == b[i]);
        lemma_same_place(a, b, key, p, i + 1, scanned(a[i], 0, at).1);
    } else if !at.at_top() {
        lemma_place(a, key, i + 1, scanned(a[i], 0, at).1);
    }
}

/// The value of a default comes to its end, where the configuration sets it.
pub open spec fn value_ends(lines: Seq<Text>, key: Text) -> bool {
    place_of(lines, key, 0, Inside::nothing()) matches Some(i) ==> end_from(lines, i, Inside::nothing()) is Some
}

/// What was set is found again: on one line, where it was set before or first of all, with the
/// comment that stood there.
pub proof fn law_what_was_set_is_found(lines: Seq<Text>, key: Text, value: Text)
    requires
        is_default_key(key),
        value_ends(lines, key),
    ensures
        ({
            let after = lines_with_default(lines, key, value);
            let (p, comment) = match place_of(lines, key, 0, Inside::nothing()) {
                Some(i) => (i, lines[value_end(lines, i).0].skip(value_end(lines, i).1)),
                None => (0int, Seq::<char>::empty()),
            };
            &&& 0 <= p < after.len()
            &&& place_of(after, key, 0, Inside::nothing()) == Some(p)
            &&& after[p] == reset(comment, key, value)
            &&& value_end(after, p).0 == p
            &&& after[p].skip(value_end(after, p).1) == comment
            &&& value_ends(after, key)
        }),
{
    let after = lines_with_default(lines, key, value);
    lemma_default_keys_are_plain(key);
    lemma_place(lines, key, 0, Inside::nothing());
    match place_of(lines, key, 0, Inside::nothing()) {
        Some(i) => {
            lemma_value_end(lines, i);
            let (last, at) = value_end(lines, i);
            let comment = lines[last].skip(at);
            lemma_scan_reset(comment, key, value);
            lemma_reset_assigns(comment, key, value);
            assert(after[i] == reset(comment, key, value));
            assert forall|k: int| 0 <= k < i implies #[trigger] lines[k] == after[k] by {
                assert(after[k] == lines.take(i)[k]);
            }
            lemma_same_place(lines, after, key, i, 0, Inside::nothing());
        },
        None => {
            lemma_scan_reset(Seq::empty(), key, value);
            lemma_reset_assigns(Seq::empty(), key, value);
            assert(after[0] == setting(key, value));
        },
    }
}

/// The last setting of a default counts: it replaces the one before, and leaves no trace of it.
pub proof fn law_the_last_setting_counts(all: Text, key: Text, first: Text, second: Text)
    requires
        is_default_key(key),
        value_ends(text::split_on(all, '\n'), key),
    ensures
        with_default(with_default(all, key, first), key, second) == with_default(all, key, second),
{
    let before = text::split_on(all, '\n');
    let once = lines_with_default(before, key, first);
    law_setting_changes_one_value(all, key, first);
    lemma_place(before, key, 0, Inside::nothing());
    law_what_was_set_is_found(before, key, first);
    match place_of(before, key, 0, Inside::nothing()) {
        Some(i) => {
            lemma_value_end(before, i);
            let (last, at) = value_end(before, i);
            assert(text::split_on(with_default(all, key, first), '\n') =~= once);
            assert(once.take(i) =~= before.take(i));
            assert(once.skip(i + 1) =~= before.skip(last + 1));
        },
        None => {
            assert(once.take(0).push(setting(key, second)) + once.skip(1) =~= seq![setting(key, second)] + before);
        },
    }
}

/// Profile, region and window have defaults, and nothing else has.
pub proof fn law_what_has_a_default(what: Text)
    ensures
        is_default_key("default_"@ + what) <==> what == "profile"@ || what == "region"@ || what == "tail_window"@,
        is_default_key(what) ==> text::has_prefix(what, "default_"@),
{
    reveal_strlit("default_");
    reveal_strlit("profile");
    reveal_strlit("region");
    reveal_strlit("tail_window");
    reveal_strlit("default_profile");
    reveal_strlit("default_region");
    reveal_strlit("default_tail_window");
    let head = "default_"@;
    assert("default_profile"@ =~= head + "profile"@);
    assert("default_region"@ =~= head + "region"@);
    assert("default_tail_window"@ =~= head + "tail_window"@);
    assert((head + "profile"@).take(8) =~= head);
    assert((head + "region"@).take(8) =~= head);
    assert((head + "tail_window"@).take(8) =~= head);
    assert((head + what).skip(8) =~= what);
    assert((head + "profile"@).skip(8) =~= "profile"@);
    assert((head + "region"@).skip(8) =~= "region"@);
    assert((head + "tail_window"@).skip(8) =~= "tail_window"@);
}

/// A value without quotes, backslashes and control characters is written as it is, between quotes.
pub proof fn law_plain_values_are_written_as_they_are(key: Text, value: Text)
    requires
        forall|i: int| 0 <= i < value.len() ==> (#[trigger] value[i]) != '"' && value[i] != '\\' && (value[i] as u32)
            >= 32 && value[i] != '\u{7f}',
    ensures
        setting(key, value) == key + " = "@ + seq!['"'] + value + seq!['"'],
{
    lemma_quoted_plain(value);
    reveal_strlit(" = \"");
    reveal_strlit(" = ");
    reveal_strlit("\"");
    assert(" = \""@ =~= " = "@ + seq!['"']);
    assert("\""@ =~= seq!['"']);
    assert(key + (" = "@ + seq!['"']) =~= key + " = "@ + seq!['"']);
}

proof fn lemma_quoted_plain(value: Text)
    requires
        forall|i: int| 0 <= i < value.len() ==> (#[trigger] value[i]) != '"' && value[i] != '\\' && (value[i] as u32)
            >= 32 && value[i] != '\u{7f}',
    ensures
        quoted(value) == value,
    decreases value.len(),
{
    if value.len() > 0 {
        let front = value.drop_last();
        assert forall|i: int| 0 <= i < front.len() implies (#[trigger] front[i]) != '"' && front[i] != '\\' && (front[i]
            as u32) >= 32 && front[i] != '\u{7f}' by {
            assert(front[i] == value[i]);
        }
        lemma_quoted_plain(front);
        assert(value[value.len() - 1] == value.last());
        assert(front + seq![value.last()] =~= value);
    }
}

/// A quote or a backslash is written behind a backslash, and every part of a value by itself.
pub proof fn law_quotes_are_escaped(a: Text, b: Text)
    ensures
        quoted(a + b) == quoted(a) + quoted(b),
        quoted(seq!['"']) == seq!['\\', '"'],
        quoted(seq!['\\']) == seq!['\\', '\\'],
    decreases b.len(),
{
    reveal_with_fuel(quoted, 2);
    assert(seq!['"'].drop_last() =~= Seq::<char>::empty());
    assert(seq!['\\'].drop_last() =~= Seq::<char>::empty());
    assert(quoted(seq!['"']) =~= seq!['\\', '"']);
    assert(quoted(seq!['\\']) =~= seq!['\\', '\\']);
    if b.len() == 0 {
        assert(a + b =~= a);
        assert(quoted(a) + quoted(b) =~= quoted(a));
    } else {
        assert((a + b).drop_last() =~= a + b.drop_last());
        assert((a + b).last() == b.last());
        law_quotes_are_escaped(a, b.drop_last());
        assert(quoted(a + b) == quoted(a + b.drop_last()) + quoted_char(b.last()));
        assert(quoted(b) == quoted(b.drop_last()) + quoted_char(b.last()));
        assert(quoted(a + b) =~= quoted(a) + quoted(b));
    }
}

/// A line that opens nothing: no quote, no bracket and no comment stands in it.
pub open spec fn is_calm(line: Text) -> bool {
    forall|i: int|
        0 <= i < line.len() ==> (#[trigger] line[i]) != '"' && line[i] != '\'' && line[i] != '[' && line[i] != ']'
            && line[i] != '{' && line[i] != '}' && line[i] != '#'
}

proof fn lemma_scan_calm(line: Text, i: int)
    requires
        is_calm(line),
        0 <= i <= line.len(),
    ensures
        scanned(line, i, Inside::nothing()) == (line.len() as int, Inside::nothing()),
    decreases line.len() - i,
{
    if i < line.len() {
        assert(line[i] != '"');
        lemma_scan_calm(line, i + 1);
    }
}

/// The first line that gives a value to a key is its place, behind lines that open nothing and set
/// other keys; behind a line that opens a table there is no such place.
pub proof fn law_the_first_value_before_any_table_counts(lines: Seq<Text>, key: Text, from: int, i: int)
    requires
        0 <= from <= i < lines.len(),
        forall|j: int| from <= j < i ==> is_calm(#[trigger] lines[j]) && !assigns(lines[j], key),
    ensures
        assigns(lines[i], key) && !opens_table(lines[i]) ==> place_of(lines, key, from, Inside::nothing()) == Some(i),
        opens_table(lines[i]) ==> place_of(lines, key, from, Inside::nothing()) is None,
    decreases i - from,
{
    if from < i {
        lemma_scan_calm(lines[from], 0);
        if opens_table(lines[from]) {
            lemma_calm_lines_open_no_table(lines[from]);
        }
        law_the_first_value_before_any_table_counts(lines, key, from + 1, i);
    }
}

proof fn lemma_calm_lines_open_no_table(line: Text)
    requires
        is_calm(line),
    ensures
        !opens_table(line),
{
    reveal_strlit("[");
    let (a, b) = text::law_trimming(line);
    let t = text::trimmed(line);
    if opens_table(line) {
        assert(t.take(1)[0] == '[');
        assert(t[0] == line[a]);
    }
}

} // verus!
