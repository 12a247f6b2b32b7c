//! Text helpers over `Seq<char>`: search, trimming, splitting, and numbers in and out of text.

use vstd::prelude::*;

verus! {

// --- trusted facts about std ------------------------------------------------------------------

/// `str` equality (`==`): two slices are equal exactly when they hold the same characters.
pub assume_specification[ <str as PartialEq>::eq ](a: &str, b: &str) -> (r: bool)
    ensures
        r == (a@ == b@),
;

/// `String::push`: appends the character at the end.
pub assume_specification[ String::push ](s: &mut String, c: char)
    ensures
        final(s)@ == old(s)@.push(c),
;

/// What `str::to_lowercase` makes of a text.
pub uninterp spec fn lowercase(s: Seq<char>) -> Seq<char>;

/// Calls `str::to_lowercase`; the result depends on the text alone, and nothing becomes nothing.
#[verifier::external_body]
pub(crate) fn to_lowercase(s: &str) -> (r: String)
    ensures
        r@ == lowercase(s@),
        s@.len() == 0 ==> r@.len() == 0,
{
    s.to_lowercase()
}

/// Whether two texts hold the same characters.
pub fn same(a: &str, b: &str) -> (r: bool)
    ensures
        r == (a@ == b@),
{
    a.eq(b)
}

// --- characters ------------------------------------------------------------------------------

/// The characters with the Unicode property `White_Space`.
pub open spec fn is_space(c: char) -> bool {
    let code = c as u32;
    (9 <= code <= 13) || code == 0x20 || code == 0x85 || code == 0xa0 || code == 0x1680 || (0x2000 <= code <= 0x200a)
        || code == 0x2028 || code == 0x2029 || code == 0x202f || code == 0x205f || code == 0x3000
}

/// Whether a character has the Unicode property `White_Space`.
pub fn is_whitespace(c: char) -> (r: bool)
    ensures
        r == is_space(c),
{
    let code: u32 = c as u32;
    (9 <= code && code <= 13) || code == 0x20 || code == 0x85 || code == 0xa0 || code == 0x1680 || (0x2000 <= code
        && code <= 0x200a) || code == 0x2028 || code == 0x2029 || code == 0x202f || code == 0x205f || code == 0x3000
}

/// ASCII letters in lower case, every other character unchanged.
pub open spec fn ascii_lower(c: char) -> char {
    if 'A' <= c <= 'Z' {
        ((c as u8) + 32) as char
    } else {
        c
    }
}

/// ASCII letters in upper case, every other character unchanged.
pub open spec fn ascii_upper(c: char) -> char {
    if 'a' <= c <= 'z' {
        ((c as u8) - 32) as char
    } else {
        c
    }
}

pub open spec fn is_ascii_letter(c: char) -> bool {
    ('a' <= c <= 'z') || ('A' <= c <= 'Z')
}

pub open spec fn is_digit(c: char) -> bool {
    '0' <= c <= '9'
}

pub open spec fn digit_value(c: char) -> int {
    c as int - '0' as int
}

pub fn lower_char(c: char) -> (r: char)
    ensures
        r == ascii_lower(c),
{
    if 'A' <= c && c <= 'Z' {
        ((c as u8) + 32) as char
    } else {
        c
    }
}

pub fn upper_char(c: char) -> (r: char)
    ensures
        r == ascii_upper(c),
{
    if 'a' <= c && c <= 'z' {
        ((c as u8) - 32) as char
    } else {
        c
    }
}

// --- whole texts -----------------------------------------------------------------------------

/// The characters of `s` in order.
pub fn chars_of(s: &str) -> (r: Vec<char>)
    ensures
        r@ == s@,
{
    let mut out: Vec<char> = Vec::new();
    for c in it: s.chars()
        invariant
            out@ == it.seq().take(it.index() as int),
            it.seq() == s@,
    {
        out.push(c);
        proof {
            assert(it.seq().take(it.index() as int).push(c) =~= it.seq().take(it.index() as int + 1));
        }
    }
    proof {
        assert(s@.take(s@.len() as int) =~= s@);
    }
    out
}

/// The text made of `v[from..to]`.
pub fn text_of(v: &Vec<char>, from: usize, to: usize) -> (r: String)
    requires
        from <= to <= v@.len(),
    ensures
        r@ == v@.subrange(from as int, to as int),
{
    let mut out: String = String::new();
    let mut i: usize = from;
    while i < to
        invariant
            from <= i <= to <= v@.len(),
            out@ == v@.subrange(from as int, i as int),
        decreases to - i,
    {
        out.push(v[i]);
        i = i + 1;
        proof {
            assert(v@.subrange(from as int, i as int) =~= v@.subrange(from as int, i as int - 1).push(v@[i as int - 1]));
        }
    }
    out
}

pub open spec fn ascii_lower_all(s: Seq<char>) -> Seq<char> {
    s.map_values(|c: char| ascii_lower(c))
}

pub open spec fn ascii_upper_all(s: Seq<char>) -> Seq<char> {
    s.map_values(|c: char| ascii_upper(c))
}

/// `s` with its ASCII letters in lower case.
pub fn to_ascii_lower(s: &str) -> (r: String)
    ensures
        r@ == ascii_lower_all(s@),
{
    let v = chars_of(s);
    let mut out: String = String::new();
    let mut i: usize = 0;
    while i < v.len()
        invariant
            i <= v@.len(),
            out@ == ascii_lower_all(v@.take(i as int)),
        decreases v@.len() - i,
    {
        out.push(lower_char(v[i]));
        i = i + 1;
        proof {
            assert(ascii_lower_all(v@.take(i as int)) =~= ascii_lower_all(v@.take(i as int - 1)).push(ascii_lower(v@[i as int - 1])));
        }
    }
    proof {
        assert(v@.take(v@.len() as int) =~= v@);
    }
    out
}

/// `s` with its ASCII letters in upper case.
pub fn to_ascii_upper(s: &str) -> (r: String)
    ensures
        r@ == ascii_upper_all(s@),
{
    let v = chars_of(s);
    let mut out: String = String::new();
    let mut i: usize = 0;
    while i < v.len()
        invariant
            i <= v@.len(),
            out@ == ascii_upper_all(v@.take(i as int)),
        decreases v@.len() - i,
    {
        out.push(upper_char(v[i]));
        i = i + 1;
        proof {
            assert(ascii_upper_all(v@.take(i as int)) =~= ascii_upper_all(v@.take(i as int - 1)).push(ascii_upper(v@[i as int - 1])));
        }
    }
    proof {
        assert(v@.take(v@.len() as int) =~= v@);
    }
    out
}

// --- search ----------------------------------------------------------------------------------

/// `needle` stands in `hay` starting at position `at`.
pub open spec fn occurs_at(hay: Seq<char>, needle: Seq<char>, at: int) -> bool {
    0 <= at && at + needle.len() <= hay.len() && hay.subrange(at, at + needle.len()) == needle
}

/// `needle` stands somewhere in `hay`.
pub open spec fn occurs(hay: Seq<char>, needle: Seq<char>) -> bool {
    exists|at: int| occurs_at(hay, needle, at)
}

/// What stands between two texts occurs in the whole.
pub proof fn lemma_occurs_between(before: Seq<char>, needle: Seq<char>, after: Seq<char>)
    ensures
        occurs(before + needle + after, needle),
{
    let whole = before + needle + after;
    let at = before.len() as int;
    assert(whole.subrange(at, at + needle.len()) =~= needle);
    assert(occurs_at(whole, needle, at));
}

fn matches_at(hay: &Vec<char>, needle: &Vec<char>, at: usize) -> (r: bool)
    requires
        at + needle@.len() <= hay@.len(),
    ensures
        r == occurs_at(hay@, needle@, at as int),
{
    let mut i: usize = 0;
    while i < needle.len()
        invariant
            i <= needle.len(),
            at + needle.len() <= hay.len(),
            forall|k: int| 0 <= k < i ==> hay@[at + k] == needle@[k],
        decreases needle@.len() - i,
    {
        if hay[at + i] != needle[i] {
            proof {
                assert(hay@.subrange(at as int, at + needle@.len())[i as int] != needle@[i as int]);
            }
            return false;
        }
        i = i + 1;
    }
    proof {
        assert(hay@.subrange(at as int, at + needle@.len()) =~= needle@);
    }
    true
}

/// Whether `needle` stands somewhere in `hay`.
pub fn contains(hay: &str, needle: &str) -> (r: bool)
    ensures
        r == occurs(hay@, needle@),
{
    let h = chars_of(hay);
    let n = chars_of(needle);
    if n.len() > h.len() {
        return false;
    }
    let last: usize = h.len() - n.len();
    let mut at: usize = 0;
    while at <= last
        invariant
            last == h@.len() - n@.len(),
            at <= last + 1,
            h@ == hay@,
            n@ == needle@,
            forall|k: int| 0 <= k < at ==> !occurs_at(h@, n@, k),
        decreases last + 1 - at,
    {
        if matches_at(&h, &n, at) {
            return true;
        }
        if at == last {
            return false;
        }
        at = at + 1;
    }
    false
}

/// `s` ends with `tail`.
pub open spec fn has_suffix(s: Seq<char>, tail: Seq<char>) -> bool {
    s.len() >= tail.len() && s.skip(s.len() - tail.len()) == tail
}

/// Whether `s` ends with `tail`.
pub fn ends_with(s: &str, tail: &str) -> (r: bool)
    ensures
        r == has_suffix(s@, tail@),
{
    let h = chars_of(s);
    let n = chars_of(tail);
    if n.len() > h.len() {
        return false;
    }
    proof {
        let at = h@.len() - n@.len();
        assert(h@.subrange(at, at + n@.len()) =~= h@.skip(at));
    }
    matches_at(&h, &n, h.len() - n.len())
}

/// `s` starts with `head`.
pub open spec fn has_prefix(s: Seq<char>, head: Seq<char>) -> bool {
    s.len() >= head.len() && s.take(head.len() as int) == head
}

/// What follows `head` in `s`, where `s` starts with it.
pub fn strip_prefix(s: &str, head: &str) -> (r: Option<String>)
    ensures
        r.deep_view() == (if has_prefix(s@, head@) {
            Some(s@.skip(head@.len() as int))
        } else {
            None
        }),
{
    let h = chars_of(s);
    let n = chars_of(head);
    if n.len() > h.len() {
        return None;
    }
    proof {
        assert(h@.subrange(0, 0 + n@.len() as int) =~= h@.take(n@.len() as int));
        assert(h@.subrange(n@.len() as int, h@.len() as int) =~= h@.skip(n@.len() as int));
    }
    if matches_at(&h, &n, 0) {
        Some(text_of(&h, n.len(), h.len()))
    } else {
        None
    }
}

/// Position of the first character of `s` that satisfies `p`, `s.len()` when there is none.
pub open spec fn first_where(s: Seq<char>, p: spec_fn(char) -> bool) -> int
    decreases s.len(),
{
    if s.len() == 0 {
        0
    } else if p(s[0]) {
        0
    } else {
        1 + first_where(s.skip(1), p)
    }
}

/// `first_where` is the least position that satisfies the predicate.
pub proof fn lemma_first_where(s: Seq<char>, p: spec_fn(char) -> bool)
    ensures
        0 <= first_where(s, p) <= s.len(),
        first_where(s, p) < s.len() ==> p(s[first_where(s, p)]),
        forall|k: int| 0 <= k < first_where(s, p) ==> !p(#[trigger] s[k]),
    decreases s.len(),
{
    if s.len() > 0 && !p(s[0]) {
        lemma_first_where(s.skip(1), p);
        assert forall|k: int| 0 <= k < first_where(s, p) implies !p(#[trigger] s[k]) by {
            if k > 0 {
                assert(s.skip(1)[k - 1] == s[k]);
            }
        }
    }
}

/// Any position with the properties of `lemma_first_where` is `first_where`.
pub proof fn lemma_first_where_unique(s: Seq<char>, p: spec_fn(char) -> bool, at: int)
    requires
        0 <= at <= s.len(),
        at < s.len() ==> p(s[at]),
        forall|k: int| 0 <= k < at ==> !p(#[trigger] s[k]),
    ensures
        first_where(s, p) == at,
{
    lemma_first_where(s, p);
    let f = first_where(s, p);
    if f < at {
        assert(!p(s[f]));
    }
    if at < f {
        assert(!p(s[at]));
    }
}

/// The predicate that holds of `sep` alone.
pub open spec fn is_char(sep: char) -> spec_fn(char) -> bool {
    |c: char| c == sep
}

/// Position of the first `sep` in `s`, `s.len()` when it does not occur.
pub open spec fn first_char(s: Seq<char>, sep: char) -> int {
    first_where(s, is_char(sep))
}

/// Position from `from` on of the first `sep`, `v.len()` when there is none.
pub fn find_from(v: &Vec<char>, sep: char, from: usize) -> (r: usize)
    requires
        from <= v@.len(),
    ensures
        from <= r <= v@.len(),
        r == from + first_char(v@.skip(from as int), sep),
{
    let ghost p = is_char(sep);
    let mut i: usize = from;
    while i < v.len() && v[i] != sep
        invariant
            from <= i <= v@.len(),
            forall|k: int| from <= k < i ==> v@[k] != sep,
        decreases v@.len() - i,
    {
        i = i + 1;
    }
    proof {
        let s = v@.skip(from as int);
        assert(i < v@.len() ==> s[i - from] == v@[i as int]);
        assert forall|k: int| 0 <= k < i - from implies !p(#[trigger] s[k]) by {
            assert(v@[from + k] != sep);
        }
        lemma_first_where_unique(s, p, i - from);
    }
    i
}

// --- trimming --------------------------------------------------------------------------------

/// `s` without its leading whitespace.
pub open spec fn trim_start(s: Seq<char>) -> Seq<char>
    decreases s.len(),
{
    if s.len() > 0 && is_space(s[0]) {
        trim_start(s.skip(1))
    } else {
        s
    }
}

/// `s` without its trailing whitespace.
pub open spec fn trim_end(s: Seq<char>) -> Seq<char>
    decreases s.len(),
{
    if s.len() > 0 && is_space(s.last()) {
        trim_end(s.drop_last())
    } else {
        s
    }
}

/// `s` without whitespace at either end.
pub open spec fn trimmed(s: Seq<char>) -> Seq<char> {
    trim_end(trim_start(s))
}

/// `v[from..to]` without whitespace at either end.
pub fn trim_range(v: &Vec<char>, from: usize, to: usize) -> (r: String)
    requires
        from <= to <= v@.len(),
    ensures
        r@ == trimmed(v@.subrange(from as int, to as int)),
{
    let ghost whole = v@.subrange(from as int, to as int);
    let mut a: usize = from;
    while a < to && is_whitespace(v[a])
        invariant
            from <= a <= to <= v@.len(),
            trim_start(v@.subrange(a as int, to as int)) == trim_start(whole),
        decreases to - a,
    {
        proof {
            assert(v@.subrange(a as int, to as int).skip(1) =~= v@.subrange(a as int + 1, to as int));
        }
        a = a + 1;
    }
    let mut b: usize = to;
    proof {
        assert(trim_start(whole) == v@.subrange(a as int, to as int));
    }
    while a < b && is_whitespace(v[b - 1])
        invariant
            a <= b <= to <= v@.len(),
            trim_end(v@.subrange(a as int, b as int)) == trimmed(whole),
        decreases b - a,
    {
        proof {
            assert(v@.subrange(a as int, b as int).drop_last() =~= v@.subrange(a as int, b as int - 1));
        }
        b = b - 1;
    }
    text_of(v, a, b)
}

/// `s` without whitespace at either end.
pub fn trim(s: &str) -> (r: String)
    ensures
        r@ == trimmed(s@),
{
    let v = chars_of(s);
    proof {
        assert(v@.subrange(0, v@.len() as int) =~= v@);
    }
    trim_range(&v, 0, v.len())
}

// --- splitting -------------------------------------------------------------------------------

/// The parts of `s` between its occurrences of `sep`, the empty ones included.
pub open spec fn split_on(s: Seq<char>, sep: char) -> Seq<Seq<char>>
    decreases s.len(),
    via split_on_decreases
{
    let at = first_char(s, sep);
    if at >= s.len() {
        seq![s]
    } else {
        seq![s.take(at)] + split_on(s.skip(at + 1), sep)
    }
}

#[via_fn]
proof fn split_on_decreases(s: Seq<char>, sep: char) {
    lemma_first_where(s, is_char(sep));
}

/// The parts of `s` between its occurrences of `sep`.
pub fn split(s: &str, sep: char) -> (r: Vec<String>)
    ensures
        r.deep_view() == split_on(s@, sep),
{
    let v = chars_of(s);
    let mut parts: Vec<String> = Vec::new();
    let mut from: usize = 0;
    proof {
        assert(v@.skip(0) =~= v@);
    }
    loop
        invariant
            v@ == s@,
            from <= v@.len(),
            parts.deep_view() + split_on(v@.skip(from as int), sep) == split_on(s@, sep),
        decreases v@.len() - from,
    {
        let at: usize = find_from(&v, sep, from);
        let ghost before = parts.deep_view();
        let part = text_of(&v, from, at);
        parts.push(part);
        proof {
            let rest = v@.skip(from as int);
            let n = at - from;
            lemma_first_where(rest, is_char(sep));
            assert(rest.take(n) =~= v@.subrange(from as int, at as int));
            assert(parts.deep_view() =~= before.push(part@));
            if at >= v@.len() {
                assert(rest =~= v@.subrange(from as int, at as int));
                assert(parts.deep_view() =~= before + split_on(rest, sep));
            } else {
                assert(rest.skip(n + 1) =~= v@.skip(at as int + 1));
                assert(before + (seq![rest.take(n)] + split_on(v@.skip(at as int + 1), sep)) =~= parts.deep_view()
                    + split_on(v@.skip(at as int + 1), sep));
            }
        }
        if at >= v.len() {
            return parts;
        }
        from = at + 1;
    }
}

/// Splitting a text gives at least one part.
pub proof fn lemma_split_on_nonempty(s: Seq<char>, sep: char)
    ensures
        split_on(s, sep).len() > 0,
{
    lemma_first_where(s, is_char(sep));
}

/// A first part that does not hold `sep` comes off a text.
pub proof fn lemma_split_first(a: Seq<char>, sep: char, rest: Seq<char>)
    requires
        !a.contains(sep),
    ensures
        split_on(a + seq![sep] + rest, sep) == seq![a] + split_on(rest, sep),
        split_on(a, sep) == seq![a],
{
    let s = a + seq![sep] + rest;
    assert(s[a.len() as int] == sep);
    assert forall|k: int| 0 <= k < a.len() implies !(is_char(sep))(#[trigger] s[k]) by {
        assert(a.contains(a[k]));
    }
    lemma_first_where_unique(s, is_char(sep), a.len() as int);
    assert(s.take(a.len() as int) =~= a);
    assert(s.skip(a.len() as int + 1) =~= rest);
    assert forall|k: int| 0 <= k < a.len() implies !(is_char(sep))(#[trigger] a[k]) by {
        assert(a.contains(a[k]));
    }
    lemma_first_where_unique(a, is_char(sep), a.len() as int);
}

/// What follows the last `sep` of `s`; all of `s` where there is none.
pub open spec fn last_part_of(s: Seq<char>, sep: char) -> Seq<char> {
    split_on(s, sep).last()
}

/// What follows the last `sep` of `s`; all of `s` where there is none.
pub fn last_part(s: &str, sep: char) -> (r: String)
    ensures
        r@ == last_part_of(s@, sep),
{
    let parts = split(s, sep);
    proof {
        lemma_split_on_nonempty(s@, sep);
        assert(parts.deep_view().last() == parts@.last()@);
    }
    parts[parts.len() - 1].clone()
}

/// `s` on one line and cut to `max` characters, with an ellipsis where something was cut.
pub open spec fn preview_of(s: Seq<char>, max: nat) -> Seq<char> {
    let flat = s.map_values(|c: char| if c == '\n' { ' ' } else { c });
    if flat.len() > max {
        flat.take(max as int).push('…')
    } else {
        flat
    }
}

/// `s` on one line and cut to `max` characters, with an ellipsis where something was cut.
pub fn preview(s: &str, max: usize) -> (r: String)
    ensures
        r@ == preview_of(s@, max as nat),
{
    let v = chars_of(s);
    let ghost flat = s@.map_values(|c: char| if c == '\n' { ' ' } else { c });
    let mut out: String = String::new();
    let mut i: usize = 0;
    while i < v.len() && i < max
        invariant
            i <= v@.len(),
            i <= max,
            v@ == s@,
            flat == s@.map_values(|c: char| if c == '\n' { ' ' } else { c }),
            out@ == flat.take(i as int),
        decreases v@.len() - i,
    {
        let c: char = v[i];
        out.push(if c == '\n' { ' ' } else { c });
        i = i + 1;
        proof {
            assert(flat.take(i as int) =~= flat.take(i as int - 1).push(flat[i as int - 1]));
        }
    }
    if i < v.len() {
        out.push('…');
    } else {
        proof {
            assert(flat.take(i as int) =~= flat);
        }
    }
    out
}

/// `s` with its line breaks turned into spaces.
pub open spec fn one_line_of(s: Seq<char>) -> Seq<char> {
    s.map_values(|c: char| if c == '\n' || c == '\r' { ' ' } else { c })
}

/// `s` with its line breaks turned into spaces.
pub fn one_line(s: &str) -> (r: String)
    ensures
        r@ == one_line_of(s@),
{
    let v = chars_of(s);
    let ghost flat = one_line_of(s@);
    let mut out: String = String::new();
    let mut i: usize = 0;
    while i < v.len()
        invariant
            i <= v@.len(),
            v@ == s@,
            flat == one_line_of(s@),
            out@ == flat.take(i as int),
        decreases v@.len() - i,
    {
        let c: char = v[i];
        out.push(if c == '\n' || c == '\r' { ' ' } else { c });
        i = i + 1;
        proof {
            assert(flat.take(i as int) =~= flat.take(i as int - 1).push(flat[i as int - 1]));
        }
    }
    proof {
        assert(flat.take(flat.len() as int) =~= flat);
    }
    out
}

/// `s` with every run of whitespace between two words made a single space, and none around them.
pub open spec fn collapsed(s: Seq<char>) -> Seq<char>
    decreases s.len(),
{
    if s.len() == 0 {
        Seq::empty()
    } else {
        let head = collapsed(s.drop_last());
        if is_space(s.last()) {
            head
        } else if head.len() > 0 && is_space(s[s.len() - 2]) {
            head.push(' ').push(s.last())
        } else {
            head.push(s.last())
        }
    }
}

/// `s` with every run of whitespace between two words made a single space, and none around them.
pub fn collapse(s: &str) -> (r: String)
    ensures
        r@ == collapsed(s@),
{
    let v = chars_of(s);
    let mut out: String = String::new();
    let mut started = false;
    let mut i: usize = 0;
    while i < v.len()
        invariant
            i <= v@.len(),
            v@ == s@,
            out@ == collapsed(s@.take(i as int)),
            started == (out@.len() > 0),
        decreases v@.len() - i,
    {
        let ghost grown = s@.take(i as int + 1);
        proof {
            assert(grown.drop_last() =~= s@.take(i as int));
            assert(i > 0 ==> grown[grown.len() - 2] == v@[i - 1]);
        }
        let c: char = v[i];
        if !is_whitespace(c) {
            if started && is_whitespace(v[i - 1]) {
                out.push(' ');
            }
            out.push(c);
            started = true;
        }
        i = i + 1;
    }
    proof {
        assert(s@.take(s@.len() as int) =~= s@);
    }
    out
}

/// `s` cut to `max` characters, with an ellipsis where something was cut.
pub open spec fn cut_to(s: Seq<char>, max: nat) -> Seq<char> {
    if s.len() > max {
        s.take(max as int).push('…')
    } else {
        s
    }
}

/// `s` cut to `max` characters, with an ellipsis where something was cut.
pub fn cut(s: &str, max: usize) -> (r: String)
    ensures
        r@ == cut_to(s@, max as nat),
{
    let v = chars_of(s);
    if v.len() > max {
        proof {
            assert(v@.subrange(0, max as int) =~= s@.take(max as int));
        }
        let mut out = text_of(&v, 0, max);
        out.push('…');
        out
    } else {
        s.to_string()
    }
}

/// The first `n` characters of `s`, or all of them.
pub open spec fn head_of(s: Seq<char>, n: nat) -> Seq<char> {
    if s.len() > n {
        s.take(n as int)
    } else {
        s
    }
}

/// The first `n` characters of `s`, or all of them.
pub fn head(s: &str, n: usize) -> (r: String)
    ensures
        r@ == head_of(s@, n as nat),
{
    let v = chars_of(s);
    let to: usize = if v.len() > n { n } else { v.len() };
    proof {
        assert(v@.subrange(0, to as int) =~= head_of(s@, n as nat));
    }
    text_of(&v, 0, to)
}

/// The predicate of whitespace.
pub open spec fn spaces() -> spec_fn(char) -> bool {
    |c: char| is_space(c)
}

/// The first word of `s` and what follows it, trimmed; the whole of `s` where it has no whitespace.
pub open spec fn word_and_rest(s: Seq<char>) -> (Seq<char>, Seq<char>) {
    let at = first_where(s, spaces());
    if at >= s.len() {
        (s, Seq::empty())
    } else {
        (s.take(at), trimmed(s.skip(at + 1)))
    }
}

/// The first word of `s` and what follows it, trimmed.
pub fn split_word(s: &str) -> (r: (String, String))
    ensures
        (r.0@, r.1@) == word_and_rest(s@),
{
    let v = chars_of(s);
    let mut at: usize = 0;
    while at < v.len() && !is_whitespace(v[at])
        invariant
            at <= v@.len(),
            forall|k: int| 0 <= k < at ==> !is_space(v@[k]),
        decreases v@.len() - at,
    {
        at = at + 1;
    }
    proof {
        assert forall|k: int| 0 <= k < at implies !spaces()(#[trigger] v@[k]) by {
            assert(!is_space(v@[k]));
        }
        lemma_first_where_unique(v@, spaces(), at as int);
        assert(v@.subrange(0, at as int) =~= v@.take(at as int));
        assert(at == v@.len() ==> v@.take(at as int) =~= v@);
    }
    let word = text_of(&v, 0, at);
    if at == v.len() {
        return (word, String::new());
    }
    proof {
        assert(v@.subrange(at as int + 1, v@.len() as int) =~= v@.skip(at as int + 1));
    }
    (word, trim_range(&v, at + 1, v.len()))
}

/// Position of the first `sep` in `s` from position `i` on, `None` when there is none.
pub open spec fn occurrence_from(s: Seq<char>, sep: Seq<char>, i: int) -> Option<int>
    decreases s.len() + 1 - i,
{
    if i < 0 || i + sep.len() > s.len() {
        None
    } else if occurs_at(s, sep, i) {
        Some(i)
    } else {
        occurrence_from(s, sep, i + 1)
    }
}

/// What stands before and after the first `sep` of `s`, `None` where it does not occur.
pub open spec fn parts_around(s: Seq<char>, sep: Seq<char>) -> Option<(Seq<char>, Seq<char>)> {
    match occurrence_from(s, sep, 0) {
        Some(at) => Some((s.take(at), s.skip(at + sep.len()))),
        None => None,
    }
}

/// What stands before and after the first `sep` of `s`, `None` where it does not occur.
pub fn split_once(s: &str, sep: &str) -> (r: Option<(String, String)>)
    ensures
        r.deep_view() == parts_around(s@, sep@),
{
    let h = chars_of(s);
    let n = chars_of(sep);
    if n.len() > h.len() {
        return None;
    }
    let last: usize = h.len() - n.len();
    let mut at: usize = 0;
    loop
        invariant
            n.len() <= h.len(),
            last == h.len() - n.len(),
            at <= last,
            h@ == s@,
            n@ == sep@,
            occurrence_from(s@, sep@, at as int) == occurrence_from(s@, sep@, 0),
        decreases last - at,
    {
        if matches_at(&h, &n, at) {
            proof {
                assert(h@.subrange(0, at as int) =~= s@.take(at as int));
                assert(h@.subrange(at + n@.len(), h@.len() as int) =~= s@.skip(at + sep@.len()));
            }
            return Some((text_of(&h, 0, at), text_of(&h, at + n.len(), h.len())));
        }
        if at == last {
            proof {
                assert(occurrence_from(s@, sep@, at as int + 1) is None);
            }
            return None;
        }
        at = at + 1;
    }
}

/// Joins `parts` with `sep` between each two.
pub open spec fn joined(parts: Seq<Seq<char>>, sep: Seq<char>) -> Seq<char>
    decreases parts.len(),
{
    if parts.len() == 0 {
        Seq::empty()
    } else if parts.len() == 1 {
        parts[0]
    } else {
        joined(parts.drop_last(), sep) + sep + parts.last()
    }
}

/// Joins `parts` with `sep` between each two.
pub fn join(parts: &Vec<String>, sep: &str) -> (r: String)
    ensures
        r@ == joined(parts.deep_view(), sep@),
{
    let mut out: String = String::new();
    let mut i: usize = 0;
    while i < parts.len()
        invariant
            i <= parts@.len(),
            out@ == joined(parts.deep_view().take(i as int), sep@),
        decreases parts@.len() - i,
    {
        let ghost prefix = parts.deep_view().take(i as int);
        let ghost grown = parts.deep_view().take(i as int + 1);
        proof {
            assert(grown.drop_last() =~= prefix);
            assert(grown.last() == parts@[i as int]@);
        }
        if i > 0 {
            out.append(sep);
        } else {
            proof {
                assert(out@ + parts@[0]@ =~= parts@[0]@);
            }
        }
        out.append(parts[i].as_str());
        i = i + 1;
    }
    proof {
        assert(parts.deep_view().take(parts@.len() as int) =~= parts.deep_view());
    }
    out
}

// --- numbers to text -------------------------------------------------------------------------

pub open spec fn digit_char(d: int) -> char {
    ('0' as int + d) as char
}

/// `n` in decimal.
pub open spec fn decimal(n: nat) -> Seq<char>
    decreases n,
{
    if n < 10 {
        seq![digit_char(n as int)]
    } else {
        decimal(n / 10).push(digit_char((n % 10) as int))
    }
}

/// `i` in decimal, with a leading `-` when it is negative.
pub open spec fn int_text(i: int) -> Seq<char> {
    if i < 0 {
        seq!['-'] + decimal((-i) as nat)
    } else {
        decimal(i as nat)
    }
}

/// `s` filled up with zeros on its left to `width` characters.
pub open spec fn zero_fill(s: Seq<char>, width: nat) -> Seq<char> {
    if s.len() >= width {
        s
    } else {
        Seq::new((width - s.len()) as nat, |i: int| '0') + s
    }
}

/// `i` in decimal, filled up with zeros behind its sign to `width` characters in all.
pub open spec fn int_padded(i: int, width: nat) -> Seq<char> {
    if i < 0 {
        seq!['-'] + zero_fill(decimal((-i) as nat), (width - 1) as nat)
    } else {
        zero_fill(decimal(i as nat), width)
    }
}

/// `n` in decimal.
pub fn dec_text(n: u64) -> (r: String)
    ensures
        r@ == decimal(n as nat),
    decreases n,
{
    if n < 10 {
        let mut out: String = String::new();
        out.push((48u8 + n as u8) as char);
        proof {
            assert(out@ =~= decimal(n as nat));
        }
        out
    } else {
        let mut out = dec_text(n / 10);
        out.push((48u8 + (n % 10) as u8) as char);
        out
    }
}

/// `i` in decimal.
pub fn signed_text(i: i64) -> (r: String)
    ensures
        r@ == int_text(i as int),
{
    if i < 0 {
        let mut out: String = String::new();
        out.push('-');
        let digits = dec_text((-(i as i128)) as u64);
        out.append(digits.as_str());
        proof {
            assert(out@ =~= seq!['-'] + decimal((-(i as int)) as nat));
        }
        out
    } else {
        dec_text(i as u64)
    }
}

/// `s` filled up with zeros on its left to `width` characters.
pub fn fill_zeros(s: &str, width: usize) -> (r: String)
    ensures
        r@ == zero_fill(s@, width as nat),
{
    let len: usize = s.unicode_len();
    let mut out: String = String::new();
    let mut k: usize = len;
    while k < width
        invariant
            len == s@.len(),
            len <= k,
            k <= width || k == len,
            out@ == Seq::new((k - len) as nat, |i: int| '0'),
        decreases width - k,
    {
        out.push('0');
        k = k + 1;
        proof {
            assert(Seq::new((k - len) as nat, |i: int| '0') =~= Seq::new((k - 1 - len) as nat, |i: int| '0').push('0'));
        }
    }
    out.append(s);
    proof {
        assert(out@ =~= zero_fill(s@, width as nat));
    }
    out
}

/// `i` in decimal, filled up with zeros to `width` characters.
pub fn padded_text(i: i64, width: usize) -> (r: String)
    requires
        width >= 1,
    ensures
        r@ == int_padded(i as int, width as nat),
{
    if i < 0 {
        let digits = dec_text((-(i as i128)) as u64);
        let filled = fill_zeros(digits.as_str(), width - 1);
        let mut out: String = String::new();
        out.push('-');
        out.append(filled.as_str());
        proof {
            assert(out@ =~= seq!['-'] + filled@);
        }
        out
    } else {
        let digits = dec_text(i as u64);
        fill_zeros(digits.as_str(), width)
    }
}

/// The digit `d` (below sixteen) in hexadecimal.
pub open spec fn hex_char(d: int, upper: bool) -> char {
    if d < 10 {
        ('0' as int + d) as char
    } else if upper {
        ('A' as int + (d - 10)) as char
    } else {
        ('a' as int + (d - 10)) as char
    }
}

/// `n` in hexadecimal.
pub open spec fn hexadecimal(n: nat, upper: bool) -> Seq<char>
    decreases n,
{
    if n < 16 {
        seq![hex_char(n as int, upper)]
    } else {
        hexadecimal(n / 16, upper).push(hex_char((n % 16) as int, upper))
    }
}

/// Hexadecimal digit `d`.
pub fn hex_digit(d: u8, upper: bool) -> (r: char)
    requires
        d < 16,
    ensures
        r == hex_char(d as int, upper),
{
    if d < 10 {
        (48u8 + d) as char
    } else if upper {
        (65u8 + (d - 10)) as char
    } else {
        (97u8 + (d - 10)) as char
    }
}

/// `n` in hexadecimal.
pub fn hex_text(n: u64, upper: bool) -> (r: String)
    ensures
        r@ == hexadecimal(n as nat, upper),
    decreases n,
{
    if n < 16 {
        let mut out: String = String::new();
        out.push(hex_digit(n as u8, upper));
        proof {
            assert(out@ =~= hexadecimal(n as nat, upper));
        }
        out
    } else {
        let mut out = hex_text(n / 16, upper);
        out.push(hex_digit((n % 16) as u8, upper));
        out
    }
}

/// `n / unit` rounded to tenths, ties to the even tenth; in tenths.
pub open spec fn tenths(n: int, unit: int) -> int {
    let q = (n * 10) / unit;
    let rest = (n * 10) % unit;
    if rest * 2 > unit || (rest * 2 == unit && q % 2 == 1) {
        q + 1
    } else {
        q
    }
}

/// A number of tenths with its decimal point.
pub open spec fn tenths_text(t: int) -> Seq<char> {
    decimal((t / 10) as nat) + "."@ + decimal((t % 10) as nat)
}

/// `n / unit` with one decimal, rounded, ties to the even tenth.
pub fn with_tenths(n: u64, unit: u64) -> (r: String)
    requires
        unit > 0,
    ensures
        r@ == tenths_text(tenths(n as int, unit as int)),
{
    let wide: u128 = n as u128 * 10;
    let q: u128 = wide / unit as u128;
    let rest: u128 = wide % unit as u128;
    let up = rest * 2 > unit as u128 || (rest * 2 == unit as u128 && q % 2 == 1);
    let t: u128 = if up { q + 1 } else { q };
    proof {
        assert(q <= wide) by (nonlinear_arith)
            requires
                q == wide / (unit as u128),
                unit > 0,
        ;
        assert(t / 10 <= u64::MAX) by {
            assert(t <= n * 10 + 1);
        }
    }
    let mut out = dec_text((t / 10) as u64);
    out.append(".");
    out.append(dec_text((t % 10) as u64).as_str());
    out
}

// --- text to numbers -------------------------------------------------------------------------

pub open spec fn all_digits(s: Seq<char>) -> bool {
    forall|i: int| 0 <= i < s.len() ==> is_digit(#[trigger] s[i])
}

/// The number that a row of decimal digits stands for.
pub open spec fn digits_value(s: Seq<char>) -> nat
    decreases s.len(),
{
    if s.len() == 0 {
        0
    } else {
        10 * digits_value(s.drop_last()) + (digit_value(s.last()) as nat)
    }
}

/// The integer that `s` spells: digits, at least one, behind an optional sign.
pub open spec fn int_value(s: Seq<char>) -> Option<int> {
    if s.len() == 0 {
        None
    } else {
        let signed = s[0] == '-' || s[0] == '+';
        let digits = if signed { s.skip(1) } else { s };
        if digits.len() == 0 || !all_digits(digits) {
            None
        } else if s[0] == '-' {
            Some(-(digits_value(digits) as int))
        } else {
            Some(digits_value(digits) as int)
        }
    }
}

/// The `i64` that `s` spells, `None` when it spells none.
pub open spec fn i64_value(s: Seq<char>) -> Option<int> {
    match int_value(s) {
        Some(n) => if i64::MIN <= n <= i64::MAX { Some(n) } else { None },
        None => None,
    }
}

/// Reads the `i64` that `s` spells, as `str::parse::<i64>` documents it.
pub fn parse_i64(s: &str) -> (r: Option<i64>)
    ensures
        match r {
            Some(n) => i64_value(s@) == Some(n as int),
            None => i64_value(s@) is None,
        },
{
    let v = chars_of(s);
    if v.len() == 0 {
        return None;
    }
    let negative = v[0] == '-';
    let start: usize = if negative || v[0] == '+' { 1 } else { 0 };
    let ghost digits = v@.skip(start as int);
    proof {
        assert(start == 0 ==> digits =~= v@);
    }
    if start == v.len() {
        return None;
    }
    // Unsigned magnitude; anything past 2^63 is out of range whatever the sign.
    let limit: u128 = 9_223_372_036_854_775_808;
    let mut total: u128 = 0;
    let mut too_big = false;
    let mut i: usize = start;
    while i < v.len()
        invariant
            start <= i <= v@.len(),
            start <= 1,
            v@ == s@,
            v@.len() > 0,
            digits == v@.skip(start as int),
            digits == (if v@[0] == '-' || v@[0] == '+' { v@.skip(1) } else { v@ }),
            limit == 9_223_372_036_854_775_808,
            all_digits(digits.take(i - start)),
            !too_big ==> total == digits_value(digits.take(i - start)) && total <= limit,
            too_big ==> digits_value(digits.take(i - start)) > limit,
        decreases v@.len() - i,
    {
        let c: char = v[i];
        let ghost before = digits.take(i - start);
        let ghost after = digits.take(i - start + 1);
        proof {
            assert(after.drop_last() =~= before);
            assert(after.last() == c);
            assert(digits[i - start] == c);
        }
        if !('0' <= c && c <= '9') {
            proof {
                assert(!is_digit(digits[i - start]));
            }
            return None;
        }
        proof {
            assert(all_digits(after)) by {
                assert forall|k: int| 0 <= k < after.len() implies is_digit(#[trigger] after[k]) by {
                    if k < before.len() {
                        assert(before[k] == after[k]);
                    }
                }
            }
        }
        if !too_big {
            total = total * 10 + (c as u8 - 48) as u128;
            if total > limit {
                too_big = true;
            }
        }
        i = i + 1;
    }
    proof {
        assert(digits.take(digits.len() as int) =~= digits);
    }
    if too_big {
        None
    } else if negative {
        Some((-(total as i128)) as i64)
    } else if total == limit {
        None
    } else {
        Some(total as i64)
    }
}

proof fn lemma_decimal(n: nat)
    ensures
        decimal(n).len() > 0,
        all_digits(decimal(n)),
        digits_value(decimal(n)) == n,
    decreases n,
{
    if n < 10 {
        let one = decimal(n);
        assert(one.drop_last() =~= Seq::empty());
        assert(digits_value(one.drop_last()) == 0);
    } else {
        lemma_decimal(n / 10);
        let all = decimal(n);
        assert(all.drop_last() =~= decimal(n / 10));
        assert forall|i: int| 0 <= i < all.len() implies is_digit(#[trigger] all[i]) by {
            if i < all.len() - 1 {
                assert(all[i] == decimal(n / 10)[i]);
            }
        }
    }
}

proof fn lemma_leading_zeros(k: nat, s: Seq<char>)
    ensures
        digits_value(Seq::new(k, |i: int| '0') + s) == digits_value(s),
    decreases k + s.len(),
{
    let zeros = Seq::new(k, |i: int| '0');
    if s.len() > 0 {
        lemma_leading_zeros(k, s.drop_last());
        assert((zeros + s).drop_last() =~= zeros + s.drop_last());
    } else if k > 0 {
        let fewer = Seq::new((k - 1) as nat, |i: int| '0');
        lemma_leading_zeros((k - 1) as nat, s);
        assert((zeros + s).drop_last() =~= fewer + s);
    } else {
        assert(zeros + s =~= s);
    }
}

/// A number that is written in decimal, filled up with zeros or not, is digits alone and is read
/// back as itself.
pub proof fn law_padded_numbers_are_read_back(n: int, width: nat)
    requires
        0 <= n <= i64::MAX,
    ensures
        int_padded(n, width).len() > 0,
        all_digits(int_padded(n, width)),
        i64_value(int_padded(n, width)) == Some(n),
{
    let s = decimal(n as nat);
    let all = int_padded(n, width);
    lemma_decimal(n as nat);
    if s.len() < width {
        lemma_leading_zeros((width - s.len()) as nat, s);
    }
    assert forall|i: int| 0 <= i < all.len() implies is_digit(#[trigger] all[i]) by {
        if s.len() < width && i >= width - s.len() {
            assert(all[i] == s[i - (width - s.len())]);
        }
    }
}

/// A number that is written in decimal is read back as itself.
pub proof fn law_numbers_are_read_back(n: int)
    requires
        i64::MIN <= n <= i64::MAX,
    ensures
        i64_value(int_text(n)) == Some(n),
{
    if n < 0 {
        lemma_decimal((-n) as nat);
        assert(int_text(n).skip(1) =~= decimal((-n) as nat));
    } else {
        law_padded_numbers_are_read_back(n, 0);
    }
}

// --- laws ------------------------------------------------------------------------------------

/// A place that is found is the first one that holds what was looked for; none is found where it
/// stands nowhere.
pub proof fn lemma_occurrence(s: Seq<char>, sep: Seq<char>, i: int)
    requires
        0 <= i,
    ensures
        occurrence_from(s, sep, i) matches Some(at) ==> i <= at && occurs_at(s, sep, at) && forall|k: int|
            i <= k < at ==> !occurs_at(s, sep, k),
        occurrence_from(s, sep, i) is None ==> forall|at: int| i <= at ==> !occurs_at(s, sep, at),
    decreases s.len() + 1 - i,
{
    if i + sep.len() <= s.len() && !occurs_at(s, sep, i) {
        lemma_occurrence(s, sep, i + 1);
        if let Some(at) = occurrence_from(s, sep, i) {
            assert forall|k: int| i <= k < at implies !occurs_at(s, sep, k) by {
                if k > i {
                    assert(i + 1 <= k);
                }
            }
        } else {
            assert forall|at: int| i <= at implies !occurs_at(s, sep, at) by {
                if at > i {
                    assert(i + 1 <= at);
                }
            }
        }
    }
}

/// A text comes apart at the first separator into what stands before and behind it; it does not
/// where the separator stands nowhere.
pub proof fn law_texts_come_apart(s: Seq<char>, sep: Seq<char>)
    ensures
        parts_around(s, sep) matches Some((a, b)) ==> s == a + sep + b && forall|k: int|
            0 <= k < a.len() ==> !occurs_at(s, sep, k),
        parts_around(s, sep) is Some <==> occurs(s, sep),
{
    lemma_occurrence(s, sep, 0);
    if let Some(at) = occurrence_from(s, sep, 0) {
        assert(s =~= s.take(at) + s.subrange(at, at + sep.len()) + s.skip(at + sep.len()));
    }
}

/// Whitespace at either end comes off a text, and nothing else.
pub proof fn law_trimming(s: Seq<char>) -> (r: (int, int))
    ensures
        0 <= r.0 <= r.1 <= s.len(),
        trimmed(s) == s.subrange(r.0, r.1),
        forall|i: int| 0 <= i < r.0 ==> is_space(#[trigger] s[i]),
        forall|i: int| r.1 <= i < s.len() ==> is_space(#[trigger] s[i]),
        r.0 < r.1 ==> !is_space(s[r.0]) && !is_space(s[r.1 - 1]),
{
    let a = lemma_trim_start(s);
    let t = trim_start(s);
    let b = lemma_trim_end(t);
    assert(t == s.skip(a));
    assert(trimmed(s) =~= s.subrange(a, a + b));
    assert forall|i: int| a + b <= i < s.len() implies is_space(#[trigger] s[i]) by {
        assert(t[i - a] == s[i]);
    }
    if b > 0 {
        assert(t[0] == s[a] && t[b - 1] == s[a + b - 1]);
        assert(t.take(b)[b - 1] == t[b - 1]);
    }
    (a, a + b)
}

proof fn lemma_trim_start(s: Seq<char>) -> (a: int)
    ensures
        0 <= a <= s.len(),
        trim_start(s) == s.skip(a),
        forall|i: int| 0 <= i < a ==> is_space(#[trigger] s[i]),
        a < s.len() ==> !is_space(s[a]),
    decreases s.len(),
{
    if s.len() > 0 && is_space(s[0]) {
        let a = lemma_trim_start(s.skip(1));
        assert(s.skip(1).skip(a) =~= s.skip(a + 1));
        assert forall|i: int| 0 <= i < a + 1 implies is_space(#[trigger] s[i]) by {
            if i > 0 {
                assert(s.skip(1)[i - 1] == s[i]);
            }
        }
        a + 1
    } else {
        assert(s.skip(0) =~= s);
        0
    }
}

proof fn lemma_trim_end(s: Seq<char>) -> (b: int)
    ensures
        0 <= b <= s.len(),
        trim_end(s) == s.take(b),
        forall|i: int| b <= i < s.len() ==> is_space(#[trigger] s[i]),
        b > 0 ==> !is_space(s[b - 1]),
    decreases s.len(),
{
    if s.len() > 0 && is_space(s.last()) {
        let b = lemma_trim_end(s.drop_last());
        assert(s.drop_last().take(b) =~= s.take(b));
        assert forall|i: int| b <= i < s.len() implies is_space(#[trigger] s[i]) by {
            if i < s.len() - 1 {
                assert(s.drop_last()[i] == s[i]);
            }
        }
        if b > 0 {
            assert(s.drop_last()[b - 1] == s[b - 1]);
        }
        b
    } else {
        assert(s.take(s.len() as int) =~= s);
        s.len() as int
    }
}

/// A text without whitespace at its ends is trimmed already.
pub proof fn lemma_already_trimmed(s: Seq<char>)
    requires
        s.len() > 0 ==> !is_space(s[0]) && !is_space(s.last()),
    ensures
        trimmed(s) == s,
{
}

/// Trimming twice is trimming once.
pub proof fn law_trimming_once_is_enough(s: Seq<char>)
    ensures
        trimmed(trimmed(s)) == trimmed(s),
{
    let (a, b) = law_trimming(s);
    let t = trimmed(s);
    if t.len() > 0 {
        assert(t[0] == s[a] && t.last() == s[b - 1]);
    }
    lemma_already_trimmed(t);
}

/// What does not stand in a text does not stand in what is left of it when it is trimmed.
pub proof fn lemma_trimming_adds_nothing(s: Seq<char>, needle: Seq<char>)
    requires
        !occurs(s, needle),
    ensures
        !occurs(trimmed(s), needle),
{
    let (a, b) = law_trimming(s);
    let t = trimmed(s);
    if occurs(t, needle) {
        let at = choose|at: int| occurs_at(t, needle, at);
        assert(t.subrange(at, at + needle.len()) =~= s.subrange(a + at, a + at + needle.len()));
        assert(occurs_at(s, needle, a + at));
    }
}

/// A command comes apart into its first word and the rest, which is trimmed.
pub proof fn law_commands_come_apart(verb: Seq<char>, space: char, rest: Seq<char>)
    requires
        forall|i: int| 0 <= i < verb.len() ==> !is_space(#[trigger] verb[i]),
        is_space(space),
    ensures
        word_and_rest(verb.push(space) + rest) == (verb, trimmed(rest)),
        word_and_rest(verb) == (verb, Seq::<char>::empty()),
{
    let all = verb.push(space) + rest;
    let n = verb.len() as int;
    assert forall|k: int| 0 <= k < n implies !spaces()(#[trigger] all[k]) by {
        assert(all[k] == verb[k]);
    }
    assert(all[n] == space);
    lemma_first_where_unique(all, spaces(), n);
    assert(all.take(n) =~= verb);
    assert(all.skip(n + 1) =~= rest);
    assert forall|k: int| 0 <= k < n implies !spaces()(#[trigger] verb[k]) by {
        assert(!is_space(verb[k]));
    }
    lemma_first_where_unique(verb, spaces(), n);
}

proof fn lemma_joined_from_first(a: Seq<char>, rest: Seq<Seq<char>>, sep: Seq<char>)
    requires
        rest.len() > 0,
    ensures
        joined(seq![a] + rest, sep) == a + sep + joined(rest, sep),
    decreases rest.len(),
{
    let all = seq![a] + rest;
    if rest.len() == 1 {
        assert(all.drop_last() =~= seq![a]);
        assert(joined(seq![a], sep) == a);
    } else {
        lemma_joined_from_first(a, rest.drop_last(), sep);
        assert(all.drop_last() =~= seq![a] + rest.drop_last());
        assert(all.last() == rest.last());
        let mid = joined(rest.drop_last(), sep);
        assert(a + sep + mid + sep + rest.last() =~= a + sep + (mid + sep + rest.last()));
    }
}

/// The parts that a text is split into hold no separator, and joined by it they make the text
/// again.
pub proof fn law_split_parts_make_the_text(s: Seq<char>, sep: char)
    ensures
        joined(split_on(s, sep), seq![sep]) == s,
        split_on(s, sep).len() > 0,
        forall|i: int| 0 <= i < split_on(s, sep).len() ==> !(#[trigger] split_on(s, sep)[i]).contains(sep),
    decreases s.len(),
{
    let at = first_char(s, sep);
    lemma_first_where(s, is_char(sep));
    if at >= s.len() {
        assert(split_on(s, sep) =~= seq![s]);
        if s.contains(sep) {
            let k = s.index_of(sep);
            assert(!is_char(sep)(s[k]));
        }
    } else {
        let rest = s.skip(at + 1);
        law_split_parts_make_the_text(rest, sep);
        lemma_joined_from_first(s.take(at), split_on(rest, sep), seq![sep]);
        assert(s =~= s.take(at) + seq![sep] + rest);
        let parts = split_on(s, sep);
        assert forall|i: int| 0 <= i < parts.len() implies !(#[trigger] parts[i]).contains(sep) by {
            if i == 0 {
                let first = s.take(at);
                if first.contains(sep) {
                    let k = first.index_of(sep);
                    assert(s[k] == sep);
                    assert(!is_char(sep)(s[k]));
                }
            } else {
                assert(parts[i] == split_on(rest, sep)[i - 1]);
            }
        }
    }
}

/// Parts without the separator, joined by it, are what the joined text is split into.
pub proof fn law_joined_parts_are_split_again(parts: Seq<Seq<char>>, sep: char)
    requires
        parts.len() > 0,
        forall|i: int| 0 <= i < parts.len() ==> !(#[trigger] parts[i]).contains(sep),
    ensures
        split_on(joined(parts, seq![sep]), sep) == parts,
    decreases parts.len(),
{
    let a = parts[0];
    assert(!a.contains(sep));
    if parts.len() == 1 {
        lemma_split_first(a, sep, Seq::empty());
        assert(parts =~= seq![a]);
    } else {
        let rest = parts.skip(1);
        assert forall|i: int| 0 <= i < rest.len() implies !(#[trigger] rest[i]).contains(sep) by {
            assert(rest[i] == parts[i + 1]);
        }
        law_joined_parts_are_split_again(rest, sep);
        assert(parts =~= seq![a] + rest);
        lemma_joined_from_first(a, rest, seq![sep]);
        lemma_split_first(a, sep, joined(rest, seq![sep]));
    }
}

/// Letters lose their case and nothing else: upper and lower case are inverse to each other on the
/// ASCII letters, and leave every other character alone.
pub proof fn law_case(c: char)
    ensures
        'A' <= c <= 'Z' ==> 'a' <= ascii_lower(c) <= 'z' && ascii_upper(ascii_lower(c)) == c && ascii_lower(c) as int
            - 'a' as int == c as int - 'A' as int,
        'a' <= c <= 'z' ==> 'A' <= ascii_upper(c) <= 'Z' && ascii_lower(ascii_upper(c)) == c,
        !('A' <= c <= 'Z') ==> ascii_lower(c) == c,
        !('a' <= c <= 'z') ==> ascii_upper(c) == c,
{
}

/// The last part of a text is what follows its last separator, and all of it where it has none.
pub proof fn law_the_last_part_follows_the_last_separator(head: Seq<char>, sep: char, tail: Seq<char>)
    requires
        !tail.contains(sep),
    ensures
        last_part_of(head + seq![sep] + tail, sep) == tail,
        last_part_of(tail, sep) == tail,
{
    law_split_parts_make_the_text(head, sep);
    let parts = split_on(head, sep).push(tail);
    assert(parts.drop_last() =~= split_on(head, sep));
    assert(joined(parts, seq![sep]) == head + seq![sep] + tail);
    assert forall|i: int| 0 <= i < parts.len() implies !(#[trigger] parts[i]).contains(sep) by {
        if i < parts.len() - 1 {
            assert(parts[i] == split_on(head, sep)[i]);
        }
    }
    law_joined_parts_are_split_again(parts, sep);
    lemma_split_first(tail, sep, Seq::empty());
}

/// What is shown of a text on one line holds no line break, and is the text itself as far as it
/// goes: whole where it fits, else cut, with an ellipsis behind it.
pub proof fn law_previews(s: Seq<char>, max: nat)
    ensures
        !preview_of(s, max).contains('\n'),
        !one_line_of(s).contains('\n') && !one_line_of(s).contains('\r'),
        one_line_of(s).len() == s.len(),
        s.len() <= max ==> preview_of(s, max).len() == s.len(),
        s.len() > max ==> preview_of(s, max).len() == max + 1 && preview_of(s, max).last() == '…',
        forall|i: int|
            0 <= i < s.len() && i < max ==> #[trigger] preview_of(s, max)[i] == (if s[i] == '\n' { ' ' } else { s[i] }),
        s.len() <= max ==> cut_to(s, max) == s,
        s.len() > max ==> cut_to(s, max) == s.take(max as int).push('…'),
        s.len() <= max ==> head_of(s, max) == s,
        s.len() > max ==> head_of(s, max) == s.take(max as int),
{
}

/// What is written with one decimal differs from the true quotient by half a tenth at most.
pub proof fn law_tenths_are_rounded(n: int, unit: int)
    requires
        n >= 0,
        unit > 0,
    ensures
        2 * (tenths(n, unit) * unit - n * 10) <= unit,
        2 * (n * 10 - tenths(n, unit) * unit) <= unit,
{
    let q = (n * 10) / unit;
    let rest = (n * 10) % unit;
    vstd::arithmetic::div_mod::lemma_fundamental_div_mod(n * 10, unit);
    assert(0 <= rest < unit) by (nonlinear_arith)
        requires
            rest == (n * 10) % unit,
            unit > 0,
    ;
    assert(unit * q == q * unit) by (nonlinear_arith);
    assert((q + 1) * unit == q * unit + unit) by (nonlinear_arith);
}

/// A word stays as it is; whitespace behind a text comes off, and whitespace between a text and a
/// word becomes one space.
pub proof fn law_words_are_joined_by_single_spaces(s: Seq<char>, space: char, word: Seq<char>)
    requires
        is_space(space),
        word.len() > 0,
        forall|i: int| 0 <= i < word.len() ==> !is_space(#[trigger] word[i]),
    ensures
        collapsed(Seq::empty()).len() == 0,
        collapsed(word) == word,
        collapsed(s.push(space)) == collapsed(s),
        collapsed(s).len() > 0 ==> collapsed(s.push(space) + word) == collapsed(s).push(' ') + word,
        collapsed(s).len() == 0 ==> collapsed(s.push(space) + word) == word,
    decreases word.len(),
{
    assert(s.push(space).drop_last() =~= s);
    let front = word.drop_last();
    let whole = s.push(space) + word;
    assert(whole.last() == word.last());
    assert(whole.drop_last() =~= s.push(space) + front);
    assert(word[word.len() - 1] == word.last());
    if front.len() == 0 {
        assert(s.push(space) + front =~= s.push(space));
        assert(whole[whole.len() - 2] == space);
        assert(word =~= seq![word.last()]);
        assert(collapsed(front).len() == 0);
        assert(collapsed(word) =~= word);
        assert(collapsed(s).push(' ') + word =~= collapsed(s).push(' ').push(word.last()));
        if collapsed(s).len() == 0 {
            assert(collapsed(s.push(space)).len() == 0);
            assert(collapsed(whole) == collapsed(whole.drop_last()).push(word.last()));
            assert(collapsed(whole.drop_last()) == collapsed(s.push(space)));
            assert(collapsed(whole) =~= word);
        }
    } else {
        assert forall|i: int| 0 <= i < front.len() implies !is_space(#[trigger] front[i]) by {
            assert(front[i] == word[i]);
        }
        law_words_are_joined_by_single_spaces(s, space, front);
        assert(whole[whole.len() - 2] == word[word.len() - 2]);
        assert(front.push(word.last()) =~= word);
        assert((collapsed(s).push(' ') + front).push(word.last()) =~= collapsed(s).push(' ') + word);
    }
}

/// Zeros fill a text up in front, and nothing is cut off.
pub proof fn law_zeros_fill_up(s: Seq<char>, width: nat)
    ensures
        s.len() >= width ==> zero_fill(s, width) == s,
        s.len() < width ==> zero_fill(s, width).len() == width && has_suffix(zero_fill(s, width), s),
        forall|i: int| 0 <= i < width - s.len() ==> #[trigger] zero_fill(s, width)[i] == '0',
{
    if s.len() < width {
        assert(zero_fill(s, width).skip(width - s.len()) =~= s);
    }
}

/// The digits of a number are those of its sixteenth part and one more.
pub proof fn law_sixteen_digits(n: nat, d: int, upper: bool)
    requires
        n > 0,
        0 <= d < 16,
    ensures
        hexadecimal(n * 16 + d as nat, upper) == hexadecimal(n, upper).push(hex_char(d, upper)),
        hexadecimal(d as nat, upper) == seq![hex_char(d, upper)],
        d < 10 ==> hex_char(d, upper) as int == '0' as int + d,
        d >= 10 ==> hex_char(d, true) as int == 'A' as int + d - 10 && hex_char(d, false) as int == 'a' as int + d - 10,
{
    let m = n * 16 + d as nat;
    assert(m / 16 == n && m % 16 == d);
}

/// A quotient that lies halfway between two tenths is written with the even one; a quotient of tenths
/// is written as units, a point and one digit.
pub proof fn law_halves_go_to_the_even_tenth(n: int, unit: int, units: nat, tenth: nat)
    requires
        n >= 0,
        unit > 0,
        tenth < 10,
    ensures
        2 * ((n * 10) % unit) == unit ==> tenths(n, unit) % 2 == 0,
        tenths_text((units * 10 + tenth) as int) == decimal(units) + "."@ + decimal(tenth),
{
    let t = (units * 10 + tenth) as int;
    assert(t / 10 == units && t % 10 == tenth);
}

/// On one line a text keeps every character but the ends of its lines, which become spaces.
pub proof fn law_one_line_keeps_the_rest(s: Seq<char>, i: int)
    requires
        0 <= i < s.len(),
    ensures
        s[i] == '\n' || s[i] == '\r' ==> one_line_of(s)[i] == ' ',
        s[i] != '\n' && s[i] != '\r' ==> one_line_of(s)[i] == s[i],
{
}

} // verus!
