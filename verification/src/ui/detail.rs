//! A scrollable panel that shows one text in full.

use vstd::prelude::*;

use crate::json;
use crate::key::{KeyCode, KeyEvent};
use crate::message::Text;
use crate::text;

verus! {

/// The panel: a title, the raw text, and how far it is scrolled.  The text is a copy, so that a
/// list that is reloaded behind the panel does not change it.
#[derive(Debug)]
pub struct DetailPanel<S = String> {
    pub title: S,
    pub raw: S,
    pub scroll: u16,
}

impl DeepView for DetailPanel<String> {
    type V = DetailPanel<Text>;

    open spec fn deep_view(&self) -> DetailPanel<Text> {
        DetailPanel { title: self.title@, raw: self.raw@, scroll: self.scroll }
    }
}

/// Where a key leaves the scroll position.  The last position is clamped when the text is drawn.
pub open spec fn scrolled(scroll: u16, code: KeyCode) -> u16 {
    match code {
        KeyCode::Char('j') | KeyCode::Down => if scroll < u16::MAX { (scroll + 1) as u16 } else { scroll },
        KeyCode::Char('k') | KeyCode::Up => if scroll > 0 { (scroll - 1) as u16 } else { 0 },
        KeyCode::PageDown => if scroll <= u16::MAX - 10 { (scroll + 10) as u16 } else { u16::MAX },
        KeyCode::PageUp => if scroll >= 10 { (scroll - 10) as u16 } else { 0 },
        KeyCode::Char('g') | KeyCode::Home => 0,
        KeyCode::Char('G') | KeyCode::End => u16::MAX,
        _ => scroll,
    }
}

/// Lines of a text, where a line break at the end opens no line of its own.
pub open spec fn line_count(s: Text) -> nat {
    if s.len() == 0 {
        0
    } else if s.last() == '\n' {
        breaks(s)
    } else {
        breaks(s) + 1
    }
}

/// Line breaks of a text.
pub open spec fn breaks(s: Text) -> nat
    decreases s.len(),
{
    if s.len() == 0 {
        0
    } else {
        breaks(s.drop_last()) + (if s.last() == '\n' { 1nat } else { 0 })
    }
}

fn count_lines(s: &str) -> (r: usize)
    ensures
        r == line_count(s@),
{
    let v = text::chars_of(s);
    let mut n: usize = 0;
    let mut i: usize = 0;
    while i < v.len()
        invariant
            v@ == s@,
            n <= i <= v@.len(),
            n == breaks(s@.take(i as int)),
            i > 0 && v@[i - 1] != '\n' ==> n < i,
        decreases v@.len() - i,
    {
        proof {
            assert(s@.take(i as int + 1).drop_last() =~= s@.take(i as int));
        }
        if v[i] == '\n' {
            n = n + 1;
        }
        i = i + 1;
    }
    proof {
        assert(s@.take(s@.len() as int) =~= s@);
    }
    if v.len() == 0 || v[v.len() - 1] == '\n' {
        n
    } else {
        n + 1
    }
}

/// The scroll position brought back to the last of so many lines.
pub open spec fn settled(scroll: u16, lines: nat) -> u16 {
    if lines == 0 {
        0
    } else if scroll < lines {
        scroll
    } else {
        (lines - 1) as u16
    }
}

/// The keys that close the panel.
pub open spec fn closes(code: KeyCode) -> bool {
    code == KeyCode::Esc || code == KeyCode::Enter
}

/// Keys that the panel announces.
pub open spec fn panel_hints() -> Seq<(Text, Text)> {
    seq![("j/k"@, "scroll"@), ("y"@, "copiar"@), ("esc"@, "cerrar"@)]
}

impl DetailPanel<String> {
    pub fn new(title: &str, raw: &str) -> (r: Self)
        ensures
            r.deep_view() == (DetailPanel::<Text> { title: title@, raw: raw@, scroll: 0 }),
    {
        DetailPanel { title: title.to_string(), raw: raw.to_string(), scroll: 0 }
    }

    /// The raw text, which is what gets copied.
    pub fn content(&self) -> (r: &str)
        ensures
            r@ == self.raw@,
    {
        self.raw.as_str()
    }

    /// Reacts to a key; `true` asks to close the panel.
    pub fn on_key(&mut self, key: KeyEvent) -> (r: bool)
        ensures
            r == closes(key.code),
            final(self).deep_view() == (DetailPanel::<Text> {
                scroll: scrolled(old(self).scroll, key.code),
                ..old(self).deep_view()
            }),
    {
        match key.code {
            KeyCode::Char('j') | KeyCode::Down => {
                self.scroll = self.scroll.saturating_add(1);
            },
            KeyCode::Char('k') | KeyCode::Up => {
                self.scroll = self.scroll.saturating_sub(1);
            },
            KeyCode::PageDown => {
                self.scroll = self.scroll.saturating_add(10);
            },
            KeyCode::PageUp => {
                self.scroll = self.scroll.saturating_sub(10);
            },
            KeyCode::Char('g') | KeyCode::Home => {
                self.scroll = 0;
            },
            KeyCode::Char('G') | KeyCode::End => {
                self.scroll = u16::MAX;
            },
            KeyCode::Esc | KeyCode::Enter => {
                return true;
            },
            _ => {},
        }
        false
    }

    /// Brings the scroll position back to the text as it is shown, and returns that text.
    pub fn settle(&mut self) -> (r: String)
        ensures
            r@ == shown_text(old(self).raw@),
            final(self).deep_view() == (DetailPanel::<Text> {
                scroll: settled(old(self).scroll, line_count(shown_text(old(self).raw@))),
                ..old(self).deep_view()
            }),
    {
        let body = pretty_or_raw(self.raw.as_str());
        self.settle_on(body.as_str());
        body
    }

    /// Brings the scroll position back to a text that is shown.
    pub fn settle_on(&mut self, body: &str)
        ensures
            final(self).deep_view() == (DetailPanel::<Text> {
                scroll: settled(old(self).scroll, line_count(body@)),
                ..old(self).deep_view()
            }),
    {
        let lines: usize = count_lines(body);
        if lines == 0 {
            self.scroll = 0;
        } else if self.scroll as usize >= lines {
            self.scroll = (lines - 1) as u16;
        }
    }

    /// Keys that the panel announces.
    pub fn hints(&self) -> (r: Vec<(&'static str, &'static str)>)
        ensures
            r.deep_view() == panel_hints(),
    {
        vec![("j/k", "scroll"), ("y", "copiar"), ("esc", "cerrar")]
    }
}

/// A text as the panel shows it: indented where it is JSON, and as it is otherwise.
pub open spec fn shown_text(msg: Text) -> Text {
    if json::is_json(text::trimmed(msg)) {
        json::indented(text::trimmed(msg))
    } else {
        msg
    }
}

/// A text as the panel shows it: indented where it is JSON, and as it is otherwise.
pub fn pretty_or_raw(msg: &str) -> (r: String)
    ensures
        r@ == shown_text(msg@),
{
    match json::pretty_json(text::trim(msg).as_str()) {
        Some(pretty) => pretty,
        None => msg.to_string(),
    }
}

/// Where pressing a key so many times leaves the scroll position.
pub open spec fn scrolled_times(scroll: u16, code: KeyCode, times: nat) -> u16
    decreases times,
{
    if times == 0 {
        scroll
    } else {
        scrolled(scrolled_times(scroll, code, (times - 1) as nat), code)
    }
}

/// `j` goes a line down and `k` a line up, so that one undoes the other; the arrows do the same.
pub proof fn law_lines_down_and_up(scroll: u16)
    ensures
        scroll < u16::MAX ==> scrolled(scroll, KeyCode::Char('j')) == scroll + 1,
        scroll < u16::MAX ==> scrolled(scrolled(scroll, KeyCode::Char('j')), KeyCode::Char('k')) == scroll,
        scroll > 0 ==> scrolled(scrolled(scroll, KeyCode::Char('k')), KeyCode::Char('j')) == scroll,
        scrolled(0, KeyCode::Char('k')) == 0,
        scrolled(u16::MAX, KeyCode::Char('j')) == u16::MAX,
        scrolled(scroll, KeyCode::Down) == scrolled(scroll, KeyCode::Char('j')),
        scrolled(scroll, KeyCode::Up) == scrolled(scroll, KeyCode::Char('k')),
{
}

/// A page is ten lines, down and up.
pub proof fn law_a_page_is_ten_lines(scroll: u16)
    ensures
        scrolled(scroll, KeyCode::PageDown) == scrolled_times(scroll, KeyCode::Char('j'), 10),
        scrolled(scroll, KeyCode::PageUp) == scrolled_times(scroll, KeyCode::Char('k'), 10),
{
    reveal_with_fuel(scrolled_times, 11);
}

/// `g` and `Home` go to the start, `G` and `End` to the end, and keys that do not scroll leave the
/// position alone.
pub proof fn law_start_and_end(scroll: u16, code: KeyCode, lines: nat)
    requires
        0 < lines <= u16::MAX,
    ensures
        settled(scrolled(scroll, KeyCode::Char('g')), lines) == 0,
        settled(scrolled(scroll, KeyCode::Home), lines) == 0,
        settled(scrolled(scroll, KeyCode::Char('G')), lines) == lines - 1,
        settled(scrolled(scroll, KeyCode::End), lines) == lines - 1,
        closes(code) || code is Left || code is Right || code is Tab || code is Other ==> scrolled(scroll, code) == scroll,
{
}

/// The settled position is a line of the text: the one that it was where there is such a line, and
/// else the last one.
pub proof fn law_settling(scroll: u16, lines: nat)
    ensures
        settled(scroll, 0) == 0,
        scroll < lines ==> settled(scroll, lines) == scroll,
        0 < lines <= scroll ==> settled(scroll, lines) + 1 == lines,
        settled(settled(scroll, lines), lines) == settled(scroll, lines),
{
}

proof fn lemma_breaks_of_a_sum(a: Text, b: Text)
    ensures
        breaks(a + b) == breaks(a) + breaks(b),
    decreases b.len(),
{
    if b.len() == 0 {
        assert(a + b =~= a);
    } else {
        assert((a + b).drop_last() =~= a + b.drop_last());
        lemma_breaks_of_a_sum(a, b.drop_last());
    }
}

proof fn lemma_no_breaks(a: Text)
    requires
        !a.contains('\n'),
    ensures
        breaks(a) == 0,
    decreases a.len(),
{
    if a.len() > 0 {
        assert(a[a.len() - 1] == a.last());
        assert forall|i: int| 0 <= i < a.drop_last().len() implies a.drop_last()[i] != '\n' by {
            assert(a.drop_last()[i] == a[i]);
        }
        lemma_no_breaks(a.drop_last());
    }
}

/// The empty text has no line, a text without breaks has one, and a line before a break adds one to
/// the lines of what follows.
pub proof fn law_lines_are_counted(line: Text, rest: Text)
    requires
        !line.contains('\n'),
    ensures
        line_count(Seq::<char>::empty()) == 0,
        line.len() > 0 ==> line_count(line) == 1,
        line_count(line + seq!['\n'] + rest) == 1 + line_count(rest),
{
    lemma_no_breaks(line);
    let head = line + seq!['\n'];
    assert(head.drop_last() =~= line);
    assert(breaks(head) == 1);
    lemma_breaks_of_a_sum(head, rest);
    if rest.len() > 0 {
        assert((head + rest).last() == rest.last());
    } else {
        assert(head + rest =~= head);
    }
}

/// A text that is no JSON is shown as it is; JSON is shown indented, whatever blanks surround it.
pub proof fn law_json_is_shown_indented(before: Text, value: Text, after: Text)
    requires
        value.len() > 0,
        !text::is_space(value[0]) && !text::is_space(value.last()),
        forall|i: int| 0 <= i < before.len() ==> text::is_space(#[trigger] before[i]),
        forall|i: int| 0 <= i < after.len() ==> text::is_space(#[trigger] after[i]),
    ensures
        json::is_json(value) ==> shown_text(before + value + after) == json::indented(value),
        !json::is_json(value) ==> shown_text(before + value + after) == before + value + after,
{
    let all = before + value + after;
    let (a, b) = text::law_trimming(all);
    let n = before.len() as int;
    let m = n + value.len();
    assert(all[n] == value[0] && all[m - 1] == value.last());
    assert forall|i: int| 0 <= i < n implies text::is_space(#[trigger] all[i]) by {
        assert(all[i] == before[i]);
    }
    assert forall|i: int| m <= i < all.len() implies text::is_space(#[trigger] all[i]) by {
        assert(all[i] == after[i - m]);
    }
    assert(a == n && b == m);
    assert(all.subrange(n, m) =~= value);
}

} // verus!
