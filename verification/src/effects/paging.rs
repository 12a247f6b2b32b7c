//! Lists that come in pages: which page to ask for, when to stop, and what was gathered.

use vstd::prelude::*;
use vstd::string::*;

use crate::message::{LogEventDto, LogGroupDto, Text};
use crate::text;

verus! {

/// Pages of log streams.
pub const MAX_STREAM_PAGES: usize = 10;

/// Pages that the lines of a log group are gathered from at a time.
pub const MAX_TAIL_PAGES: usize = 10;

/// Lines on a page of a log group.
pub const TAIL_LIMIT: i32 = 1000;

/// Lines of a log stream that are gathered at a time.
pub const EVENTS_LIMIT: usize = 200;

/// Pages that the lines of a log stream are gathered from at a time.
pub const MAX_EVENT_PAGES: usize = 5;

/// Pages of state machines.
pub const MAX_MACHINE_PAGES: usize = 20;

/// Pages of event buses, or of rules.
pub const MAX_EVENTS_PAGES: usize = 20;

/// Pages of the history of an execution, at first.
pub const MAX_HISTORY_PAGES: usize = 10;

// --- pages one after the other ---------------------------------------------------------------

/// Gathers the pages of a list, up to a budget.
pub struct Pager<T> {
    items: Vec<T>,
    token: Option<String>,
    pages: usize,
    budget: usize,
}

/// What a pager holds: the items so far, the token that the next page goes by, and how many pages
/// came of how many that may.
#[verifier::ext_equal]
pub struct Gathered<T> {
    pub items: Seq<T>,
    pub token: Option<Text>,
    pub pages: nat,
    pub budget: nat,
}

impl<T> Gathered<T> {
    /// Nothing gathered yet; with a token, a list that was begun before goes on.
    pub open spec fn start(token: Option<Text>, budget: nat) -> Gathered<T> {
        Gathered { items: Seq::empty(), token, pages: 0, budget }
    }

    /// Another page is due: the first one, and then one for every token that came, within the
    /// budget.
    pub open spec fn wants_page(self) -> bool {
        self.pages < self.budget && (self.pages == 0 || self.token is Some)
    }

    /// A page with its items, and the token of the next one.
    pub open spec fn taking(self, page: Seq<T>, next: Option<Text>) -> Gathered<T> {
        Gathered { items: self.items + page, token: next, pages: self.pages + 1, budget: self.budget }
    }

    /// The budget ran out before the list ended.
    pub open spec fn is_partial(self) -> bool {
        self.pages > 0 && self.pages == self.budget && self.token is Some
    }
}

impl<T> Pager<T> {
    pub closed spec fn model(self) -> Gathered<T> {
        Gathered {
            items: self.items@,
            token: self.token.deep_view(),
            pages: self.pages as nat,
            budget: self.budget as nat,
        }
    }

    /// No page has come yet.
    pub fn new(token: Option<String>, budget: usize) -> (r: Self)
        ensures
            r.model() == Gathered::<T>::start(token.deep_view(), budget as nat),
    {
        let r = Pager { items: Vec::new(), token, pages: 0, budget };
        assert(r.model() =~= Gathered::<T>::start(token.deep_view(), budget as nat));
        r
    }

    /// Whether another page is to be asked for.
    pub fn wants_page(&self) -> (r: bool)
        ensures
            r == self.model().wants_page(),
    {
        self.pages < self.budget && (self.pages == 0 || self.token.is_some())
    }

    /// The token to ask for the next page with.
    pub fn token(&self) -> (r: Option<String>)
        ensures
            r.deep_view() == self.model().token,
    {
        self.token.clone()
    }

    /// Takes a page that was asked for.
    pub fn take(&mut self, page: Vec<T>, next: Option<String>)
        requires
            old(self).model().wants_page(),
        ensures
            final(self).model() == old(self).model().taking(page@, next.deep_view()),
    {
        let mut page = page;
        self.items.append(&mut page);
        self.token = next;
        self.pages = self.pages + 1;
    }

    /// Whether the budget ran out before the list ended.
    pub fn is_partial(&self) -> (r: bool)
        ensures
            r == self.model().is_partial(),
    {
        self.pages > 0 && self.pages == self.budget && self.token.is_some()
    }

    /// What was gathered, and the token that the list goes on with.
    pub fn finish(self) -> (r: (Vec<T>, Option<String>))
        ensures
            r.0@ == self.model().items,
            r.1.deep_view() == self.model().token,
    {
        (self.items, self.token)
    }
}

/// What a pager holds after the pages of a list, as long as it wants them.
pub open spec fn gathered_from<T>(token: Option<Text>, budget: nat, pages: Seq<(Seq<T>, Option<Text>)>) -> Gathered<T>
    decreases pages.len(),
{
    if pages.len() == 0 {
        Gathered::start(token, budget)
    } else {
        let before = gathered_from(token, budget, pages.drop_last());
        if before.wants_page() {
            before.taking(pages.last().0, pages.last().1)
        } else {
            before
        }
    }
}

/// A list is gathered whole where its pages fit in the budget, and marked as partial where the
/// budget ends before it: a pager never asks for more pages than that.
pub proof fn law_pagers_keep_to_their_budget<T>(
    token: Option<Text>,
    budget: nat,
    pages: Seq<(Seq<T>, Option<Text>)>,
)
    ensures
        ({
            let g = gathered_from(token, budget, pages);
            &&& g.budget == budget
            &&& g.pages <= budget
            &&& g.is_partial() ==> !g.wants_page()
            &&& !g.wants_page() && budget > 0 ==> (g.token is None <==> !g.is_partial())
        }),
    decreases pages.len(),
{
    if pages.len() > 0 {
        law_pagers_keep_to_their_budget(token, budget, pages.drop_last());
    }
}

/// A list of `n` pages, each but the last with a token, comes out whole where the budget allows.
pub proof fn law_short_lists_come_whole<T>(token: Option<Text>, budget: nat, pages: Seq<(Seq<T>, Option<Text>)>)
    requires
        pages.len() <= budget,
        forall|i: int| 0 <= i < pages.len() - 1 ==> (#[trigger] pages[i]).1 is Some,
    ensures
        gathered_from(token, budget, pages).pages == pages.len(),
        gathered_from(token, budget, pages).items == items_of(pages),
        pages.len() > 0 ==> gathered_from(token, budget, pages).token == pages.last().1,
    decreases pages.len(),
{
    if pages.len() > 0 {
        let before = pages.drop_last();
        assert forall|i: int| 0 <= i < before.len() - 1 implies (#[trigger] before[i]).1 is Some by {
            assert(before[i] == pages[i]);
        }
        law_short_lists_come_whole(token, budget, before);
        law_pagers_keep_to_their_budget(token, budget, before);
        if before.len() > 0 {
            assert(before.last() == pages[before.len() - 1]);
        }
    }
}

/// The items of pages, one after the other.
pub open spec fn items_of<T>(pages: Seq<(Seq<T>, Option<Text>)>) -> Seq<T>
    decreases pages.len(),
{
    if pages.len() == 0 {
        Seq::empty()
    } else {
        items_of(pages.drop_last()) + pages.last().0
    }
}

// --- the lines of a stream, from the end -----------------------------------------------------

/// Gathers the lines of a log stream from the newest page backwards.  A page may be empty although
/// older lines exist, so the pages are followed until enough lines came, until the token no longer
/// changes, or until a number of pages.
pub struct EventPager {
    lines: Vec<LogEventDto>,
    token: Option<String>,
    again: Option<String>,
    pages: usize,
    ended: bool,
    exhausted: bool,
}

/// What an event pager holds.
#[verifier::ext_equal]
pub struct Lines {
    pub lines: Seq<LogEventDto>,
    /// What the next page is asked for with.
    pub token: Option<Text>,
    /// What the last page was asked for with, where it did not fit as a whole.
    pub again: Option<Text>,
    pub pages: nat,
    /// Enough lines came, or the stream has no older ones.
    pub ended: bool,
    /// The stream has no older lines.
    pub exhausted: bool,
}

impl Lines {
    pub open spec fn start(token: Option<Text>) -> Lines {
        Lines { lines: Seq::empty(), token, again: None, pages: 0, ended: false, exhausted: false }
    }

    pub open spec fn wants_page(self) -> bool {
        !self.ended && self.pages < MAX_EVENT_PAGES
    }

    /// How many lines there is still room for.
    pub open spec fn room(self) -> nat {
        if self.lines.len() < EVENTS_LIMIT {
            (EVENTS_LIMIT - self.lines.len()) as nat
        } else {
            0
        }
    }

    /// An older page goes before what was gathered; a token that is missing or did not change means
    /// that nothing older exists.  A page that there was no room for as a whole is to be asked for
    /// again, unless no load could ever hold it.
    pub open spec fn taking(self, page: Seq<LogEventDto>, next: Option<Text>) -> Lines {
        let lines = page + self.lines;
        let exhausted = next is None || next == self.token;
        Lines {
            lines,
            token: next,
            again: if lines.len() > EVENTS_LIMIT && page.len() <= EVENTS_LIMIT { self.token } else { None },
            pages: self.pages + 1,
            ended: lines.len() >= EVENTS_LIMIT || exhausted,
            exhausted,
        }
    }

    /// The lines that are handed out: the newest of those gathered, up to the limit.
    pub open spec fn kept(self) -> Seq<LogEventDto> {
        if self.lines.len() > EVENTS_LIMIT {
            self.lines.skip(self.lines.len() - EVENTS_LIMIT)
        } else {
            self.lines
        }
    }

    /// How many of the gathered lines are not handed out.
    pub open spec fn dropped(self) -> int {
        self.lines.len() - self.kept().len()
    }

    /// The token that older lines can be asked for with, where there may be some: those of the page
    /// that did not fit, else those of the page that follows.
    pub open spec fn continuation(self) -> Option<Text> {
        if self.again is Some {
            self.again
        } else if self.exhausted {
            None
        } else {
            self.token
        }
    }
}

impl EventPager {
    pub closed spec fn model(self) -> Lines {
        Lines {
            lines: self.lines@,
            token: self.token.deep_view(),
            again: self.again.deep_view(),
            pages: self.pages as nat,
            ended: self.ended,
            exhausted: self.exhausted,
        }
    }

    /// Starts at the newest lines, or with a token at those older than a page already shown.
    pub fn new(token: Option<String>) -> (r: Self)
        ensures
            r.model() == Lines::start(token.deep_view()),
    {
        let r = EventPager { lines: Vec::new(), token, again: None, pages: 0, ended: false, exhausted: false };
        assert(r.model() =~= Lines::start(token.deep_view()));
        r
    }

    /// Whether another page is to be asked for.
    pub fn wants_page(&self) -> (r: bool)
        ensures
            r == self.model().wants_page(),
    {
        !self.ended && self.pages < MAX_EVENT_PAGES
    }

    /// How many lines to ask the next page for, so that it fits as a whole.
    pub fn room(&self) -> (r: usize)
        ensures
            r == self.model().room(),
    {
        if self.lines.len() < EVENTS_LIMIT {
            EVENTS_LIMIT - self.lines.len()
        } else {
            0
        }
    }

    /// The token to ask for the next page with.
    pub fn token(&self) -> (r: Option<String>)
        ensures
            r.deep_view() == self.model().token,
    {
        self.token.clone()
    }

    /// Takes a page that was asked for.
    pub fn take(&mut self, page: Vec<LogEventDto>, next: Option<String>)
        requires
            old(self).model().wants_page(),
        ensures
            final(self).model() == old(self).model().taking(page@, next.deep_view()),
    {
        let same = match (&next, &self.token) {
            (Some(a), Some(b)) => text::same(a.as_str(), b.as_str()),
            (None, _) => true,
            (Some(_), None) => false,
        };
        let fits_a_load = page.len() <= EVENTS_LIMIT;
        let mut lines = page;
        lines.append(&mut self.lines);
        self.again = if lines.len() > EVENTS_LIMIT && fits_a_load {
            self.token.clone()
        } else {
            None
        };
        self.exhausted = same;
        self.ended = lines.len() >= EVENTS_LIMIT || same;
        self.lines = lines;
        self.token = next;
        self.pages = self.pages + 1;
    }

    /// The newest lines that were gathered, up to the limit and in the order of time, and the token
    /// that older ones go by.
    pub fn finish(self) -> (r: (Vec<LogEventDto>, Option<String>))
        ensures
            r.0@ == self.model().kept(),
            r.1.deep_view() == self.model().continuation(),
    {
        let next = match self.again {
            Some(token) => Some(token),
            None => if self.exhausted {
                None
            } else {
                self.token
            },
        };
        let mut lines = self.lines;
        if lines.len() > EVENTS_LIMIT {
            let older: usize = lines.len() - EVENTS_LIMIT;
            let newest = lines.split_off(older);
            assert(newest@ =~= self.model().kept());
            (newest, next)
        } else {
            (lines, next)
        }
    }
}

/// What an event pager holds after pages, as long as it wants them.
pub open spec fn lines_from(token: Option<Text>, pages: Seq<(Seq<LogEventDto>, Option<Text>)>) -> Lines
    decreases pages.len(),
{
    if pages.len() == 0 {
        Lines::start(token)
    } else {
        let before = lines_from(token, pages.drop_last());
        if before.wants_page() {
            before.taking(pages.last().0, pages.last().1)
        } else {
            before
        }
    }
}

/// No more lines than the limit are handed out, and no more pages asked for than their number.
pub proof fn law_event_pages_are_bounded(token: Option<Text>, pages: Seq<(Seq<LogEventDto>, Option<Text>)>)
    ensures
        lines_from(token, pages).kept().len() <= EVENTS_LIMIT,
        lines_from(token, pages).pages <= MAX_EVENT_PAGES,
    decreases pages.len(),
{
    if pages.len() > 0 {
        law_event_pages_are_bounded(token, pages.drop_last());
    }
}

/// Whatever older pages follow, the last line of the first page that holds any is the last line
/// handed out: the newest line of the stream is never dropped.
pub proof fn law_the_newest_line_is_handed_out(
    token: Option<Text>,
    pages: Seq<(Seq<LogEventDto>, Option<Text>)>,
    i: int,
)
    requires
        0 <= i < pages.len(),
        pages[i].0.len() > 0,
        forall|j: int| 0 <= j < i ==> (#[trigger] pages[j]).0.len() == 0,
        lines_from(token, pages.take(i)).wants_page(),
    ensures
        lines_from(token, pages).kept().len() > 0,
        lines_from(token, pages).kept().last() == pages[i].0.last(),
{
    lemma_first_page_goes_last(token, pages, i);
}

proof fn lemma_nothing_gathered(token: Option<Text>, pages: Seq<(Seq<LogEventDto>, Option<Text>)>)
    requires
        forall|j: int| 0 <= j < pages.len() ==> (#[trigger] pages[j]).0.len() == 0,
    ensures
        lines_from(token, pages).lines.len() == 0,
    decreases pages.len(),
{
    if pages.len() > 0 {
        let fewer = pages.drop_last();
        assert forall|j: int| 0 <= j < fewer.len() implies (#[trigger] fewer[j]).0.len() == 0 by {
            assert(fewer[j] == pages[j]);
        }
        lemma_nothing_gathered(token, fewer);
    }
}

proof fn lemma_first_page_goes_last(token: Option<Text>, pages: Seq<(Seq<LogEventDto>, Option<Text>)>, i: int)
    requires
        0 <= i < pages.len(),
        pages[i].0.len() > 0,
        forall|j: int| 0 <= j < i ==> (#[trigger] pages[j]).0.len() == 0,
        lines_from(token, pages.take(i)).wants_page(),
    ensures
        lines_from(token, pages).lines.len() > 0,
        lines_from(token, pages).lines.last() == pages[i].0.last(),
    decreases pages.len(),
{
    let fewer = pages.drop_last();
    if i == pages.len() - 1 {
        assert(pages.take(i) =~= fewer);
        lemma_nothing_gathered(token, fewer);
    } else {
        assert(fewer.take(i) =~= pages.take(i));
        assert forall|j: int| 0 <= j < i implies (#[trigger] fewer[j]).0.len() == 0 by {
            assert(fewer[j] == pages[j]);
        }
        lemma_first_page_goes_last(token, fewer, i);
    }
}

/// While a page is wanted there is room for a line, and once lines came there is a token.
proof fn lemma_wanting(token: Option<Text>, pages: Seq<(Seq<LogEventDto>, Option<Text>)>)
    requires
        lines_from(token, pages).wants_page(),
    ensures
        lines_from(token, pages).lines.len() < EVENTS_LIMIT,
        lines_from(token, pages).again is None,
        pages.len() > 0 ==> lines_from(token, pages).token is Some,
    decreases pages.len(),
{
    if pages.len() > 0 {
        let before = lines_from(token, pages.drop_last());
        if before.wants_page() {
            lemma_wanting(token, pages.drop_last());
        }
    }
}

/// While a page is wanted, there is room for at least one line.
pub proof fn law_there_is_room_for_the_next_page(token: Option<Text>, pages: Seq<(Seq<LogEventDto>, Option<Text>)>)
    requires
        lines_from(token, pages).wants_page(),
    ensures
        1 <= lines_from(token, pages).room() <= EVENTS_LIMIT,
{
    lemma_wanting(token, pages);
}

/// A page that holds no more lines than there was room for is handed out as a whole, before the
/// lines gathered so far, and older ones go by the token that came with it.
pub proof fn law_pages_that_fit_are_handed_out_whole(
    token: Option<Text>,
    pages: Seq<(Seq<LogEventDto>, Option<Text>)>,
    page: Seq<LogEventDto>,
    next: Option<Text>,
)
    requires
        lines_from(token, pages).wants_page(),
        page.len() <= lines_from(token, pages).room(),
    ensures
        ({
            let before = lines_from(token, pages);
            let after = before.taking(page, next);
            &&& after.kept() == page + before.lines
            &&& after.continuation() == (if next == before.token { None } else { next })
        }),
{
    lemma_wanting(token, pages);
}

/// Page `k` of a run was asked for.
pub open spec fn asked_for(token: Option<Text>, pages: Seq<(Seq<LogEventDto>, Option<Text>)>, k: int) -> bool {
    0 <= k < pages.len() && lines_from(token, pages.take(k)).wants_page()
}

/// No line of a stream is out of reach.  Every gathered line is handed out, or belongs to the page
/// that the token handed out asks for; and while the stream may hold older lines than those
/// gathered, there is a token to go on with.
pub proof fn law_no_line_is_out_of_reach(token: Option<Text>, pages: Seq<(Seq<LogEventDto>, Option<Text>)>)
    requires
        forall|j: int| 0 <= j < pages.len() ==> (#[trigger] pages[j]).0.len() <= EVENTS_LIMIT,
    ensures
        ({
            let l = lines_from(token, pages);
            &&& l.lines == l.lines.take(l.dropped()) + l.kept()
            &&& l.dropped() > 0 ==> exists|k: int|
                #[trigger] asked_for(token, pages, k) && l.continuation() is Some && l.continuation() == lines_from(
                    token,
                    pages.take(k),
                ).token && l.dropped() <= pages[k].0.len() && l.lines.take(l.dropped()) == pages[k].0.take(l.dropped())
            &&& l.pages > 0 && !l.exhausted ==> l.continuation() is Some
        }),
    decreases pages.len(),
{
    let l = lines_from(token, pages);
    assert(l.lines =~= l.lines.take(l.dropped()) + l.kept());
    if pages.len() > 0 {
        let fewer = pages.drop_last();
        let k = pages.len() - 1;
        let before = lines_from(token, fewer);
        assert(pages.take(k) =~= fewer);
        if before.wants_page() {
            lemma_wanting(token, fewer);
            if l.dropped() > 0 {
                assert(fewer.len() > 0);
                assert(l.lines.take(l.dropped()) =~= pages[k].0.take(l.dropped()));
                assert(asked_for(token, pages, k));
            }
        } else {
            assert forall|j: int| 0 <= j < fewer.len() implies (#[trigger] fewer[j]).0.len() <= EVENTS_LIMIT by {
                assert(fewer[j] == pages[j]);
            }
            law_no_line_is_out_of_reach(token, fewer);
            if l.dropped() > 0 {
                let j = choose|j: int|
                    #[trigger] asked_for(token, fewer, j) && l.continuation() is Some && l.continuation() == lines_from(
                        token,
                        fewer.take(j),
                    ).token && l.dropped() <= fewer[j].0.len() && l.lines.take(l.dropped()) == fewer[j].0.take(
                        l.dropped(),
                    );
                assert(fewer.take(j) =~= pages.take(j));
                assert(asked_for(token, pages, j));
            }
        }
    }
}

/// An empty page that comes with a new token does not end the search for lines.
pub proof fn law_an_empty_page_is_not_the_end(l: Lines, next: Text)
    requires
        l.wants_page(),
        l.lines.len() < EVENTS_LIMIT,
        l.token != Some(next),
        l.pages + 1 < MAX_EVENT_PAGES,
    ensures
        l.taking(Seq::empty(), Some(next)).wants_page(),
        l.taking(Seq::empty(), Some(next)).lines == l.lines,
{
    assert(Seq::<LogEventDto>::empty() + l.lines =~= l.lines);
}

// --- log groups from several searches --------------------------------------------------------

/// A group of this name is in the list.
pub open spec fn has_name(groups: Seq<LogGroupDto<Text>>, name: Text) -> bool {
    exists|i: int| 0 <= i < groups.len() && (#[trigger] groups[i]).name == name
}

/// The groups without those whose name came before.
pub open spec fn without_repeats(groups: Seq<LogGroupDto<Text>>) -> Seq<LogGroupDto<Text>>
    decreases groups.len(),
{
    if groups.len() == 0 {
        Seq::empty()
    } else {
        let before = without_repeats(groups.drop_last());
        if has_name(before, groups.last().name) {
            before
        } else {
            before.push(groups.last())
        }
    }
}

/// A page of log groups with whether the server holds more, or the causes of a failure.
pub type GroupPage = Result<(Vec<LogGroupDto>, bool), Vec<String>>;

/// The groups of the pages that came, one page after the other.
pub open spec fn groups_of(pages: Seq<GroupPage>) -> Seq<LogGroupDto<Text>>
    decreases pages.len(),
{
    if pages.len() == 0 {
        Seq::empty()
    } else {
        groups_of(pages.drop_last()) + (match pages.last() {
            Ok((groups, _)) => groups.deep_view(),
            Err(_) => Seq::empty(),
        })
    }
}

/// Some page came.
pub open spec fn some_came(pages: Seq<GroupPage>) -> bool {
    exists|i: int| 0 <= i < pages.len() && #[trigger] pages[i] is Ok
}

/// Some page that came says that the server holds more.
pub open spec fn some_more(pages: Seq<GroupPage>) -> bool {
    exists|i: int| 0 <= i < pages.len() && (#[trigger] pages[i] matches Ok((_, more)) && more)
}

/// The pages of one search under several spellings make one answer: every group once, and more
/// where some page has more.  A page that failed is passed over unless all of them did; then the
/// last failure is the answer.
pub open spec fn is_merge(pages: Seq<GroupPage>, r: GroupPage) -> bool {
    if some_came(pages) || pages.len() == 0 {
        r matches Ok((groups, more)) && groups.deep_view() == without_repeats(groups_of(pages)) && more == some_more(
            pages,
        )
    } else {
        r == pages.last()
    }
}

fn is_known(groups: &Vec<LogGroupDto>, name: &str) -> (r: bool)
    ensures
        r == has_name(groups.deep_view(), name@),
{
    let ghost all = groups.deep_view();
    let mut i: usize = 0;
    while i < groups.len()
        invariant
            i <= groups@.len(),
            all == groups.deep_view(),
            forall|j: int| 0 <= j < i ==> (#[trigger] all[j]).name != name@,
        decreases groups@.len() - i,
    {
        assert(all[i as int] == groups@[i as int].deep_view());
        if text::same(groups[i].name.as_str(), name) {
            return true;
        }
        i = i + 1;
    }
    false
}

fn add_groups(groups: &mut Vec<LogGroupDto>, page: Vec<LogGroupDto>, Ghost(before): Ghost<Seq<LogGroupDto<Text>>>)
    requires
        old(groups).deep_view() == without_repeats(before),
    ensures
        final(groups).deep_view() == without_repeats(before + page.deep_view()),
{
    let ghost all = page.deep_view();
    let mut i: usize = 0;
    proof {
        assert(before + all.take(0) =~= before);
    }
    while i < page.len()
        invariant
            i <= page@.len(),
            all == page.deep_view(),
            groups.deep_view() == without_repeats(before + all.take(i as int)),
        decreases page@.len() - i,
    {
        let ghost so_far = before + all.take(i as int);
        let ghost next = before + all.take(i as int + 1);
        proof {
            assert(next.drop_last() =~= so_far);
            assert(next.last() == page@[i as int].deep_view());
        }
        if !is_known(groups, page[i].name.as_str()) {
            let ghost held = groups.deep_view();
            groups.push(page[i].clone());
            proof {
                assert(groups.deep_view() =~= held.push(next.last()));
            }
        }
        i = i + 1;
    }
    proof {
        assert(all.take(all.len() as int) =~= all);
    }
}

/// Makes one answer of the pages of one search under several spellings.
pub fn merge_group_pages(pages: Vec<GroupPage>) -> (r: GroupPage)
    ensures
        is_merge(pages@, r),
{
    let ghost all = pages@;
    let mut rest = pages;
    let mut groups: Vec<LogGroupDto> = Vec::new();
    let mut more = false;
    let mut any_ok = false;
    let mut last_err: Option<Vec<String>> = None;
    let ghost mut n: int = 0;
    proof {
        assert(groups.deep_view() =~= Seq::empty());
        assert(all.take(0) =~= Seq::empty());
        assert(all.skip(0) =~= all);
    }
    while rest.len() > 0
        invariant
            0 <= n <= all.len(),
            rest@ == all.skip(n),
            groups.deep_view() == without_repeats(groups_of(all.take(n))),
            any_ok == some_came(all.take(n)),
            more == some_more(all.take(n)),
            !any_ok && n > 0 ==> (last_err matches Some(e) && all[n - 1] == Err::<(Vec<LogGroupDto>, bool), Vec<String>>(e)),
            last_err is Some ==> n > 0,
        decreases rest@.len(),
    {
        let ghost seen = all.take(n);
        let ghost next = all.take(n + 1);
        let page = rest.remove(0);
        proof {
            assert(rest@ =~= all.skip(n + 1));
            assert(page == all[n]);
            assert(next.drop_last() =~= seen);
            assert(next.last() == page);
            assert(seen.len() == n);
            assert forall|i: int| 0 <= i < n implies seen[i] == #[trigger] next[i] by {}
            assert(next[n] == page);
            if some_came(seen) {
                let i = choose|i: int| 0 <= i < seen.len() && #[trigger] seen[i] is Ok;
                assert(next[i] is Ok);
            }
            if some_more(seen) {
                let i = choose|i: int| 0 <= i < seen.len() && (#[trigger] seen[i] matches Ok((_, more)) && more);
                assert(next[i] == seen[i]);
            }
            if some_came(next) {
                let i = choose|i: int| 0 <= i < next.len() && #[trigger] next[i] is Ok;
                if i < n {
                    assert(seen[i] is Ok);
                }
            }
            if some_more(next) {
                let i = choose|i: int| 0 <= i < next.len() && (#[trigger] next[i] matches Ok((_, more)) && more);
                if i < n {
                    assert(seen[i] == next[i]);
                }
            }
        }
        match page {
            Ok((found, page_more)) => {
                any_ok = true;
                more = more || page_more;
                add_groups(&mut groups, found, Ghost(groups_of(seen)));
            },
            Err(e) => {
                proof {
                    assert(groups_of(seen) + Seq::<LogGroupDto<Text>>::empty() =~= groups_of(seen));
                }
                last_err = Some(e);
            },
        }
        proof {
            n = n + 1;
        }
    }
    proof {
        assert(all.take(n) =~= all);
    }
    match last_err {
        Some(e) => if !any_ok {
            Err(e)
        } else {
            Ok((groups, more))
        },
        None => Ok((groups, more)),
    }
}

/// No name comes twice among the merged groups, and none of those found is missing.
pub proof fn law_merged_groups(groups: Seq<LogGroupDto<Text>>)
    ensures
        forall|i: int, j: int|
            0 <= i < j < without_repeats(groups).len() ==> (#[trigger] without_repeats(groups)[i]).name != (
            #[trigger] without_repeats(groups)[j]).name,
        forall|i: int| 0 <= i < groups.len() ==> has_name(without_repeats(groups), (#[trigger] groups[i]).name),
    decreases groups.len(),
{
    if groups.len() > 0 {
        let front = groups.drop_last();
        let before = without_repeats(front);
        let after = without_repeats(groups);
        let last = groups.last();
        law_merged_groups(front);
        if !has_name(before, last.name) {
            assert(after[before.len() as int] == last);
        }
        assert forall|i: int| 0 <= i < groups.len() implies has_name(after, (#[trigger] groups[i]).name) by {
            let name = groups[i].name;
            if i < front.len() {
                assert(front[i] == groups[i]);
                let j = choose|j: int| 0 <= j < before.len() && (#[trigger] before[j]).name == name;
                assert(after[j] == before[j]);
            }
        }
    }
}

/// Lists of log streams come whole up to ten pages, those of state machines, event buses and rules up
/// to twenty; what lies beyond makes them partial.
pub proof fn law_how_much_of_a_list_comes<T>(pages: Seq<(Seq<T>, Option<Text>)>)
    requires
        pages.len() > 0,
        forall|i: int| 0 <= i < pages.len() - 1 ==> (#[trigger] pages[i]).1 is Some,
    ensures
        pages.len() <= 10 ==> gathered_from(None, MAX_STREAM_PAGES as nat, pages).items == items_of(pages),
        pages.len() <= 20 ==> gathered_from(None, MAX_MACHINE_PAGES as nat, pages).items == items_of(pages),
        pages.len() <= 20 ==> gathered_from(None, MAX_EVENTS_PAGES as nat, pages).items == items_of(pages),
        pages.len() <= 10 ==> gathered_from(None, MAX_TAIL_PAGES as nat, pages).items == items_of(pages),
        pages.len() <= 10 ==> gathered_from(None, MAX_HISTORY_PAGES as nat, pages).items == items_of(pages),
        gathered_from(None, MAX_STREAM_PAGES as nat, pages).pages <= 10,
        gathered_from(None, MAX_MACHINE_PAGES as nat, pages).pages <= 20,
        gathered_from(None, MAX_EVENTS_PAGES as nat, pages).pages <= 20,
        gathered_from(None, MAX_TAIL_PAGES as nat, pages).pages <= 10,
        pages.len() == 10 && pages.last().1 is Some ==> gathered_from(
            None,
            MAX_STREAM_PAGES as nat,
            pages,
        ).is_partial(),
        pages.len() == 20 && pages.last().1 is Some ==> gathered_from(
            None,
            MAX_MACHINE_PAGES as nat,
            pages,
        ).is_partial(),
        pages.len() == 20 && pages.last().1 is Some ==> gathered_from(None, MAX_EVENTS_PAGES as nat, pages).is_partial(),
{
    law_pagers_keep_to_their_budget(None, MAX_STREAM_PAGES as nat, pages);
    law_pagers_keep_to_their_budget(None, MAX_MACHINE_PAGES as nat, pages);
    law_pagers_keep_to_their_budget(None, MAX_TAIL_PAGES as nat, pages);
    if pages.len() <= 10 {
        law_short_lists_come_whole(None, MAX_STREAM_PAGES as nat, pages);
        law_short_lists_come_whole(None, MAX_TAIL_PAGES as nat, pages);
    }
    if pages.len() <= 20 {
        law_short_lists_come_whole(None, MAX_MACHINE_PAGES as nat, pages);
        law_short_lists_come_whole(None, MAX_EVENTS_PAGES as nat, pages);
    }
}

/// A load of a stream hands out its newest lines, two hundred at most, and asks for five pages at
/// most.
pub proof fn law_how_much_of_a_stream_comes(token: Option<Text>, pages: Seq<(Seq<LogEventDto>, Option<Text>)>)
    ensures
        ({
            let l = lines_from(token, pages);
            &&& l.pages <= 5
            &&& l.kept().len() == (if l.lines.len() < 200 { l.lines.len() as int } else { 200 })
            &&& forall|i: int|
                0 <= i < l.kept().len() ==> #[trigger] l.kept()[i] == l.lines[l.lines.len() - l.kept().len() + i]
        }),
{
    law_event_pages_are_bounded(token, pages);
}

/// The first page of a list is asked for whatever the token, the next ones while a token came; a
/// page goes behind those before it.
pub proof fn law_pages_are_asked_for<T>(token: Option<Text>, budget: nat, page: Seq<T>, next: Option<Text>)
    requires
        budget > 1,
    ensures
        ({
            let g = Gathered::<T>::start(token, budget);
            &&& g.wants_page()
            &&& g.token == token
            &&& g.items.len() == 0
            &&& g.taking(page, next).items == page
            &&& g.taking(page, next).wants_page() <==> next is Some
            &&& g.taking(page, next).token == next
            &&& g.taking(page, next).taking(page, None).items == page + page
            &&& !g.taking(page, next).taking(page, None).is_partial()
        }),
{
    assert(Seq::<T>::empty() + page =~= page);
}

/// Of the groups of one name the first one stays, in the order in which they came.
pub proof fn law_the_first_of_a_name_stays(groups: Seq<LogGroupDto<Text>>, i: int)
    requires
        0 <= i < groups.len(),
        forall|j: int| 0 <= j < i ==> (#[trigger] groups[j]).name != groups[i].name,
    ensures
        without_repeats(groups).contains(groups[i]),
        without_repeats(groups)[0] == groups[0],
    decreases groups.len(),
{
    let front = groups.drop_last();
    let before = without_repeats(front);
    let after = without_repeats(groups);
    if front.len() > 0 {
        law_the_first_of_a_name_stays(front, 0);
    } else {
        reveal_with_fuel(without_repeats, 2);
    }
    if i < front.len() {
        assert forall|j: int| 0 <= j < i implies (#[trigger] front[j]).name != front[i].name by {
            assert(front[j] == groups[j]);
        }
        law_the_first_of_a_name_stays(front, i);
        let k = choose|k: int| 0 <= k < before.len() && before[k] == groups[i];
        assert(after[k] == groups[i]);
    } else {
        lemma_only_what_came(front);
        if has_name(before, groups[i].name) {
            let k = choose|k: int| 0 <= k < before.len() && (#[trigger] before[k]).name == groups[i].name;
            assert(before.contains(before[k]));
            let j = choose|j: int| 0 <= j < front.len() && front[j] == before[k];
            assert(groups[j] == before[k]);
        }
        assert(after[before.len() as int] == groups[i]);
    }
}

/// Nothing is merged that did not come.
proof fn lemma_only_what_came(groups: Seq<LogGroupDto<Text>>)
    ensures
        forall|g: LogGroupDto<Text>| #[trigger] without_repeats(groups).contains(g) ==> groups.contains(g),
    decreases groups.len(),
{
    if groups.len() > 0 {
        let front = groups.drop_last();
        let before = without_repeats(front);
        lemma_only_what_came(front);
        assert forall|g: LogGroupDto<Text>| #[trigger] without_repeats(groups).contains(g) implies groups.contains(g) by {
            let k = choose|k: int| 0 <= k < without_repeats(groups).len() && without_repeats(groups)[k] == g;
            if k < before.len() {
                assert(before[k] == g);
                assert(before.contains(g));
                let j = choose|j: int| 0 <= j < front.len() && front[j] == g;
                assert(groups[j] == g);
            } else {
                assert(groups[groups.len() - 1] == g);
            }
        }
    }
}

/// Every merged group came in one of the pages, and those of a page that came are all merged.
pub proof fn law_merging_adds_nothing(groups: Seq<LogGroupDto<Text>>, g: LogGroupDto<Text>)
    ensures
        without_repeats(groups).contains(g) ==> groups.contains(g),
        without_repeats(groups).len() <= groups.len(),
    decreases groups.len(),
{
    lemma_only_what_came(groups);
    if groups.len() > 0 {
        law_merging_adds_nothing(groups.drop_last(), g);
    }
}

/// Searches that failed are passed over as long as one came; where none did, the failure of the last
/// one is the answer.
pub proof fn law_failed_searches_are_passed_over(pages: Seq<GroupPage>, r: GroupPage, i: int)
    requires
        0 <= i < pages.len(),
        is_merge(pages, r),
    ensures
        pages[i] is Ok ==> r is Ok,
        pages[i] matches Ok((_, more)) ==> (more ==> (r matches Ok((_, all_more)) && all_more)),
        (forall|j: int| 0 <= j < pages.len() ==> #[trigger] pages[j] is Err) ==> r == pages.last() && r is Err,
{
    assert(pages.last() == pages[pages.len() - 1]);
}

} // verus!
