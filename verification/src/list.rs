//! Lists on screen: what a filter shows of them and which row is selected.

use vstd::prelude::*;

use crate::message::{
    EventBusDto, ExecutionDto, FunctionDto, LogGroupDto, LogStreamDto, QueueDto, QueueMessageDto, RuleDto,
    StateMachineDto, StateSpanDto, TargetDto, Text,
};
use crate::util;
use crate::util::{fuzzy_score, ranked};

verus! {

// --- selection -------------------------------------------------------------------------------

/// The selected row of a list, counted among the rows that the filter shows.
#[derive(Clone, Copy, Debug, PartialEq, Eq, Structural)]
pub struct ListState {
    pub selected: Option<usize>,
}

/// A selection that fits a list of `len` rows: a row of it, or none when it is empty.
pub open spec fn fits(selected: Option<usize>, len: nat) -> bool {
    match selected {
        Some(i) => i < len,
        None => len == 0,
    }
}

/// A selection that lies inside a list of `len` rows, or on the first row of a list that is still to
/// come.
pub open spec fn inside(selected: Option<usize>, len: nat) -> bool {
    match selected {
        Some(i) => i == 0 || i < len,
        None => true,
    }
}

/// The row that a selection stands for when it is moved: the first where there is none.
pub open spec fn row_of(selected: Option<usize>) -> int {
    match selected {
        Some(i) => i as int,
        None => 0,
    }
}

/// Selection moved by `delta` rows and kept inside the list.
pub open spec fn moved(selected: Option<usize>, len: nat, delta: int) -> Option<usize> {
    if len == 0 {
        None
    } else {
        let to = row_of(selected) + delta;
        Some((if to < 0 { 0 } else if to > len - 1 { len - 1 } else { to }) as usize)
    }
}

/// The first or the last row.
pub open spec fn edge(len: nat, last: bool) -> Option<usize> {
    if len == 0 {
        None
    } else if last {
        Some((len - 1) as usize)
    } else {
        Some(0usize)
    }
}

/// Selection brought back inside the list.
pub open spec fn clamped(selected: Option<usize>, len: nat) -> Option<usize> {
    if len == 0 {
        None
    } else {
        match selected {
            Some(i) => if i >= len { Some((len - 1) as usize) } else { Some(i) },
            None => Some(0usize),
        }
    }
}

/// Moving, jumping and clamping always leave a selection that fits the list.
pub proof fn law_selection_fits(selected: Option<usize>, len: nat, delta: int, last: bool)
    requires
        len <= usize::MAX,
    ensures
        fits(moved(selected, len, delta), len),
        fits(edge(len, last), len),
        fits(clamped(selected, len), len),
{
}

/// Clamping leaves a selection that fits the list as it is.
pub proof fn law_clamping_keeps_what_fits(selected: Option<usize>, len: nat)
    requires
        fits(selected, len),
    ensures
        clamped(selected, len) == selected,
{
}

/// Moving one row down and then one row up comes back, except from the last row.
pub proof fn law_down_then_up(selected: usize, len: nat)
    requires
        selected + 1 < len,
        len <= usize::MAX,
    ensures
        moved(moved(Some(selected), len, 1), len, -1) == Some(selected),
{
}

/// A row down or up goes to the neighbouring row; at either end the selection stays.  The edges are
/// the first and the last row, and a row past the end comes back to the last one.
pub proof fn law_neighbours_are_selected(row: usize, past: usize, len: nat)
    requires
        row < len <= usize::MAX,
    ensures
        row + 1 < len ==> moved(Some(row), len, 1) == Some((row + 1) as usize),
        row + 1 == len ==> moved(Some(row), len, 1) == Some(row),
        row > 0 ==> moved(Some(row), len, -1) == Some((row - 1) as usize),
        row == 0 ==> moved(Some(row), len, -1) == Some(row),
        edge(len, false) == Some(0usize),
        edge(len, true) == Some((len - 1) as usize),
        clamped(None, len) == Some(0usize),
        past >= len ==> clamped(Some(past), len) == Some((len - 1) as usize),
{
}

impl ListState {
    pub fn new(selected: Option<usize>) -> (r: Self)
        ensures
            r.selected == selected,
    {
        ListState { selected }
    }

    pub fn selected(&self) -> (r: Option<usize>)
        ensures
            r == self.selected,
    {
        self.selected
    }

    pub fn select(&mut self, selected: Option<usize>)
        ensures
            final(self).selected == selected,
    {
        self.selected = selected;
    }

    /// One row down.
    pub fn down(&mut self, len: usize)
        ensures
            final(self).selected == moved(old(self).selected, len as nat, 1),
    {
        if len == 0 {
            self.selected = None;
        } else {
            let cur: usize = match self.selected {
                Some(i) => i,
                None => 0,
            };
            self.selected = Some(if cur < len - 1 { cur + 1 } else { len - 1 });
        }
    }

    /// One row up.
    pub fn up(&mut self, len: usize)
        ensures
            final(self).selected == moved(old(self).selected, len as nat, -1),
    {
        if len == 0 {
            self.selected = None;
        } else {
            let cur: usize = match self.selected {
                Some(i) => i,
                None => 0,
            };
            self.selected = Some(if cur == 0 { 0 } else if cur - 1 > len - 1 { len - 1 } else { cur - 1 });
        }
    }

    /// To the first or the last row.
    pub fn to_edge(&mut self, len: usize, last: bool)
        ensures
            final(self).selected == edge(len as nat, last),
    {
        if len == 0 {
            self.selected = None;
        } else {
            self.selected = Some(if last { len - 1 } else { 0 });
        }
    }

    /// Back inside the list.
    pub fn clamp(&mut self, len: usize)
        ensures
            final(self).selected == clamped(old(self).selected, len as nat),
    {
        if len == 0 {
            self.selected = None;
        } else {
            match self.selected {
                Some(i) => {
                    if i >= len {
                        self.selected = Some(len - 1);
                    }
                },
                None => {
                    self.selected = Some(0);
                },
            }
        }
    }
}

// --- filtering -------------------------------------------------------------------------------

/// The better of two scores.
pub open spec fn better(a: Option<int>, b: Option<int>) -> Option<int> {
    match (a, b) {
        (Some(x), Some(y)) => Some(if x >= y { x } else { y }),
        (Some(x), None) => Some(x),
        (None, y) => y,
    }
}

fn best_of(a: Option<i32>, b: Option<i32>) -> (r: Option<i32>)
    ensures
        opt_int(r) == better(opt_int(a), opt_int(b)),
{
    match (a, b) {
        (Some(x), Some(y)) => Some(if x >= y { x } else { y }),
        (Some(x), None) => Some(x),
        (None, y) => y,
    }
}

/// A score as an integer.
pub open spec fn opt_int(s: Option<i32>) -> Option<int> {
    match s {
        Some(n) => Some(n as int),
        None => None,
    }
}

/// Something that a filter ranks in a list.
pub trait Scored {
    /// How well `filter` matches, `None` where it does not.
    spec fn score_of(&self, filter: Text) -> Option<int>;

    fn score(&self, filter: &str) -> (r: Option<i32>)
        ensures
            opt_int(r) == self.score_of(filter@),
    ;
}

/// The scores of a list under `filter`.
pub open spec fn scores_of<T: Scored>(items: Seq<T>, filter: Text) -> Seq<Option<int>> {
    Seq::new(items.len(), |i: int| items[i].score_of(filter))
}

/// Positions of the items that `filter` shows, in the order in which they are shown.
pub open spec fn shown<T: Scored>(items: Seq<T>, filter: Text) -> Seq<int> {
    util::ranking(filter, scores_of(items, filter))
}

/// Every position that a filter shows is one of the list, and none is shown twice.
pub proof fn law_shown_positions<T: Scored>(items: Seq<T>, filter: Text)
    ensures
        forall|k: int| 0 <= k < shown(items, filter).len() ==> 0 <= #[trigger] shown(items, filter)[k] < items.len(),
        forall|j: int, k: int|
            0 <= j < k < shown(items, filter).len() ==> #[trigger] shown(items, filter)[j] != #[trigger] shown(
                items,
                filter,
            )[k],
{
    if filter.len() > 0 {
        util::law_ranking_is_ranked(scores_of(items, filter), items.len() as int);
        let scores = scores_of(items, filter);
        let order = shown(items, filter);
        assert forall|j: int, k: int| 0 <= j < k < order.len() implies #[trigger] order[j] != #[trigger] order[k] by {
            assert(util::ranks_before(scores, order[j], order[k]));
        }
    }
}

/// An empty filter shows the whole list in its own order.
pub proof fn law_empty_filter_shows_all<T: Scored>(items: Seq<T>)
    ensures
        shown(items, Seq::empty()) == Seq::new(items.len(), |i: int| i),
{
}

/// No more rows are shown than there are.
pub proof fn lemma_shown_count<T: Scored>(items: Seq<T>, filter: Text)
    ensures
        shown(items, filter).len() <= items.len(),
{
    lemma_ranking_count(scores_of(items, filter), items.len() as int);
}

proof fn lemma_ranking_count(scores: Seq<Option<int>>, n: int)
    requires
        0 <= n <= scores.len(),
    ensures
        util::ranking_of(scores, n).len() <= n,
    decreases n,
{
    if n > 0 {
        lemma_ranking_count(scores, n - 1);
        util::law_ranking_is_ranked(scores, n - 1);
        util::law_ranking_is_ranked(scores, n);
        util::lemma_ranking_grows(scores, n);
    }
}

/// The item at the selected row, where there is one.
pub open spec fn picked<T: Scored>(items: Seq<T>, filter: Text, selected: Option<usize>) -> Option<T> {
    match selected {
        Some(i) => if i < shown(items, filter).len() {
            Some(items[shown(items, filter)[i as int]])
        } else {
            None
        },
        None => None,
    }
}

/// An item stands in the selected row of a list.
pub open spec fn is_selected<T: Scored>(items: Seq<T>, filter: Text, selected: Option<usize>, item: T) -> bool {
    &&& selected is Some
    &&& selected->0 < shown(items, filter).len()
    &&& items[shown(items, filter)[selected->0 as int]] == item
}

/// What is picked is what stands in the selected row: under an empty filter the item of that
/// number, and under a filter one that it matches.
pub proof fn law_the_selected_row_is_picked<T: Scored>(items: Seq<T>, filter: Text, row: usize)
    ensures
        filter.len() == 0 && row < items.len() ==> picked(items, filter, Some(row)) == Some(items[row as int]),
        picked(items, filter, Some(row)) matches Some(item) ==> is_selected(items, filter, Some(row), item)
            && items.contains(item) && (filter.len() > 0 ==> item.score_of(filter) is Some),
        picked(items, filter, Some(row)) is None <==> row >= shown(items, filter).len(),
        picked(items, filter, None) is None,
{
    law_shown_positions(items, filter);
    if row < shown(items, filter).len() {
        let at = shown(items, filter)[row as int];
        assert(items[at] == items[shown(items, filter)[row as int]]);
        if filter.len() > 0 {
            util::law_ranking_is_ranked(scores_of(items, filter), items.len() as int);
            assert(scores_of(items, filter)[at] is Some);
        }
    }
}

/// A filter shows an item exactly where it matches, and puts the better match first; among equal
/// ones the earlier of the list.
pub proof fn law_filters_show_the_best_first<T: Scored>(items: Seq<T>, filter: Text)
    requires
        filter.len() > 0,
    ensures
        forall|i: int|
            0 <= i < items.len() ==> (shown(items, filter).contains(i) <==> (#[trigger] items[i]).score_of(
                filter,
            ) is Some),
        forall|j: int, k: int|
            0 <= j < k < shown(items, filter).len() ==> {
                let a = #[trigger] shown(items, filter)[j];
                let b = #[trigger] shown(items, filter)[k];
                items[a].score_of(filter)->0 > items[b].score_of(filter)->0 || (items[a].score_of(filter)
                    == items[b].score_of(filter) && a < b)
            },
{
    let scores = scores_of(items, filter);
    let order = shown(items, filter);
    util::law_ranking_is_ranked(scores, items.len() as int);
    assert forall|i: int| 0 <= i < items.len() implies (order.contains(i) <==> (#[trigger] items[i]).score_of(
        filter,
    ) is Some) by {
        assert(scores[i] == items[i].score_of(filter));
        if order.contains(i) {
            let k = order.index_of(i);
            assert(order[k] == i);
        }
    }
    assert forall|j: int, k: int| 0 <= j < k < order.len() implies {
        let a = #[trigger] order[j];
        let b = #[trigger] order[k];
        items[a].score_of(filter)->0 > items[b].score_of(filter)->0 || (items[a].score_of(filter)
            == items[b].score_of(filter) && a < b)
    } by {
        assert(util::ranks_before(scores, order[j], order[k]));
        assert(0 <= order[j] < items.len() && scores[order[j]] is Some);
        assert(0 <= order[k] < items.len() && scores[order[k]] is Some);
    }
}

/// Positions of the items that `filter` shows, in the order in which they are shown.
pub fn filtered<T: Scored>(items: &Vec<T>, filter: &str) -> (r: Vec<usize>)
    ensures
        util::positions(r@) == shown(items@, filter@),
        r@.len() == shown(items@, filter@).len(),
        forall|k: int| 0 <= k < r@.len() ==> #[trigger] r@[k] < items@.len() && r@[k] == shown(items@, filter@)[k],
{
    let score = |i: usize| -> (s: Option<i32>)
        requires
            i < items@.len(),
        ensures
            opt_int(s) == items@[i as int].score_of(filter@),
        { items[i].score(filter) };
    let r = ranked(items.len(), filter, score);
    proof {
        if filter@.len() > 0 {
            let scores = choose|scores: Seq<Option<i32>>|
                scores.len() == items@.len() && #[trigger] util::are_scores(score, scores) && util::positions(r@)
                    == util::ranking(filter@, util::score_values(scores));
            assert forall|i: int| 0 <= i < scores.len() implies #[trigger] util::score_values(scores)[i] == scores_of(
                items@,
                filter@,
            )[i] by {
                assert(call_ensures(score, (i as usize,), scores[i as usize as int]));
            }
            assert(util::score_values(scores) =~= scores_of(items@, filter@));
        }
    }
    proof {
        assert forall|k: int| 0 <= k < r@.len() implies #[trigger] r@[k] < items@.len() && r@[k] == shown(
            items@,
            filter@,
        )[k] by {
            assert(util::positions(r@)[k] == r@[k]);
        }
    }
    r
}

/// The item at the selected row, where there is one.
pub fn pick<'a, T: Scored>(items: &'a Vec<T>, filter: &str, selected: Option<usize>) -> (r: Option<&'a T>)
    ensures
        match r {
            Some(item) => picked(items@, filter@, selected) == Some(*item),
            None => picked(items@, filter@, selected) is None,
        },
{
    match selected {
        Some(i) => {
            let order = filtered(items, filter);
            if i < order.len() {
                Some(&items[order[i]])
            } else {
                None
            }
        },
        None => None,
    }
}

/// What an empty list says: that it is still loading, that the filter leaves nothing, or else what
/// is special about it.
pub open spec fn blank_text(loading: bool, filter: Text, otherwise: Text) -> Text {
    if loading {
        "cargando…"@
    } else if filter.len() == 0 {
        otherwise
    } else {
        "(sin coincidencias para el filtro)"@
    }
}

/// What an empty list says.
pub fn blank_msg(loading: bool, filter: &str, otherwise: &'static str) -> (r: &'static str)
    ensures
        r@ == blank_text(loading, filter@, otherwise@),
{
    if loading {
        "cargando…"
    } else if filter.is_empty() {
        otherwise
    } else {
        "(sin coincidencias para el filtro)"
    }
}

/// What an empty list without anything special about it says.
pub fn empty_msg(loading: bool, filter: &str) -> (r: &'static str)
    ensures
        r@ == blank_text(loading, filter@, "(sin resultados)"@),
{
    blank_msg(loading, filter, "(sin resultados)")
}

impl Scored for LogGroupDto<String> {
    open spec fn score_of(&self, filter: Text) -> Option<int> {
        util::fuzzy(self.name@, filter)
    }

    fn score(&self, filter: &str) -> (r: Option<i32>) {
        fuzzy_score(self.name.as_str(), filter)
    }
}

impl Scored for LogStreamDto<String> {
    open spec fn score_of(&self, filter: Text) -> Option<int> {
        util::fuzzy(self.name@, filter)
    }

    fn score(&self, filter: &str) -> (r: Option<i32>) {
        fuzzy_score(self.name.as_str(), filter)
    }
}

impl Scored for QueueDto<String> {
    open spec fn score_of(&self, filter: Text) -> Option<int> {
        util::fuzzy(self.name@, filter)
    }

    fn score(&self, filter: &str) -> (r: Option<i32>) {
        fuzzy_score(self.name.as_str(), filter)
    }
}

/// A message of a queue matches by its id or by its body, whichever is better.
impl Scored for QueueMessageDto<String> {
    open spec fn score_of(&self, filter: Text) -> Option<int> {
        better(util::fuzzy(self.id@, filter), util::fuzzy(self.body@, filter))
    }

    fn score(&self, filter: &str) -> (r: Option<i32>) {
        best_of(fuzzy_score(self.id.as_str(), filter), fuzzy_score(self.body.as_str(), filter))
    }
}

impl Scored for FunctionDto<String> {
    open spec fn score_of(&self, filter: Text) -> Option<int> {
        util::fuzzy(self.name@, filter)
    }

    fn score(&self, filter: &str) -> (r: Option<i32>) {
        fuzzy_score(self.name.as_str(), filter)
    }
}

/// An environment variable matches by its key or by its value, whichever is better.
impl Scored for (String, String) {
    open spec fn score_of(&self, filter: Text) -> Option<int> {
        better(util::fuzzy(self.0@, filter), util::fuzzy(self.1@, filter))
    }

    fn score(&self, filter: &str) -> (r: Option<i32>) {
        best_of(fuzzy_score(self.0.as_str(), filter), fuzzy_score(self.1.as_str(), filter))
    }
}

impl Scored for StateMachineDto<String> {
    open spec fn score_of(&self, filter: Text) -> Option<int> {
        util::fuzzy(self.name@, filter)
    }

    fn score(&self, filter: &str) -> (r: Option<i32>) {
        fuzzy_score(self.name.as_str(), filter)
    }
}

impl Scored for ExecutionDto<String> {
    open spec fn score_of(&self, filter: Text) -> Option<int> {
        util::fuzzy(self.name@, filter)
    }

    fn score(&self, filter: &str) -> (r: Option<i32>) {
        fuzzy_score(self.name.as_str(), filter)
    }
}

impl Scored for StateSpanDto<String> {
    open spec fn score_of(&self, filter: Text) -> Option<int> {
        util::fuzzy(self.name@, filter)
    }

    fn score(&self, filter: &str) -> (r: Option<i32>) {
        fuzzy_score(self.name.as_str(), filter)
    }
}

impl Scored for EventBusDto<String> {
    open spec fn score_of(&self, filter: Text) -> Option<int> {
        util::fuzzy(self.name@, filter)
    }

    fn score(&self, filter: &str) -> (r: Option<i32>) {
        fuzzy_score(self.name.as_str(), filter)
    }
}

impl Scored for TargetDto<String> {
    open spec fn score_of(&self, filter: Text) -> Option<int> {
        util::fuzzy(self.id@, filter)
    }

    fn score(&self, filter: &str) -> (r: Option<i32>) {
        fuzzy_score(self.id.as_str(), filter)
    }
}

impl Scored for RuleDto<String> {
    open spec fn score_of(&self, filter: Text) -> Option<int> {
        util::fuzzy(self.name@, filter)
    }

    fn score(&self, filter: &str) -> (r: Option<i32>) {
        fuzzy_score(self.name.as_str(), filter)
    }
}

/// A filter looks for the names of what a list shows: something is listed exactly where the letters
/// of the filter stand in its name in their order, whatever their ASCII case.
pub proof fn law_filters_look_at_names(
    group: LogGroupDto,
    stream: LogStreamDto,
    queue: QueueDto,
    function: FunctionDto,
    machine: StateMachineDto,
    execution: ExecutionDto,
    span: StateSpanDto,
    bus: EventBusDto,
    target: TargetDto,
    rule: RuleDto,
    filter: Text,
)
    ensures
        group.score_of(filter) is Some <==> util::is_subsequence(group.name@, filter),
        stream.score_of(filter) is Some <==> util::is_subsequence(stream.name@, filter),
        queue.score_of(filter) is Some <==> util::is_subsequence(queue.name@, filter),
        function.score_of(filter) is Some <==> util::is_subsequence(function.name@, filter),
        machine.score_of(filter) is Some <==> util::is_subsequence(machine.name@, filter),
        execution.score_of(filter) is Some <==> util::is_subsequence(execution.name@, filter),
        span.score_of(filter) is Some <==> util::is_subsequence(span.name@, filter),
        bus.score_of(filter) is Some <==> util::is_subsequence(bus.name@, filter),
        target.score_of(filter) is Some <==> util::is_subsequence(target.id@, filter),
        rule.score_of(filter) is Some <==> util::is_subsequence(rule.name@, filter),
{
    util::law_fuzzy_is_subsequence(group.name@, filter);
    util::law_fuzzy_is_subsequence(stream.name@, filter);
    util::law_fuzzy_is_subsequence(queue.name@, filter);
    util::law_fuzzy_is_subsequence(function.name@, filter);
    util::law_fuzzy_is_subsequence(machine.name@, filter);
    util::law_fuzzy_is_subsequence(execution.name@, filter);
    util::law_fuzzy_is_subsequence(span.name@, filter);
    util::law_fuzzy_is_subsequence(bus.name@, filter);
    util::law_fuzzy_is_subsequence(target.id@, filter);
    util::law_fuzzy_is_subsequence(rule.name@, filter);
}

/// What is known by two texts is listed where either of them matches: a message by its id or its
/// body, a variable by its key or its value.
pub proof fn law_either_text_matches(message: QueueMessageDto, variable: (String, String), filter: Text)
    ensures
        message.score_of(filter) is Some <==> util::is_subsequence(message.id@, filter) || util::is_subsequence(
            message.body@,
            filter,
        ),
        variable.score_of(filter) is Some <==> util::is_subsequence(variable.0@, filter) || util::is_subsequence(
            variable.1@,
            filter,
        ),
{
    util::law_fuzzy_is_subsequence(message.id@, filter);
    util::law_fuzzy_is_subsequence(message.body@, filter);
    util::law_fuzzy_is_subsequence(variable.0@, filter);
    util::law_fuzzy_is_subsequence(variable.1@, filter);
}

/// An empty list says that it is loading while it is, that the filter hides everything where there is
/// one, and else what is special about it.
pub proof fn law_empty_lists_say_why(filter: Text, otherwise: Text)
    ensures
        blank_text(true, filter, otherwise) == "cargando…"@,
        blank_text(false, Seq::empty(), otherwise) == otherwise,
        filter.len() > 0 ==> blank_text(false, filter, otherwise) == "(sin coincidencias para el filtro)"@,
{
}

/// Of two scores the higher one counts, and one alone counts as it is.
pub proof fn law_the_better_score_counts(a: int, b: int)
    ensures
        a >= b ==> better(Some(a), Some(b)) == Some(a),
        b >= a ==> better(Some(a), Some(b)) == Some(b),
        better(Some(a), None) == Some(a),
        better(None, Some(b)) == Some(b),
        better(None, None) is None,
{
}

} // verus!
