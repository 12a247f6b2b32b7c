//! The contract that every view keeps, and the registry that holds the views.

use vstd::prelude::*;

use crate::action;
use crate::action::{Action, ActionText, ViewContext};
use crate::key::{KeyCode, KeyEvent};
use crate::message::{Message, Text};
use crate::text;

pub mod events;
pub mod lambda;
pub mod logs;
pub mod registry;
pub mod sfn;
pub mod sqs;
pub mod tool;

pub use registry::Registry;

verus! {

/// What the application may do right after activating a view, or after handing it a context: pass
/// requests on, and forget the filter.
pub open spec fn settles(action: ActionText) -> bool {
    action::leaves_app(action) || action is ClearFilter
}

/// No action at all.
pub(crate) fn nothing() -> (r: Vec<Action>)
    ensures
        r.deep_view() == Seq::<ActionText>::empty(),
{
    let r: Vec<Action> = Vec::new();
    assert(r.deep_view() =~= Seq::<ActionText>::empty());
    r
}

/// The hint of a key, where it is worth announcing.
pub open spec fn hint_when(on: bool, key: Text, what: Text) -> Seq<(Text, Text)> {
    if on {
        seq![(key, what)]
    } else {
        seq![]
    }
}

/// Adds the hint of a key, where it is worth announcing.
pub(crate) fn announce(hints: &mut Vec<(&'static str, &'static str)>, on: bool, key: &'static str, what: &'static str)
    ensures
        final(hints).deep_view() == old(hints).deep_view() + hint_when(on, key@, what@),
{
    if on {
        hints.push((key, what));
    }
    proof {
        assert(hints.deep_view() =~= old(hints).deep_view() + hint_when(on, key@, what@));
    }
}

/// The key of a favourite inside a resource: the resource and the part, with a character between
/// them that no name on AWS holds.
pub open spec fn deep_key(outer: Text, inner: Text) -> Text {
    outer + "\u{1f}"@ + inner
}

/// The resource and the part that a key stands for, `None` where it stands for a whole resource.
pub open spec fn key_parts(key: Text) -> Option<(Text, Text)> {
    text::parts_around(key, "\u{1f}"@)
}

proof fn lemma_key_parts_from(outer: Text, inner: Text, i: int)
    requires
        !outer.contains('\u{1f}'),
        0 <= i <= outer.len(),
        "\u{1f}"@ == seq!['\u{1f}'],
    ensures
        text::occurrence_from(deep_key(outer, inner), "\u{1f}"@, i) == Some(outer.len() as int),
    decreases outer.len() - i,
{
    let key = deep_key(outer, inner);
    if i == outer.len() {
        assert(key.subrange(i, i + 1) =~= seq!['\u{1f}']);
    } else {
        assert(outer.contains(outer[i]));
        assert(key.subrange(i, i + 1)[0] == outer[i]);
        lemma_key_parts_from(outer, inner, i + 1);
    }
}

/// The key of a favourite inside a resource gives back both names.
pub proof fn law_deep_keys_come_apart(outer: Text, inner: Text)
    requires
        !outer.contains('\u{1f}'),
    ensures
        key_parts(deep_key(outer, inner)) == Some((outer, inner)),
{
    reveal_strlit("\u{1f}");
    assert("\u{1f}"@ =~= seq!['\u{1f}']);
    lemma_key_parts_from(outer, inner, 0);
    assert(deep_key(outer, inner).take(outer.len() as int) =~= outer);
    assert(deep_key(outer, inner).skip(outer.len() as int + 1) =~= inner);
}

/// A key that names a whole resource does not come apart.
pub proof fn law_plain_keys_stay_whole(key: Text)
    requires
        !key.contains('\u{1f}'),
    ensures
        key_parts(key) is None,
{
    reveal_strlit("\u{1f}");
    text::law_texts_come_apart(key, "\u{1f}"@);
    if let Some((a, b)) = key_parts(key) {
        assert(key[a.len() as int] == '\u{1f}');
    }
}

/// The key of a favourite inside a resource.
pub(crate) fn join_key(outer: &str, inner: &str) -> (r: String)
    ensures
        r@ == deep_key(outer@, inner@),
{
    let mut key = outer.to_string();
    key.append("\u{1f}");
    key.append(inner);
    key
}

/// The resource and the part that a key stands for.
pub(crate) fn split_key(key: &str) -> (r: Option<(String, String)>)
    ensures
        r.deep_view() == key_parts(key@),
{
    text::split_once(key, "\u{1f}")
}

/// The state of a view after a step, and the actions that the step asks for.
pub type Step<M> = (M, Seq<ActionText>);

/// Keys and what they do.
pub type HintTexts = Seq<(Text, Text)>;

/// One tool of the console.  A view keeps state and turns keys into actions; it never talks to AWS
/// itself and gets its data as messages.
///
/// What each method does is stated over the model of the view: its state after the call, and the
/// actions that the application is to carry out.
pub trait DeckView: Sized {
    /// The mathematical state of the view.
    type Model;

    spec fn model(&self) -> Self::Model;

    /// The state is consistent.
    spec fn wf(&self) -> bool;

    spec fn id_text(m: Self::Model) -> Text;

    spec fn description_text(m: Self::Model) -> Text;

    spec fn title_text(m: Self::Model) -> Text;

    spec fn activated(m: Self::Model) -> Step<Self::Model>;

    spec fn opened(m: Self::Model, context: ViewContext<Text>) -> Step<Self::Model>;

    spec fn keyed(m: Self::Model, key: KeyEvent) -> Step<Self::Model>;

    spec fn informed(m: Self::Model, message: Message) -> Self::Model;

    spec fn narrowed(m: Self::Model, filter: Text) -> Self::Model;

    spec fn searched(m: Self::Model, query: Text) -> Step<Self::Model>;

    spec fn commanded(m: Self::Model, cmd: Text) -> Step<Self::Model>;

    spec fn ticked(m: Self::Model) -> Step<Self::Model>;

    spec fn takes_raw_input(m: Self::Model) -> bool;

    spec fn favorite(m: Self::Model) -> Option<(Text, Text)>;

    spec fn hint_texts(m: Self::Model) -> HintTexts;

    /// The view shows its root level and nothing over it.
    spec fn at_root(m: Self::Model) -> bool;

    /// At the root `Esc` leaves the view as it is and asks to go back to the menu.
    proof fn law_esc_at_root_goes_back(m: Self::Model, key: KeyEvent)
        requires
            Self::at_root(m),
            key.code == KeyCode::Esc,
        ensures
            Self::keyed(m, key) == (m, seq![ActionText::Back]),
    ;

    /// Name of the view on the command line, the same at all times.
    fn id(&self) -> (r: &'static str)
        ensures
            r@ == Self::id_text(self.model()),
    ;

    /// One line for the main menu.
    fn description(&self) -> (r: &'static str)
        ensures
            r@ == Self::description_text(self.model()),
    ;

    /// Title for the header; it follows the level that the view shows.
    fn title(&self) -> (r: String)
        ensures
            r@ == Self::title_text(self.model()),
    ;

    /// The view becomes the active one.
    fn on_activate(&mut self) -> (r: Vec<Action>)
        requires
            old(self).wf(),
        ensures
            final(self).wf(),
            (final(self).model(), r.deep_view()) == Self::activated(old(self).model()),
            forall|i: int| 0 <= i < r.deep_view().len() ==> settles(#[trigger] r.deep_view()[i]),
    ;

    /// The view becomes the active one and starts from `context`.
    fn on_context(&mut self, context: &ViewContext) -> (r: Vec<Action>)
        requires
            old(self).wf(),
        ensures
            final(self).wf(),
            (final(self).model(), r.deep_view()) == Self::opened(old(self).model(), context.deep_view()),
            forall|i: int| 0 <= i < r.deep_view().len() ==> settles(#[trigger] r.deep_view()[i]),
    ;

    /// A key press.  `Esc` goes up one level; at the root of the view, where there is none, it
    /// answers with [`Action::Back`].
    fn on_key(&mut self, key: KeyEvent) -> (r: Vec<Action>)
        requires
            old(self).wf(),
        ensures
            final(self).wf(),
            (final(self).model(), r.deep_view()) == Self::keyed(old(self).model(), key),
    ;

    /// A result from AWS.  Results that do not concern what the view shows change nothing.
    fn on_message(&mut self, message: &Message)
        requires
            old(self).wf(),
        ensures
            final(self).wf(),
            final(self).model() == Self::informed(old(self).model(), *message),
    ;

    /// The filter changed.
    fn set_filter(&mut self, filter: &str)
        requires
            old(self).wf(),
        ensures
            final(self).wf(),
            final(self).model() == Self::narrowed(old(self).model(), filter@),
    ;

    /// The filter has settled: time to ask the server, where the view searches there.
    fn search(&mut self, query: &str) -> (r: Vec<Action>)
        requires
            old(self).wf(),
        ensures
            final(self).wf(),
            (final(self).model(), r.deep_view()) == Self::searched(old(self).model(), query@),
            forall|i: int| 0 <= i < r.deep_view().len() ==> action::leaves_app(#[trigger] r.deep_view()[i]),
    ;

    /// A command that the application does not know.  No action means that the view does not know
    /// it either.
    fn on_command(&mut self, cmd: &str) -> (r: Vec<Action>)
        requires
            old(self).wf(),
        ensures
            final(self).wf(),
            (final(self).model(), r.deep_view()) == Self::commanded(old(self).model(), cmd@),
    ;

    /// Some time has passed.
    fn on_tick(&mut self) -> (r: Vec<Action>)
        requires
            old(self).wf(),
        ensures
            final(self).wf(),
            (final(self).model(), r.deep_view()) == Self::ticked(old(self).model()),
    ;

    /// The view takes text input and wants every key.
    fn wants_raw_input(&self) -> (r: bool)
        ensures
            r == Self::takes_raw_input(self.model()),
    ;

    /// Key and label of the selected resource, where it can be a favourite.
    fn selected_favorite(&self) -> (r: Option<(String, String)>)
        requires
            self.wf(),
        ensures
            r.deep_view() == Self::favorite(self.model()),
    ;

    /// Keys that are worth announcing now, and what they do.
    fn hints(&self) -> (r: Vec<(&'static str, &'static str)>)
        requires
            self.wf(),
        ensures
            r.deep_view() == Self::hint_texts(self.model()),
    ;
}

} // verus!
