//! The views of the console, by their ids.

use vstd::prelude::*;

use crate::action;
use crate::action::{Action, ActionText, ViewContext};
use crate::key::KeyEvent;
use crate::message::{Message, Text};
use crate::text;
use crate::views;
use crate::views::{nothing, DeckView};

verus! {

/// The views in the order of the menu, and which of them is active; at first it is the first one.
pub struct Registry<V> {
    pub views: Vec<V>,
    pub active: usize,
}

/// The models of some views.
pub open spec fn models<V: DeckView>(views: Seq<V>) -> Seq<V::Model> {
    Seq::new(views.len(), |i: int| views[i].model())
}

/// Position, from `i` on, of the view with an id, `views.len()` where there is none.
pub open spec fn view_from<V: DeckView>(views: Seq<V::Model>, id: Text, i: int) -> int
    decreases views.len() - i,
{
    if i < 0 || i >= views.len() {
        views.len() as int
    } else if V::id_text(views[i]) == id {
        i
    } else {
        view_from::<V>(views, id, i + 1)
    }
}

/// The ids of some views.
pub open spec fn ids_of<V: DeckView>(views: Seq<V::Model>) -> Seq<Text> {
    Seq::new(views.len(), |i: int| V::id_text(views[i]))
}

/// Ids and descriptions of some views.
pub open spec fn metas_of<V: DeckView>(views: Seq<V::Model>) -> Seq<(Text, Text)> {
    Seq::new(views.len(), |i: int| (V::id_text(views[i]), V::description_text(views[i])))
}

impl<V: DeckView> Registry<V> {
    /// Every view is consistent.
    pub open spec fn wf(&self) -> bool {
        forall|i: int| 0 <= i < self.views@.len() ==> (#[trigger] self.views@[i]).wf()
    }

    pub open spec fn views_model(&self) -> Seq<V::Model> {
        models(self.views@)
    }

    pub fn new() -> (r: Self)
        ensures
            r.views@.len() == 0,
            r.active == 0,
            r.wf(),
    {
        Registry { views: Vec::new(), active: 0 }
    }

    /// Adds a view behind the others.
    pub fn register(&mut self, view: V)
        requires
            old(self).wf(),
            view.wf(),
        ensures
            final(self).views@ == old(self).views@.push(view),
            final(self).active == old(self).active,
            final(self).wf(),
    {
        self.views.push(view);
    }

    /// The active view, where there is one.
    pub fn active(&self) -> (r: Option<&V>)
        ensures
            match r {
                Some(view) => self.active < self.views@.len() && *view == self.views@[self.active as int],
                None => self.active >= self.views@.len(),
            },
    {
        if self.active < self.views.len() {
            Some(&self.views[self.active])
        } else {
            None
        }
    }

    /// The active view, to be changed, where there is one.
    pub fn active_mut(&mut self) -> (r: Option<&mut V>)
        ensures
            final(self).active == old(self).active,
            match r {
                Some(view) => {
                    &&& old(self).active < old(self).views@.len()
                    &&& *view == old(self).views@[old(self).active as int]
                    &&& final(self).views@ == old(self).views@.update(old(self).active as int, *final(view))
                },
                None => old(self).active >= old(self).views@.len() && final(self).views@ == old(self).views@,
            },
    {
        let at: usize = self.active;
        if at < self.views.len() {
            Some(&mut self.views[at])
        } else {
            None
        }
    }

    /// Makes the first view with this id the active one, and says whether there is one.
    pub fn activate(&mut self, id: &str) -> (r: bool)
        ensures
            final(self).views@ == old(self).views@,
            r == (view_from::<V>(old(self).views_model(), id@, 0) < old(self).views@.len()),
            final(self).active == (if r {
                view_from::<V>(old(self).views_model(), id@, 0)
            } else {
                old(self).active as int
            }),
    {
        let mut i: usize = 0;
        while i < self.views.len()
            invariant
                i <= self.views@.len(),
                self.views@ == old(self).views@,
                self.active == old(self).active,
                view_from::<V>(old(self).views_model(), id@, i as int) == view_from::<V>(
                    old(self).views_model(),
                    id@,
                    0,
                ),
            decreases self.views@.len() - i,
        {
            if text::same(self.views[i].id(), id) {
                self.active = i;
                return true;
            }
            i = i + 1;
        }
        false
    }

    /// The ids of the views.
    pub fn ids(&self) -> (r: Vec<&'static str>)
        ensures
            r.deep_view() == ids_of::<V>(self.views_model()),
    {
        let mut out: Vec<&'static str> = Vec::new();
        let mut i: usize = 0;
        while i < self.views.len()
            invariant
                i <= self.views@.len(),
                out@.len() == i,
                forall|k: int| 0 <= k < i ==> (#[trigger] out@[k])@ == ids_of::<V>(self.views_model())[k],
            decreases self.views@.len() - i,
        {
            out.push(self.views[i].id());
            i = i + 1;
        }
        proof {
            assert(out.deep_view() =~= ids_of::<V>(self.views_model()));
        }
        out
    }

    /// Ids and descriptions of the views, for the menu.
    pub fn metas(&self) -> (r: Vec<(&'static str, &'static str)>)
        ensures
            r.deep_view() == metas_of::<V>(self.views_model()),
    {
        let mut out: Vec<(&'static str, &'static str)> = Vec::new();
        let mut i: usize = 0;
        while i < self.views.len()
            invariant
                i <= self.views@.len(),
                out@.len() == i,
                forall|k: int|
                    0 <= k < i ==> (#[trigger] out@[k]).deep_view() == metas_of::<V>(self.views_model())[k],
            decreases self.views@.len() - i,
        {
            out.push((self.views[i].id(), self.views[i].description()));
            i = i + 1;
        }
        proof {
            assert(out.deep_view() =~= metas_of::<V>(self.views_model()));
        }
        out
    }
}

// --- the active view -------------------------------------------------------------------------

/// The views after something happened to the active one, and what it asks for; nothing where there
/// is no active view.
pub open spec fn stepped<M>(views: Seq<M>, active: int, step: spec_fn(M) -> (M, Seq<ActionText>)) -> (
    Seq<M>,
    Seq<ActionText>,
) {
    if 0 <= active < views.len() {
        let (view, actions) = step(views[active]);
        (views.update(active, view), actions)
    } else {
        (views, seq![])
    }
}

impl<V: DeckView> Registry<V> {
    proof fn lemma_after_change(before: Self, after: Self, view: V)
        requires
            before.wf(),
            view.wf(),
            before.active < before.views@.len(),
            after.active == before.active,
            after.views@ == before.views@.update(before.active as int, view),
        ensures
            after.wf(),
            after.views_model() == before.views_model().update(before.active as int, view.model()),
    {
        assert(after.views_model() =~= before.views_model().update(before.active as int, view.model()));
    }

    pub(crate) fn on_activate(&mut self) -> (r: Vec<Action>)
        requires
            old(self).wf(),
        ensures
            final(self).wf(),
            final(self).active == old(self).active,
            (final(self).views_model(), r.deep_view()) == stepped(
                old(self).views_model(),
                old(self).active as int,
                |m: V::Model| V::activated(m),
            ),
            forall|i: int| 0 <= i < r.deep_view().len() ==> views::settles(#[trigger] r.deep_view()[i]),
    {
        let r = match self.active_mut() {
            Some(view) => {
                let actions = view.on_activate();
                actions
            },
            None => return nothing(),
        };
        proof {
            Self::lemma_after_change(*old(self), *self, self.views@[self.active as int]);
        }
        r
    }

    pub(crate) fn on_context(&mut self, context: &ViewContext) -> (r: Vec<Action>)
        requires
            old(self).wf(),
        ensures
            final(self).wf(),
            final(self).active == old(self).active,
            (final(self).views_model(), r.deep_view()) == stepped(
                old(self).views_model(),
                old(self).active as int,
                |m: V::Model| V::opened(m, context.deep_view()),
            ),
            forall|i: int| 0 <= i < r.deep_view().len() ==> views::settles(#[trigger] r.deep_view()[i]),
    {
        let r = match self.active_mut() {
            Some(view) => view.on_context(context),
            None => return nothing(),
        };
        proof {
            Self::lemma_after_change(*old(self), *self, self.views@[self.active as int]);
        }
        r
    }

    pub(crate) fn on_key(&mut self, key: KeyEvent) -> (r: Vec<Action>)
        requires
            old(self).wf(),
        ensures
            final(self).wf(),
            final(self).active == old(self).active,
            (final(self).views_model(), r.deep_view()) == stepped(
                old(self).views_model(),
                old(self).active as int,
                |m: V::Model| V::keyed(m, key),
            ),
    {
        let r = match self.active_mut() {
            Some(view) => view.on_key(key),
            None => return nothing(),
        };
        proof {
            Self::lemma_after_change(*old(self), *self, self.views@[self.active as int]);
        }
        r
    }

    pub(crate) fn search(&mut self, query: &str) -> (r: Vec<Action>)
        requires
            old(self).wf(),
        ensures
            final(self).wf(),
            final(self).active == old(self).active,
            (final(self).views_model(), r.deep_view()) == stepped(
                old(self).views_model(),
                old(self).active as int,
                |m: V::Model| V::searched(m, query@),
            ),
            forall|i: int| 0 <= i < r.deep_view().len() ==> action::leaves_app(#[trigger] r.deep_view()[i]),
    {
        let r = match self.active_mut() {
            Some(view) => view.search(query),
            None => return nothing(),
        };
        proof {
            Self::lemma_after_change(*old(self), *self, self.views@[self.active as int]);
        }
        r
    }

    pub(crate) fn on_command(&mut self, cmd: &str) -> (r: Vec<Action>)
        requires
            old(self).wf(),
        ensures
            final(self).wf(),
            final(self).active == old(self).active,
            (final(self).views_model(), r.deep_view()) == stepped(
                old(self).views_model(),
                old(self).active as int,
                |m: V::Model| V::commanded(m, cmd@),
            ),
    {
        let r = match self.active_mut() {
            Some(view) => view.on_command(cmd),
            None => return nothing(),
        };
        proof {
            Self::lemma_after_change(*old(self), *self, self.views@[self.active as int]);
        }
        r
    }

    pub(crate) fn on_tick(&mut self) -> (r: Vec<Action>)
        requires
            old(self).wf(),
        ensures
            final(self).wf(),
            final(self).active == old(self).active,
            (final(self).views_model(), r.deep_view()) == stepped(
                old(self).views_model(),
                old(self).active as int,
                |m: V::Model| V::ticked(m),
            ),
    {
        let r = match self.active_mut() {
            Some(view) => view.on_tick(),
            None => return nothing(),
        };
        proof {
            Self::lemma_after_change(*old(self), *self, self.views@[self.active as int]);
        }
        r
    }

    pub(crate) fn on_message(&mut self, message: &Message)
        requires
            old(self).wf(),
        ensures
            final(self).wf(),
            final(self).active == old(self).active,
            final(self).views_model() == (if old(self).active < old(self).views@.len() {
                old(self).views_model().update(
                    old(self).active as int,
                    V::informed(old(self).views_model()[old(self).active as int], *message),
                )
            } else {
                old(self).views_model()
            }),
    {
        match self.active_mut() {
            Some(view) => view.on_message(message),
            None => return,
        }
        proof {
            Self::lemma_after_change(*old(self), *self, self.views@[self.active as int]);
        }
    }

    pub(crate) fn set_filter(&mut self, filter: &str)
        requires
            old(self).wf(),
        ensures
            final(self).wf(),
            final(self).active == old(self).active,
            final(self).views_model() == (if old(self).active < old(self).views@.len() {
                old(self).views_model().update(
                    old(self).active as int,
                    V::narrowed(old(self).views_model()[old(self).active as int], filter@),
                )
            } else {
                old(self).views_model()
            }),
    {
        match self.active_mut() {
            Some(view) => view.set_filter(filter),
            None => return,
        }
        proof {
            Self::lemma_after_change(*old(self), *self, self.views@[self.active as int]);
        }
    }
}

/// A view is found by its id, the first one where several have it; an id that no view has is not
/// found.
pub proof fn law_views_are_found_by_id<V: DeckView>(views: Seq<V::Model>, id: Text, from: int, i: int)
    requires
        0 <= from <= i <= views.len(),
        i < views.len() ==> V::id_text(views[i]) == id,
        forall|j: int| from <= j < i ==> V::id_text(#[trigger] views[j]) != id,
    ensures
        view_from::<V>(views, id, from) == i,
    decreases i - from,
{
    if from < i {
        law_views_are_found_by_id::<V>(views, id, from + 1, i);
    }
}

/// What happens to the active view leaves the others alone, and asks for what the view asks for.
pub proof fn law_only_the_active_view_changes<M>(
    views: Seq<M>,
    active: int,
    step: spec_fn(M) -> (M, Seq<ActionText>),
    i: int,
)
    requires
        0 <= i < views.len(),
    ensures
        stepped(views, active, step).0.len() == views.len(),
        i != active ==> stepped(views, active, step).0[i] == views[i],
        i == active ==> stepped(views, active, step).0[i] == step(views[i]).0,
        i == active ==> stepped(views, active, step).1 == step(views[i]).1,
        active < 0 || active >= views.len() ==> stepped(views, active, step).1.len() == 0,
{
}

/// The menu lists the views in their order, each by its id and its description.
pub proof fn law_the_menu_follows_the_views<V: DeckView>(views: Seq<V::Model>, i: int)
    requires
        0 <= i < views.len(),
    ensures
        ids_of::<V>(views).len() == views.len(),
        metas_of::<V>(views).len() == views.len(),
        ids_of::<V>(views)[i] == V::id_text(views[i]),
        metas_of::<V>(views)[i].0 == V::id_text(views[i]),
        metas_of::<V>(views)[i].1 == V::description_text(views[i]),
{
}

} // verus!
