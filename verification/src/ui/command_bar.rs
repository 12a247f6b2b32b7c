//! The bottom row of the screen: the line under edition, the status, or hints.

use vstd::prelude::*;

use crate::message::Text;

verus! {

/// What the bottom row shows.
#[derive(Debug)]
pub enum Footer<S = String, H = Vec<(&'static str, &'static str)>> {
    /// The line under edition; `cursor` counts columns.
    Input { prefix: char, value: S, cursor: usize },
    Status { error: bool, text: S },
    /// The filter where there is one, else the hints of the view before those that always hold.
    Hints { filter: S, view: H },
}

pub type FooterText = Footer<Text, Seq<(Text, Text)>>;

impl DeepView for Footer<String, Vec<(&'static str, &'static str)>> {
    type V = FooterText;

    open spec fn deep_view(&self) -> FooterText {
        match self {
            Footer::Input { prefix, value, cursor } => FooterText::Input {
                prefix: *prefix,
                value: value@,
                cursor: *cursor,
            },
            Footer::Status { error, text } => FooterText::Status { error: *error, text: text@ },
            Footer::Hints { filter, view } => FooterText::Hints { filter: filter@, view: view.deep_view() },
        }
    }
}

/// How a piece of the row is drawn.
#[derive(Clone, Copy, Debug, PartialEq, Eq, Structural)]
pub enum Role {
    Key,
    Label,
    Strong,
}

/// The hints that always hold.
pub open spec fn global_pieces() -> Seq<(Role, Text)> {
    seq![
        (Role::Key, ": "@),
        (Role::Label, "cmd  "@),
        (Role::Key, "/ "@),
        (Role::Label, "filtro  "@),
        (Role::Key, "enter "@),
        (Role::Label, "drill  "@),
        (Role::Key, "esc "@),
        (Role::Label, "back  "@),
        (Role::Key, "r "@),
        (Role::Label, "refresh  "@),
        (Role::Key, "^e "@),
        (Role::Label, "ambiente  "@),
        (Role::Key, "? "@),
        (Role::Label, "ayuda  "@),
        (Role::Key, "q "@),
        (Role::Label, "salir"@),
    ]
}

/// The hints of a view, key and meaning by turns.
pub open spec fn view_pieces(view: Seq<(Text, Text)>) -> Seq<(Role, Text)>
    decreases view.len(),
{
    if view.len() == 0 {
        seq![]
    } else {
        view_pieces(view.drop_last()).push((Role::Key, view.last().0 + " "@)).push(
            (Role::Label, view.last().1 + "  "@),
        )
    }
}

/// The row in the normal mode.
pub open spec fn hint_pieces(filter: Text, view: Seq<(Text, Text)>) -> Seq<(Role, Text)> {
    if filter.len() > 0 {
        seq![
            (Role::Label, " filtro: "@),
            (Role::Strong, filter),
            (Role::Label, "   (/ editar · esc limpiar)"@),
        ]
    } else {
        seq![(Role::Label, " "@)] + view_pieces(view) + (if view.len() > 0 {
            seq![(Role::Label, "· "@)]
        } else {
            seq![]
        }) + global_pieces()
    }
}

/// The view of pieces.
pub open spec fn pieces_view(pieces: Seq<(Role, String)>) -> Seq<(Role, Text)> {
    Seq::new(pieces.len(), |i: int| (pieces[i].0, pieces[i].1@))
}

fn push_piece(out: &mut Vec<(Role, String)>, role: Role, text: &str)
    ensures
        pieces_view(final(out)@) == pieces_view(old(out)@).push((role, text@)),
{
    out.push((role, text.to_string()));
    proof {
        assert(pieces_view(out@) =~= pieces_view(old(out)@).push((role, text@)));
    }
}

/// The row in the normal mode: the filter where there is one, else the hints of the view and, behind
/// them, those that always hold.
pub fn hint_line(filter: &str, view: &Vec<(&'static str, &'static str)>) -> (r: Vec<(Role, String)>)
    ensures
        pieces_view(r@) == hint_pieces(filter@, view.deep_view()),
{
    let mut out: Vec<(Role, String)> = Vec::new();
    if !filter.is_empty() {
        push_piece(&mut out, Role::Label, " filtro: ");
        push_piece(&mut out, Role::Strong, filter);
        push_piece(&mut out, Role::Label, "   (/ editar · esc limpiar)");
        proof {
            assert(pieces_view(out@) =~= hint_pieces(filter@, view.deep_view()));
        }
        return out;
    }
    push_piece(&mut out, Role::Label, " ");
    let ghost head = pieces_view(out@);
    let ghost all = view.deep_view();
    proof {
        assert(head =~= seq![(Role::Label, " "@)]);
        assert(head + view_pieces(all.take(0)) =~= head);
    }
    let mut i: usize = 0;
    while i < view.len()
        invariant
            i <= view@.len(),
            all == view.deep_view(),
            pieces_view(out@) == head + view_pieces(all.take(i as int)),
        decreases view@.len() - i,
    {
        let (k, what) = view[i];
        proof {
            assert(all.take(i as int + 1).drop_last() =~= all.take(i as int));
            assert(all.take(i as int + 1).last() == (k@, what@));
        }
        let mut key = k.to_string();
        key.append(" ");
        push_piece(&mut out, Role::Key, key.as_str());
        let mut label = what.to_string();
        label.append("  ");
        push_piece(&mut out, Role::Label, label.as_str());
        i = i + 1;
        proof {
            assert(pieces_view(out@) =~= head + view_pieces(all.take(i as int)));
        }
    }
    proof {
        assert(all.take(all.len() as int) =~= all);
    }
    if view.len() > 0 {
        push_piece(&mut out, Role::Label, "· ");
    }
    let ghost before = pieces_view(out@);
    push_piece(&mut out, Role::Key, ": ");
    push_piece(&mut out, Role::Label, "cmd  ");
    push_piece(&mut out, Role::Key, "/ ");
    push_piece(&mut out, Role::Label, "filtro  ");
    push_piece(&mut out, Role::Key, "enter ");
    push_piece(&mut out, Role::Label, "drill  ");
    push_piece(&mut out, Role::Key, "esc ");
    push_piece(&mut out, Role::Label, "back  ");
    push_piece(&mut out, Role::Key, "r ");
    push_piece(&mut out, Role::Label, "refresh  ");
    push_piece(&mut out, Role::Key, "^e ");
    push_piece(&mut out, Role::Label, "ambiente  ");
    push_piece(&mut out, Role::Key, "? ");
    push_piece(&mut out, Role::Label, "ayuda  ");
    push_piece(&mut out, Role::Key, "q ");
    push_piece(&mut out, Role::Label, "salir");
    proof {
        assert(pieces_view(out@) =~= before + global_pieces());
        assert(pieces_view(out@) =~= hint_pieces(filter@, view.deep_view()));
    }
    out
}

/// A filter is shown in place of the hints.
pub proof fn law_a_filter_is_shown(filter: Text, view: Seq<(Text, Text)>)
    requires
        filter.len() > 0,
    ensures
        hint_pieces(filter, view).len() == 3,
        hint_pieces(filter, view)[1] == (Role::Strong, filter),
        forall|i: int| 0 <= i < 3 && i != 1 ==> (#[trigger] hint_pieces(filter, view)[i]).0 == Role::Label,
{
}

proof fn lemma_view_pieces(view: Seq<(Text, Text)>, i: int)
    requires
        0 <= i < view.len(),
    ensures
        view_pieces(view).len() == 2 * view.len(),
        view_pieces(view)[2 * i] == (Role::Key, view[i].0 + " "@),
        view_pieces(view)[2 * i + 1] == (Role::Label, view[i].1 + "  "@),
    decreases view.len(),
{
    let shorter = view.drop_last();
    reveal_with_fuel(view_pieces, 2);
    if i < view.len() - 1 {
        lemma_view_pieces(shorter, i);
        assert(shorter[i] == view[i]);
    } else if shorter.len() > 0 {
        lemma_view_pieces(shorter, 0);
    }
}

/// Without a filter the row shows every hint of the view in its order, each key before its meaning,
/// and behind them those that always hold, from the command line to leaving.
pub proof fn law_hints_are_shown_in_order(view: Seq<(Text, Text)>, i: int)
    requires
        0 <= i < view.len(),
    ensures
        ({
            let p = hint_pieces(Seq::empty(), view);
            &&& p.len() == 2 * view.len() + 18
            &&& p[2 * i + 1] == (Role::Key, view[i].0 + " "@)
            &&& p[2 * i + 2] == (Role::Label, view[i].1 + "  "@)
            &&& p[p.len() - 16] == (Role::Key, ": "@)
            &&& p[p.len() - 15] == (Role::Label, "cmd  "@)
            &&& p[p.len() - 14] == (Role::Key, "/ "@)
            &&& p[p.len() - 13] == (Role::Label, "filtro  "@)
            &&& p[p.len() - 12] == (Role::Key, "enter "@)
            &&& p[p.len() - 11] == (Role::Label, "drill  "@)
            &&& p[p.len() - 10] == (Role::Key, "esc "@)
            &&& p[p.len() - 9] == (Role::Label, "back  "@)
            &&& p[p.len() - 8] == (Role::Key, "r "@)
            &&& p[p.len() - 7] == (Role::Label, "refresh  "@)
            &&& p[p.len() - 6] == (Role::Key, "^e "@)
            &&& p[p.len() - 5] == (Role::Label, "ambiente  "@)
            &&& p[p.len() - 4] == (Role::Key, "? "@)
            &&& p[p.len() - 3] == (Role::Label, "ayuda  "@)
            &&& p[p.len() - 2] == (Role::Key, "q "@)
            &&& p[p.len() - 1] == (Role::Label, "salir"@)
        }),
{
    lemma_view_pieces(view, i);
}

/// The filter stands between what it is and what can be done with it.
pub proof fn law_the_filter_is_explained(filter: Text, view: Seq<(Text, Text)>)
    requires
        filter.len() > 0,
    ensures
        hint_pieces(filter, view)[0].1 == " filtro: "@,
        hint_pieces(filter, view)[2].1 == "   (/ editar · esc limpiar)"@,
{
}

/// The hints of a view stand apart from those that always hold; a view without hints shows those
/// alone.
pub proof fn law_hints_stand_apart(view: Seq<(Text, Text)>)
    ensures
        hint_pieces(Seq::empty(), view)[0] == (Role::Label, " "@),
        view.len() > 0 ==> hint_pieces(Seq::empty(), view)[2 * view.len() + 1int] == (Role::Label, "· "@),
        view.len() == 0 ==> hint_pieces(Seq::empty(), view).len() == 17 && hint_pieces(Seq::empty(), view)[1] == (
            Role::Key,
            ": "@,
        ),
{
    if view.len() > 0 {
        lemma_view_pieces(view, 0);
    }
}

} // verus!
