//! The top row of the screen: the tool on the left, the environment on the right.

use vstd::prelude::*;
use vstd::string::*;

use crate::aws::context::Env;
use crate::message::Text;
use crate::text;

verus! {

/// The environment as the header shows it: with the account once it is confirmed.
pub open spec fn place_text(env: Env<Text>, account: Option<Text>) -> Text {
    (match account {
        Some(id) => env.caption() + " · "@ + id,
        None => env.caption(),
    }) + " "@
}

/// Pieces of the header: a warning that the session has expired, a badge while changes are allowed,
/// the title, blanks up to the width of the screen as far as there is room, and the environment.
pub open spec fn header_pieces(
    env: Env<Text>,
    account: Option<Text>,
    title: Text,
    write_mode: bool,
    auth_warning: bool,
    width: nat,
) -> Seq<Text> {
    let auth = if auth_warning { "[re-auth] "@ } else { ""@ };
    let badge = if write_mode { "[ESCRITURA] "@ } else { ""@ };
    let left = " awsdeck · "@ + title;
    let right = place_text(env, account);
    let used = auth.len() + badge.len() + left.len() + right.len();
    let pad = if width > used { (width - used) as nat } else { 0 };
    seq![auth, badge, left, Seq::new(pad, |i: int| ' '), right]
}

fn blanks(n: usize) -> (r: String)
    ensures
        r@ == Seq::new(n as nat, |i: int| ' '),
{
    let mut out: String = String::new();
    let mut i: usize = 0;
    while i < n
        invariant
            i <= n,
            out@ =~= Seq::new(i as nat, |k: int| ' '),
        decreases n - i,
    {
        out.push(' ');
        i = i + 1;
    }
    out
}

fn chars_in(s: &str, room: usize) -> (r: usize)
    ensures
        r == (if s@.len() < room {
            s@.len() as int
        } else {
            room as int
        }),
{
    let n: usize = text::chars_of(s).len();
    if n < room {
        n
    } else {
        room
    }
}

/// Pieces of the header, from left to right.
pub fn header_line(
    env: &Env,
    account: &Option<String>,
    title: &str,
    write_mode: bool,
    auth_warning: bool,
    width: usize,
) -> (r: Vec<String>)
    ensures
        r.deep_view() == header_pieces(
            env.deep_view(),
            account.deep_view(),
            title@,
            write_mode,
            auth_warning,
            width as nat,
        ),
{
    let auth = if auth_warning {
        "[re-auth] "
    } else {
        ""
    };
    let badge = if write_mode {
        "[ESCRITURA] "
    } else {
        ""
    };
    let mut left = " awsdeck · ".to_string();
    left.append(title);
    let mut right = env.label();
    match account {
        Some(id) => {
            right.append(" · ");
            right.append(id.as_str());
        },
        None => {},
    }
    right.append(" ");
    // The room shrinks piece by piece, so that no length adds up beyond it.
    let a: usize = width - chars_in(auth, width);
    let b: usize = a - chars_in(badge, a);
    let c: usize = b - chars_in(left.as_str(), b);
    let pad: usize = c - chars_in(right.as_str(), c);
    let mut out: Vec<String> = Vec::new();
    out.push(auth.to_string());
    out.push(badge.to_string());
    out.push(left);
    out.push(blanks(pad));
    out.push(right);
    proof {
        assert(out.deep_view() =~= header_pieces(
            env.deep_view(),
            account.deep_view(),
            title@,
            write_mode,
            auth_warning,
            width as nat,
        ));
    }
    out
}

/// Where the pieces fit, they fill the row exactly, so that the environment stands at its right end.
pub proof fn law_header_fills_the_row(
    env: Env<Text>,
    account: Option<Text>,
    title: Text,
    write_mode: bool,
    auth_warning: bool,
    width: nat,
)
    ensures
        ({
            let p = header_pieces(env, account, title, write_mode, auth_warning, width);
            let fixed = p[0].len() + p[1].len() + p[2].len() + p[4].len();
            fixed <= width ==> fixed + p[3].len() == width
        }),
{
}

/// The account that AWS confirmed always stands in the header, as does the region.
pub proof fn law_header_names_the_place(env: Env<Text>, account: Text)
    ensures
        text::occurs(place_text(env, Some(account)), account),
        text::occurs(place_text(env, Some(account)), env.region),
        text::occurs(place_text(env, None), env.region),
{
    let lead = env.profile + " · "@;
    let shown = place_text(env, Some(account));
    let bare = place_text(env, None);
    assert(shown.subrange(lead.len() as int, (lead.len() + env.region.len()) as int) =~= env.region);
    assert(text::occurs_at(shown, env.region, lead.len() as int));
    let upto = env.caption() + " · "@;
    assert(shown.subrange(upto.len() as int, (upto.len() + account.len()) as int) =~= account);
    assert(text::occurs_at(shown, account, upto.len() as int));
    assert(bare.subrange(lead.len() as int, (lead.len() + env.region.len()) as int) =~= env.region);
    assert(text::occurs_at(bare, env.region, lead.len() as int));
}

/// The header warns of an expired session and of the write mode exactly while they last, and it ends
/// its left part with the title.
pub proof fn law_the_header_warns(
    env: Env<Text>,
    account: Option<Text>,
    title: Text,
    write_mode: bool,
    auth_warning: bool,
    width: nat,
)
    ensures
        ({
            let p = header_pieces(env, account, title, write_mode, auth_warning, width);
            &&& p.len() == 5
            &&& p[0] == (if auth_warning { "[re-auth] "@ } else { Seq::empty() })
            &&& p[1] == (if write_mode { "[ESCRITURA] "@ } else { Seq::empty() })
            &&& text::has_suffix(p[2], title)
            &&& forall|i: int| 0 <= i < p[3].len() ==> #[trigger] p[3][i] == ' '
            &&& p[4] == place_text(env, account)
        }),
{
    reveal_strlit("");
    let t = " awsdeck · "@ + title;
    assert(t.skip(t.len() - title.len()) =~= title);
    assert(""@ =~= Seq::<char>::empty());
}

/// The header shows the profile, the region and, once it is confirmed, the account, in this order.
pub proof fn law_the_place_is_shown_in_order(env: Env<Text>, account: Text)
    ensures
        place_text(env, None) == env.profile + " · "@ + env.region + " "@,
        place_text(env, Some(account)) == env.profile + " · "@ + env.region + " · "@ + account + " "@,
{
}

/// The left part of the header names the program before the title.
pub proof fn law_the_header_names_the_program(
    env: Env<Text>,
    account: Option<Text>,
    title: Text,
    write_mode: bool,
    auth_warning: bool,
    width: nat,
)
    ensures
        header_pieces(env, account, title, write_mode, auth_warning, width)[2] == " awsdeck · "@ + title,
{
}

} // verus!
