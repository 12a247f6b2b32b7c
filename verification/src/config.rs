//! What survives between two runs: the configuration that the user edits, and the state that the
//! application writes on its own.

use vstd::prelude::*;

use crate::aws::context::Env;
use crate::message::Text;
use crate::text;

verus! {

/// An event to prefill the form for sending one.
#[derive(Debug)]
pub struct EventPreset<S = String> {
    pub name: S,
    pub source: S,
    pub detail_type: S,
    pub detail: S,
}

impl DeepView for EventPreset<String> {
    type V = EventPreset<Text>;

    open spec fn deep_view(&self) -> EventPreset<Text> {
        EventPreset {
            name: self.name@,
            source: self.source@,
            detail_type: self.detail_type@,
            detail: self.detail@,
        }
    }
}

/// The configuration that the user edits.
#[derive(Debug)]
pub struct Config {
    /// The profile to start with, where the environment names none.
    pub default_profile: Option<String>,
    /// The region to start with, where the environment names none.
    pub default_region: Option<String>,
    /// The time window that the tail of `logs` starts with.
    pub default_tail_window: Option<String>,
    /// Events to offer when one is sent by hand.
    pub event_presets: Vec<EventPreset>,
}

impl Default for Config {
    fn default() -> (r: Self)
        ensures
            r.default_profile is None,
            r.default_region is None,
            r.default_tail_window is None,
            r.event_presets@.len() == 0,
    {
        Config { default_profile: None, default_region: None, default_tail_window: None, event_presets: Vec::new() }
    }
}

/// A resource that is remembered: marked as a favourite, or recent on its own.  Only the view that
/// made it knows what the key means.
#[derive(Debug, PartialEq, Eq)]
pub struct Favorite<S = String> {
    pub view_id: S,
    pub key: S,
    /// How the menu shows it.
    pub label: S,
    pub is_favorite: bool,
}

pub type FavoriteText = Favorite<Text>;

impl DeepView for Favorite<String> {
    type V = FavoriteText;

    open spec fn deep_view(&self) -> FavoriteText {
        Favorite { view_id: self.view_id@, key: self.key@, label: self.label@, is_favorite: self.is_favorite }
    }
}

impl Clone for Favorite<String> {
    fn clone(&self) -> (r: Self)
        ensures
            r == *self,
    {
        Favorite {
            view_id: self.view_id.clone(),
            key: self.key.clone(),
            label: self.label.clone(),
            is_favorite: self.is_favorite,
        }
    }
}

/// How many recent resources an environment remembers; favourites do not count.
pub const FAVORITES_CAP: usize = 50;

/// Favourites and recent resources of one environment, the latest first.
#[derive(Debug, PartialEq, Eq)]
#[verifier::ext_equal]
pub struct EnvHistory<S = String, L = Vec<Favorite>> {
    pub profile: S,
    pub region: S,
    pub favorites: L,
}

pub type HistoryText = EnvHistory<Text, Seq<FavoriteText>>;

impl DeepView for EnvHistory<String, Vec<Favorite>> {
    type V = HistoryText;

    open spec fn deep_view(&self) -> HistoryText {
        EnvHistory { profile: self.profile@, region: self.region@, favorites: self.favorites.deep_view() }
    }
}

/// What the application remembers: the last environment, and the history of each environment.
#[derive(Debug)]
pub struct State {
    pub last_profile: Option<String>,
    pub last_region: Option<String>,
    pub environments: Vec<EnvHistory>,
    /// Resources of a file from before histories were kept by environment.
    pub legacy_favorites: Vec<Favorite>,
}

#[verifier::ext_equal]
pub struct StateModel {
    pub last_profile: Option<Text>,
    pub last_region: Option<Text>,
    pub environments: Seq<HistoryText>,
    pub legacy_favorites: Seq<FavoriteText>,
}

// --- histories -------------------------------------------------------------------------------

/// Position, from `i` on, of the history of an environment, `envs.len()` where it has none.
pub open spec fn bucket_from(envs: Seq<HistoryText>, profile: Text, region: Text, i: int) -> int
    decreases envs.len() - i,
{
    if i < 0 || i >= envs.len() {
        envs.len() as int
    } else if envs[i].profile == profile && envs[i].region == region {
        i
    } else {
        bucket_from(envs, profile, region, i + 1)
    }
}

/// Position of the history of an environment, `envs.len()` where it has none.
pub open spec fn bucket_of(envs: Seq<HistoryText>, profile: Text, region: Text) -> int {
    bucket_from(envs, profile, region, 0)
}

/// What an environment remembers.
pub open spec fn remembered(envs: Seq<HistoryText>, profile: Text, region: Text) -> Seq<FavoriteText> {
    let at = bucket_of(envs, profile, region);
    if at < envs.len() {
        envs[at].favorites
    } else {
        Seq::empty()
    }
}

/// The histories with what one environment remembers replaced.
pub open spec fn with_remembered(
    envs: Seq<HistoryText>,
    profile: Text,
    region: Text,
    favorites: Seq<FavoriteText>,
) -> Seq<HistoryText> {
    let at = bucket_of(envs, profile, region);
    if at < envs.len() {
        envs.update(at, EnvHistory { favorites, ..envs[at] })
    } else {
        envs.push(EnvHistory { profile, region, favorites })
    }
}

proof fn lemma_bucket_from(envs: Seq<HistoryText>, profile: Text, region: Text, i: int)
    requires
        0 <= i <= envs.len(),
    ensures
        i <= bucket_from(envs, profile, region, i) <= envs.len(),
        bucket_from(envs, profile, region, i) < envs.len() ==> envs[bucket_from(envs, profile, region, i)].profile
            == profile && envs[bucket_from(envs, profile, region, i)].region == region,
        forall|k: int|
            i <= k < bucket_from(envs, profile, region, i) ==> !((#[trigger] envs[k]).profile == profile
                && envs[k].region == region),
    decreases envs.len() - i,
{
    if i < envs.len() && !(envs[i].profile == profile && envs[i].region == region) {
        lemma_bucket_from(envs, profile, region, i + 1);
    }
}

proof fn lemma_bucket_is(envs: Seq<HistoryText>, profile: Text, region: Text, i: int, at: int)
    requires
        0 <= i <= at <= envs.len(),
        at < envs.len() ==> envs[at].profile == profile && envs[at].region == region,
        forall|k: int| i <= k < at ==> !((#[trigger] envs[k]).profile == profile && envs[k].region == region),
    ensures
        bucket_from(envs, profile, region, i) == at,
    decreases at - i,
{
    if i < at {
        lemma_bucket_is(envs, profile, region, i + 1, at);
    }
}

/// Replacing what an environment remembers changes that and nothing of any other environment.
pub proof fn law_environments_are_isolated(
    envs: Seq<HistoryText>,
    profile: Text,
    region: Text,
    favorites: Seq<FavoriteText>,
    other_profile: Text,
    other_region: Text,
)
    ensures
        remembered(with_remembered(envs, profile, region, favorites), profile, region) == favorites,
        (other_profile != profile || other_region != region) ==> remembered(
            with_remembered(envs, profile, region, favorites),
            other_profile,
            other_region,
        ) == remembered(envs, other_profile, other_region),
{
    let new = with_remembered(envs, profile, region, favorites);
    let at = bucket_of(envs, profile, region);
    lemma_bucket_from(envs, profile, region, 0);
    lemma_bucket_is(new, profile, region, 0, at);
    if other_profile != profile || other_region != region {
        let there = bucket_of(envs, other_profile, other_region);
        lemma_bucket_from(envs, other_profile, other_region, 0);
        if there < envs.len() {
            lemma_bucket_is(new, other_profile, other_region, 0, there);
        } else {
            lemma_bucket_is(new, other_profile, other_region, 0, new.len() as int);
        }
    }
}

/// No environment has two histories.
pub open spec fn one_history_each(envs: Seq<HistoryText>) -> bool {
    forall|i: int, j: int|
        0 <= i < j < envs.len() ==> (#[trigger] envs[i]).profile != (#[trigger] envs[j]).profile || envs[i].region
            != envs[j].region
}

/// Remembering something never makes a second history of an environment.
pub proof fn law_one_history_each_is_kept(
    envs: Seq<HistoryText>,
    profile: Text,
    region: Text,
    favorites: Seq<FavoriteText>,
)
    requires
        one_history_each(envs),
    ensures
        one_history_each(with_remembered(envs, profile, region, favorites)),
{
    lemma_bucket_from(envs, profile, region, 0);
}

// --- favourites and recent resources ---------------------------------------------------------

/// Position, from `i` on, of a resource, `favs.len()` where it is not remembered.
pub open spec fn resource_from(favs: Seq<FavoriteText>, view_id: Text, key: Text, i: int) -> int
    decreases favs.len() - i,
{
    if i < 0 || i >= favs.len() {
        favs.len() as int
    } else if favs[i].view_id == view_id && favs[i].key == key {
        i
    } else {
        resource_from(favs, view_id, key, i + 1)
    }
}

/// Position of a resource, `favs.len()` where it is not remembered.
pub open spec fn resource_of(favs: Seq<FavoriteText>, view_id: Text, key: Text) -> int {
    resource_from(favs, view_id, key, 0)
}

/// The mark of a resource switched; a resource that was not remembered comes to the front, marked.
pub open spec fn toggled(favs: Seq<FavoriteText>, view_id: Text, key: Text, label: Text) -> Seq<FavoriteText> {
    let at = resource_of(favs, view_id, key);
    if at < favs.len() {
        favs.update(at, Favorite { is_favorite: !favs[at].is_favorite, label, ..favs[at] })
    } else {
        favs.insert(0, Favorite { view_id, key, label, is_favorite: true })
    }
}

/// A resource is marked as a favourite.
pub open spec fn is_marked(favs: Seq<FavoriteText>, view_id: Text, key: Text) -> bool {
    let at = resource_of(favs, view_id, key);
    at < favs.len() && favs[at].is_favorite
}

/// How many resources are recent only.
pub open spec fn recents(favs: Seq<FavoriteText>) -> nat
    decreases favs.len(),
{
    if favs.len() == 0 {
        0
    } else {
        recents(favs.drop_last()) + (if favs.last().is_favorite { 0nat } else { 1nat })
    }
}

/// All favourites, and the first recent resources up to the cap, in their order.
pub open spec fn pruned(favs: Seq<FavoriteText>) -> Seq<FavoriteText>
    decreases favs.len(),
{
    if favs.len() == 0 {
        favs
    } else {
        let head = pruned(favs.drop_last());
        if favs.last().is_favorite || recents(favs.drop_last()) < FAVORITES_CAP {
            head.push(favs.last())
        } else {
            head
        }
    }
}

/// The list without a resource.
pub open spec fn without(favs: Seq<FavoriteText>, view_id: Text, key: Text) -> Seq<FavoriteText> {
    let at = resource_of(favs, view_id, key);
    if at < favs.len() {
        favs.remove(at)
    } else {
        favs
    }
}

/// A resource at the front, marked if it was, and the rest pruned.
pub open spec fn recorded(favs: Seq<FavoriteText>, view_id: Text, key: Text, label: Text) -> Seq<FavoriteText> {
    pruned(
        without(favs, view_id, key).insert(
            0,
            Favorite { view_id, key, label, is_favorite: is_marked(favs, view_id, key) },
        ),
    )
}

proof fn lemma_resource_from(favs: Seq<FavoriteText>, view_id: Text, key: Text, i: int)
    requires
        0 <= i <= favs.len(),
    ensures
        i <= resource_from(favs, view_id, key, i) <= favs.len(),
        resource_from(favs, view_id, key, i) < favs.len() ==> favs[resource_from(favs, view_id, key, i)].view_id
            == view_id && favs[resource_from(favs, view_id, key, i)].key == key,
        forall|k: int|
            i <= k < resource_from(favs, view_id, key, i) ==> !((#[trigger] favs[k]).view_id == view_id && favs[k].key
                == key),
    decreases favs.len() - i,
{
    if i < favs.len() && !(favs[i].view_id == view_id && favs[i].key == key) {
        lemma_resource_from(favs, view_id, key, i + 1);
    }
}

proof fn lemma_resource_is(favs: Seq<FavoriteText>, view_id: Text, key: Text, i: int, at: int)
    requires
        0 <= i <= at <= favs.len(),
        at < favs.len() ==> favs[at].view_id == view_id && favs[at].key == key,
        forall|k: int| i <= k < at ==> !((#[trigger] favs[k]).view_id == view_id && favs[k].key == key),
    ensures
        resource_from(favs, view_id, key, i) == at,
    decreases at - i,
{
    if i < at {
        lemma_resource_is(favs, view_id, key, i + 1, at);
    }
}

/// Only the favourites, or only the recent resources, in their order.
pub open spec fn sorted_out(favs: Seq<FavoriteText>, marked: bool) -> Seq<FavoriteText> {
    favs.filter(|f: FavoriteText| f.is_favorite == marked)
}

proof fn lemma_sorted_out_push(favs: Seq<FavoriteText>, last: FavoriteText, marked: bool)
    ensures
        sorted_out(favs.push(last), marked) == (if last.is_favorite == marked {
            sorted_out(favs, marked).push(last)
        } else {
            sorted_out(favs, marked)
        }),
{
    reveal(Seq::filter);
    assert(favs.push(last).drop_last() =~= favs);
}

/// Pruning keeps every favourite and the first recent resources, as many as the cap allows.
pub proof fn law_pruning_keeps_favorites(favs: Seq<FavoriteText>)
    ensures
        sorted_out(pruned(favs), true) == sorted_out(favs, true),
        sorted_out(pruned(favs), false) == sorted_out(favs, false).take(
            if recents(favs) <= FAVORITES_CAP { recents(favs) as int } else { FAVORITES_CAP as int },
        ),
        sorted_out(favs, false).len() == recents(favs),
    decreases favs.len(),
{
    if favs.len() == 0 {
        reveal(Seq::filter);
        assert(sorted_out(favs, false) =~= sorted_out(favs, false).take(0));
    } else {
        let head = favs.drop_last();
        let last = favs.last();
        law_pruning_keeps_favorites(head);
        assert(head.push(last) =~= favs);
        lemma_sorted_out_push(head, last, true);
        lemma_sorted_out_push(head, last, false);
        lemma_sorted_out_push(pruned(head), last, true);
        lemma_sorted_out_push(pruned(head), last, false);
        let all = sorted_out(favs, false);
        let before = sorted_out(head, false);
        if last.is_favorite {
            assert(all == before);
        } else {
            assert(all == before.push(last));
            if recents(head) < FAVORITES_CAP {
                assert(before.take(recents(head) as int) =~= before);
                assert(all.take(recents(favs) as int) =~= all);
            } else {
                assert(all.take(FAVORITES_CAP as int) =~= before.take(FAVORITES_CAP as int));
            }
        }
    }
}

/// The list keeps no resource twice.
pub open spec fn no_resource_twice(favs: Seq<FavoriteText>) -> bool {
    forall|i: int, j: int|
        0 <= i < j < favs.len() ==> (#[trigger] favs[i]).view_id != (#[trigger] favs[j]).view_id || favs[i].key
            != favs[j].key
}

proof fn lemma_pruned_is_part(favs: Seq<FavoriteText>)
    requires
        no_resource_twice(favs),
    ensures
        no_resource_twice(pruned(favs)),
        forall|i: int|
            #![trigger pruned(favs)[i]]
            0 <= i < pruned(favs).len() ==> favs.contains(pruned(favs)[i]),
    decreases favs.len(),
{
    if favs.len() > 0 {
        let head = favs.drop_last();
        lemma_pruned_is_part(head);
        assert forall|i: int| 0 <= i < pruned(head).len() implies favs.contains(#[trigger] pruned(head)[i]) && (
        pruned(head)[i].view_id != favs.last().view_id || pruned(head)[i].key != favs.last().key) by {
            let k = choose|k: int| 0 <= k < head.len() && head[k] == pruned(head)[i];
            assert(favs[k] == pruned(head)[i]);
        }
        let all = pruned(favs);
        assert forall|i: int| #![trigger all[i]] 0 <= i < all.len() implies favs.contains(all[i]) by {
            if i < pruned(head).len() {
                assert(all[i] == pruned(head)[i]);
            } else {
                assert(favs[favs.len() - 1] == all[i]);
            }
        }
    }
}

/// Marking a resource and opening one keep the list free of repetitions.
pub proof fn law_no_resource_twice_is_kept(favs: Seq<FavoriteText>, view_id: Text, key: Text, label: Text)
    requires
        no_resource_twice(favs),
    ensures
        no_resource_twice(toggled(favs, view_id, key, label)),
        no_resource_twice(recorded(favs, view_id, key, label)),
{
    lemma_resource_from(favs, view_id, key, 0);
    let at = resource_of(favs, view_id, key);
    let rest = without(favs, view_id, key);
    let front = Favorite { view_id, key, label, is_favorite: is_marked(favs, view_id, key) };
    assert forall|i: int| 0 <= i < rest.len() implies (#[trigger] rest[i]).view_id != view_id || rest[i].key != key by {
        if at < favs.len() {
            if i < at {
                assert(rest[i] == favs[i]);
            } else {
                assert(rest[i] == favs[i + 1]);
                assert(favs[at].view_id != favs[i + 1].view_id || favs[at].key != favs[i + 1].key);
            }
        }
    }
    assert(no_resource_twice(rest)) by {
        assert forall|i: int, j: int| 0 <= i < j < rest.len() implies (#[trigger] rest[i]).view_id != (
        #[trigger] rest[j]).view_id || rest[i].key != rest[j].key by {
            if at < favs.len() {
                let oi = if i < at { i } else { i + 1 };
                let oj = if j < at { j } else { j + 1 };
                assert(rest[i] == favs[oi] && rest[j] == favs[oj]);
            }
        }
    }
    let grown = rest.insert(0, front);
    assert(no_resource_twice(grown)) by {
        assert forall|i: int, j: int| 0 <= i < j < grown.len() implies (#[trigger] grown[i]).view_id != (
        #[trigger] grown[j]).view_id || grown[i].key != grown[j].key by {
            assert(grown[j] == rest[j - 1]);
            if i > 0 {
                assert(grown[i] == rest[i - 1]);
            }
        }
    }
    lemma_pruned_is_part(grown);
}

/// Switching the mark of a resource twice leaves it as it was, under its new label; a resource that
/// was not remembered stays among the recent ones.
pub proof fn law_toggling_twice(favs: Seq<FavoriteText>, view_id: Text, key: Text, label: Text)
    ensures
        is_marked(toggled(favs, view_id, key, label), view_id, key) == !is_marked(favs, view_id, key),
        is_marked(toggled(toggled(favs, view_id, key, label), view_id, key, label), view_id, key) == is_marked(
            favs,
            view_id,
            key,
        ),
        toggled(toggled(favs, view_id, key, label), view_id, key, label).len() == toggled(
            favs,
            view_id,
            key,
            label,
        ).len(),
{
    lemma_toggled(favs, view_id, key, label);
    lemma_toggled(toggled(favs, view_id, key, label), view_id, key, label);
    lemma_resource_from(toggled(favs, view_id, key, label), view_id, key, 0);
}

proof fn lemma_toggled(favs: Seq<FavoriteText>, view_id: Text, key: Text, label: Text)
    ensures
        is_marked(toggled(favs, view_id, key, label), view_id, key) == !is_marked(favs, view_id, key),
        resource_of(toggled(favs, view_id, key, label), view_id, key) < toggled(favs, view_id, key, label).len(),
{
    lemma_resource_from(favs, view_id, key, 0);
    let at = resource_of(favs, view_id, key);
    let new = toggled(favs, view_id, key, label);
    if at < favs.len() {
        lemma_resource_is(new, view_id, key, 0, at);
    } else {
        lemma_resource_is(new, view_id, key, 0, 0);
    }
}

proof fn lemma_pruned_keeps_front(favs: Seq<FavoriteText>)
    requires
        favs.len() > 0,
    ensures
        pruned(favs).len() > 0,
        pruned(favs)[0] == favs[0],
    decreases favs.len(),
{
    if favs.len() > 1 {
        lemma_pruned_keeps_front(favs.drop_last());
    } else {
        assert(recents(favs.drop_last()) == 0);
        assert(pruned(favs.drop_last()).len() == 0);
    }
}

/// A resource that was opened stands at the front and keeps its mark, and every other favourite
/// stays.
pub proof fn law_recent_resources_come_first(favs: Seq<FavoriteText>, view_id: Text, key: Text, label: Text)
    ensures
        recorded(favs, view_id, key, label).len() > 0,
        recorded(favs, view_id, key, label)[0] == (Favorite {
            view_id,
            key,
            label,
            is_favorite: is_marked(favs, view_id, key),
        }),
        sorted_out(recorded(favs, view_id, key, label), true) == sorted_out(
            without(favs, view_id, key).insert(
                0,
                Favorite { view_id, key, label, is_favorite: is_marked(favs, view_id, key) },
            ),
            true,
        ),
        recents(recorded(favs, view_id, key, label)) <= FAVORITES_CAP,
{
    let front = Favorite { view_id, key, label, is_favorite: is_marked(favs, view_id, key) };
    let all = without(favs, view_id, key).insert(0, front);
    lemma_pruned_keeps_front(all);
    law_pruning_keeps_favorites(all);
    law_pruning_keeps_favorites(pruned(all));
}

// --- the state -------------------------------------------------------------------------------

impl StateModel {
    /// What an environment remembers.
    pub open spec fn favorites(self, profile: Text, region: Text) -> Seq<FavoriteText> {
        remembered(self.environments, profile, region)
    }

    pub open spec fn with_favorites(self, profile: Text, region: Text, favorites: Seq<FavoriteText>) -> StateModel {
        StateModel { environments: with_remembered(self.environments, profile, region, favorites), ..self }
    }

    pub open spec fn toggled(self, profile: Text, region: Text, view_id: Text, key: Text, label: Text) -> StateModel {
        self.with_favorites(profile, region, toggled(self.favorites(profile, region), view_id, key, label))
    }

    pub open spec fn recorded(self, profile: Text, region: Text, view_id: Text, key: Text, label: Text) -> StateModel {
        self.with_favorites(profile, region, recorded(self.favorites(profile, region), view_id, key, label))
    }

    /// The environment that was used last.
    pub open spec fn last_env(self) -> (Text, Text) {
        (
            match self.last_profile {
                Some(p) => p,
                None => "default"@,
            },
            match self.last_region {
                Some(r) => r,
                None => "us-east-1"@,
            },
        )
    }

    /// The resources of an old file put before those of the environment that was used last.
    pub open spec fn migrated(self) -> StateModel {
        if self.legacy_favorites.len() == 0 {
            self
        } else {
            let (profile, region) = self.last_env();
            StateModel { legacy_favorites: Seq::empty(), ..self }.with_favorites(
                profile,
                region,
                pruned(self.legacy_favorites + self.favorites(profile, region)),
            )
        }
    }
}

/// Migrating leaves nothing behind to migrate, keeps all favourites of the old file, in their
/// order, in the environment that was used last, and doing it again changes nothing.
pub proof fn law_migration(m: StateModel)
    ensures
        m.migrated().legacy_favorites.len() == 0,
        m.migrated().migrated() == m.migrated(),
        m.legacy_favorites.len() > 0 ==> m.migrated().favorites(m.last_env().0, m.last_env().1) == pruned(
            m.legacy_favorites + m.favorites(m.last_env().0, m.last_env().1),
        ),
        m.legacy_favorites.len() > 0 ==> sorted_out(m.migrated().favorites(m.last_env().0, m.last_env().1), true)
            == sorted_out(m.legacy_favorites + m.favorites(m.last_env().0, m.last_env().1), true),
{
    let (profile, region) = m.last_env();
    let favorites = pruned(m.legacy_favorites + m.favorites(profile, region));
    law_environments_are_isolated(m.environments, profile, region, favorites, profile, region);
    law_pruning_keeps_favorites(m.legacy_favorites + m.favorites(profile, region));
}

fn find_resource(favs: &Vec<Favorite>, view_id: &str, key: &str) -> (r: usize)
    ensures
        r == resource_of(favs.deep_view(), view_id@, key@),
        r <= favs@.len(),
{
    let mut i: usize = 0;
    while i < favs.len()
        invariant
            i <= favs@.len(),
            resource_from(favs.deep_view(), view_id@, key@, i as int) == resource_of(favs.deep_view(), view_id@, key@),
        decreases favs@.len() - i,
    {
        proof {
            assert(favs.deep_view()[i as int] == favs@[i as int].deep_view());
        }
        if text::same(favs[i].view_id.as_str(), view_id) && text::same(favs[i].key.as_str(), key) {
            return i;
        }
        i = i + 1;
    }
    i
}

fn toggle_in(favs: &mut Vec<Favorite>, view_id: &str, key: &str, label: &str) -> (r: bool)
    ensures
        final(favs).deep_view() == toggled(old(favs).deep_view(), view_id@, key@, label@),
        r == !is_marked(old(favs).deep_view(), view_id@, key@),
{
    let at: usize = find_resource(favs, view_id, key);
    if at < favs.len() {
        proof {
            assert(favs.deep_view()[at as int] == favs@[at as int].deep_view());
            lemma_resource_from(favs.deep_view(), view_id@, key@, 0);
        }
        let marked = !favs[at].is_favorite;
        favs[at].is_favorite = marked;
        favs[at].label = label.to_string();
        proof {
            assert(favs.deep_view() =~= toggled(old(favs).deep_view(), view_id@, key@, label@));
        }
        return marked;
    }
    favs.insert(
        0,
        Favorite { view_id: view_id.to_string(), key: key.to_string(), label: label.to_string(), is_favorite: true },
    );
    proof {
        assert(favs.deep_view() =~= toggled(old(favs).deep_view(), view_id@, key@, label@));
    }
    true
}

fn prune(favs: &mut Vec<Favorite>)
    ensures
        final(favs).deep_view() == pruned(old(favs).deep_view()),
{
    let ghost all = favs.deep_view();
    let mut kept: Vec<Favorite> = Vec::new();
    let mut seen: usize = 0;
    let mut i: usize = 0;
    while i < favs.len()
        invariant
            i <= favs@.len(),
            favs.deep_view() == all,
            seen == recents(all.take(i as int)),
            seen <= i,
            kept.deep_view() == pruned(all.take(i as int)),
        decreases favs@.len() - i,
    {
        proof {
            assert(all.take(i as int + 1).drop_last() =~= all.take(i as int));
            assert(all.take(i as int + 1).last() == favs@[i as int].deep_view());
        }
        let keep = favs[i].is_favorite || seen < FAVORITES_CAP;
        if !favs[i].is_favorite {
            seen = seen + 1;
        }
        if keep {
            let ghost before = kept.deep_view();
            kept.push(favs[i].clone());
            proof {
                assert(kept.deep_view() =~= before.push(favs@[i as int].deep_view()));
            }
        }
        i = i + 1;
    }
    proof {
        assert(all.take(all.len() as int) =~= all);
    }
    *favs = kept;
}

fn record_in(favs: &mut Vec<Favorite>, view_id: &str, key: &str, label: &str)
    ensures
        final(favs).deep_view() == recorded(old(favs).deep_view(), view_id@, key@, label@),
{
    let ghost all = favs.deep_view();
    let at: usize = find_resource(favs, view_id, key);
    let mut is_favorite = false;
    if at < favs.len() {
        proof {
            assert(favs.deep_view()[at as int] == favs@[at as int].deep_view());
        }
        is_favorite = favs[at].is_favorite;
        favs.remove(at);
    }
    proof {
        assert(favs.deep_view() =~= without(all, view_id@, key@));
    }
    let ghost rest = favs.deep_view();
    favs.insert(
        0,
        Favorite { view_id: view_id.to_string(), key: key.to_string(), label: label.to_string(), is_favorite },
    );
    proof {
        assert(favs.deep_view() =~= rest.insert(
            0,
            Favorite { view_id: view_id@, key: key@, label: label@, is_favorite },
        ));
    }
    prune(favs);
}

impl Default for State {
    fn default() -> (r: Self)
        ensures
            r.model() == (StateModel {
                last_profile: None,
                last_region: None,
                environments: Seq::empty(),
                legacy_favorites: Seq::empty(),
            }),
    {
        let r = State {
            last_profile: None,
            last_region: None,
            environments: Vec::new(),
            legacy_favorites: Vec::new(),
        };
        proof {
            assert(r.environments.deep_view() =~= Seq::<HistoryText>::empty());
            assert(r.legacy_favorites.deep_view() =~= Seq::<FavoriteText>::empty());
        }
        r
    }
}

impl State {
    pub open spec fn model(&self) -> StateModel {
        StateModel {
            last_profile: self.last_profile.deep_view(),
            last_region: self.last_region.deep_view(),
            environments: self.environments.deep_view(),
            legacy_favorites: self.legacy_favorites.deep_view(),
        }
    }

    fn find_bucket(&self, profile: &str, region: &str) -> (r: usize)
        ensures
            r == bucket_of(self.model().environments, profile@, region@),
            r <= self.environments@.len(),
    {
        let mut i: usize = 0;
        while i < self.environments.len()
            invariant
                i <= self.environments@.len(),
                bucket_from(self.model().environments, profile@, region@, i as int) == bucket_of(
                    self.model().environments,
                    profile@,
                    region@,
                ),
            decreases self.environments@.len() - i,
        {
            proof {
                assert(self.environments.deep_view()[i as int] == self.environments@[i as int].deep_view());
            }
            if text::same(self.environments[i].profile.as_str(), profile) && text::same(
                self.environments[i].region.as_str(),
                region,
            ) {
                return i;
            }
            i = i + 1;
        }
        i
    }

    /// The history of an environment, made empty at the end where it has none.
    fn bucket(&mut self, profile: &str, region: &str) -> (r: usize)
        ensures
            r == bucket_of(old(self).model().environments, profile@, region@),
            r < final(self).environments@.len(),
            final(self).environments@[r as int].deep_view().favorites == old(self).model().favorites(profile@, region@),
            final(self).model() == (if r < old(self).environments@.len() {
                old(self).model()
            } else {
                old(self).model().with_favorites(profile@, region@, Seq::empty())
            }),
            forall|favorites: Seq<FavoriteText>|
                #![trigger old(self).model().with_favorites(profile@, region@, favorites)]
                old(self).model().with_favorites(profile@, region@, favorites).environments
                    == final(self).model().environments.update(
                    r as int,
                    EnvHistory { favorites, ..final(self).environments@[r as int].deep_view() },
                ),
    {
        let at: usize = self.find_bucket(profile, region);
        if at >= self.environments.len() {
            let fresh = EnvHistory { profile: profile.to_string(), region: region.to_string(), favorites: Vec::new() };
            proof {
                assert(fresh.favorites.deep_view() =~= Seq::<FavoriteText>::empty());
            }
            self.environments.push(fresh);
            proof {
                assert(self.model().environments =~= old(self).model().with_favorites(
                    profile@,
                    region@,
                    Seq::empty(),
                ).environments);
            }
        }
        proof {
            assert forall|favorites: Seq<FavoriteText>|
                #![trigger old(self).model().with_favorites(profile@, region@, favorites)]
                old(self).model().with_favorites(profile@, region@, favorites).environments
                    == self.model().environments.update(
                    at as int,
                    EnvHistory { favorites, ..self.environments@[at as int].deep_view() },
                ) by {
                assert(old(self).model().with_favorites(profile@, region@, favorites).environments
                    =~= self.model().environments.update(
                    at as int,
                    EnvHistory { favorites, ..self.environments@[at as int].deep_view() },
                ));
            }
        }
        at
    }

    /// What an environment remembers; asking makes no history for it.
    pub fn favorites_for(&self, profile: &str, region: &str) -> (r: &[Favorite])
        ensures
            r.deep_view() == self.model().favorites(profile@, region@),
    {
        let at: usize = self.find_bucket(profile, region);
        if at < self.environments.len() {
            self.environments[at].favorites.as_slice()
        } else {
            &[]
        }
    }

    /// Switches the mark of a resource in an environment, and says whether it is marked now.
    pub fn toggle_favorite(&mut self, profile: &str, region: &str, view_id: &str, key: &str, label: &str) -> (r: bool)
        ensures
            final(self).model() == old(self).model().toggled(profile@, region@, view_id@, key@, label@),
            r == !is_marked(old(self).model().favorites(profile@, region@), view_id@, key@),
    {
        let at: usize = self.bucket(profile, region);
        let ghost envs = self.model().environments;
        let r = toggle_in(&mut self.environments[at].favorites, view_id, key, label);
        proof {
            assert(self.model().environments =~= old(self).model().toggled(
                profile@,
                region@,
                view_id@,
                key@,
                label@,
            ).environments);
        }
        r
    }

    /// Remembers that a resource was opened in an environment.
    pub fn record_recent(&mut self, profile: &str, region: &str, view_id: &str, key: &str, label: &str)
        ensures
            final(self).model() == old(self).model().recorded(profile@, region@, view_id@, key@, label@),
    {
        let at: usize = self.bucket(profile, region);
        record_in(&mut self.environments[at].favorites, view_id, key, label);
        proof {
            assert(self.model().environments =~= old(self).model().recorded(
                profile@,
                region@,
                view_id@,
                key@,
                label@,
            ).environments);
        }
    }

    /// Puts the resources of an old file before those of the environment that was used last.
    pub fn migrate_legacy(&mut self)
        ensures
            final(self).model() == old(self).model().migrated(),
    {
        if self.legacy_favorites.len() == 0 {
            return;
        }
        let profile = match &self.last_profile {
            Some(p) => p.clone(),
            None => "default".to_string(),
        };
        let region = match &self.last_region {
            Some(r) => r.clone(),
            None => "us-east-1".to_string(),
        };
        let ghost legacy = self.legacy_favorites.deep_view();
        let mut all: Vec<Favorite> = Vec::new();
        all.append(&mut self.legacy_favorites);
        proof {
            assert(all.deep_view() =~= legacy);
            assert(self.legacy_favorites.deep_view() =~= Seq::<FavoriteText>::empty());
        }
        let at: usize = self.bucket(profile.as_str(), region.as_str());
        let ghost kept = self.environments@[at as int].favorites.deep_view();
        all.append(&mut self.environments[at].favorites);
        proof {
            assert(all.deep_view() =~= legacy + kept);
        }
        prune(&mut all);
        self.environments[at].favorites = all;
        proof {
            assert(self.model().environments =~= old(self).model().migrated().environments);
        }
    }
}

/// Only the favourites, or only the recent resources, in their order.
pub fn sort_out(favs: &[Favorite], marked: bool) -> (r: Vec<Favorite>)
    ensures
        r.deep_view() == sorted_out(favs.deep_view(), marked),
{
    let ghost all = favs.deep_view();
    let mut out: Vec<Favorite> = Vec::new();
    proof {
        reveal(Seq::filter);
        assert(out.deep_view() =~= sorted_out(all.take(0), marked));
    }
    let mut i: usize = 0;
    while i < favs.len()
        invariant
            i <= favs@.len(),
            all == favs.deep_view(),
            out.deep_view() == sorted_out(all.take(i as int), marked),
        decreases favs@.len() - i,
    {
        proof {
            assert(all.take(i as int + 1) =~= all.take(i as int).push(favs@[i as int].deep_view()));
            lemma_sorted_out_push(all.take(i as int), favs@[i as int].deep_view(), marked);
        }
        if favs[i].is_favorite == marked {
            let ghost before = out.deep_view();
            out.push(favs[i].clone());
            proof {
                assert(out.deep_view() =~= before.push(favs@[i as int].deep_view()));
            }
        }
        i = i + 1;
    }
    proof {
        assert(all.take(all.len() as int) =~= all);
    }
    out
}

/// The environment to start with: that of the process, else the configured one, else the last one,
/// else a default; profile and region each on their own.
pub open spec fn starting_env(
    env_profile: Option<Text>,
    env_region: Option<Text>,
    config_profile: Option<Text>,
    config_region: Option<Text>,
    last: (Text, Text),
) -> Env<Text> {
    Env {
        profile: match (env_profile, config_profile) {
            (Some(p), _) => p,
            (None, Some(p)) => p,
            _ => last.0,
        },
        region: match (env_region, config_region) {
            (Some(r), _) => r,
            (None, Some(r)) => r,
            _ => last.1,
        },
    }
}

/// The environment to start with: that of the process, else the configured one, else the last one,
/// else a default.
pub fn pick_env(env_profile: Option<String>, env_region: Option<String>, config: &Config, state: &State) -> (r: Env)
    ensures
        r.deep_view() == starting_env(
            env_profile.deep_view(),
            env_region.deep_view(),
            config.default_profile.deep_view(),
            config.default_region.deep_view(),
            state.model().last_env(),
        ),
{
    let profile = match env_profile {
        Some(p) => p,
        None => match &config.default_profile {
            Some(p) => p.clone(),
            None => match &state.last_profile {
                Some(p) => p.clone(),
                None => "default".to_string(),
            },
        },
    };
    let region = match env_region {
        Some(r) => r,
        None => match &config.default_region {
            Some(r) => r.clone(),
            None => match &state.last_region {
                Some(r) => r.clone(),
                None => "us-east-1".to_string(),
            },
        },
    };
    Env { profile, region }
}

// --- laws ------------------------------------------------------------------------------------

/// A resource stands in a list.
pub open spec fn stands_at(favs: Seq<FavoriteText>, view_id: Text, key: Text, at: int) -> bool {
    0 <= at < favs.len() && favs[at].view_id == view_id && favs[at].key == key
}

/// Switching the mark of a resource that is remembered changes its mark, and its label to the one
/// given, where it stands; one that is not remembered comes to the front, marked.  Nothing else
/// changes.
pub proof fn law_marking_a_resource(favs: Seq<FavoriteText>, view_id: Text, key: Text, label: Text, at: int)
    requires
        no_resource_twice(favs),
    ensures
        stands_at(favs, view_id, key, at) ==> {
            let new = toggled(favs, view_id, key, label);
            &&& new.len() == favs.len()
            &&& new[at] == (Favorite { view_id, key, label, is_favorite: !favs[at].is_favorite })
            &&& forall|i: int| 0 <= i < favs.len() && i != at ==> #[trigger] new[i] == favs[i]
        },
        (forall|i: int| !(#[trigger] stands_at(favs, view_id, key, i))) ==> toggled(favs, view_id, key, label) == seq![
            Favorite { view_id, key, label, is_favorite: true },
        ] + favs,
{
    lemma_resource_from(favs, view_id, key, 0);
    let found = resource_of(favs, view_id, key);
    if stands_at(favs, view_id, key, at) {
        if found < at {
            assert(favs[found].view_id != favs[at].view_id || favs[found].key != favs[at].key);
        }
        assert(found == at);
    }
    if forall|i: int| !(#[trigger] stands_at(favs, view_id, key, i)) {
        assert(!stands_at(favs, view_id, key, found));
        assert(toggled(favs, view_id, key, label) =~= seq![Favorite { view_id, key, label, is_favorite: true }] + favs);
    }
}

/// A resource is a favourite exactly where the list holds it with the mark.
pub proof fn law_favorites_are_what_is_marked(favs: Seq<FavoriteText>, view_id: Text, key: Text)
    requires
        no_resource_twice(favs),
    ensures
        is_marked(favs, view_id, key) <==> exists|at: int| #[trigger] stands_at(favs, view_id, key, at)
            && favs[at].is_favorite,
{
    lemma_resource_from(favs, view_id, key, 0);
    let found = resource_of(favs, view_id, key);
    if found < favs.len() {
        assert(stands_at(favs, view_id, key, found));
    }
    if exists|at: int| #[trigger] stands_at(favs, view_id, key, at) && favs[at].is_favorite {
        let at = choose|at: int| #[trigger] stands_at(favs, view_id, key, at) && favs[at].is_favorite;
        if found < at {
            assert(favs[found].view_id != favs[at].view_id || favs[found].key != favs[at].key);
        }
    }
}

proof fn lemma_pruned_is_all(favs: Seq<FavoriteText>)
    requires
        recents(favs) <= FAVORITES_CAP,
    ensures
        pruned(favs) == favs,
    decreases favs.len(),
{
    if favs.len() > 0 {
        lemma_pruned_is_all(favs.drop_last());
        assert(favs.drop_last().push(favs.last()) =~= favs);
    }
}

/// Opening a resource brings it to the front and leaves the others in their order; no more than
/// fifty that are recent only are kept, and none is dropped up to there.
pub proof fn law_opening_a_resource(favs: Seq<FavoriteText>, view_id: Text, key: Text, label: Text, at: int)
    requires
        no_resource_twice(favs),
    ensures
        recents(recorded(favs, view_id, key, label)) <= 50,
        recents(favs) < 50 && stands_at(favs, view_id, key, at) ==> recorded(favs, view_id, key, label) == seq![
            Favorite { view_id, key, label, is_favorite: favs[at].is_favorite },
        ] + favs.take(at) + favs.skip(at + 1),
        recents(favs) < 50 && (forall|i: int| !(#[trigger] stands_at(favs, view_id, key, i))) ==> recorded(
            favs,
            view_id,
            key,
            label,
        ) == seq![Favorite { view_id, key, label, is_favorite: false }] + favs,
{
    law_recent_resources_come_first(favs, view_id, key, label);
    lemma_resource_from(favs, view_id, key, 0);
    let found = resource_of(favs, view_id, key);
    if stands_at(favs, view_id, key, at) {
        if found < at {
            assert(favs[found].view_id != favs[at].view_id || favs[found].key != favs[at].key);
        }
        assert(found == at);
        let front = Favorite { view_id, key, label, is_favorite: favs[at].is_favorite };
        let all = seq![front] + favs.take(at) + favs.skip(at + 1);
        assert(without(favs, view_id, key).insert(0, front) =~= all);
        if recents(favs) < 50 {
            lemma_recents_of_parts(favs, at);
            lemma_recents_sum(seq![front], favs.take(at));
            lemma_recents_sum(seq![front] + favs.take(at), favs.skip(at + 1));
            lemma_recents_of_one(front);
            lemma_pruned_is_all(all);
        }
    }
    if forall|i: int| !(#[trigger] stands_at(favs, view_id, key, i)) {
        assert(!stands_at(favs, view_id, key, found));
        let front = Favorite { view_id, key, label, is_favorite: false };
        assert(favs.insert(0, front) =~= seq![front] + favs);
        if recents(favs) < 50 {
            lemma_recents_sum(seq![front], favs);
            lemma_recents_of_one(front);
            lemma_pruned_is_all(seq![front] + favs);
        }
    }
}

proof fn lemma_recents_sum(a: Seq<FavoriteText>, b: Seq<FavoriteText>)
    ensures
        recents(a + b) == recents(a) + recents(b),
    decreases b.len(),
{
    if b.len() == 0 {
        assert(a + b =~= a);
    } else {
        assert((a + b).drop_last() =~= a + b.drop_last());
        lemma_recents_sum(a, b.drop_last());
    }
}

proof fn lemma_recents_of_one(f: FavoriteText)
    ensures
        recents(seq![f]) == (if f.is_favorite { 0nat } else { 1nat }),
{
    assert(seq![f].drop_last() =~= Seq::empty());
    assert(recents(Seq::empty()) == 0);
}

proof fn lemma_recents_of_parts(favs: Seq<FavoriteText>, at: int)
    requires
        0 <= at < favs.len(),
    ensures
        recents(favs.take(at)) + recents(favs.skip(at + 1)) + recents(seq![favs[at]]) == recents(favs),
{
    assert(favs =~= favs.take(at) + seq![favs[at]] + favs.skip(at + 1));
    lemma_recents_sum(favs.take(at), seq![favs[at]]);
    lemma_recents_sum(favs.take(at) + seq![favs[at]], favs.skip(at + 1));
}

/// What an environment remembers is what its own history holds, and nothing where it has none.
pub proof fn law_environments_remember_their_own(envs: Seq<HistoryText>, profile: Text, region: Text, at: int)
    requires
        one_history_each(envs),
    ensures
        0 <= at < envs.len() && envs[at].profile == profile && envs[at].region == region ==> remembered(
            envs,
            profile,
            region,
        ) == envs[at].favorites,
        (forall|i: int|
            0 <= i < envs.len() ==> (#[trigger] envs[i]).profile != profile || envs[i].region != region) ==> remembered(
            envs,
            profile,
            region,
        ).len() == 0,
{
    lemma_bucket_from(envs, profile, region, 0);
    let found = bucket_of(envs, profile, region);
    if 0 <= at < envs.len() && envs[at].profile == profile && envs[at].region == region && found < at {
        assert(envs[found].profile != envs[at].profile || envs[found].region != envs[at].region);
    }
}

/// Marking a resource, or opening one, in an environment changes the list of that environment as
/// said, and nothing of any other, nor which environment was used last.
pub proof fn law_each_environment_has_its_own_list(
    m: StateModel,
    profile: Text,
    region: Text,
    view_id: Text,
    key: Text,
    label: Text,
    other_profile: Text,
    other_region: Text,
)
    ensures
        m.toggled(profile, region, view_id, key, label).favorites(profile, region) == toggled(
            m.favorites(profile, region),
            view_id,
            key,
            label,
        ),
        m.recorded(profile, region, view_id, key, label).favorites(profile, region) == recorded(
            m.favorites(profile, region),
            view_id,
            key,
            label,
        ),
        other_profile != profile || other_region != region ==> m.toggled(profile, region, view_id, key, label).favorites(
            other_profile,
            other_region,
        ) == m.favorites(other_profile, other_region) && m.recorded(profile, region, view_id, key, label).favorites(
            other_profile,
            other_region,
        ) == m.favorites(other_profile, other_region),
        m.toggled(profile, region, view_id, key, label).last_env() == m.last_env(),
        m.recorded(profile, region, view_id, key, label).last_env() == m.last_env(),
{
    let marked = toggled(m.favorites(profile, region), view_id, key, label);
    let opened = recorded(m.favorites(profile, region), view_id, key, label);
    law_environments_are_isolated(m.environments, profile, region, marked, other_profile, other_region);
    law_environments_are_isolated(m.environments, profile, region, opened, other_profile, other_region);
}

/// The environment that was used last is the one that was written down; what was not written down
/// is the default profile and `us-east-1`.
pub proof fn law_the_last_environment(m: StateModel)
    ensures
        m.last_profile matches Some(p) ==> m.last_env().0 == p,
        m.last_region matches Some(r) ==> m.last_env().1 == r,
        m.last_profile is None ==> m.last_env().0 == "default"@,
        m.last_region is None ==> m.last_env().1 == "us-east-1"@,
{
}

/// What an old file held goes before what the environment that was used last remembers, and every
/// other environment stays as it was.
pub proof fn law_migration_goes_to_the_last_environment(m: StateModel, other_profile: Text, other_region: Text)
    requires
        m.legacy_favorites.len() > 0,
        recents(m.legacy_favorites + m.favorites(m.last_env().0, m.last_env().1)) <= 50,
    ensures
        m.migrated().favorites(m.last_env().0, m.last_env().1) == m.legacy_favorites + m.favorites(
            m.last_env().0,
            m.last_env().1,
        ),
        other_profile != m.last_env().0 || other_region != m.last_env().1 ==> m.migrated().favorites(
            other_profile,
            other_region,
        ) == m.favorites(other_profile, other_region),
        m.migrated().last_env() == m.last_env(),
{
    let (profile, region) = m.last_env();
    let all = m.legacy_favorites + m.favorites(profile, region);
    lemma_pruned_is_all(all);
    law_environments_are_isolated(m.environments, profile, region, pruned(all), other_profile, other_region);
    law_environments_are_isolated(m.environments, profile, region, pruned(all), profile, region);
}

/// The environment of the process comes before the configured one, and that before the one that was
/// used last; profile and region are each looked for on their own.
pub proof fn law_what_to_start_with(
    env_profile: Option<Text>,
    env_region: Option<Text>,
    config_profile: Option<Text>,
    config_region: Option<Text>,
    last: (Text, Text),
)
    ensures
        ({
            let e = starting_env(env_profile, env_region, config_profile, config_region, last);
            &&& env_profile matches Some(p) ==> e.profile == p
            &&& env_profile is None ==> (config_profile matches Some(p) ==> e.profile == p)
            &&& env_profile is None && config_profile is None ==> e.profile == last.0
            &&& env_region matches Some(r) ==> e.region == r
            &&& env_region is None ==> (config_region matches Some(r) ==> e.region == r)
            &&& env_region is None && config_region is None ==> e.region == last.1
        }),
{
}

/// At most fifty recent resources are kept, and favourites without end.
pub proof fn law_fifty_recent_resources_are_kept(favs: Seq<FavoriteText>)
    ensures
        sorted_out(pruned(favs), false).len() <= 50,
        recents(favs) <= 50 ==> sorted_out(pruned(favs), false) == sorted_out(favs, false),
        recents(favs) > 50 ==> sorted_out(pruned(favs), false).len() == 50,
        sorted_out(pruned(favs), true) == sorted_out(favs, true),
{
    law_pruning_keeps_favorites(favs);
    let all = sorted_out(favs, false);
    assert(all.take(all.len() as int) =~= all);
}

} // verus!
