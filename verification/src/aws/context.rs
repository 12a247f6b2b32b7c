//! The active environment: which account (by its profile) and which region.

use vstd::prelude::*;

use crate::message::Text;
use crate::text;

verus! {

/// Profile and region that every request goes out with.
#[derive(Debug, PartialEq, Eq)]
pub struct Env<S = String> {
    pub profile: S,
    pub region: S,
}

impl DeepView for Env<String> {
    type V = Env<Text>;

    open spec fn deep_view(&self) -> Env<Text> {
        Env { profile: self.profile@, region: self.region@ }
    }
}

impl Clone for Env<String> {
    fn clone(&self) -> (r: Self)
        ensures
            r == *self,
    {
        Env { profile: self.profile.clone(), region: self.region.clone() }
    }
}

impl Env<Text> {
    /// `profile · region`, as the header shows it.
    pub open spec fn caption(self) -> Text {
        self.profile + " · "@ + self.region
    }
}

impl Env<String> {
    pub fn new(profile: &str, region: &str) -> (r: Self)
        ensures
            r.deep_view() == (Env::<Text> { profile: profile@, region: region@ }),
    {
        Env { profile: profile.to_string(), region: region.to_string() }
    }

    /// `profile · region`, as the header shows it.
    pub fn label(&self) -> (r: String)
        ensures
            r@ == self.deep_view().caption(),
    {
        let mut out = self.profile.clone();
        out.append(" · ");
        out.append(self.region.as_str());
        out
    }
}

/// A profile of the AWS configuration; without a region of its own it keeps the current one.
#[derive(Debug)]
pub struct ProfileEntry<S = String> {
    pub name: S,
    pub region: Option<S>,
}

impl DeepView for ProfileEntry<String> {
    type V = ProfileEntry<Text>;

    open spec fn deep_view(&self) -> ProfileEntry<Text> {
        ProfileEntry { name: self.name@, region: self.region.deep_view() }
    }
}

/// What a section header names: a profile, or something else.
pub open spec fn profile_named(header: Text) -> Option<Text> {
    let inner = text::trimmed(header.subrange(1, header.len() - 1));
    if inner == "default"@ {
        Some(inner)
    } else if text::has_prefix(inner, "profile "@) {
        Some(text::trimmed(inner.skip("profile "@.len() as int)))
    } else {
        None
    }
}

/// A line without its margins is the header of a section.
pub open spec fn is_header(line: Text) -> bool {
    line.len() >= 2 && line[0] == '[' && line.last() == ']'
}

/// The region that a line without its margins sets.
pub open spec fn region_set(line: Text) -> Option<Text> {
    match text::parts_around(line, "="@) {
        Some((name, value)) => if text::trimmed(name) == "region"@ {
            Some(text::trimmed(value))
        } else {
            None
        },
        None => None,
    }
}

/// The profiles of the first lines of an AWS configuration, and whether the last of them is still
/// open: its section is the one that the next line belongs to.
pub open spec fn profiles_of(lines: Seq<Text>) -> (Seq<ProfileEntry<Text>>, bool)
    decreases lines.len(),
{
    if lines.len() == 0 {
        (Seq::empty(), false)
    } else {
        let (before, open) = profiles_of(lines.drop_last());
        let line = text::trimmed(lines.last());
        if is_header(line) {
            match profile_named(line) {
                Some(name) => (before.push(ProfileEntry { name, region: None }), true),
                None => (before, false),
            }
        } else {
            match region_set(line) {
                Some(region) => if open {
                    (before.update(before.len() - 1, ProfileEntry { region: Some(region), ..before.last() }), true)
                } else {
                    (before, open)
                },
                None => (before, open),
            }
        }
    }
}

proof fn lemma_open_is_there(lines: Seq<Text>)
    ensures
        profiles_of(lines).1 ==> profiles_of(lines).0.len() > 0,
    decreases lines.len(),
{
    if lines.len() > 0 {
        lemma_open_is_there(lines.drop_last());
    }
}

/// Reads the profiles of an AWS configuration: the sections `[default]` and `[profile name]`, each
/// with the region that it sets.
pub fn parse_profiles(config: &str) -> (r: Vec<ProfileEntry>)
    ensures
        r.deep_view() == profiles_of(text::split_on(config@, '\n')).0,
{
    let lines = text::split(config, '\n');
    let ghost all = lines.deep_view();
    let mut out: Vec<ProfileEntry> = Vec::new();
    let mut open = false;
    let mut i: usize = 0;
    proof {
        assert(all.take(0) =~= Seq::empty());
        assert(out.deep_view() =~= Seq::empty());
    }
    while i < lines.len()
        invariant
            i <= lines@.len(),
            all == lines.deep_view(),
            (out.deep_view(), open) == profiles_of(all.take(i as int)),
        decreases lines@.len() - i,
    {
        let ghost before = out.deep_view();
        proof {
            assert(all.take(i as int + 1).drop_last() =~= all.take(i as int));
            assert(all.take(i as int + 1).last() == lines@[i as int]@);
            lemma_open_is_there(all.take(i as int));
        }
        let line = text::trim(lines[i].as_str());
        let v = text::chars_of(line.as_str());
        if v.len() >= 2 && v[0] == '[' && v[v.len() - 1] == ']' {
            let inner = text::trim(text::text_of(&v, 1, v.len() - 1).as_str());
            if text::same(inner.as_str(), "default") {
                out.push(ProfileEntry { name: inner, region: None });
                open = true;
                proof {
                    assert(out.deep_view() =~= before.push(ProfileEntry { name: inner@, region: None }));
                }
            } else {
                match text::strip_prefix(inner.as_str(), "profile ") {
                    Some(rest) => {
                        let name = text::trim(rest.as_str());
                        let ghost named = name@;
                        out.push(ProfileEntry { name, region: None });
                        open = true;
                        proof {
                            assert(out.deep_view() =~= before.push(ProfileEntry { name: named, region: None }));
                        }
                    },
                    None => {
                        open = false;
                    },
                }
            }
        } else {
            match text::split_once(line.as_str(), "=") {
                Some((name, value)) => {
                    if open && text::same(text::trim(name.as_str()).as_str(), "region") {
                        let k: usize = out.len() - 1;
                        let region = text::trim(value.as_str());
                        let ghost set = region@;
                        out[k].region = Some(region);
                        proof {
                            assert(out.deep_view() =~= before.update(
                                before.len() - 1,
                                ProfileEntry { region: Some(set), ..before.last() },
                            ));
                        }
                    }
                },
                None => {},
            }
        }
        i = i + 1;
    }
    proof {
        assert(all.take(all.len() as int) =~= all);
    }
    out
}

/// Lines that follow do not take a profile away, nor change its name.
pub proof fn law_profiles_stay(lines: Seq<Text>, more: Seq<Text>, i: int)
    requires
        0 <= i < profiles_of(lines).0.len(),
    ensures
        i < profiles_of(lines + more).0.len(),
        profiles_of(lines + more).0[i].name == profiles_of(lines).0[i].name,
    decreases more.len(),
{
    if more.len() == 0 {
        assert(lines + more =~= lines);
    } else {
        law_profiles_stay(lines, more.drop_last(), i);
        lemma_open_is_there(lines + more.drop_last());
        assert((lines + more).drop_last() =~= lines + more.drop_last());
    }
}

/// A section `[profile name]` is a profile of that name, `[default]` the default one, and the line
/// `region = …` in either gives it that region.  Any other section is no profile, and a region
/// outside of a profile is nobody's.
pub proof fn law_profiles_are_read(before: Seq<Text>, name: Text, region: Text)
    requires
        name.len() > 0,
        !text::is_space(name[0]),
        !text::is_space(name.last()),
        region.len() > 0,
        !text::is_space(region[0]),
        !text::is_space(region.last()),
        region.last() != ']',
    ensures
        ({
            let named = profiles_of(before.push("[profile "@ + name + "]"@));
            let placed = profiles_of(before.push("[profile "@ + name + "]"@).push("region = "@ + region));
            &&& named.0 == profiles_of(before).0.push(ProfileEntry { name, region: None })
            &&& placed.0 == profiles_of(before).0.push(ProfileEntry { name, region: Some(region) })
        }),
        ({
            let named = profiles_of(before.push("[default]"@));
            let placed = profiles_of(before.push("[default]"@).push("region = "@ + region));
            &&& named.0 == profiles_of(before).0.push(ProfileEntry { name: "default"@, region: None })
            &&& placed.0 == profiles_of(before).0.push(ProfileEntry { name: "default"@, region: Some(region) })
        }),
        !profiles_of(before).1 ==> profiles_of(before.push("region = "@ + region)).0 == profiles_of(before).0,
{
    let header = "[profile "@ + name + "]"@;
    let line = "region = "@ + region;
    lemma_profile_header(name);
    lemma_default_header();
    lemma_region_line(region);
    assert(before.push(header).drop_last() =~= before);
    assert(before.push("[default]"@).drop_last() =~= before);
    assert(before.push(line).drop_last() =~= before);
    assert(before.push(header).push(line).drop_last() =~= before.push(header));
    assert(before.push("[default]"@).push(line).drop_last() =~= before.push("[default]"@));
    let all = profiles_of(before).0;
    assert(all.push(ProfileEntry { name, region: None }).update(
        all.len() as int,
        ProfileEntry { name, region: Some(region) },
    ) =~= all.push(ProfileEntry { name, region: Some(region) }));
    assert(all.push(ProfileEntry { name: "default"@, region: None }).update(
        all.len() as int,
        ProfileEntry { name: "default"@, region: Some(region) },
    ) =~= all.push(ProfileEntry { name: "default"@, region: Some(region) }));
}

proof fn lemma_profile_header(name: Text)
    requires
        name.len() > 0,
        !text::is_space(name[0]),
        !text::is_space(name.last()),
    ensures
        text::trimmed("[profile "@ + name + "]"@) == "[profile "@ + name + "]"@,
        is_header("[profile "@ + name + "]"@),
        profile_named("[profile "@ + name + "]"@) == Some(name),
{
    reveal_strlit("[profile ");
    reveal_strlit("profile ");
    reveal_strlit("]");
    reveal_strlit("default");
    let header = "[profile "@ + name + "]"@;
    text::lemma_already_trimmed(header);
    let inner = header.subrange(1, header.len() - 1);
    assert(inner =~= "profile "@ + name);
    assert(inner[0] == 'p' && inner.last() == name.last());
    text::lemma_already_trimmed(inner);
    assert("default"@[0] == 'd');
    assert(inner.take("profile "@.len() as int) =~= "profile "@);
    assert(inner.skip("profile "@.len() as int) =~= name);
    text::lemma_already_trimmed(name);
}

proof fn lemma_default_header()
    ensures
        text::trimmed("[default]"@) == "[default]"@,
        is_header("[default]"@),
        profile_named("[default]"@) == Some("default"@),
{
    reveal_strlit("[default]");
    reveal_strlit("default");
    let header = "[default]"@;
    text::lemma_already_trimmed(header);
    let inner = header.subrange(1, header.len() - 1);
    assert(inner =~= "default"@);
    text::lemma_already_trimmed(inner);
}

proof fn lemma_region_line(region: Text)
    requires
        region.len() > 0,
        !text::is_space(region[0]),
        !text::is_space(region.last()),
        region.last() != ']',
    ensures
        text::trimmed("region = "@ + region) == "region = "@ + region,
        !is_header("region = "@ + region),
        region_set("region = "@ + region) == Some(region),
{
    reveal_strlit("region = ");
    reveal_strlit("region ");
    reveal_strlit("region");
    reveal_strlit("=");
    let line = "region = "@ + region;
    text::lemma_already_trimmed(line);
    text::lemma_occurrence(line, "="@, 0);
    assert(line.subrange(7, 8) =~= "="@);
    assert(text::occurs_at(line, "="@, 7));
    assert forall|k: int| 0 <= k < 7 implies !text::occurs_at(line, "="@, k) by {
        assert(line.subrange(k, k + 1)[0] == "region = "@[k]);
    }
    assert(text::occurrence_from(line, "="@, 0) == Some(7int));
    let name = line.take(7);
    assert(name =~= "region"@.push(' '));
    let (a, b) = text::law_trimming(name);
    assert(name[0] == 'r' && name[5] == 'n' && name[6] == ' ');
    assert(a == 0) by {
        if a > 0 {
            assert(text::is_space(name[0]));
        }
    }
    assert(b == 6) by {
        if b < 6 {
            assert(text::is_space(name[5]));
        }
    }
    assert(name.subrange(0, 6) =~= "region"@);
    let value = line.skip(8);
    assert(value =~= seq![' '] + region);
    let (c, d) = text::law_trimming(value);
    assert(value[0] == ' ' && value[1] == region[0] && value.last() == region.last());
    assert(c == 1) by {
        if c > 1 {
            assert(text::is_space(value[1]));
        }
    }
    assert(d == value.len()) by {
        if d < value.len() {
            assert(text::is_space(value[value.len() - 1]));
        }
    }
    assert(value.subrange(1, value.len() as int) =~= region);
}

/// An environment is shown by its profile and its region.
pub proof fn law_environments_are_shown(env: Env<Text>)
    ensures
        text::has_prefix(env.caption(), env.profile),
        text::has_suffix(env.caption(), env.region),
{
    let shown = env.caption();
    assert(shown.take(env.profile.len() as int) =~= env.profile);
    assert(shown.skip(shown.len() - env.region.len()) =~= env.region);
}

} // verus!
