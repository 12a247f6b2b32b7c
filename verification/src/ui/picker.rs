//! The list of profiles to change the environment with.

use vstd::prelude::*;

use crate::aws::context::ProfileEntry;
use crate::message::Text;

verus! {

/// A row of the picker: the profile and the region it leads to.
pub open spec fn row_texts(p: ProfileEntry<Text>) -> (Text, Text) {
    (
        p.name,
        match p.region {
            Some(region) => region,
            None => "(región actual)"@,
        },
    )
}

/// A row of the picker: the profile and the region it leads to.
pub fn profile_row(p: &ProfileEntry) -> (r: (String, String))
    ensures
        (r.0@, r.1@) == row_texts(p.deep_view()),
{
    let region = match &p.region {
        Some(region) => region.clone(),
        None => "(región actual)".to_string(),
    };
    (p.name.clone(), region)
}

/// A row starts with the profile and names the region that the profile sets, where it sets one.
pub proof fn law_rows_name_profile_and_region(name: Text, region: Text)
    ensures
        row_texts(ProfileEntry { name, region: Some(region) }) == (name, region),
        row_texts(ProfileEntry { name, region: None::<Text> }).0 == name,
{
}

/// A profile without a region says that the current one is kept.
pub proof fn law_profiles_without_a_region_keep_it(name: Text)
    ensures
        row_texts(ProfileEntry { name, region: None::<Text> }).1 == "(región actual)"@,
{
}

} // verus!
