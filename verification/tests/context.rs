use awsdeck::aws::context::{parse_profiles, Env, ProfileEntry};
use awsdeck::ui::header::header_line;
use awsdeck::ui::picker::profile_row;

#[test]
fn profiles_are_read_with_their_regions() {
    let config = "[default]\nregion = us-east-1\n\n[profile prod]\nsso_session = s\n region=eu-west-1 \n\
                  [sso-session s]\nregion = ap-south-1\n[profile bare]\noutput = json\n";
    let profiles = parse_profiles(config);
    let rows: Vec<(&str, Option<&str>)> = profiles.iter().map(|p| (p.name.as_str(), p.region.as_deref())).collect();
    assert_eq!(rows, [("default", Some("us-east-1")), ("prod", Some("eu-west-1")), ("bare", None)]);
}

#[test]
fn no_section_no_profile() {
    assert!(parse_profiles("").is_empty());
    assert!(parse_profiles("region = us-east-1\n[services x]\n").is_empty());
}

#[test]
fn later_lines_keep_earlier_profiles() {
    let first = "[profile a]\nregion = r1\n[profile b]\n";
    let more = format!("{first}region = r2\n[profile c]\n");
    let before = parse_profiles(first);
    let after = parse_profiles(&more);
    for (i, p) in before.iter().enumerate() {
        assert_eq!(after[i].name, p.name);
    }
    assert_eq!(after.len(), 3);
    assert_eq!(after[1].region.as_deref(), Some("r2"));
}

#[test]
fn environments_have_a_label() {
    assert_eq!(Env::new("prod", "eu-west-1").label(), "prod · eu-west-1");
}

#[test]
fn a_row_of_the_picker_names_the_region() {
    let with = ProfileEntry { name: "a".to_string(), region: Some("r".to_string()) };
    let without = ProfileEntry { name: "b".to_string(), region: None };
    assert_eq!(profile_row(&with), ("a".to_string(), "r".to_string()));
    assert_eq!(profile_row(&without), ("b".to_string(), "(región actual)".to_string()));
}

#[test]
fn the_header_fills_the_row() {
    let env = Env::new("prod", "eu-west-1");
    let account = Some("123456789012".to_string());
    let line = header_line(&env, &account, "logs", true, true, 80).concat();
    assert_eq!(line.chars().count(), 80);
    assert!(line.starts_with("[re-auth] [ESCRITURA]  awsdeck · logs "));
    assert!(line.ends_with(" prod · eu-west-1 · 123456789012 "));
    let bare = header_line(&env, &None, "logs", false, false, 60).concat();
    assert_eq!(bare.chars().count(), 60);
    assert!(bare.starts_with(" awsdeck · logs "));
    assert!(bare.ends_with(" prod · eu-west-1 "));
}

#[test]
fn a_narrow_header_loses_its_padding_alone() {
    let env = Env::new("prod", "eu-west-1");
    assert_eq!(header_line(&env, &None, "t", false, false, 3).concat(), " awsdeck · tprod · eu-west-1 ");
}
