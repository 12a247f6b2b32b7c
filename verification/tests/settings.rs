use awsdeck::settings::{holds_default, set_default};

#[test]
fn only_defaults_can_be_set() {
    for key in ["default_profile", "default_region", "default_tail_window"] {
        assert!(holds_default(key));
    }
    for key in ["", "profile", "default_profile ", "event_presets"] {
        assert!(!holds_default(key));
    }
}

#[test]
fn a_default_is_changed_in_its_line() {
    let before = "# mine\ndefault_profile = \"dev\"\ndefault_region = \"us-east-1\" # home\n";
    let after = set_default(before, "default_region", "eu-west-1");
    assert_eq!(after, "# mine\ndefault_profile = \"dev\"\ndefault_region = \"eu-west-1\" # home\n");
}

#[test]
fn a_new_default_goes_before_everything_else() {
    assert_eq!(
        set_default("# mine\n[[event_presets]]\nname = \"x\"\n", "default_profile", "prod"),
        "default_profile = \"prod\"\n# mine\n[[event_presets]]\nname = \"x\"\n"
    );
    assert_eq!(set_default("", "default_profile", "prod"), "default_profile = \"prod\"\n");
}

#[test]
fn a_key_of_a_table_is_no_default() {
    assert_eq!(
        set_default("[other]\ndefault_region = \"x\"\n", "default_region", "y"),
        "default_region = \"y\"\n[other]\ndefault_region = \"x\"\n"
    );
}

#[test]
fn a_mark_inside_quotes_opens_no_comment() {
    assert_eq!(
        set_default("default_profile = \"a#b\" # why\n", "default_profile", "c"),
        "default_profile = \"c\" # why\n"
    );
    assert_eq!(
        set_default("default_profile = 'a#b'\n", "default_profile", "c"),
        "default_profile = \"c\"\n"
    );
}

#[test]
fn what_was_set_is_read_back() {
    for value in ["prod", "a\"b", "back\\slash", "tab\there", "line\nbreak", "ñandú", ""] {
        for before in ["", "default_profile = \"x\" # c\ndefault_region = 'r'\n", "# only a comment"] {
            let after = set_default(before, "default_profile", value);
            let table: toml::Table = toml::from_str(&after).expect("still a configuration");
            assert_eq!(table.get("default_profile").and_then(|v| v.as_str()), Some(value));
            let region = toml::from_str::<toml::Table>(before).unwrap().get("default_region").cloned();
            assert_eq!(table.get("default_region").cloned(), region);
        }
    }
}

fn read(all: &str, key: &str) -> Option<String> {
    toml::from_str::<toml::Table>(all).expect("a configuration").get(key).and_then(|v| v.as_str()).map(str::to_string)
}

#[test]
fn a_quoted_key_is_the_same_key() {
    assert_eq!(
        set_default("\"default_profile\" = \"dev\" # mine\n", "default_profile", "prod"),
        "default_profile = \"prod\" # mine\n"
    );
    assert_eq!(set_default("'default_region' = 'r'\n", "default_region", "s"), "default_region = \"s\"\n");
    let after = set_default("'default_region' = 'r'\n", "default_region", "s");
    assert_eq!(read(&after, "default_region").as_deref(), Some("s"));
}

#[test]
fn lines_inside_of_a_value_set_nothing() {
    for before in [
        "note = \"\"\"\ndefault_profile = 'no'\n[x]\n\"\"\"\ndefault_profile = \"dev\"\n",
        "note = '''\ndefault_profile = 'no' \\\n[x]'''\ndefault_profile = \"dev\"\n",
        "note = [\n  [\"]\"], # default ]\n  ['b'],\n]\ndefault_profile = \"dev\"\n",
        "note = \"\"\"a \\\"\"\" b\ndefault_profile = 'no'\n\"\"\"\"\ndefault_profile = \"dev\"\n",
    ] {
        assert_eq!(read(before, "default_profile").as_deref(), Some("dev"));
        let after = set_default(before, "default_profile", "prod");
        assert_eq!(after, before.replace("default_profile = \"dev\"", "default_profile = \"prod\""));
        assert_eq!(read(&after, "default_profile").as_deref(), Some("prod"));
    }
}

#[test]
fn a_value_over_several_lines_is_replaced_whole() {
    let before = "a = 1\ndefault_profile = \"\"\"\none\ntwo\"\"\" # mine\nb = 2\n";
    assert_eq!(set_default(before, "default_profile", "x"), "a = 1\ndefault_profile = \"x\" # mine\nb = 2\n");
    let before = "default_region = '''\none\n'''\n[t]\nb = 2\n";
    assert_eq!(set_default(before, "default_region", "x"), "default_region = \"x\"\n[t]\nb = 2\n");
}

#[test]
fn a_value_without_an_end_costs_its_own_line_alone() {
    let before = "default_profile = \"\"\"one\ntwo\n";
    assert_eq!(set_default(before, "default_profile", "x"), "default_profile = \"x\"\ntwo\n");
}

#[test]
fn the_last_setting_counts() {
    for before in ["", "# c\n", "x = 1\ndefault_profile = 'y' # c\n", "default_profile = \"\"\"\na\"\"\"\nx = 1\n"] {
        for first in ["a", "\"\"", "#", "\u{1}\n", "[", "\\"] {
            let once = set_default(before, "default_profile", first);
            assert_eq!(read(&once, "default_profile").as_deref(), Some(first));
            let twice = set_default(&once, "default_profile", "last");
            assert_eq!(twice, set_default(before, "default_profile", "last"));
        }
    }
}
