use awsdeck::aws::context::Env;
use awsdeck::config::{pick_env, sort_out, Config, EnvHistory, Favorite, State, FAVORITES_CAP};

#[test]
fn toggle_favorite_adds_then_flips() {
    let mut s = State::default();
    assert!(
        s.toggle_favorite("p", "r", "logs", "g", "g"),
        "no existía → favorito"
    );
    assert_eq!(s.favorites_for("p", "r").len(), 1);
    assert!(s.favorites_for("p", "r")[0].is_favorite);
    assert!(!s.toggle_favorite("p", "r", "logs", "g", "g"));
    assert_eq!(s.favorites_for("p", "r").len(), 1);
    assert!(!s.favorites_for("p", "r")[0].is_favorite);
}

#[test]
fn record_recent_moves_to_front_and_keeps_favorite_flag() {
    let mut s = State::default();
    s.toggle_favorite("p", "r", "logs", "a", "a");
    s.record_recent("p", "r", "sqs", "b", "b");
    assert_eq!(s.favorites_for("p", "r")[0].key, "b");
    s.record_recent("p", "r", "logs", "a", "a");
    let favs = s.favorites_for("p", "r");
    assert_eq!(favs[0].key, "a");
    assert!(favs[0].is_favorite, "el flag de favorito se conserva");
    assert_eq!(favs.len(), 2, "no duplica");
}

#[test]
fn prune_keeps_favorites_and_caps_recents() {
    let mut s = State::default();
    s.toggle_favorite("p", "r", "logs", "fav", "fav");
    for i in 0..(FAVORITES_CAP + 5) {
        s.record_recent("p", "r", "sqs", &format!("r{i}"), "r");
    }
    let favs = s.favorites_for("p", "r");
    let recents = favs.iter().filter(|f| !f.is_favorite).count();
    let favcount = favs.iter().filter(|f| f.is_favorite).count();
    assert_eq!(favcount, 1, "el favorito nunca se poda");
    assert_eq!(recents, FAVORITES_CAP, "los recientes se topan en CAP");
}

#[test]
fn favorites_are_isolated_per_env() {
    let mut s = State::default();
    s.toggle_favorite("prod", "eu-west-1", "logs", "ga", "ga");
    s.record_recent("dev", "us-east-1", "sqs", "qb", "qb");
    let a = s.favorites_for("prod", "eu-west-1");
    let b = s.favorites_for("dev", "us-east-1");
    assert_eq!(a.len(), 1);
    assert_eq!(a[0].key, "ga");
    assert_eq!(b.len(), 1);
    assert_eq!(b[0].key, "qb");
    assert!(a.iter().all(|f| f.key != "qb"));
    assert!(b.iter().all(|f| f.key != "ga"));
}

#[test]
fn prune_is_per_env_not_global() {
    let mut s = State::default();
    for i in 0..(FAVORITES_CAP + 5) {
        s.record_recent("a", "r", "sqs", &format!("a{i}"), "a");
    }
    for i in 0..3 {
        s.record_recent("b", "r", "sqs", &format!("b{i}"), "b");
    }
    assert_eq!(
        s.favorites_for("a", "r").len(),
        FAVORITES_CAP,
        "A se topa dentro de su bucket"
    );
    assert_eq!(
        s.favorites_for("b", "r").len(),
        3,
        "B conserva los suyos (el cap no es global)"
    );
}

#[test]
fn favorites_for_does_not_create_bucket() {
    let s = State::default();
    assert!(s.favorites_for("p", "r").is_empty());
    assert!(s.environments.is_empty(), "leer no crea bucket");
}


#[test]
fn pick_env_precedence_env_over_config_over_state() {
    let config = Config {
        default_profile: Some("cfg-prof".into()),
        default_region: Some("cfg-region".into()),
        default_tail_window: None,
        event_presets: Vec::new(),
    };
    let state = State {
        last_profile: Some("state-prof".into()),
        last_region: Some("state-region".into()),
        ..State::default()
    };
    let e = pick_env(
        Some("env-prof".into()),
        Some("env-region".into()),
        &config,
        &state,
    );
    assert_eq!(e, Env::new("env-prof", "env-region"));
    let e = pick_env(None, None, &config, &state);
    assert_eq!(e, Env::new("cfg-prof", "cfg-region"));
}

#[test]
fn pick_env_falls_back_to_state_then_default() {
    let config = Config::default();
    let state = State {
        last_profile: Some("last".into()),
        last_region: None,
        ..State::default()
    };
    let e = pick_env(None, None, &config, &state);
    assert_eq!(e, Env::new("last", "us-east-1"));
}

fn string_of(table: &toml::Table, key: &str) -> Option<String> {
    table.get(key).and_then(|v| v.as_str()).map(str::to_string)
}

fn favorites_of(table: &toml::Table) -> Vec<Favorite> {
    let Some(list) = table.get("favorites").and_then(|v| v.as_array()) else {
        return Vec::new();
    };
    list.iter()
        .map(|v| {
            let t = v.as_table().unwrap();
            Favorite {
                view_id: string_of(t, "view_id").unwrap(),
                key: string_of(t, "key").unwrap(),
                label: string_of(t, "label").unwrap(),
                is_favorite: t.get("is_favorite").and_then(|v| v.as_bool()).unwrap_or(false),
            }
        })
        .collect()
}

/// Reads a state file and moves what an old one held.
fn parse_state(text: &str) -> Option<State> {
    let table: toml::Table = toml::from_str(text).ok()?;
    let environments = match table.get("environments").and_then(|v| v.as_array()) {
        Some(list) => list
            .iter()
            .map(|v| {
                let t = v.as_table().unwrap();
                EnvHistory {
                    profile: string_of(t, "profile").unwrap(),
                    region: string_of(t, "region").unwrap(),
                    favorites: favorites_of(t),
                }
            })
            .collect(),
        None => Vec::new(),
    };
    let mut state = State {
        last_profile: string_of(&table, "last_profile"),
        last_region: string_of(&table, "last_region"),
        environments,
        legacy_favorites: favorites_of(&table),
    };
    state.migrate_legacy();
    Some(state)
}

fn favorite_tables(favs: &[Favorite]) -> toml::Value {
    let list = favs
        .iter()
        .map(|f| {
            let mut t = toml::Table::new();
            t.insert("view_id".to_string(), f.view_id.clone().into());
            t.insert("key".to_string(), f.key.clone().into());
            t.insert("label".to_string(), f.label.clone().into());
            t.insert("is_favorite".to_string(), f.is_favorite.into());
            toml::Value::Table(t)
        })
        .collect();
    toml::Value::Array(list)
}

/// Everything that a state holds, resources of an old file too.
fn state_text(state: &State) -> String {
    let mut table = toml::Table::new();
    if let Some(p) = &state.last_profile {
        table.insert("last_profile".to_string(), p.clone().into());
    }
    if let Some(r) = &state.last_region {
        table.insert("last_region".to_string(), r.clone().into());
    }
    if !state.environments.is_empty() {
        let list = state
            .environments
            .iter()
            .map(|e| {
                let mut t = toml::Table::new();
                t.insert("profile".to_string(), e.profile.clone().into());
                t.insert("region".to_string(), e.region.clone().into());
                t.insert("favorites".to_string(), favorite_tables(&e.favorites));
                toml::Value::Table(t)
            })
            .collect();
        table.insert("environments".to_string(), toml::Value::Array(list));
    }
    if !state.legacy_favorites.is_empty() {
        table.insert("favorites".to_string(), favorite_tables(&state.legacy_favorites));
    }
    toml::to_string(&table).unwrap()
}

#[test]
fn state_round_trips_through_toml() {
    let mut s = State {
        last_profile: Some("prod".to_string()),
        last_region: Some("eu-west-1".to_string()),
        ..State::default()
    };
    s.toggle_favorite("prod", "eu-west-1", "logs", "/aws/lambda/api", "/aws/lambda/api");
    s.record_recent("prod", "eu-west-1", "sqs", "https://sqs/q1", "q1");
    let toml = state_text(&s);
    let back = parse_state(&toml).expect("re-parsea");
    assert_eq!(back.last_profile.as_deref(), Some("prod"));
    assert_eq!(back.last_region.as_deref(), Some("eu-west-1"));
    let favs = back.favorites_for("prod", "eu-west-1");
    assert_eq!(favs.len(), 2, "favoritos sobreviven el round-trip");
    assert!(favs.iter().any(|f| f.view_id == "logs" && f.is_favorite));
    assert!(favs.iter().any(|f| f.view_id == "sqs" && !f.is_favorite));
}

#[test]
fn empty_state_parses_to_default() {
    let s = parse_state("").expect("vacío parsea a default");
    assert!(s.last_profile.is_none() && s.last_region.is_none());
    assert!(s.environments.is_empty());
}

#[test]
fn state_v1_without_favorites_key_parses() {
    let s = parse_state("last_profile = \"prod\"\nlast_region = \"us-east-1\"").expect("v1 parsea");
    assert_eq!(s.last_profile.as_deref(), Some("prod"));
    assert!(s.environments.is_empty());
}

#[test]
fn legacy_flat_favorites_migrate_into_last_env_bucket() {
    let v2 = r#"
            last_profile = "prod"
            last_region = "eu-west-1"

            [[favorites]]
            view_id = "logs"
            key = "g1"
            label = "g1"
            is_favorite = true

            [[favorites]]
            view_id = "sqs"
            key = "q1"
            label = "q1"
            is_favorite = false
        "#;
    let s = parse_state(v2).expect("v2 parsea y migra");
    let favs = s.favorites_for("prod", "eu-west-1");
    assert_eq!(favs.len(), 2);
    assert_eq!(favs[0].key, "g1");
    assert_eq!(favs[1].key, "q1");
    let out = state_text(&s);
    assert!(out.contains("[[environments"), "usa el esquema por-ambiente");
    assert!(!out.contains("[[favorites"), "no reescribe el listado plano legacy");
}

#[test]
fn legacy_migration_without_last_env_uses_defaults() {
    let v2 = r#"
            [[favorites]]
            view_id = "logs"
            key = "g1"
            label = "g1"
            is_favorite = true
        "#;
    let s = parse_state(v2).expect("v2 sin last_* parsea y migra");
    let favs = s.favorites_for("default", "us-east-1");
    assert_eq!(favs.len(), 1, "cae al ambiente default");
    assert_eq!(favs[0].key, "g1");
}

#[test]
fn migration_puts_old_resources_first_and_prunes() {
    let mut s = State::default();
    s.record_recent("default", "us-east-1", "sqs", "there", "there");
    for i in 0..(FAVORITES_CAP + 3) {
        s.legacy_favorites.push(Favorite {
            view_id: "logs".to_string(),
            key: format!("g{i}"),
            label: "g".to_string(),
            is_favorite: i == FAVORITES_CAP + 2,
        });
    }
    s.migrate_legacy();
    let favs = s.favorites_for("default", "us-east-1");
    assert_eq!(favs.len(), FAVORITES_CAP + 1);
    assert_eq!(favs[0].key, "g0");
    assert_eq!(favs[FAVORITES_CAP - 1].key, format!("g{}", FAVORITES_CAP - 1));
    assert_eq!(favs[FAVORITES_CAP].key, format!("g{}", FAVORITES_CAP + 2));
    assert!(s.legacy_favorites.is_empty());
    s.migrate_legacy();
    assert_eq!(s.favorites_for("default", "us-east-1").len(), FAVORITES_CAP + 1, "a second time changes nothing");
}

#[test]
fn toggling_twice_gives_the_mark_back() {
    let mut s = State::default();
    s.record_recent("p", "r", "logs", "a", "a");
    s.record_recent("p", "r", "logs", "b", "b");
    s.toggle_favorite("p", "r", "logs", "a", "a");
    s.toggle_favorite("p", "r", "logs", "a", "a");
    let keys: Vec<&str> = s.favorites_for("p", "r").iter().map(|f| f.key.as_str()).collect();
    assert_eq!(keys, ["b", "a"]);
    assert!(s.favorites_for("p", "r").iter().all(|f| !f.is_favorite));
}

#[test]
fn toggling_refreshes_the_label() {
    let mut s = State::default();
    s.record_recent("p", "r", "logs", "a", "old");
    assert!(s.toggle_favorite("p", "r", "logs", "a", "new"));
    assert_eq!(s.favorites_for("p", "r")[0].label, "new");
}

#[test]
fn one_resource_is_remembered_once() {
    let mut s = State::default();
    for _ in 0..3 {
        s.record_recent("p", "r", "logs", "a", "a");
        s.record_recent("p", "r", "sqs", "a", "a");
    }
    assert_eq!(s.favorites_for("p", "r").len(), 2);
    assert_eq!(s.environments.len(), 1);
}

#[test]
fn favorites_and_recents_are_sorted_out() {
    let mut s = State::default();
    s.record_recent("p", "r", "logs", "a", "a");
    s.toggle_favorite("p", "r", "sqs", "q", "q");
    s.record_recent("p", "r", "logs", "c", "c");
    let favs = s.favorites_for("p", "r");
    let marked = sort_out(favs, true);
    let recent = sort_out(favs, false);
    assert_eq!(marked.len(), 1);
    assert_eq!(marked[0].key, "q");
    assert_eq!(recent.len(), 2);
    assert_eq!((recent[0].key.as_str(), recent[1].key.as_str()), ("c", "a"));
}
