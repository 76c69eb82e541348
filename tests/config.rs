use bevy_lint::config::{append_lint_levels_to_options, load_config, LintConfig, ManifestValue};
use bevy_lint::lints::{main_return_without_appexit, register_groups, register_lints};
use bevy_lint::registry::{effective_level, level_from_str, Level, LintStore};

fn s(v: &str) -> ManifestValue {
    ManifestValue::Str(v.to_string())
}

fn table(entries: Vec<(&str, ManifestValue)>) -> ManifestValue {
    ManifestValue::Table(entries.into_iter().map(|(k, v)| (k.to_string(), v)).collect())
}

fn manifest_with(section: ManifestValue) -> ManifestValue {
    table(vec![
        ("package", table(vec![("name", s("game")), ("metadata", table(vec![("bevy_lint", section)]))])),
    ])
}

fn sample_section() -> ManifestValue {
    table(vec![
        ("zst_query", s("warn")),
        ("insert_event_resource", table(vec![("level", s("allow")), ("threshold", ManifestValue::Int(3))])),
        ("main_return_without_appexit", table(vec![("level", s("loud"))])),
        ("unknown_shape", ManifestValue::Bool(true)),
    ])
}

fn param_names(config: &LintConfig, lint: &str) -> Vec<String> {
    config.with_config(lint, |t: &Vec<(String, ManifestValue)>| t.iter().map(|(k, _)| k.clone()).collect())
}

#[test]
fn load_reads_levels_and_parameters() {
    let mut config = LintConfig::new();
    let mut opts = Vec::new();
    load_config(&mut config, &mut opts, true, Some(manifest_with(sample_section())));
    assert_eq!(
        opts,
        vec![
            ("bevy::zst_query".to_string(), Level::Warn),
            ("bevy::insert_event_resource".to_string(), Level::Allow),
        ]
    );
    assert_eq!(param_names(&config, "insert_event_resource"), vec!["threshold".to_string()]);
    assert!(param_names(&config, "zst_query").is_empty());
    assert!(param_names(&config, "main_return_without_appexit").is_empty());
}

#[test]
fn load_twice_gives_the_same_configuration() {
    let mut config = LintConfig::new();
    let mut opts_a = Vec::new();
    load_config(&mut config, &mut opts_a, true, Some(manifest_with(sample_section())));
    let first = format!("{:?}", config);
    let mut opts_b = Vec::new();
    load_config(&mut config, &mut opts_b, true, Some(manifest_with(sample_section())));
    assert_eq!(format!("{:?}", config), first);
    assert_eq!(opts_a, opts_b);
}

#[test]
fn load_without_section_clears_previous_configuration() {
    let mut config = LintConfig::new();
    let mut opts = Vec::new();
    load_config(&mut config, &mut opts, true, Some(manifest_with(sample_section())));
    assert_eq!(config.entries.len(), 1);
    let mut opts = Vec::new();
    let bare = table(vec![("package", table(vec![("name", s("game"))]))]);
    load_config(&mut config, &mut opts, true, Some(bare));
    assert!(config.entries.is_empty());
    assert!(opts.is_empty());
}

#[test]
fn load_outside_cargo_ignores_manifest() {
    let mut config = LintConfig::new();
    let mut opts = Vec::new();
    load_config(&mut config, &mut opts, false, Some(manifest_with(sample_section())));
    assert!(config.entries.is_empty());
    assert!(opts.is_empty());
}

#[test]
fn scenario_no_manifest() {
    let mut config = LintConfig::new();
    let mut opts = vec![("bevy::all".to_string(), Level::Warn)];
    load_config(&mut config, &mut opts, true, None);
    for lint in ["insert_event_resource", "main_return_without_appexit", "zst_query"] {
        assert!(param_names(&config, lint).is_empty());
        assert!(config.get(lint).is_none());
    }
    assert_eq!(opts, vec![("bevy::all".to_string(), Level::Warn)]);
}

#[test]
fn append_levels_skips_malformed_entries() {
    let section = match sample_section() {
        ManifestValue::Table(t) => t,
        _ => unreachable!(),
    };
    let mut opts = vec![("bevy::all".to_string(), Level::Deny)];
    append_lint_levels_to_options(&mut opts, &section);
    assert_eq!(opts.len(), 3);
    assert_eq!(opts[1], ("bevy::zst_query".to_string(), Level::Warn));
    assert_eq!(opts[2], ("bevy::insert_event_resource".to_string(), Level::Allow));
}

#[test]
fn level_strings() {
    assert_eq!(level_from_str("allow"), Some(Level::Allow));
    assert_eq!(level_from_str("warn"), Some(Level::Warn));
    assert_eq!(level_from_str("deny"), Some(Level::Deny));
    assert_eq!(level_from_str("forbid"), Some(Level::Forbid));
    assert_eq!(level_from_str("Warn"), None);
    assert_eq!(level_from_str(""), None);
}

#[test]
fn configured_level_overrides_default_but_not_forbid() {
    assert_eq!(effective_level(Level::Warn, Some(Level::Allow)), Level::Allow);
    assert_eq!(effective_level(Level::Deny, Some(Level::Warn)), Level::Warn);
    assert_eq!(effective_level(Level::Allow, None), Level::Allow);
    assert_eq!(effective_level(Level::Forbid, Some(Level::Allow)), Level::Forbid);
    assert_eq!(effective_level(Level::Forbid, None), Level::Forbid);
}

#[test]
fn configured_deny_overrides_warn_default() {
    let mut store = LintStore::new();
    register_lints(&mut store).unwrap();
    register_groups(&mut store).unwrap();
    let section = table(vec![
        ("zst_query", s("warn")),
        ("main_return_without_appexit", table(vec![("level", s("deny"))])),
    ]);
    let mut config = LintConfig::new();
    let mut opts = vec![("bevy::all".to_string(), Level::Allow)];
    load_config(&mut config, &mut opts, true, Some(manifest_with(section)));
    assert_eq!(store.resolved_level(&main_return_without_appexit(), &opts), Level::Deny);
}
