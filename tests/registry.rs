use bevy_lint::callback::{BevyLintCallback, CompilerConfig, RegisterHook};
use bevy_lint::dispatch::{Dispatcher, PassKind};
use bevy_lint::lints::{register_groups, register_lints, register_passes};
use bevy_lint::registry::{find_last_level, Level, Lint, LintGroup, LintStore, RegistryError};
use bevy_lint::rustup::is_target_installed;

fn lint(name: &str) -> Lint {
    Lint { name: name.to_string(), default_level: Level::Warn, desc: String::new() }
}

fn bevy_store() -> LintStore {
    let mut store = LintStore::new();
    register_lints(&mut store).unwrap();
    register_groups(&mut store).unwrap();
    store
}

#[test]
fn duplicate_lint_is_refused() {
    let mut store = LintStore::new();
    assert_eq!(store.register_lint(lint("bevy::a")), Ok(()));
    assert_eq!(store.register_lint(lint("bevy::a")), Err(RegistryError::DuplicateLint));
    assert_eq!(store.lints.len(), 1);
}

#[test]
fn duplicate_group_is_refused() {
    let mut store = bevy_store();
    let g = LintGroup { name: "bevy::all".to_string(), members: Vec::new() };
    assert_eq!(store.register_group(g), Err(RegistryError::DuplicateGroup));
    let g = LintGroup { name: "bevy::zst_query".to_string(), members: Vec::new() };
    assert_eq!(store.register_group(g), Err(RegistryError::DuplicateGroup));
    assert_eq!(register_lints(&mut store), Err(RegistryError::DuplicateLint));
}

#[test]
fn expand_later_toggles_win() {
    let store = bevy_store();
    let toggles = vec![
        ("bevy::all".to_string(), Level::Deny),
        ("bevy::zst_query".to_string(), Level::Allow),
        ("bevy::nonexistent".to_string(), Level::Forbid),
    ];
    let pairs = store.expand(&toggles);
    assert_eq!(pairs.len(), 4);
    assert_eq!(find_last_level(&pairs, "bevy::zst_query"), Some(Level::Allow));
    assert_eq!(find_last_level(&pairs, "bevy::insert_event_resource"), Some(Level::Deny));
    assert_eq!(find_last_level(&pairs, "bevy::main_return_without_appexit"), Some(Level::Deny));
    assert_eq!(find_last_level(&pairs, "bevy::nonexistent"), None);
}

#[test]
fn callback_keeps_earlier_hooks() {
    let mut config = CompilerConfig {
        register_lints: vec![RegisterHook::Foreign(vec![lint("other::first")])],
        lint_opts: Vec::new(),
    };
    BevyLintCallback.config(&mut config);
    assert_eq!(config.register_lints.len(), 2);
    let mut store = LintStore::new();
    let mut dispatcher = Dispatcher::new();
    assert_eq!(config.run_register_lints(&mut store, &mut dispatcher), Ok(()));
    let names: Vec<&str> = store.lints.iter().map(|l| l.name.as_str()).collect();
    assert_eq!(
        names,
        vec!["other::first", "bevy::insert_event_resource", "bevy::main_return_without_appexit", "bevy::zst_query"]
    );
    assert_eq!(
        dispatcher.passes,
        vec![PassKind::InsertEventResource, PassKind::MainReturnWithoutAppExit, PassKind::ZstQuery]
    );
    assert_eq!(store.groups.len(), 4);
}

#[test]
fn passes_run_in_registration_order() {
    let mut dispatcher = Dispatcher::new();
    dispatcher.register_pass(PassKind::ZstQuery);
    register_passes(&mut dispatcher);
    assert_eq!(dispatcher.passes.len(), 4);
    assert_eq!(dispatcher.passes[0], PassKind::ZstQuery);
    assert_eq!(dispatcher.passes[1], PassKind::InsertEventResource);
}

#[test]
fn target_listing_is_scanned_by_line() {
    let list = "aarch64-apple-darwin\nwasm32-unknown-unknown (installed)\r\nx86_64-unknown-linux-gnu (installed)";
    assert!(is_target_installed("wasm32-unknown-unknown", list));
    assert!(is_target_installed("x86_64-unknown-linux-gnu", list));
    assert!(!is_target_installed("aarch64-apple-darwin", list));
    assert!(!is_target_installed("riscv64gc-unknown-none-elf", list));
    // The target and the mark must stand on the same line.
    assert!(!is_target_installed("aarch64-apple-darwin", "aarch64-apple-darwin\n(installed)\n"));
    assert!(!is_target_installed("wasm32-unknown-unknown", ""));
}

#[test]
fn resolved_level_follows_toggles() {
    let store = bevy_store();
    let opts = vec![("bevy::all".to_string(), Level::Deny), ("bevy::zst_query".to_string(), Level::Warn)];
    let zst = bevy_lint::lints::zst_query();
    assert_eq!(store.resolved_level(&zst, &opts), Level::Warn);
    let main = bevy_lint::lints::main_return_without_appexit();
    assert_eq!(store.resolved_level(&main, &opts), Level::Deny);
    assert_eq!(store.resolved_level(&main, &Vec::new()), Level::Warn);
    let forbidden = Lint { name: "bevy::zst_query".to_string(), default_level: Level::Forbid, desc: String::new() };
    assert_eq!(store.resolved_level(&forbidden, &opts), Level::Forbid);
}

#[test]
fn callback_chain_refuses_a_taken_name() {
    let mut config = CompilerConfig {
        register_lints: vec![RegisterHook::Foreign(vec![lint("bevy::zst_query")])],
        lint_opts: Vec::new(),
    };
    BevyLintCallback.config(&mut config);
    let mut store = LintStore::new();
    let mut dispatcher = Dispatcher::new();
    assert_eq!(config.run_register_lints(&mut store, &mut dispatcher), Err(RegistryError::DuplicateLint));
}
