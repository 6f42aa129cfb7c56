use divvun_api::data_files::EngineKind;
use divvun_api::error::OpenError;
use divvun_api::preferences::{copy_of, Preferences, PreferencesCache};
use divvun_api::registry::KindRegistry;
use divvun_api::server::state::LanguageSuggestions;

fn prefs(pairs: &[(&str, &str)]) -> Preferences {
    Preferences {
        entries: pairs.iter().map(|(id, label)| (id.to_string(), label.to_string())).collect(),
    }
}

#[test]
fn new_registry_is_empty() {
    let registry = KindRegistry::new(EngineKind::Spelling);
    assert_eq!(registry.kind(), EngineKind::Spelling);
    assert_eq!(registry.lookup("se"), None);
    assert!(registry.languages().is_empty());
}

#[test]
fn inserted_worker_is_found() {
    let mut registry = KindRegistry::new(EngineKind::Spelling);
    assert_eq!(registry.insert("se", Ok(7)), Ok(None));
    assert_eq!(registry.lookup("se"), Some(7));
    assert_eq!(registry.lookup("smj"), None);
    assert_eq!(registry.lookup("SE"), None);
}

#[test]
fn insert_displaces_the_earlier_worker() {
    let mut registry = KindRegistry::new(EngineKind::Grammar);
    assert_eq!(registry.insert("se", Ok(1)), Ok(None));
    assert_eq!(registry.insert("se", Ok(2)), Ok(Some(1)));
    assert_eq!(registry.lookup("se"), Some(2));
    assert_eq!(registry.languages(), vec!["se".to_string()]);
}

#[test]
fn failed_open_leaves_the_registry_alone() {
    let mut registry = KindRegistry::new(EngineKind::Spelling);
    assert_eq!(registry.insert("se", Ok(1)), Ok(None));
    assert_eq!(registry.insert("se", Err(OpenError::Corrupt)), Err(OpenError::Corrupt));
    assert_eq!(registry.insert("smj", Err(OpenError::Io)), Err(OpenError::Io));
    assert_eq!(registry.lookup("se"), Some(1));
    assert_eq!(registry.lookup("smj"), None);
}

#[test]
fn replace_swaps_in_one_step_or_not_at_all() {
    let mut registry = KindRegistry::new(EngineKind::Hyphenation);
    assert_eq!(registry.replace("se", Ok(1)), Ok(None));
    assert_eq!(registry.replace("se", Err(OpenError::Io)), Err(OpenError::Io));
    assert_eq!(registry.lookup("se"), Some(1));
    assert_eq!(registry.replace("se", Ok(2)), Ok(Some(1)));
    assert_eq!(registry.lookup("se"), Some(2));
}

#[test]
fn remove_returns_the_worker() {
    let mut registry = KindRegistry::new(EngineKind::Spelling);
    registry.insert("se", Ok(1)).unwrap();
    registry.insert("smj", Ok(2)).unwrap();
    assert_eq!(KindRegistry::remove(&mut registry, "se"), Some(1));
    assert_eq!(registry.lookup("se"), None);
    assert_eq!(registry.lookup("smj"), Some(2));
}

#[test]
fn remove_of_an_unknown_language_is_a_no_op() {
    let mut registry = KindRegistry::new(EngineKind::Spelling);
    registry.insert("se", Ok(1)).unwrap();
    assert_eq!(KindRegistry::remove(&mut registry, "xx"), None);
    assert_eq!(registry.lookup("se"), Some(1));
    assert_eq!(registry.languages().len(), 1);
}

#[test]
fn languages_lists_each_language_once() {
    let mut registry = KindRegistry::new(EngineKind::Spelling);
    registry.insert("se", Ok(1)).unwrap();
    registry.insert("smj", Ok(2)).unwrap();
    registry.insert("se", Ok(3)).unwrap();
    let mut languages = registry.languages();
    languages.sort();
    assert_eq!(languages, vec!["se".to_string(), "smj".to_string()]);
}

#[test]
fn suggestions_routes_or_names_the_missing_language() {
    let mut registry = KindRegistry::new(EngineKind::Spelling);
    assert_eq!(registry.add("se", 4), None);
    assert_eq!(registry.add("se", 5), Some(4));
    assert_eq!(registry.suggestions("se").unwrap(), 5);
    let error = registry.suggestions("xx").unwrap_err();
    assert_eq!(error.message, "No speller available for language xx");
    assert_eq!(LanguageSuggestions::remove(&mut registry, "se"), Some(5));
    let error = registry.suggestions("se").unwrap_err();
    assert_eq!(error.message, "No speller available for language se");
}

#[test]
fn cache_keeps_the_latest_preferences() {
    let mut cache = PreferencesCache::new();
    assert!(cache.get("se").is_none());
    cache.insert("se", prefs(&[("typo", "Čállinmeattáhusat")]));
    cache.insert("smj", prefs(&[]));
    assert_eq!(
        cache.get("se").unwrap().entries,
        vec![("typo".to_string(), "Čállinmeattáhusat".to_string())]
    );
    cache.insert("se", prefs(&[("a", "b"), ("c", "d")]));
    assert_eq!(cache.get("se").unwrap().entries.len(), 2);
    assert_eq!(cache.get("smj").unwrap().entries.len(), 0);
    cache.remove("se");
    assert!(cache.get("se").is_none());
    assert!(cache.get("smj").is_some());
    cache.remove("xx");
    assert!(cache.get("smj").is_some());
}

#[test]
fn copy_of_preferences_is_equal() {
    let first = prefs(&[("typo", "Typos"), ("space", "Spaces")]);
    let copy = copy_of(&first);
    assert_eq!(copy.entries, first.entries);
    assert!(Preferences::empty().entries.is_empty());
}
