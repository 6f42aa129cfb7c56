use divvun_api::data_files::{classify_by_name, EngineKind};
use divvun_api::error::{DispatchError, OpenError, WorkerError};
use divvun_api::languages::{language_title, same_text};
use divvun_api::preferences::Preferences;
use divvun_api::server::state::{
    answer, create_state, get_gramcheck_preferences, get_gramchecker, get_hyphenation,
    get_speller, Config, InnerState, LoadedFile, Mutation, UnhoistFutureExt,
};
use divvun_api::watcher::Opened;

fn config() -> Config {
    Config {
        addr: "127.0.0.1:8080".to_string(),
        data_file_dir: "data".to_string(),
        watcher_interval_ms: 2000,
    }
}

fn prefs(pairs: &[(&str, &str)]) -> Preferences {
    Preferences {
        entries: pairs.iter().map(|(id, label)| (id.to_string(), label.to_string())).collect(),
    }
}

fn loaded(path: &str, worker: u64, preferences: Preferences) -> LoadedFile {
    LoadedFile {
        file: classify_by_name(path).unwrap(),
        outcome: Ok(Opened { worker, preferences }),
    }
}

fn failed(path: &str, error: OpenError) -> LoadedFile {
    LoadedFile { file: classify_by_name(path).unwrap(), outcome: Err(error) }
}

fn message(error: DispatchError) -> String {
    error.to_api_error().message
}

#[test]
fn titles_of_the_known_languages() {
    assert_eq!(language_title("se"), "davvisámegiella");
    assert_eq!(language_title("smj"), "julevsámegiella");
    assert_eq!(language_title("xx"), "");
    assert_eq!(language_title(""), "");
    assert_eq!(language_title("SE"), "");
}

#[test]
fn same_text_compares_character_by_character() {
    assert!(same_text("se", "se"));
    assert!(!same_text("se", "smj"));
    assert!(!same_text("se", "sé"));
    assert!(same_text("", ""));
}

#[test]
fn messages_of_the_errors() {
    assert_eq!(
        message(DispatchError::NoSuchLanguage(EngineKind::Spelling, "xx".to_string())),
        "No speller available for language xx"
    );
    assert_eq!(
        message(DispatchError::NoSuchLanguage(EngineKind::Grammar, "xx".to_string())),
        "No grammar checker available for language xx"
    );
    assert_eq!(
        message(DispatchError::NoSuchLanguage(EngineKind::Hyphenation, "smj".to_string())),
        "No hyphenator available for language smj"
    );
    assert_eq!(message(DispatchError::InputError), "The request holds no text");
    assert_eq!(
        message(DispatchError::EngineFault(WorkerError::EngineFault)),
        "The language engine failed on the request"
    );
    assert_eq!(
        message(DispatchError::EngineFault(WorkerError::Closed)),
        "The language engine failed on the request"
    );
}

#[test]
fn unknown_language_is_reported_with_its_code() {
    let state = InnerState::new(config());
    match state.suggest(EngineKind::Spelling, "xx") {
        Err(DispatchError::NoSuchLanguage(kind, language)) => {
            assert_eq!(kind, EngineKind::Spelling);
            assert_eq!(language, "xx");
        }
        other => panic!("unexpected {:?}", other),
    }
    let error = state.suggest(EngineKind::Spelling, "xx").unwrap_err().to_api_error();
    assert!(error.message.contains("No speller available for"));
    assert!(error.message.contains("xx"));
}

#[test]
fn suggest_routes_by_kind_and_language() {
    let mut state = InnerState::new(config());
    state.apply(Mutation::InstallWorker {
        kind: EngineKind::Spelling,
        language: "se".to_string(),
        worker: 11,
    });
    state.apply(Mutation::InstallWorker {
        kind: EngineKind::Grammar,
        language: "se".to_string(),
        worker: 12,
    });
    assert_eq!(state.suggest(EngineKind::Spelling, "se").unwrap(), 11);
    assert_eq!(state.suggest(EngineKind::Grammar, "se").unwrap(), 12);
    assert!(state.suggest(EngineKind::Hyphenation, "se").is_err());
    assert!(state.suggest(EngineKind::Spelling, "smj").is_err());
}

#[test]
fn apply_returns_the_worker_put_out_of_service() {
    let mut state = InnerState::new(config());
    let install = |worker| Mutation::InstallWorker {
        kind: EngineKind::Hyphenation,
        language: "se".to_string(),
        worker,
    };
    assert_eq!(state.apply(install(1)), None);
    assert_eq!(state.apply(install(2)), Some(1));
    assert_eq!(
        state.apply(Mutation::StorePreferences {
            language: "se".to_string(),
            preferences: prefs(&[("a", "b")]),
        }),
        None
    );
    assert_eq!(state.apply(Mutation::ClearPreferences { language: "se".to_string() }), None);
    let remove = || Mutation::RemoveWorker {
        kind: EngineKind::Hyphenation,
        language: "se".to_string(),
    };
    assert_eq!(state.apply(remove()), Some(2));
    assert_eq!(state.apply(remove()), None);
    assert_eq!(
        state.apply_all(vec![install(3), install(4), remove(), remove(), install(5)]),
        vec![3, 4]
    );
    assert_eq!(state.suggest(EngineKind::Hyphenation, "se").unwrap(), 5);
}

#[test]
fn answer_maps_worker_errors_to_engine_faults() {
    assert_eq!(answer::<u32>(Ok(5)).unwrap(), 5);
    for fault in [WorkerError::Busy, WorkerError::Closed, WorkerError::EngineFault] {
        match answer::<u32>(Err(fault)) {
            Err(DispatchError::EngineFault(inner)) => assert_eq!(inner, fault),
            other => panic!("unexpected {:?}", other),
        }
    }
}

#[test]
fn available_lists_loaded_kinds_only() {
    let mut state = InnerState::new(config());
    assert!(state.available().is_empty());
    state.apply(Mutation::InstallWorker {
        kind: EngineKind::Grammar,
        language: "se".to_string(),
        worker: 1,
    });
    state.apply(Mutation::InstallWorker {
        kind: EngineKind::Spelling,
        language: "se".to_string(),
        worker: 2,
    });
    let listings = state.available();
    assert_eq!(listings.len(), 2);
    assert_eq!(listings[0].kind, EngineKind::Spelling);
    assert_eq!(listings[0].languages, vec![("se".to_string(), "davvisámegiella".to_string())]);
    assert_eq!(listings[1].kind, EngineKind::Grammar);
    assert_eq!(listings[1].languages, vec![("se".to_string(), "davvisámegiella".to_string())]);
}

#[test]
fn available_gives_titles_and_empty_title_for_unknown_codes() {
    let mut state = InnerState::new(config());
    for (language, worker) in [("se", 1), ("smj", 2), ("xx", 3)] {
        state.apply(Mutation::InstallWorker {
            kind: EngineKind::Hyphenation,
            language: language.to_string(),
            worker,
        });
    }
    let mut listings = state.available();
    assert_eq!(listings.len(), 1);
    assert_eq!(listings[0].kind, EngineKind::Hyphenation);
    listings[0].languages.sort();
    assert_eq!(
        listings[0].languages,
        vec![
            ("se".to_string(), "davvisámegiella".to_string()),
            ("smj".to_string(), "julevsámegiella".to_string()),
            ("xx".to_string(), "".to_string()),
        ]
    );
}

#[test]
fn every_available_language_is_routed() {
    let files = vec![
        loaded("spelling/se.zhfst", 1, prefs(&[])),
        loaded("grammar/se.zcheck", 2, prefs(&[("typo", "Typos")])),
        loaded("hyphenation/smj.hfstol", 3, prefs(&[])),
    ];
    let (state, _) = create_state(config(), &files);
    let listings = state.available();
    assert_eq!(listings.len(), 3);
    for listing in listings {
        for (language, _) in listing.languages {
            assert!(state.suggest(listing.kind, &language).is_ok());
        }
    }
}

#[test]
fn preferences_of_a_grammar_language() {
    let files = vec![
        loaded("grammar/se.zcheck", 2, prefs(&[("typo", "Čállinmeattáhusat")])),
        loaded("spelling/smj.zhfst", 3, prefs(&[])),
    ];
    let (mut state, _) = create_state(config(), &files);
    assert_eq!(
        state.preferences("se").unwrap().entries,
        vec![("typo".to_string(), "Čállinmeattáhusat".to_string())]
    );
    match state.preferences("smj") {
        Err(DispatchError::NoSuchLanguage(kind, language)) => {
            assert_eq!(kind, EngineKind::Grammar);
            assert_eq!(language, "smj");
        }
        other => panic!("unexpected {:?}", other),
    }
    state.apply(Mutation::ClearPreferences { language: "se".to_string() });
    assert!(state.preferences("se").unwrap().entries.is_empty());
}

#[test]
fn state_at_start_holds_what_could_be_opened() {
    let files = vec![
        loaded("data/spelling/se.zhfst", 1, prefs(&[])),
        failed("data/spelling/smj.zhfst", OpenError::Corrupt),
        loaded("data/grammar/se.zcheck", 2, prefs(&[("a", "b")])),
        failed("data/grammar/smj.zcheck", OpenError::Io),
        loaded("data/hyphenation/se.hfstol", 3, prefs(&[])),
    ];
    let cfg = config();
    let (state, retired) = create_state(cfg, &files);
    assert!(retired.is_empty());
    assert_eq!(state.config.data_file_dir, "data");
    assert_eq!(state.config.watcher_interval_ms, 2000);
    assert_eq!(state.suggest(EngineKind::Spelling, "se").unwrap(), 1);
    assert_eq!(state.suggest(EngineKind::Grammar, "se").unwrap(), 2);
    assert_eq!(state.suggest(EngineKind::Hyphenation, "se").unwrap(), 3);
    assert!(state.suggest(EngineKind::Spelling, "smj").is_err());
    assert!(state.suggest(EngineKind::Grammar, "smj").is_err());
    assert!(state.preferences("smj").is_err());
    assert_eq!(state.preferences("se").unwrap().entries.len(), 1);
}

#[test]
fn later_file_of_a_language_displaces_the_earlier() {
    let files = vec![
        loaded("spelling/se.zhfst", 1, prefs(&[])),
        loaded("grammar/se.zcheck", 5, prefs(&[("a", "b")])),
        loaded("spelling/se.ZHFST", 2, prefs(&[])),
        loaded("grammar/se.ZCHECK", 6, prefs(&[("c", "d")])),
        failed("spelling/se.Zhfst", OpenError::Io),
    ];
    let (state, retired) = create_state(config(), &files);
    assert_eq!(retired, vec![1, 5]);
    assert_eq!(state.suggest(EngineKind::Spelling, "se").unwrap(), 2);
    assert_eq!(state.suggest(EngineKind::Grammar, "se").unwrap(), 6);
    assert_eq!(
        state.preferences("se").unwrap().entries,
        vec![("c".to_string(), "d".to_string())]
    );
}

#[test]
fn registries_at_start_are_filled_by_kind() {
    let files = vec![
        loaded("spelling/se.zhfst", 1, prefs(&[])),
        loaded("grammar/se.zcheck", 2, prefs(&[("a", "b")])),
        loaded("hyphenation/smj.hfstol", 3, prefs(&[("x", "y")])),
        loaded("spelling/se.ZHFST", 4, prefs(&[])),
    ];
    let (spellers, displaced) = get_speller(&files);
    assert_eq!(spellers.kind(), EngineKind::Spelling);
    assert_eq!(spellers.lookup("se"), Some(4));
    assert_eq!(spellers.lookup("smj"), None);
    assert_eq!(displaced, vec![1]);
    let (checkers, displaced) = get_gramchecker(&files);
    assert_eq!(checkers.kind(), EngineKind::Grammar);
    assert_eq!(checkers.lookup("se"), Some(2));
    assert!(displaced.is_empty());
    let (hyphenators, displaced) = get_hyphenation(&files);
    assert_eq!(hyphenators.kind(), EngineKind::Hyphenation);
    assert_eq!(hyphenators.lookup("smj"), Some(3));
    assert_eq!(hyphenators.lookup("se"), None);
    assert!(displaced.is_empty());
    let cache = get_gramcheck_preferences(&files);
    assert_eq!(cache.get("se").unwrap().entries, vec![("a".to_string(), "b".to_string())]);
    assert!(cache.get("smj").is_none());
}

#[test]
fn unhoist_makes_one_outcome_of_two() {
    let inner_ok: Result<Result<u8, String>, String> = Ok(Ok(1));
    assert_eq!(inner_ok.unhoist(), Ok(1));
    let inner_err: Result<Result<u8, String>, String> = Ok(Err("inner".to_string()));
    assert_eq!(inner_err.unhoist(), Err("inner".to_string()));
    let outer_err: Result<Result<u8, String>, String> = Err("outer".to_string());
    assert_eq!(outer_err.unhoist(), Err("outer".to_string()));
}
