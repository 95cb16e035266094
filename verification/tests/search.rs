use registry_search::text_set::TextSet;
use registry_search::worker_manager::{
    run_thread, KeyAction, KeyContents, KeyEvent, RegistryValue, RunAction, RunEvent, SearchCounters, Signal, Work,
    WorkerEvent, WorkerManager, RUN_POLL_INTERVAL_MS,
};

fn search_for(terms: &[&str]) -> WorkerManager {
    WorkerManager::new(terms.iter().map(|term| term.to_string()).collect(), 2)
}

fn value(name: &str, data: &str, kind: &str) -> Result<RegistryValue, String> {
    Ok(RegistryValue { name: name.to_string(), data: data.to_string(), kind: kind.to_string() })
}

fn key(path: &str) -> Work {
    Work::Process(path.to_string())
}

fn sorted(set: &TextSet) -> Vec<String> {
    let mut list = set.list().clone();
    list.sort();
    list
}

#[test]
fn matching_ignores_case() {
    let manager = search_for(&["Google Chrome", "7-ZIP"]);
    assert!(manager.string_matches("Software\\GOOGLE chrome\\Update"));
    assert!(manager.string_matches("7-zip"));
    assert!(!manager.string_matches("Software\\Google"));
    assert!(!manager.string_matches(""));
    let manager = search_for(&["\u{c4}PFEL"]);
    assert!(manager.string_matches("rote \u{e4}pfel"));
}

#[test]
fn either_text_can_match() {
    let manager = search_for(&["zip"]);
    assert!(manager.any_string_matches("Zip", "none"));
    assert!(manager.any_string_matches("none", "ZIP"));
    assert!(!manager.any_string_matches("none", "either"));
    assert!(!manager.any_string_matches("zi", "p"));
}

#[test]
fn matching_lower_case_texts_takes_them_as_they_are() {
    let manager = WorkerManager::with_lowercase_terms(vec!["abc".to_string()], 1);
    assert!(manager.matches_lowercase("xxabcxx"));
    assert!(!manager.matches_lowercase("xxABCxx"));
    assert!(!manager.matches_lowercase("ab"));
    assert!(manager.string_matches("xxABCxx"));
}

#[test]
fn no_terms_match_nothing_and_an_empty_term_matches_all() {
    assert!(!search_for(&[]).string_matches("anything"));
    assert!(!search_for(&[]).string_matches(""));
    assert!(search_for(&[""]).string_matches("anything"));
    assert!(search_for(&["x", ""]).string_matches(""));
}

#[test]
fn terms_add_up() {
    let both = search_for(&["one", "two"]);
    assert!(both.string_matches("someone"));
    assert!(both.string_matches("network: two"));
    assert!(!both.string_matches("three"));
}

#[test]
fn a_part_that_matches_makes_the_whole_match() {
    let manager = search_for(&["zip"]);
    assert!(manager.string_matches("zip"));
    assert!(manager.string_matches("un-zip-ped"));
}

#[test]
fn what_is_found_stays_found() {
    let mut manager = search_for(&["zip"]);
    let mut counters = SearchCounters::new();
    manager.visit_key("Zip");
    manager.read_subkeys(&mut counters, "Zip", &vec![Err("denied".to_string())]);
    manager.read_values(&mut counters, "Other", &vec![value("a", "b", "REG_SZ")]);
    manager.feed_queue(vec!["k".to_string()]);
    run_thread(&mut manager, WorkerEvent::Started);
    run_thread(&mut manager, WorkerEvent::Started);
    run_thread(&mut manager, WorkerEvent::Woken(Signal::NoWorkLeft));
    assert!(manager.results.contains("HKEY_LOCAL_MACHINE\\Zip"));
    assert!(manager.errors.contains("Zip, Subkey error: \"denied\""));
    assert!(manager.string_matches("zip"));
    assert_eq!(manager.run(RunEvent::Started), RunAction::Launch { workers: 2 });
}

#[test]
fn keys_leave_in_the_order_in_which_they_came() {
    let mut manager = search_for(&[]);
    manager.feed_queue(vec!["a".to_string(), "b".to_string()]);
    manager.feed_queue(vec![]);
    manager.feed_queue(vec!["c".to_string()]);
    assert_eq!(manager.get_work(None), key("a"));
    assert_eq!(manager.get_work(None), key("b"));
    manager.feed_queue(vec!["d".to_string()]);
    assert_eq!(manager.get_work(None), key("c"));
    assert_eq!(manager.get_work(None), key("d"));
    assert_eq!(manager.get_work(None), Work::Wait);
}

#[test]
fn a_key_that_can_be_opened_is_reported_and_followed() {
    let mut manager = search_for(&["zip"]);
    let mut counters = SearchCounters::new();
    let contents = KeyContents {
        subkeys: vec![
            Ok("Options".to_string()),
            Err("denied".to_string()),
            Ok("Compression".to_string()),
        ],
        values: vec![
            value("Path", "\"C:\\\\7-Zip\"", "REG_SZ"),
            value("", "\"zipped\"", "REG_EXPAND_SZ"),
            value("ZipCount", "3", "REG_DWORD"),
            value("Other", "7", "REG_DWORD"),
            Err("broken".to_string()),
        ],
    };
    let outcome =
        manager.feed_queue_and_process_values(&mut counters, "Software\\7-Zip", Ok(contents));
    assert_eq!(outcome, Ok(()));
    assert_eq!(
        manager.results.list().clone(),
        vec![
            "HKEY_LOCAL_MACHINE\\Software\\7-Zip",
            "HKEY_LOCAL_MACHINE\\Software\\7-Zip\\Path = \"\"C:\\\\7-Zip\"\" (REG_SZ)",
            "HKEY_LOCAL_MACHINE\\Software\\7-Zip\\(Default) = \"\"zipped\"\" (REG_EXPAND_SZ)",
            "HKEY_LOCAL_MACHINE\\Software\\7-Zip\\ZipCount = \"3\" (REG_DWORD)",
        ]
    );
    assert_eq!(
        manager.errors.list().clone(),
        vec![
            "Software\\7-Zip, Subkey error: \"denied\"",
            "Software\\7-Zip, Value error: \"broken\"",
        ]
    );
    assert_eq!(counters, SearchCounters { key_count: 3, value_count: 5 });
    assert_eq!(manager.get_work(None), key("Software\\7-Zip\\Options"));
    assert_eq!(manager.get_work(None), key("Software\\7-Zip\\Compression"));
    assert_eq!(manager.get_work(None), Work::Wait);
}

#[test]
fn a_key_that_cannot_be_opened_hands_its_error_back() {
    let mut manager = search_for(&["secret"]);
    let mut counters = SearchCounters::new();
    let outcome =
        manager.feed_queue_and_process_values(&mut counters, "Secrets", Err("denied".to_string()));
    assert_eq!(outcome, Err("denied".to_string()));
    assert_eq!(manager.results.list().clone(), vec!["HKEY_LOCAL_MACHINE\\Secrets"]);
    assert!(manager.errors.list().is_empty());
    assert_eq!(counters, SearchCounters::new());
    assert_eq!(manager.get_work(None), Work::Wait);
}

#[test]
fn a_key_that_does_not_match_is_not_reported() {
    let mut manager = search_for(&["zip"]);
    manager.visit_key("Software");
    assert!(manager.results.list().is_empty());
    assert_eq!(manager.key_report("Software", "software"), None);
    assert_eq!(
        manager.key_report("ZIP", "zip"),
        Some("HKEY_LOCAL_MACHINE\\ZIP".to_string())
    );
}

#[test]
fn a_value_is_reported_by_its_lower_case() {
    let manager = search_for(&["zip"]);
    let it = value("Name", "Data", "REG_SZ").unwrap();
    assert_eq!(manager.value_report("k", &it, "name", "data"), None);
    let line = Some("HKEY_LOCAL_MACHINE\\k\\Name = \"Data\" (REG_SZ)".to_string());
    assert_eq!(manager.value_report("k", &it, "a zip", "data"), line);
    assert_eq!(manager.value_report("k", &it, "name", "unzipped"), line);
}

#[test]
fn lines_found_twice_are_kept_once() {
    let mut manager = search_for(&["zip"]);
    manager.visit_key("Zip");
    manager.visit_key("Zip");
    manager.visit_key("zip");
    assert_eq!(
        manager.results.list().clone(),
        vec!["HKEY_LOCAL_MACHINE\\Zip", "HKEY_LOCAL_MACHINE\\zip"]
    );
}

#[test]
fn reading_in_portions_comes_to_the_same() {
    let all = || {
        vec![value("zip", "1", "REG_SZ"), Err("e".to_string()), value("b", "zip", "REG_SZ")]
    };
    let mut whole = search_for(&["zip"]);
    let mut counters = SearchCounters::new();
    whole.read_values(&mut counters, "k", &all());
    let mut portions = search_for(&["zip"]);
    let mut portion_counters = SearchCounters::new();
    for read in all() {
        portions.read_values(&mut portion_counters, "k", &vec![read]);
    }
    assert_eq!(sorted(&whole.results), sorted(&portions.results));
    assert_eq!(sorted(&whole.errors), sorted(&portions.errors));
    assert_eq!(counters, portion_counters);

    let subkeys = || vec![Ok("a".to_string()), Err("e".to_string()), Ok("b".to_string())];
    let mut whole = search_for(&[]);
    whole.read_subkeys(&mut counters, "k", &subkeys());
    let mut portions = search_for(&[]);
    for read in subkeys() {
        portions.read_subkeys(&mut portion_counters, "k", &vec![read]);
    }
    assert_eq!(sorted(&whole.errors), sorted(&portions.errors));
    assert_eq!(counters, portion_counters);
    for _ in 0..3 {
        assert_eq!(whole.get_work(None), portions.get_work(None));
    }
}

#[test]
fn counts_start_again_past_the_largest() {
    let mut manager = search_for(&[]);
    let mut counters = SearchCounters { key_count: usize::MAX, value_count: usize::MAX - 1 };
    manager.read_subkeys(&mut counters, "k", &vec![Ok("a".to_string()), Ok("b".to_string())]);
    manager.read_values(&mut counters, "k", &vec![value("a", "b", "REG_SZ")]);
    assert_eq!(counters, SearchCounters { key_count: 1, value_count: usize::MAX });
}

#[test]
fn the_error_of_a_key_is_noted_by_its_worker() {
    let mut manager = search_for(&[]);
    manager.feed_queue(vec!["next".to_string()]);
    let work = run_thread(
        &mut manager,
        WorkerEvent::Processed {
            key_path: "Software\\Locked".to_string(),
            outcome: Err("Access is denied. (os error 5)".to_string()),
        },
    );
    assert_eq!(work, key("next"));
    assert_eq!(
        manager.errors.list().clone(),
        vec!["Software\\Locked, Key error: \"Access is denied. (os error 5)\""]
    );
    let work = run_thread(
        &mut manager,
        WorkerEvent::Processed { key_path: "next".to_string(), outcome: Ok(()) },
    );
    assert_eq!(work, Work::Wait);
    assert_eq!(manager.errors.list().len(), 1);
}

#[test]
fn the_coordinator_launches_wakes_sleeps_and_finishes() {
    let mut manager = search_for(&[]);
    assert_eq!(manager.run(RunEvent::Started), RunAction::Launch { workers: 2 });
    assert_eq!(manager.run(RunEvent::Polled), RunAction::Sleep);
    assert_eq!(run_thread(&mut manager, WorkerEvent::Started), Work::Wait);
    assert_eq!(manager.run(RunEvent::Polled), RunAction::Sleep);
    assert_eq!(run_thread(&mut manager, WorkerEvent::Started), Work::Wait);
    assert_eq!(manager.run(RunEvent::Polled), RunAction::Finish);
    manager.feed_queue(vec!["late".to_string()]);
    assert_eq!(manager.run(RunEvent::Polled), RunAction::Wake);
    assert_eq!(
        run_thread(&mut manager, WorkerEvent::Woken(Signal::WorkReady)),
        key("late")
    );
    assert_eq!(manager.run(RunEvent::Polled), RunAction::Sleep);
    assert_eq!(run_thread(&mut manager, WorkerEvent::Woken(Signal::WorkReady)), Work::Wait);
    assert_eq!(RUN_POLL_INTERVAL_MS, 100);
}

#[test]
fn a_worker_told_of_the_end_stops_and_stays_counted() {
    let mut manager = search_for(&[]);
    run_thread(&mut manager, WorkerEvent::Started);
    run_thread(&mut manager, WorkerEvent::Started);
    assert_eq!(run_thread(&mut manager, WorkerEvent::Woken(Signal::NoWorkLeft)), Work::Exit);
    assert_eq!(run_thread(&mut manager, WorkerEvent::Woken(Signal::NoWorkLeft)), Work::Exit);
    assert_eq!(manager.run(RunEvent::Polled), RunAction::Finish);
}

#[test]
fn a_search_ends_with_every_key_visited() {
    let children = |path: &str| -> Vec<Result<String, String>> {
        match path {
            "root" => vec![Ok("a".to_string()), Ok("b".to_string())],
            "root\\a" => vec![Ok("zip".to_string())],
            _ => vec![],
        }
    };
    let mut manager = search_for(&["zip"]);
    let mut counters = SearchCounters::new();
    manager.feed_queue(vec!["root".to_string()]);
    let mut visited = Vec::new();
    let mut work = [
        run_thread(&mut manager, WorkerEvent::Started),
        run_thread(&mut manager, WorkerEvent::Started),
    ];
    while manager.run(RunEvent::Polled) != RunAction::Finish {
        for next in work.iter_mut() {
            *next = match next {
                Work::Process(path) => {
                    let contents = KeyContents { subkeys: children(path), values: vec![] };
                    let outcome = manager.feed_queue_and_process_values(
                        &mut counters,
                        path.as_str(),
                        Ok(contents),
                    );
                    visited.push(path.clone());
                    run_thread(
                        &mut manager,
                        WorkerEvent::Processed { key_path: path.clone(), outcome },
                    )
                }
                _ => run_thread(&mut manager, WorkerEvent::Woken(Signal::WorkReady)),
            };
        }
    }
    visited.sort();
    assert_eq!(visited, vec!["root", "root\\a", "root\\a\\zip", "root\\b"]);
    assert_eq!(manager.results.list().clone(), vec!["HKEY_LOCAL_MACHINE\\root\\a\\zip"]);
    assert_eq!(counters.key_count, 3);
}

#[test]
fn a_text_set_lists_each_text_once() {
    let mut set = TextSet::new();
    assert!(set.insert("b".to_string()));
    assert!(set.insert("a".to_string()));
    assert!(!set.insert("b".to_string()));
    assert!(set.contains("a"));
    assert!(!set.contains("c"));
    assert_eq!(set.list().clone(), vec!["b", "a"]);
}

/// Runs a search over a small registry to its end, with this many workers.
fn run_to_the_end(threads: usize) -> (Vec<String>, Vec<String>) {
    let opened = |path: &str| -> Result<KeyContents, String> {
        match path {
            "root" => Ok(KeyContents {
                subkeys: vec![
                    Ok("a".to_string()),
                    Err("hidden".to_string()),
                    Ok("Zip".to_string()),
                ],
                values: vec![value("none", "none", "REG_SZ")],
            }),
            "root\\a" => Ok(KeyContents {
                subkeys: vec![Ok("deep".to_string())],
                values: vec![value("", "unzip", "REG_SZ"), Err("broken".to_string())],
            }),
            "root\\a\\deep" => {
                Ok(KeyContents { subkeys: vec![], values: vec![value("ZIP", "1", "REG_DWORD")] })
            }
            _ => Err("denied".to_string()),
        }
    };
    let mut manager = WorkerManager::new(vec!["zip".to_string()], threads);
    let mut counters = SearchCounters::new();
    manager.feed_queue(vec!["root".to_string()]);
    let mut work: Vec<Work> =
        (0..threads).map(|_| run_thread(&mut manager, WorkerEvent::Started)).collect();
    while manager.run(RunEvent::Polled) != RunAction::Finish {
        for next in work.iter_mut() {
            *next = match next {
                Work::Process(path) => {
                    let outcome =
                        manager.feed_queue_and_process_values(&mut counters, path, opened(path));
                    run_thread(
                        &mut manager,
                        WorkerEvent::Processed { key_path: path.clone(), outcome },
                    )
                }
                _ => run_thread(&mut manager, WorkerEvent::Woken(Signal::WorkReady)),
            };
        }
    }
    (sorted(&manager.results), sorted(&manager.errors))
}

#[test]
fn a_search_finds_every_hit_and_error_and_nothing_else() {
    let (results, errors) = run_to_the_end(1);
    assert_eq!(
        results,
        vec![
            "HKEY_LOCAL_MACHINE\\root\\Zip",
            "HKEY_LOCAL_MACHINE\\root\\a\\(Default) = \"unzip\" (REG_SZ)",
            "HKEY_LOCAL_MACHINE\\root\\a\\deep\\ZIP = \"1\" (REG_DWORD)",
        ]
    );
    assert_eq!(
        errors,
        vec![
            "root, Subkey error: \"hidden\"",
            "root\\Zip, Key error: \"denied\"",
            "root\\a, Value error: \"broken\"",
        ]
    );
}

#[test]
fn the_number_of_workers_makes_no_difference() {
    let alone = run_to_the_end(1);
    for threads in 2..6 {
        assert_eq!(run_to_the_end(threads), alone);
    }
}

#[test]
fn a_key_is_visited_step_by_step() {
    let mut manager = search_for(&["zip"]);
    let mut counters = SearchCounters::new();
    let mut step = |event: KeyEvent| manager.visit_step(&mut counters, "Zip", event);
    assert_eq!(step(KeyEvent::Given), KeyAction::Open);
    assert_eq!(step(KeyEvent::Opened(Ok(()))), KeyAction::ReadSubkeys);
    let subkeys = vec![Ok("a".to_string()), Err("hidden".to_string())];
    assert_eq!(step(KeyEvent::SubkeysRead(subkeys)), KeyAction::ReadValues);
    let values = vec![value("n", "zip", "REG_SZ")];
    assert_eq!(step(KeyEvent::ValuesRead(values)), KeyAction::Leave(Ok(())));
    assert_eq!(
        step(KeyEvent::Opened(Err("denied".to_string()))),
        KeyAction::Leave(Err("denied".to_string()))
    );
    assert_eq!(counters, SearchCounters { key_count: 2, value_count: 1 });
    assert_eq!(
        manager.results.list().clone(),
        vec!["HKEY_LOCAL_MACHINE\\Zip", "HKEY_LOCAL_MACHINE\\Zip\\n = \"zip\" (REG_SZ)"]
    );
    assert_eq!(manager.errors.list().clone(), vec!["Zip, Subkey error: \"hidden\""]);
    assert_eq!(manager.get_work(None), key("Zip\\a"));
}
