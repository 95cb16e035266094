use registry_search::roots::{Root, SelectedRoots};
use registry_search::text_set::TextSet;
use registry_search::worker_manager::{RunAction, RunEvent, Signal, Work, WorkerEvent};
use registry_search::worker_runtime::{
    begin_search, begin_search_with, worker_runtime, RunControl, RuntimeAction, RuntimeEvent,
};

fn step(control: &mut RunControl, event: RuntimeEvent) -> RuntimeAction {
    worker_runtime(control, &SelectedRoots::default(), &vec!["Zip".to_string()], event)
}

#[test]
fn the_control_starts_a_search_where_none_runs() {
    let mut control = RunControl::new();
    let action = step(&mut control, RuntimeEvent::RunControlUsed);
    assert_eq!(
        action,
        RuntimeAction::StartSearch {
            roots: vec![Root::HkeyLocalMachine, Root::HkeyUsers],
            search_terms: vec!["Zip".to_string()],
        }
    );
    assert_eq!(
        control,
        RunControl { running: false, run_control_temporarily_disabled: true, stop: false }
    );
}

#[test]
fn one_search_from_beginning_to_end() {
    let mut control = RunControl::new();
    step(&mut control, RuntimeEvent::RunControlUsed);
    assert_eq!(step(&mut control, RuntimeEvent::SearchBegun), RuntimeAction::Continue);
    assert_eq!(
        control,
        RunControl { running: true, run_control_temporarily_disabled: false, stop: false }
    );
    assert_eq!(step(&mut control, RuntimeEvent::RunControlUsed), RuntimeAction::Continue);
    assert_eq!(
        control,
        RunControl { running: true, run_control_temporarily_disabled: true, stop: true }
    );
    assert_eq!(step(&mut control, RuntimeEvent::SearchEnded), RuntimeAction::Continue);
    assert_eq!(control, RunControl::new());
}

#[test]
fn the_control_starts_a_second_search_before_the_first_has_begun() {
    let mut control = RunControl::new();
    let first = step(&mut control, RuntimeEvent::RunControlUsed);
    assert_eq!(step(&mut control, RuntimeEvent::RunControlUsed), first);
}

#[test]
fn the_stop_signal_ends_the_loop_and_changes_nothing() {
    for running in [false, true] {
        let mut control =
            RunControl { running, run_control_temporarily_disabled: true, stop: running };
        let before = control;
        assert_eq!(step(&mut control, RuntimeEvent::StopSignal), RuntimeAction::Exit);
        assert_eq!(control, before);
    }
}

#[test]
fn the_end_of_a_search_clears_the_control() {
    let mut control =
        RunControl { running: false, run_control_temporarily_disabled: true, stop: true };
    step(&mut control, RuntimeEvent::SearchEnded);
    assert_eq!(control, RunControl::new());
}

#[test]
fn a_search_begins_at_software() {
    let mut manager = begin_search_with(vec!["ZIP".to_string()], 3, TextSet::new());
    assert_eq!(manager.run(RunEvent::Started), RunAction::Launch { workers: 3 });
    assert!(manager.string_matches("zip"));
    assert_eq!(manager.get_work(None), Work::Process("Software".to_string()));
    assert_eq!(manager.get_work(None), Work::Wait);
}

#[test]
fn a_search_has_a_worker_for_each_processor() {
    let manager = begin_search(vec![], TextSet::new());
    assert_eq!(
        manager.run(RunEvent::Started),
        RunAction::Launch { workers: num_cpus::get() }
    );
    assert!(num_cpus::get() >= 1);
}

#[test]
fn a_search_works_on_the_results_that_it_is_given() {
    let mut results = TextSet::new();
    results.insert("second".to_string());
    results.insert("first".to_string());
    let mut manager = begin_search_with(vec!["soft".to_string()], 1, results);
    assert_eq!(manager.results.list().clone(), vec!["second", "first"]);
    manager.visit_key("Software");
    assert_eq!(
        manager.results.list().clone(),
        vec!["second", "first", "HKEY_LOCAL_MACHINE\\Software"]
    );
    let next = begin_search(vec!["other".to_string()], manager.results);
    assert_eq!(next.results.list().len(), 3);
    assert!(next.errors.list().is_empty());
    assert!(!next.string_matches("Software"));
}

#[test]
fn a_search_that_was_asked_to_stop_ends() {
    let mut control = RunControl::new();
    let mut manager = begin_search_with(vec![], 2, TextSet::new());
    assert_eq!(control.run(&manager, RunEvent::Started), RunAction::Launch { workers: 2 });
    assert_eq!(control.run(&manager, RunEvent::Polled), RunAction::Sleep);
    assert_eq!(
        control.run_thread(&mut manager, WorkerEvent::Started),
        Work::Process("Software".to_string())
    );
    manager.feed_queue(vec!["next".to_string()]);
    step(&mut control, RuntimeEvent::SearchBegun);
    step(&mut control, RuntimeEvent::RunControlUsed);
    assert_eq!(control.run(&manager, RunEvent::Polled), RunAction::Finish);
    let visited = WorkerEvent::Processed {
        key_path: "Software".to_string(),
        outcome: Err("denied".to_string()),
    };
    assert_eq!(control.run_thread(&mut manager, visited), Work::Exit);
    assert!(manager.errors.contains("Software, Key error: \"denied\""));
    assert_eq!(
        control.run_thread(&mut manager, WorkerEvent::Woken(Signal::WorkReady)),
        Work::Exit
    );
    assert_eq!(manager.get_work(None), Work::Process("next".to_string()));
}
