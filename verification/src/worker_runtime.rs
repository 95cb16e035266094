//! Starting and stopping searches from the run control.

use vstd::prelude::*;
use vstd::string::*;

use crate::roots::{Root, SelectedRoots};
use crate::text::{lowercase_of, texts};
use crate::text_set::TextSet;
use crate::worker_manager::{
    run_thread, EventModel, ManagerModel, RunAction, RunEvent, Signal, Work, WorkModel,
    WorkerEvent, WorkerManager,
};

verus! {

/// `num_cpus::get` gives the number of processors of the machine, which is at least one.
pub assume_specification[ num_cpus::get ]() -> (processors: usize)
    ensures
        processors >= 1,
;

/// The state of the run control.
#[derive(Clone, Copy, Debug, PartialEq, Eq, Structural)]
pub struct RunControl {
    /// Whether a search runs.
    pub running: bool,
    /// Whether the control does not answer for the time being.
    pub run_control_temporarily_disabled: bool,
    /// Whether the running search has been asked to stop.
    pub stop: bool,
}

/// What has just happened.
#[derive(Clone, Copy, Debug, PartialEq, Eq, Structural)]
pub enum RuntimeEvent {
    /// The run control was used.
    RunControlUsed,
    /// A search that was to be started has begun.
    SearchBegun,
    /// A search has come to its end.
    SearchEnded,
    /// The program ends.
    StopSignal,
}

/// What is to be done next.
#[derive(Debug, PartialEq, Eq)]
pub enum RuntimeAction {
    /// Wait for the next event.
    Continue,
    /// Start a search, and wait for the next event.
    StartSearch { roots: Vec<Root>, search_terms: Vec<String> },
    /// Stop.
    Exit,
}

/// The contents of a `RuntimeAction`.
#[verifier::ext_equal]
pub enum ActionModel {
    Continue,
    StartSearch { roots: Seq<Root>, search_terms: Seq<Seq<char>> },
    Exit,
}

impl View for RuntimeAction {
    type V = ActionModel;

    open spec fn view(&self) -> ActionModel {
        match self {
            RuntimeAction::Continue => ActionModel::Continue,
            RuntimeAction::StartSearch { roots, search_terms } => ActionModel::StartSearch {
                roots: roots@,
                search_terms: texts(search_terms@),
            },
            RuntimeAction::Exit => ActionModel::Exit,
        }
    }
}

impl RunControl {
    /// The control before any search.
    pub fn new() -> (control: Self)
        ensures
            control == (RunControl {
                running: false,
                run_control_temporarily_disabled: false,
                stop: false,
            }),
    {
        RunControl { running: false, run_control_temporarily_disabled: false, stop: false }
    }

    /// The control after an event. Using it asks a running search to stop; either way it does
    /// not answer until a search has begun or ended.
    pub open spec fn after(self, event: RuntimeEvent) -> RunControl {
        match event {
            RuntimeEvent::RunControlUsed => RunControl {
                run_control_temporarily_disabled: true,
                stop: self.stop || self.running,
                ..self
            },
            RuntimeEvent::SearchBegun => RunControl {
                running: true,
                run_control_temporarily_disabled: false,
                ..self
            },
            RuntimeEvent::SearchEnded => RunControl {
                running: false,
                run_control_temporarily_disabled: false,
                stop: false,
            },
            RuntimeEvent::StopSignal => self,
        }
    }

    /// What an event asks for: using the control starts a search where none runs.
    pub open spec fn action(
        self,
        event: RuntimeEvent,
        roots: Seq<Root>,
        search_terms: Seq<Seq<char>>,
    ) -> ActionModel {
        match event {
            RuntimeEvent::RunControlUsed if !self.running => ActionModel::StartSearch {
                roots,
                search_terms,
            },
            RuntimeEvent::StopSignal => ActionModel::Exit,
            _ => ActionModel::Continue,
        }
    }
}

/// Decides what an event does to the run control, and what is to be done next. A search that is
/// to be started gets the roots and the terms as they are now.
pub fn worker_runtime(
    control: &mut RunControl,
    selected_roots: &SelectedRoots,
    search_terms: &Vec<String>,
    event: RuntimeEvent,
) -> (action: RuntimeAction)
    ensures
        *final(control) == old(control).after(event),
        action@ == old(control).action(event, selected_roots.selection(), texts(search_terms@)),
{
    match event {
        RuntimeEvent::RunControlUsed => {
            if control.running {
                control.run_control_temporarily_disabled = true;
                control.stop = true;
                RuntimeAction::Continue
            } else {
                let roots = selected_roots.export_roots();
                let terms = copy_terms(search_terms);
                control.run_control_temporarily_disabled = true;
                RuntimeAction::StartSearch { roots, search_terms: terms }
            }
        },
        RuntimeEvent::SearchBegun => {
            control.running = true;
            control.run_control_temporarily_disabled = false;
            RuntimeAction::Continue
        },
        RuntimeEvent::SearchEnded => {
            control.stop = false;
            control.running = false;
            control.run_control_temporarily_disabled = false;
            RuntimeAction::Continue
        },
        RuntimeEvent::StopSignal => RuntimeAction::Exit,
    }
}

/// A copy of a list of terms.
fn copy_terms(terms: &Vec<String>) -> (copy: Vec<String>)
    ensures
        texts(copy@) == texts(terms@),
{
    let mut copy: Vec<String> = Vec::new();
    let mut i: usize = 0;
    while i < terms.len()
        invariant
            i <= terms.len(),
            copy.len() == i,
            forall|k: int| 0 <= k < i ==> (#[trigger] copy[k])@ == terms[k]@,
        decreases terms.len() - i,
    {
        copy.push(terms[i].clone());
        i = i + 1;
    }
    assert(texts(copy@) =~= texts(terms@));
    copy
}

/// A search for these terms at its beginning: it has the one key to visit from which all others
/// are reached, and adds to the lines in `results`.
pub open spec fn search_begun(
    search_terms: Seq<Seq<char>>,
    threads: usize,
    results: Set<Seq<char>>,
) -> ManagerModel {
    ManagerModel {
        results,
        ..ManagerModel::fresh(
            search_terms.map_values(|term: Seq<char>| lowercase_of(term)),
            threads,
        ).fed(seq!["Software"@])
    }
}

/// A search for these terms, by this many workers, at its beginning. It works on the results
/// that it is given.
pub fn begin_search_with(
    search_terms: Vec<String>,
    threads: usize,
    results: TextSet,
) -> (manager: WorkerManager)
    ensures
        manager@ == search_begun(texts(search_terms@), threads, results@),
        manager.result_set() == results,
{
    let mut manager = WorkerManager::new(search_terms, threads).with_results(results);
    let keys: Vec<String> = vec!["Software".to_owned()];
    assert(texts(keys@) =~= seq!["Software"@]);
    manager.feed_queue(keys);
    manager
}

/// What a call for a number gives.
fn answer<F: Fn() -> usize>(count: F) -> (number: usize)
    requires
        call_requires(count, ()),
    ensures
        call_ensures(count, (), number),
{
    count()
}

/// A search for these terms, by one worker for each processor, at its beginning. It works on the
/// results that it is given.
pub fn begin_search(search_terms: Vec<String>, results: TextSet) -> (manager: WorkerManager)
    ensures
        manager@ == search_begun(texts(search_terms@), manager@.threads, results@),
        manager@.threads >= 1,
        call_ensures(num_cpus::get, (), manager@.threads),
        manager.result_set() == results,
{
    begin_search_with(search_terms, answer(num_cpus::get), results)
}

impl RunControl {
    /// What the coordinator of a search does next: a search that was asked to stop ends.
    pub open spec fn run_action(self, manager: ManagerModel, event: RunEvent) -> RunAction {
        if self.stop {
            RunAction::Finish
        } else {
            manager.run_action(event)
        }
    }

    /// What an event of a worker makes of a search, and what the worker does next: once the
    /// search was asked to stop, the worker does, and gets no further key.
    pub open spec fn stepped(self, manager: ManagerModel, event: EventModel) -> (
        ManagerModel,
        WorkModel,
    ) {
        if self.stop {
            match event {
                EventModel::Processed { key_path, outcome } => (
                    manager.key_processed(key_path, outcome),
                    WorkModel::Exit,
                ),
                _ => (manager, WorkModel::Exit),
            }
        } else {
            manager.stepped(event)
        }
    }

    /// Decides what the coordinator of a search does next.
    pub fn run(&self, manager: &WorkerManager, event: RunEvent) -> (action: RunAction)
        ensures
            action == self.run_action(manager@, event),
    {
        if self.stop {
            RunAction::Finish
        } else {
            manager.run(event)
        }
    }

    /// Decides what a worker of a search does next, after what has just happened to it.
    pub fn run_thread(&self, manager: &mut WorkerManager, event: WorkerEvent) -> (work: Work)
        ensures
            (final(manager)@, work@) == self.stepped(old(manager)@, event@),
    {
        if self.stop {
            if let WorkerEvent::Processed { key_path, outcome } = event {
                manager.finish_key(key_path.as_str(), &outcome);
            }
            Work::Exit
        } else {
            run_thread(manager, event)
        }
    }
}

/// From the moment at which the run control asks a running search to stop until it has ended,
/// its coordinator ends it and every worker that is done with its key or wakes stops.
pub proof fn law_stopped_search_ends(
    control: RunControl,
    manager: ManagerModel,
    run_event: RunEvent,
    event: EventModel,
)
    requires
        control.running,
    ensures
        ({
            let stopping = control.after(RuntimeEvent::RunControlUsed);
            &&& stopping.run_action(manager, run_event) is Finish
            &&& stopping.stepped(manager, event).1 is Exit
            &&& stopping.stepped(manager, event).0.queue == manager.queue
            &&& stopping.stepped(manager, event).0.results == manager.results
        }),
{
}

/// One search from beginning to end: the control that started it does not answer until it has
/// begun; used again, it asks for the end and does not answer until that has come; and then all
/// is as before.
pub proof fn law_one_search_from_beginning_to_end(idle: RunControl)
    requires
        !idle.running,
        !idle.run_control_temporarily_disabled,
        !idle.stop,
    ensures
        ({
            let starting = idle.after(RuntimeEvent::RunControlUsed);
            let running = starting.after(RuntimeEvent::SearchBegun);
            let stopping = running.after(RuntimeEvent::RunControlUsed);
            let ended = stopping.after(RuntimeEvent::SearchEnded);
            &&& starting.run_control_temporarily_disabled && !starting.running && !starting.stop
            &&& running.running && !running.run_control_temporarily_disabled && !running.stop
            &&& stopping.running && stopping.run_control_temporarily_disabled && stopping.stop
            &&& ended == idle
        }),
{
}

/// A search is started only by the run control and only while none runs; one is asked to stop
/// only by the run control and only while one runs. No event does both.
pub proof fn law_run_control_starts_or_stops(
    control: RunControl,
    event: RuntimeEvent,
    roots: Seq<Root>,
    search_terms: Seq<Seq<char>>,
)
    ensures
        control.action(event, roots, search_terms) is StartSearch <==> event
            == RuntimeEvent::RunControlUsed && !control.running,
        !control.stop && control.after(event).stop <==> !control.stop && event
            == RuntimeEvent::RunControlUsed && control.running,
{
}

/// The end of a search clears the control, whatever happened before.
pub proof fn law_end_of_search_clears_the_control(control: RunControl)
    ensures
        control.after(RuntimeEvent::SearchEnded) == (RunControl {
            running: false,
            run_control_temporarily_disabled: false,
            stop: false,
        }),
{
}

/// While a search was not asked to stop, the run control leaves it alone, whatever else it shows:
/// its coordinator and its workers do what the search itself has them do. In particular a worker
/// that is free gets the key at the front of the queue, as long as there is one.
pub proof fn law_running_search_is_left_alone(
    control: RunControl,
    manager: ManagerModel,
    run_event: RunEvent,
    event: EventModel,
)
    requires
        !control.stop,
    ensures
        control.stepped(manager, event) == manager.stepped(event),
        control.run_action(manager, run_event) == manager.run_action(run_event),
        manager.queue.len() > 0 && (event is Started || event is Processed) ==> {
            &&& control.stepped(manager, event).1 == WorkModel::Process(manager.queue[0])
            &&& control.stepped(manager, event).0.queue == manager.queue.skip(1)
        },
        manager.queue.len() > 0 && event == EventModel::Woken(Signal::WorkReady)
            ==> control.stepped(manager, event).1 == WorkModel::Process(manager.queue[0]),
        run_event == RunEvent::Polled && (manager.queue.len() > 0 || manager.waiting
            != manager.threads) ==> !(control.run_action(manager, run_event) is Finish),
{
    if manager.queue.len() > 0 {
        assert(manager.queue.drop_first() =~= manager.queue.skip(1));
    }
}

/// Once a search was asked to stop, whatever else the run control shows, its coordinator ends it
/// and every worker stops. Of the search nothing changes but that the error of a key that was just
/// left is noted.
pub proof fn law_search_asked_to_stop_stops(
    control: RunControl,
    manager: ManagerModel,
    run_event: RunEvent,
    event: EventModel,
)
    requires
        control.stop,
    ensures
        ({
            let (after, work) = control.stepped(manager, event);
            &&& control.run_action(manager, run_event) is Finish
            &&& work is Exit
            &&& after.queue == manager.queue && after.results == manager.results
            &&& after.terms == manager.terms && after.threads == manager.threads
            &&& after.waiting == manager.waiting
            &&& !(event is Processed) ==> after.errors == manager.errors
            &&& event matches EventModel::Processed { key_path, outcome } ==> {
                &&& outcome is Ok ==> after.errors == manager.errors
                &&& outcome matches Err(error) ==> after.errors == manager.errors.insert(
                    key_path + ", Key error: \""@ + error + "\""@,
                )
            }
        }),
{
}

/// A search that the run control starts gets exactly the roots and the terms that were set, all of
/// them and in their order. It is started exactly where the control is used while no search runs;
/// the loop ends exactly at the stop signal.
pub proof fn law_started_search_gets_what_was_set(
    control: RunControl,
    event: RuntimeEvent,
    roots: Seq<Root>,
    search_terms: Seq<Seq<char>>,
)
    ensures
        ({
            let action = control.action(event, roots, search_terms);
            &&& action is StartSearch <==> event is RunControlUsed && !control.running
            &&& action is Exit <==> event is StopSignal
            &&& action is StartSearch ==> {
                &&& action->roots.len() == roots.len()
                &&& forall|i: int| 0 <= i < roots.len() ==> #[trigger] action->roots[i] == roots[i]
                &&& action->search_terms.len() == search_terms.len()
                &&& forall|i: int|
                    0 <= i < search_terms.len() ==> #[trigger] action->search_terms[i]
                        == search_terms[i]
            }
        }),
{
}

/// What each event does to the run control, part by part: a search runs from its beginning to its
/// end; the control is shut from its use until a search begins or ends; and a stop is asked for
/// from the use of the control while a search runs until a search ends. The stop signal does
/// nothing to it.
pub proof fn law_events_set_the_control(control: RunControl, event: RuntimeEvent)
    ensures
        control.after(event).running == match event {
            RuntimeEvent::SearchBegun => true,
            RuntimeEvent::SearchEnded => false,
            _ => control.running,
        },
        control.after(event).run_control_temporarily_disabled == match event {
            RuntimeEvent::RunControlUsed => true,
            RuntimeEvent::StopSignal => control.run_control_temporarily_disabled,
            _ => false,
        },
        control.after(event).stop == match event {
            RuntimeEvent::RunControlUsed => control.stop || control.running,
            RuntimeEvent::SearchEnded => false,
            _ => control.stop,
        },
{
}

/// A search begins with the lower case of each of its terms, one for one and in their order, with
/// all its workers, none of which waits, with the results that it was given, no errors, and the one
/// key `Software` to visit.
pub proof fn law_search_begins_at_software(
    search_terms: Seq<Seq<char>>,
    threads: usize,
    results: Set<Seq<char>>,
)
    ensures
        ({
            let begun = search_begun(search_terms, threads, results);
            &&& begun.terms.len() == search_terms.len()
            &&& forall|i: int|
                0 <= i < search_terms.len() ==> #[trigger] begun.terms[i] == lowercase_of(
                    search_terms[i],
                )
            &&& begun.threads == threads && begun.waiting == 0
            &&& begun.results == results
            &&& forall|line: Seq<char>| !begun.errors.contains(line)
            &&& begun.queue.len() == 1
            &&& begun.queue[0] == seq!['S', 'o', 'f', 't', 'w', 'a', 'r', 'e']
        }),
{
    reveal_strlit("Software");
    assert("Software"@ =~= seq!['S', 'o', 'f', 't', 'w', 'a', 'r', 'e']);
}

} // verus!
