//! A pool of workers that share one `WorkerManager`, as a state machine: which steps a search
//! can take, and what holds after every one of them.

use vstd::prelude::*;

use crate::worker_manager::{
    child_paths, EventModel, ManagerModel, RunEvent, Signal, ValueModel, WorkModel,
};

verus! {

/// How far a worker has come with the key that it visits.
pub enum Stage {
    /// It has been given the key.
    Given,
    /// It has reported the key, where its path matches, and is to open it.
    Reported,
    /// It has opened the key and queued its subkeys.
    Followed,
    /// It has reported its values, too.
    Searched,
}

/// Where a worker stands.
pub enum Phase {
    /// It has been started and has not asked for a key yet.
    Started,
    /// It visits the key at this path.
    Visiting { key_path: Seq<char>, stage: Stage },
    /// It has found the queue empty and waits for a signal.
    Waiting,
    /// It has stopped.
    Stopped,
}

/// The phase into which a worker goes with what it is to do next.
pub open spec fn phase_of(work: WorkModel) -> Phase {
    match work {
        WorkModel::Process(key_path) => Phase::Visiting { key_path, stage: Stage::Given },
        WorkModel::Wait => Phase::Waiting,
        WorkModel::Exit => Phase::Stopped,
    }
}

/// How many of the workers wait.
pub open spec fn waiting_workers(workers: Seq<Phase>) -> nat
    decreases workers.len(),
{
    if workers.len() == 0 {
        0
    } else {
        waiting_workers(workers.drop_last()) + if workers.last() is Waiting {
            1nat
        } else {
            0nat
        }
    }
}

/// A search in progress.
pub struct Pool {
    /// What the workers share.
    pub manager: ManagerModel,
    /// The workers.
    pub workers: Seq<Phase>,
    /// Whether the coordinator has signalled that no work is left.
    pub over: bool,
    /// Every key that was ever queued, in the order in which it was.
    pub queued: Seq<Seq<char>>,
    /// Every key that was handed to a worker, in the order in which it was.
    pub handed_out: Seq<Seq<char>>,
}

/// A step of a search.
pub enum Step {
    /// A worker, just started, asks for its first key.
    Ask { worker: int },
    /// A worker reports the key that it visits, where its path matches.
    VisitKey { worker: int },
    /// A worker queues the subkeys of the key that it visits.
    ReadSubkeys { worker: int, subkeys: Seq<Result<Seq<char>, Seq<char>>> },
    /// A worker reports the values of the key that it visits.
    ReadValues { worker: int, values: Seq<Result<ValueModel, Seq<char>>> },
    /// A worker is done with the key that it visits, and asks for the next.
    FinishKey { worker: int, outcome: Result<(), Seq<char>> },
    /// A waiting worker receives a signal.
    Wake { worker: int, signal: Signal },
    /// The coordinator signals that no work is left.
    Announce,
}

impl Pool {
    /// A search at its beginning: no worker has done anything yet.
    pub open spec fn initial(manager: ManagerModel) -> Pool {
        Pool {
            manager,
            workers: Seq::new(manager.threads as nat, |i: int| Phase::Started),
            over: false,
            queued: manager.queue,
            handed_out: Seq::empty(),
        }
    }

    /// Whether a step can be taken: a worker acts as its phase says, and the coordinator
    /// signals the end where `run_action` tells it to. A worker goes through a key from stage to
    /// stage, and leaves it early only where it could not be opened. It is told of the end only
    /// once that was signalled.
    pub open spec fn can(self, step: Step) -> bool {
        match step {
            Step::Ask { worker } => self.is_in(worker, Phase::Started),
            Step::VisitKey { worker } => self.is_at(worker, Stage::Given),
            Step::ReadSubkeys { worker, .. } => self.is_at(worker, Stage::Reported),
            Step::ReadValues { worker, .. } => self.is_at(worker, Stage::Followed),
            Step::FinishKey { worker, outcome } => self.is_at(
                worker,
                match outcome {
                    Ok(()) => Stage::Searched,
                    Err(_) => Stage::Reported,
                },
            ),
            Step::Wake { worker, signal } => self.is_in(worker, Phase::Waiting) && (signal
                is NoWorkLeft ==> self.over),
            Step::Announce => self.manager.run_action(RunEvent::Polled) is Finish,
        }
    }

    /// Whether there is such a worker, in this phase.
    pub open spec fn is_in(self, worker: int, phase: Phase) -> bool {
        0 <= worker < self.workers.len() && self.workers[worker] == phase
    }

    /// Whether there is such a worker, visiting some key.
    pub open spec fn is_visiting(self, worker: int) -> bool {
        0 <= worker < self.workers.len() && self.workers[worker] is Visiting
    }

    /// Whether there is such a worker, visiting some key and at this stage of it.
    pub open spec fn is_at(self, worker: int, stage: Stage) -> bool {
        self.is_visiting(worker) && self.workers[worker]->stage == stage
    }

    /// The key that a worker visits.
    pub open spec fn key_of(self, worker: int) -> Seq<char> {
        self.workers[worker]->key_path
    }

    /// The workers after one of them has come to this stage of the key that it visits.
    pub open spec fn advanced(self, worker: int, stage: Stage) -> Seq<Phase> {
        self.workers.update(worker, Phase::Visiting { key_path: self.key_of(worker), stage })
    }

    /// The search after an event of one worker.
    pub open spec fn after_event(self, worker: int, event: EventModel) -> Pool {
        let (manager, work) = self.manager.stepped(event);
        Pool {
            manager,
            workers: self.workers.update(worker, phase_of(work)),
            handed_out: match work {
                WorkModel::Process(key_path) => self.handed_out.push(key_path),
                _ => self.handed_out,
            },
            ..self
        }
    }

    /// The search after a step.
    pub open spec fn after(self, step: Step) -> Pool {
        match step {
            Step::Ask { worker } => self.after_event(worker, EventModel::Started),
            Step::VisitKey { worker } => Pool {
                manager: self.manager.key_visited(self.key_of(worker)),
                workers: self.advanced(worker, Stage::Reported),
                ..self
            },
            Step::ReadSubkeys { worker, subkeys } => Pool {
                manager: self.manager.subkeys_read(self.key_of(worker), subkeys),
                workers: self.advanced(worker, Stage::Followed),
                queued: self.queued + child_paths(self.key_of(worker), subkeys),
                ..self
            },
            Step::ReadValues { worker, values } => Pool {
                manager: self.manager.values_read(self.key_of(worker), values),
                workers: self.advanced(worker, Stage::Searched),
                ..self
            },
            Step::FinishKey { worker, outcome } => self.after_event(
                worker,
                EventModel::Processed { key_path: self.key_of(worker), outcome },
            ),
            Step::Wake { worker, signal } => self.after_event(worker, EventModel::Woken(signal)),
            Step::Announce => Pool { over: true, ..self },
        }
    }

    /// What holds at every moment of a search.
    pub open spec fn consistent(self) -> bool {
        // There are as many workers as the manager says.
        &&& self.workers.len() == self.manager.threads
        // Every key is handed out once, in the order of the queue, or is queued still.
        &&& self.queued == self.handed_out + self.manager.queue
        // Until the end is signalled, no worker has stopped, and those that wait are counted.
        &&& !self.over ==> {
            &&& self.manager.waiting == waiting_workers(self.workers)
            &&& forall|w: int|
                0 <= w < self.workers.len() ==> !(#[trigger] self.workers[w] is Stopped)
        }
        // Once it is, no key is queued, and no worker visits one or could ask for one.
        &&& self.over ==> {
            &&& self.manager.queue.len() == 0
            &&& forall|w: int|
                0 <= w < self.workers.len() ==> (#[trigger] self.workers[w] is Waiting
                    || self.workers[w] is Stopped)
        }
    }
}

/// At most every worker waits, and every worker does where the count says so.
proof fn lemma_waiting_bounds(workers: Seq<Phase>)
    ensures
        waiting_workers(workers) <= workers.len(),
        waiting_workers(workers) == workers.len() <==> (forall|w: int|
            0 <= w < workers.len() ==> #[trigger] workers[w] is Waiting),
    decreases workers.len(),
{
    if workers.len() > 0 {
        let rest = workers.drop_last();
        lemma_waiting_bounds(rest);
        if waiting_workers(workers) == workers.len() {
            assert forall|w: int| 0 <= w < workers.len() implies #[trigger] workers[w] is Waiting by {
                if w < rest.len() {
                    assert(rest[w] is Waiting);
                }
            }
        }
        if forall|w: int| 0 <= w < workers.len() ==> #[trigger] workers[w] is Waiting {
            assert forall|w: int| 0 <= w < rest.len() implies #[trigger] rest[w] is Waiting by {
                assert(workers[w] is Waiting);
            }
            assert(workers[workers.len() - 1] is Waiting);
        }
    }
}

/// How one worker's change of phase changes the count.
proof fn lemma_waiting_update(workers: Seq<Phase>, worker: int, phase: Phase)
    requires
        0 <= worker < workers.len(),
    ensures
        waiting_workers(workers.update(worker, phase)) + (if workers[worker] is Waiting {
            1nat
        } else {
            0nat
        }) == waiting_workers(workers) + (if phase is Waiting {
            1nat
        } else {
            0nat
        }),
    decreases workers.len(),
{
    let changed = workers.update(worker, phase);
    if worker == workers.len() - 1 {
        assert(changed.drop_last() =~= workers.drop_last());
    } else {
        assert(changed.drop_last() =~= workers.drop_last().update(worker, phase));
        lemma_waiting_update(workers.drop_last(), worker, phase);
    }
}

/// A search begins consistent, where no worker counts as waiting yet.
pub proof fn law_pool_begins_consistent(manager: ManagerModel)
    requires
        manager.waiting == 0,
    ensures
        Pool::initial(manager).consistent(),
{
    let pool = Pool::initial(manager);
    lemma_none_waiting(pool.workers);
    assert(pool.queued =~= pool.handed_out + pool.manager.queue);
}

proof fn lemma_none_waiting(workers: Seq<Phase>)
    requires
        forall|w: int| 0 <= w < workers.len() ==> #[trigger] workers[w] is Started,
    ensures
        waiting_workers(workers) == 0,
    decreases workers.len(),
{
    if workers.len() > 0 {
        let rest = workers.drop_last();
        assert forall|w: int| 0 <= w < rest.len() implies #[trigger] rest[w] is Started by {
            assert(workers[w] is Started);
        }
        lemma_none_waiting(rest);
        assert(workers[workers.len() - 1] is Started);
    }
}

/// A search stays consistent through every step that it can take.
pub proof fn law_pool_stays_consistent(pool: Pool, step: Step)
    requires
        pool.consistent(),
        pool.can(step),
    ensures
        pool.after(step).consistent(),
{
    let next = pool.after(step);
    lemma_waiting_bounds(pool.workers);
    match step {
        Step::Ask { worker } => {
            lemma_event_keeps_consistent(pool, worker, EventModel::Started);
        },
        Step::FinishKey { worker, outcome } => {
            lemma_event_keeps_consistent(
                pool,
                worker,
                EventModel::Processed { key_path: pool.key_of(worker), outcome },
            );
        },
        Step::Wake { worker, signal } => {
            lemma_event_keeps_consistent(pool, worker, EventModel::Woken(signal));
        },
        Step::VisitKey { worker } => {
            lemma_advance_keeps_consistent(pool, worker, Stage::Reported);
        },
        Step::ReadSubkeys { worker, .. } => {
            lemma_advance_keeps_consistent(pool, worker, Stage::Followed);
            assert(next.queued =~= next.handed_out + next.manager.queue);
        },
        Step::ReadValues { worker, .. } => {
            lemma_advance_keeps_consistent(pool, worker, Stage::Searched);
        },
        Step::Announce => {},
    }
}

proof fn lemma_advance_keeps_consistent(pool: Pool, worker: int, stage: Stage)
    requires
        pool.consistent(),
        pool.is_visiting(worker),
    ensures
        !pool.over,
        (Pool { workers: pool.advanced(worker, stage), ..pool }).consistent(),
{
    let workers = pool.advanced(worker, stage);
    lemma_waiting_update(pool.workers, worker, workers[worker]);
    assert(pool.workers[worker] is Visiting);
    assert forall|w: int| 0 <= w < workers.len() implies !(#[trigger] workers[w] is Stopped) by {
        if w != worker {
            assert(workers[w] == pool.workers[w]);
        }
    }
}

proof fn lemma_event_keeps_consistent(pool: Pool, worker: int, event: EventModel)
    requires
        pool.consistent(),
        0 <= worker < pool.workers.len(),
        match event {
            EventModel::Started => pool.workers[worker] is Started,
            EventModel::Processed { .. } => pool.workers[worker] is Visiting,
            EventModel::Woken(signal) => pool.workers[worker] is Waiting && (signal
                is NoWorkLeft ==> pool.over),
        },
    ensures
        pool.after_event(worker, event).consistent(),
{
    let next = pool.after_event(worker, event);
    let work = pool.manager.stepped(event).1;
    lemma_waiting_bounds(pool.workers);
    lemma_waiting_bounds(next.workers);
    lemma_waiting_update(pool.workers, worker, phase_of(work));
    assert(next.queued =~= next.handed_out + next.manager.queue);
    if !pool.over {
        // A worker that does not wait leaves room for one more that does; one that waits is
        // itself counted. Either way the count neither overflows nor falls below zero.
        assert(!(pool.workers[worker] is Waiting) ==> waiting_workers(pool.workers)
            < pool.workers.len());
        lemma_waiting_update(pool.workers, worker, Phase::Started);
        assert(pool.workers[worker] is Waiting ==> waiting_workers(pool.workers) > 0);
        assert forall|w: int| 0 <= w < next.workers.len() implies !(
        #[trigger] next.workers[w] is Stopped) by {
            if w != worker {
                assert(next.workers[w] == pool.workers[w]);
            }
        }
    } else {
        assert forall|w: int| 0 <= w < next.workers.len() implies (
        #[trigger] next.workers[w] is Waiting || next.workers[w] is Stopped) by {
            if w != worker {
                assert(next.workers[w] == pool.workers[w]);
            }
        }
    }
}

impl Pool {
    /// Whether a list of steps can be taken, one after the other.
    pub open spec fn can_all(self, steps: Seq<Step>) -> bool
        decreases steps.len(),
    {
        steps.len() == 0 || (self.can_all(steps.drop_last()) && self.after_all(
            steps.drop_last(),
        ).can(steps.last()))
    }

    /// The search after a list of steps.
    pub open spec fn after_all(self, steps: Seq<Step>) -> Pool
        decreases steps.len(),
    {
        if steps.len() == 0 {
            self
        } else {
            self.after_all(steps.drop_last()).after(steps.last())
        }
    }
}

/// Every search is consistent, whatever its terms, its workers and its first keys, and however
/// its workers take turns. Where its end was signalled, every key that was ever queued has been
/// handed out, and no worker visits one any more.
pub proof fn law_every_search_is_complete(manager: ManagerModel, steps: Seq<Step>)
    requires
        manager.waiting == 0,
        Pool::initial(manager).can_all(steps),
    ensures
        ({
            let pool = Pool::initial(manager).after_all(steps);
            &&& pool.consistent()
            &&& pool.over ==> {
                &&& pool.handed_out == pool.queued
                &&& forall|w: int| !pool.is_visiting(w)
            }
        }),
    decreases steps.len(),
{
    let pool = Pool::initial(manager).after_all(steps);
    if steps.len() == 0 {
        law_pool_begins_consistent(manager);
    } else {
        law_every_search_is_complete(manager, steps.drop_last());
        law_pool_stays_consistent(
            Pool::initial(manager).after_all(steps.drop_last()),
            steps.last(),
        );
    }
    if pool.over {
        assert(pool.handed_out + pool.manager.queue =~= pool.handed_out);
    }
}

/// The coordinator ends a search only when every worker waits and every key that was ever
/// queued has been handed out: none is queued still, and none is being visited.
pub proof fn law_search_ends_with_nothing_left(pool: Pool)
    requires
        pool.consistent(),
        !pool.over,
        pool.manager.run_action(RunEvent::Polled) is Finish,
    ensures
        pool.manager.queue.len() == 0,
        pool.handed_out == pool.queued,
        forall|w: int| 0 <= w < pool.workers.len() ==> #[trigger] pool.workers[w] is Waiting,
{
    lemma_waiting_bounds(pool.workers);
    assert(pool.handed_out + pool.manager.queue =~= pool.handed_out);
}

/// Where every worker waits beside an empty queue, the coordinator ends the search.
pub proof fn law_end_comes_when_all_wait(pool: Pool)
    requires
        pool.consistent(),
        !pool.over,
        pool.manager.queue.len() == 0,
        forall|w: int| 0 <= w < pool.workers.len() ==> #[trigger] pool.workers[w] is Waiting,
    ensures
        pool.manager.run_action(RunEvent::Polled) is Finish,
{
    lemma_waiting_bounds(pool.workers);
}

/// Once the end is signalled it is final: nothing is queued, handed out, found or noted any
/// more.
pub proof fn law_end_is_final(pool: Pool, step: Step)
    requires
        pool.consistent(),
        pool.over,
        pool.can(step),
    ensures
        pool.after(step).over,
        pool.after(step).queued == pool.queued,
        pool.after(step).handed_out == pool.handed_out,
        pool.after(step).manager.results == pool.manager.results,
        pool.after(step).manager.errors == pool.manager.errors,
{
}

/// Where every worker waits beside a queue that holds keys, the coordinator wakes them, and a
/// worker that wakes gets the first of those keys.
pub proof fn law_waiting_workers_are_woken(pool: Pool, worker: int)
    requires
        pool.consistent(),
        !pool.over,
        forall|w: int| 0 <= w < pool.workers.len() ==> #[trigger] pool.workers[w] is Waiting,
        0 <= worker < pool.workers.len(),
        pool.manager.queue.len() > 0,
    ensures
        pool.manager.run_action(RunEvent::Polled) is Wake,
        pool.after(Step::Wake { worker, signal: Signal::WorkReady }).is_in(
            worker,
            Phase::Visiting { key_path: pool.manager.queue.first(), stage: Stage::Given },
        ),
{
    lemma_waiting_bounds(pool.workers);
}

/// While some worker is not waiting, the coordinator leaves the search alone.
pub proof fn law_no_end_while_a_worker_works(pool: Pool, worker: int)
    requires
        pool.consistent(),
        !pool.over,
        0 <= worker < pool.workers.len(),
        !(pool.workers[worker] is Waiting),
    ensures
        pool.manager.run_action(RunEvent::Polled) is Sleep,
{
    lemma_waiting_bounds(pool.workers);
}

/// The search after `count` requests for a key.
pub open spec fn after_requests(manager: ManagerModel, count: nat) -> ManagerModel
    decreases count,
{
    if count == 0 {
        manager
    } else {
        after_requests(manager, (count - 1) as nat).asked().0
    }
}

/// Keys are handed out in the order in which they were queued: as long as the queue lasts, the
/// request after `count` others gets the key that stood behind `count` others.
pub proof fn law_keys_leave_in_order(manager: ManagerModel, count: nat)
    requires
        count < manager.queue.len(),
    ensures
        after_requests(manager, count).asked().1 == WorkModel::Process(manager.queue[count as int]),
        after_requests(manager, count).queue == manager.queue.skip(count as int),
    decreases count,
{
    if count > 0 {
        law_keys_leave_in_order(manager, (count - 1) as nat);
        assert(manager.queue.skip(count - 1).drop_first() =~= manager.queue.skip(count as int));
    } else {
        assert(manager.queue.skip(0) =~= manager.queue);
    }
}

} // verus!
