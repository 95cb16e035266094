//! That a search comes to an end: until it has, there is something to do, and doing it leaves less
//! to do.

use vstd::prelude::*;

use crate::coverage::{law_search_makes_nothing_up, lemma_workers_at_work, RegistryModel};
use crate::pool::{
    law_end_comes_when_all_wait, law_every_search_is_complete, phase_of, Phase, Pool, Stage, Step,
};
use crate::worker_manager::{EventModel, ManagerModel, Signal};

verus! {

/// A step that a search can take next, until its end is signalled: of a worker that does not wait,
/// where there is one; else of a worker that waits, where there are keys; else the end.
pub open spec fn next_step(registry: RegistryModel, pool: Pool) -> Step {
    if exists|w: int| 0 <= w < pool.workers.len() && !(#[trigger] pool.workers[w] is Waiting) {
        let worker = choose|w: int|
            0 <= w < pool.workers.len() && !(#[trigger] pool.workers[w] is Waiting);
        match pool.workers[worker] {
            Phase::Visiting { key_path, stage } => match (stage, registry.opened(key_path)) {
                (Stage::Given, _) => Step::VisitKey { worker },
                (Stage::Reported, Ok(key)) => Step::ReadSubkeys { worker, subkeys: key.subkeys },
                (Stage::Reported, Err(error)) => Step::FinishKey { worker, outcome: Err(error) },
                (Stage::Followed, opened) => Step::ReadValues {
                    worker,
                    values: opened->Ok_0.values,
                },
                (Stage::Searched, _) => Step::FinishKey { worker, outcome: Ok(()) },
            },
            _ => Step::Ask { worker },
        }
    } else if pool.manager.queue.len() > 0 {
        Step::Wake { worker: 0, signal: Signal::WorkReady }
    } else {
        Step::Announce
    }
}

/// A search with workers never gets stuck: until its end is signalled, `next_step` can be taken.
pub proof fn law_search_never_gets_stuck(
    registry: RegistryModel,
    start: ManagerModel,
    steps: Seq<Step>,
)
    requires
        start.waiting == 0,
        start.threads > 0,
        Pool::initial(start).can_all(steps),
        registry.gives_all(Pool::initial(start), steps),
        !Pool::initial(start).after_all(steps).over,
    ensures
        ({
            let more = steps.push(next_step(registry, Pool::initial(start).after_all(steps)));
            &&& Pool::initial(start).can_all(more)
            &&& registry.gives_all(Pool::initial(start), more)
        }),
{
    let pool = Pool::initial(start).after_all(steps);
    let step = next_step(registry, pool);
    law_every_search_is_complete(start, steps);
    lemma_workers_at_work(registry, start, steps);
    if exists|w: int| 0 <= w < pool.workers.len() && !(#[trigger] pool.workers[w] is Waiting) {
        let worker = choose|w: int|
            0 <= w < pool.workers.len() && !(#[trigger] pool.workers[w] is Waiting);
        if pool.workers[worker] is Visiting {
            assert(pool.is_visiting(worker));
        }
    } else if pool.manager.queue.len() == 0 {
        law_end_comes_when_all_wait(pool);
    }
    assert(steps.push(step).drop_last() =~= steps);
}

impl RegistryModel {
    /// Whether every way down from a key ends before `levels` levels.
    pub open spec fn ends(self, key_path: Seq<char>, levels: nat) -> bool
        decreases levels,
    {
        levels > 0 && forall|child: Seq<char>| #[trigger]
            self.children(key_path).contains(child) ==> self.ends(child, (levels - 1) as nat)
    }

    /// How much there is to do with a key in the queue and with what lies below it, down to
    /// `levels` levels.
    pub open spec fn effort_of_key(self, key_path: Seq<char>, levels: nat) -> nat
        decreases levels, 0nat,
    {
        6 + if levels == 0 {
            0
        } else {
            self.effort_of_keys(self.children(key_path), (levels - 1) as nat)
        }
    }

    /// How much there is to do with keys in the queue and with what lies below them.
    pub open spec fn effort_of_keys(self, keys: Seq<Seq<char>>, levels: nat) -> nat
        decreases levels, keys.len() + 1,
    {
        if keys.len() == 0 {
            0
        } else {
            self.effort_of_keys(keys.drop_last(), levels) + self.effort_of_key(keys.last(), levels)
        }
    }

    /// How much a worker has still to do: with the key that it visits, with what lies below that
    /// as long as it is not queued, and with asking for the next.
    pub open spec fn effort_of_worker(self, phase: Phase, levels: nat) -> nat {
        match phase {
            Phase::Started => 1,
            Phase::Visiting { key_path, stage: Stage::Given } => (self.effort_of_key(
                key_path,
                levels,
            ) - 1) as nat,
            Phase::Visiting { key_path, stage: Stage::Reported } => (self.effort_of_key(
                key_path,
                levels,
            ) - 2) as nat,
            Phase::Visiting { stage: Stage::Followed, .. } => 3,
            Phase::Visiting { stage: Stage::Searched, .. } => 2,
            Phase::Waiting => 0,
            Phase::Stopped => 0,
        }
    }

    /// How much the workers have still to do.
    pub open spec fn effort_of_workers(self, workers: Seq<Phase>, levels: nat) -> nat
        decreases workers.len(),
    {
        if workers.len() == 0 {
            0
        } else {
            self.effort_of_workers(workers.drop_last(), levels) + self.effort_of_worker(
                workers.last(),
                levels,
            )
        }
    }

    /// How much a search has still to do in a registry with at most this many levels.
    pub open spec fn effort(self, pool: Pool, levels: nat) -> nat {
        self.effort_of_keys(pool.manager.queue, levels) + self.effort_of_workers(
            pool.workers,
            levels,
        )
    }
}

proof fn lemma_effort_adds_up(
    registry: RegistryModel,
    a: Seq<Seq<char>>,
    b: Seq<Seq<char>>,
    levels: nat,
)
    ensures
        registry.effort_of_keys(a + b, levels) == registry.effort_of_keys(a, levels)
            + registry.effort_of_keys(b, levels),
    decreases b.len(),
{
    if b.len() == 0 {
        assert(a + b =~= a);
    } else {
        lemma_effort_adds_up(registry, a, b.drop_last(), levels);
        assert((a + b).drop_last() =~= a + b.drop_last());
        assert((a + b).last() == b.last());
    }
}

proof fn lemma_effort_of_first(registry: RegistryModel, keys: Seq<Seq<char>>, levels: nat)
    requires
        keys.len() > 0,
    ensures
        registry.effort_of_keys(keys, levels) == registry.effort_of_key(keys.first(), levels)
            + registry.effort_of_keys(keys.drop_first(), levels),
{
    let first = seq![keys.first()];
    assert(keys =~= first + keys.drop_first());
    lemma_effort_adds_up(registry, first, keys.drop_first(), levels);
    assert(first.drop_last() =~= Seq::empty());
    assert(registry.effort_of_keys(first.drop_last(), levels) == 0);
    assert(first.last() == keys.first());
}

proof fn lemma_effort_update(
    registry: RegistryModel,
    workers: Seq<Phase>,
    worker: int,
    phase: Phase,
    levels: nat,
)
    requires
        0 <= worker < workers.len(),
    ensures
        registry.effort_of_workers(workers.update(worker, phase), levels)
            + registry.effort_of_worker(workers[worker], levels) == registry.effort_of_workers(
            workers,
            levels,
        ) + registry.effort_of_worker(phase, levels),
    decreases workers.len(),
{
    let changed = workers.update(worker, phase);
    if worker == workers.len() - 1 {
        assert(changed.drop_last() =~= workers.drop_last());
    } else {
        assert(changed.drop_last() =~= workers.drop_last().update(worker, phase));
        lemma_effort_update(registry, workers.drop_last(), worker, phase, levels);
    }
}

/// One level more makes no difference to a key below which there is nothing so deep.
proof fn lemma_effort_of_key_is_stable(registry: RegistryModel, key_path: Seq<char>, levels: nat)
    requires
        registry.ends(key_path, levels),
    ensures
        registry.effort_of_key(key_path, levels + 1) == registry.effort_of_key(key_path, levels),
    decreases levels, 0nat,
{
    lemma_effort_of_keys_is_stable(
        registry,
        registry.children(key_path),
        (levels - 1) as nat,
    );
}

proof fn lemma_effort_of_keys_is_stable(
    registry: RegistryModel,
    keys: Seq<Seq<char>>,
    levels: nat,
)
    requires
        forall|key: Seq<char>| #[trigger] keys.contains(key) ==> registry.ends(key, levels),
    ensures
        registry.effort_of_keys(keys, levels + 1) == registry.effort_of_keys(keys, levels),
    decreases levels, keys.len() + 1,
{
    if keys.len() > 0 {
        let rest = keys.drop_last();
        assert forall|key: Seq<char>| #[trigger] rest.contains(key) implies registry.ends(
            key,
            levels,
        ) by {
            let i = choose|i: int| 0 <= i < rest.len() && rest[i] == key;
            assert(keys[i] == key);
            assert(keys.contains(key));
        }
        assert(keys.contains(keys.last()));
        lemma_effort_of_keys_is_stable(registry, rest, levels);
        lemma_effort_of_key_is_stable(registry, keys.last(), levels);
    }
}

/// What ends before some level ends before a deeper one.
proof fn lemma_ends_deeper(
    registry: RegistryModel,
    key_path: Seq<char>,
    levels: nat,
    deeper: nat,
)
    requires
        registry.ends(key_path, levels),
        levels <= deeper,
    ensures
        registry.ends(key_path, deeper),
    decreases levels,
{
    assert forall|child: Seq<char>| #[trigger]
        registry.children(key_path).contains(child) implies registry.ends(
        child,
        (deeper - 1) as nat,
    ) by {
        lemma_ends_deeper(registry, child, (levels - 1) as nat, (deeper - 1) as nat);
    }
}

/// Where no key lies at some depth, none lies deeper.
proof fn lemma_nothing_lies_deeper(
    registry: RegistryModel,
    keys: Seq<Seq<char>>,
    key_path: Seq<char>,
    depth: nat,
    deeper: nat,
)
    requires
        forall|key: Seq<char>| !registry.lies_below(keys, key, depth),
        registry.lies_below(keys, key_path, deeper),
    ensures
        deeper < depth,
    decreases deeper,
{
    if deeper == depth {
        assert(!registry.lies_below(keys, key_path, depth));
    } else if deeper > depth {
        let parent = choose|parent: Seq<char>|
            registry.lies_below(keys, parent, (deeper - 1) as nat) && #[trigger] registry.children(
                parent,
            ).contains(key_path);
        lemma_nothing_lies_deeper(registry, keys, parent, depth, (deeper - 1) as nat);
    }
}

/// Where no key lies at some depth, every way down from a key above it ends before.
proof fn lemma_ways_down_end(
    registry: RegistryModel,
    keys: Seq<Seq<char>>,
    key_path: Seq<char>,
    depth: nat,
    at: nat,
)
    requires
        forall|key: Seq<char>| !registry.lies_below(keys, key, depth),
        registry.lies_below(keys, key_path, at),
    ensures
        at < depth,
        registry.ends(key_path, (depth - at) as nat),
    decreases depth - at,
{
    lemma_nothing_lies_deeper(registry, keys, key_path, depth, at);
    assert forall|child: Seq<char>| #[trigger]
        registry.children(key_path).contains(child) implies registry.ends(
        child,
        (depth - at - 1) as nat,
    ) by {
        assert(registry.lies_below(keys, key_path, ((at + 1) - 1) as nat));
        assert(registry.lies_below(keys, child, at + 1));
        lemma_ways_down_end(registry, keys, child, depth, at + 1);
    }
}

/// Where a worker that does not visit a key gets its next one or waits, less is left to do.
proof fn lemma_event_effort(
    registry: RegistryModel,
    pool: Pool,
    worker: int,
    event: EventModel,
    levels: nat,
)
    requires
        0 <= worker < pool.workers.len(),
    ensures
        registry.effort(pool.after_event(worker, event), levels) + registry.effort_of_worker(
            pool.workers[worker],
            levels,
        ) <= registry.effort(pool, levels),
        pool.manager.queue.len() > 0 && event != EventModel::Woken(Signal::NoWorkLeft)
            ==> registry.effort(pool.after_event(worker, event), levels)
            + registry.effort_of_worker(pool.workers[worker], levels) < registry.effort(
            pool,
            levels,
        ),
{
    let work = pool.manager.stepped(event).1;
    lemma_effort_update(registry, pool.workers, worker, phase_of(work), levels);
    if pool.manager.queue.len() > 0 {
        lemma_effort_of_first(registry, pool.manager.queue, levels);
    }
}

/// A search in a registry in which no key lies at `depth` levels below the first ones has less to
/// do after every step; only waking a worker for nothing, and signalling the end, leave as much.
pub proof fn law_steps_leave_less_to_do(
    registry: RegistryModel,
    start: ManagerModel,
    steps: Seq<Step>,
    step: Step,
    depth: nat,
)
    requires
        start.waiting == 0,
        Pool::initial(start).can_all(steps.push(step)),
        registry.gives_all(Pool::initial(start), steps.push(step)),
        forall|key: Seq<char>| !registry.lies_below(start.queue, key, depth),
    ensures
        ({
            let pool = Pool::initial(start).after_all(steps);
            let next = pool.after(step);
            &&& registry.effort(next, depth) <= registry.effort(pool, depth)
            &&& registry.effort(next, depth) == registry.effort(pool, depth) ==> {
                ||| step is Announce
                ||| step is Wake && (pool.manager.queue.len() == 0 || step->signal is NoWorkLeft)
            }
        }),
{
    let pool = Pool::initial(start).after_all(steps);
    let next = pool.after(step);
    assert(steps.push(step).drop_last() =~= steps);
    lemma_workers_at_work(registry, start, steps);
    law_search_makes_nothing_up(registry, start, steps);
    match step {
        Step::Ask { worker } => {
            lemma_event_effort(registry, pool, worker, EventModel::Started, depth);
        },
        Step::Wake { worker, signal } => {
            lemma_event_effort(registry, pool, worker, EventModel::Woken(signal), depth);
        },
        Step::FinishKey { worker, outcome } => {
            lemma_event_effort(
                registry,
                pool,
                worker,
                EventModel::Processed { key_path: pool.key_of(worker), outcome },
                depth,
            );
        },
        Step::VisitKey { worker } => {
            lemma_effort_update(
                registry,
                pool.workers,
                worker,
                next.workers[worker],
                depth,
            );
        },
        Step::ReadValues { worker, .. } => {
            lemma_effort_update(
                registry,
                pool.workers,
                worker,
                next.workers[worker],
                depth,
            );
        },
        Step::ReadSubkeys { worker, subkeys } => {
            let key = pool.key_of(worker);
            let children = registry.children(key);
            assert(pool.is_visiting(worker));
            let at = choose|at: nat| #[trigger] registry.lies_below(start.queue, key, at);
            lemma_ways_down_end(registry, start.queue, key, depth, at);
            lemma_ends_deeper(registry, key, (depth - at) as nat, depth);
            lemma_effort_of_keys_is_stable(registry, children, (depth - 1) as nat);
            lemma_effort_adds_up(registry, pool.manager.queue, children, depth);
            lemma_effort_update(
                registry,
                pool.workers,
                worker,
                next.workers[worker],
                depth,
            );
        },
        Step::Announce => {},
    }
}

/// A search with workers can always be brought to its end, whatever it has done so far, in a
/// registry in which no key lies at `depth` levels below the first ones. Taking the next step over
/// and over does it.
pub proof fn law_search_can_end(
    registry: RegistryModel,
    start: ManagerModel,
    steps: Seq<Step>,
    depth: nat,
) -> (more: Seq<Step>)
    requires
        start.waiting == 0,
        start.threads > 0,
        Pool::initial(start).can_all(steps),
        registry.gives_all(Pool::initial(start), steps),
        forall|key: Seq<char>| !registry.lies_below(start.queue, key, depth),
    ensures
        Pool::initial(start).can_all(steps + more),
        registry.gives_all(Pool::initial(start), steps + more),
        Pool::initial(start).after_all(steps + more).over,
    decreases
            if Pool::initial(start).after_all(steps).over {
                0
            } else {
                registry.effort(Pool::initial(start).after_all(steps), depth) + 1
            },
{
    let pool = Pool::initial(start).after_all(steps);
    if pool.over {
        assert(steps + Seq::<Step>::empty() =~= steps);
        Seq::empty()
    } else {
        let step = next_step(registry, pool);
        let longer = steps.push(step);
        law_search_never_gets_stuck(registry, start, steps);
        law_steps_leave_less_to_do(registry, start, steps, step, depth);
        assert(longer.drop_last() =~= steps);
        assert(Pool::initial(start).after_all(longer) == pool.after(step));
        let rest = law_search_can_end(registry, start, longer, depth);
        assert(steps + (seq![step] + rest) =~= longer + rest);
        seq![step] + rest
    }
}

} // verus!
