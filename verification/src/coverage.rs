//! What a search comes to: it visits every key that can be reached, and its results and errors
//! are those of these keys.

use vstd::prelude::*;

use crate::findings::{
    found_by, keeps, law_step_adds_what_it_meets, law_steps_lose_nothing, lemma_in_either,
    noted_by, queued_by,
};
use crate::pool::{law_every_search_is_complete, Pool, Stage, Step};
use crate::text::lowercase_of;
use crate::worker_manager::{
    child_paths, key_error, key_line, some_term_in, subkey_errors, value_errors, value_lines,
    ManagerModel, ValueModel,
};
use crate::worker_runtime::search_begun;

verus! {

/// What can be read of a key that can be opened: its subkeys and its values, or, in the place of
/// each, why it cannot be read.
pub struct KeyModel {
    pub subkeys: Seq<Result<Seq<char>, Seq<char>>>,
    pub values: Seq<Result<ValueModel, Seq<char>>>,
}

/// A registry that does not change: what opening each key gives.
pub struct RegistryModel {
    pub keys: spec_fn(Seq<char>) -> Result<KeyModel, Seq<char>>,
}

impl RegistryModel {
    /// What opening a key gives: what can be read of it, or why it cannot be opened.
    pub open spec fn opened(self, key_path: Seq<char>) -> Result<KeyModel, Seq<char>> {
        (self.keys)(key_path)
    }

    /// The keys right below a key.
    pub open spec fn children(self, key_path: Seq<char>) -> Seq<Seq<char>> {
        match self.opened(key_path) {
            Ok(key) => child_paths(key_path, key.subkeys),
            Err(_) => Seq::empty(),
        }
    }

    /// Whether a key lies `depth` levels below one of `keys`.
    pub open spec fn lies_below(
        self,
        keys: Seq<Seq<char>>,
        key_path: Seq<char>,
        depth: nat,
    ) -> bool
        decreases depth,
    {
        if depth == 0 {
            keys.contains(key_path)
        } else {
            exists|parent: Seq<char>|
                self.lies_below(keys, parent, (depth - 1) as nat) && #[trigger] self.children(
                    parent,
                ).contains(key_path)
        }
    }

    /// Whether a key is one of `keys` or lies below one.
    pub open spec fn reaches(self, keys: Seq<Seq<char>>, key_path: Seq<char>) -> bool {
        exists|depth: nat| #[trigger] self.lies_below(keys, key_path, depth)
    }

    /// Whether a line reports this key, or a value of it, and what it reports matches.
    pub open spec fn is_hit(
        self,
        terms: Seq<Seq<char>>,
        key_path: Seq<char>,
        line: Seq<char>,
    ) -> bool {
        ||| some_term_in(terms, lowercase_of(key_path)) && line == key_line(key_path)
        ||| match self.opened(key_path) {
            Ok(key) => value_lines(terms, key_path, key.values).contains(line),
            Err(_) => false,
        }
    }

    /// Whether a line reports an error of this key: of opening it, or of reading a subkey or a
    /// value of it.
    pub open spec fn is_fault(self, key_path: Seq<char>, line: Seq<char>) -> bool {
        match self.opened(key_path) {
            Ok(key) => subkey_errors(key_path, key.subkeys).contains(line) || value_errors(
                key_path,
                key.values,
            ).contains(line),
            Err(error) => line == key_error(key_path, error),
        }
    }

    /// Whether what a step reads, in the search `before` it, is what this registry holds.
    pub open spec fn gives(self, before: Pool, step: Step) -> bool {
        match step {
            Step::ReadSubkeys { worker, subkeys } => match self.opened(before.key_of(worker)) {
                Ok(key) => subkeys == key.subkeys,
                Err(_) => false,
            },
            Step::ReadValues { worker, values } => match self.opened(before.key_of(worker)) {
                Ok(key) => values == key.values,
                Err(_) => false,
            },
            Step::FinishKey { worker, outcome } => match self.opened(before.key_of(worker)) {
                Ok(_) => outcome is Ok,
                Err(error) => outcome == Err::<(), Seq<char>>(error),
            },
            _ => true,
        }
    }

    /// Whether all that a list of steps reads is what this registry holds.
    pub open spec fn gives_all(self, pool: Pool, steps: Seq<Step>) -> bool
        decreases steps.len(),
    {
        steps.len() == 0 || (self.gives_all(pool, steps.drop_last()) && self.gives(
            pool.after_all(steps.drop_last()),
            steps.last(),
        ))
    }
}

/// Whether all of a key is in the search: its hits, its errors and the keys below it.
spec fn settled(registry: RegistryModel, pool: Pool, key_path: Seq<char>) -> bool {
    &&& forall|line: Seq<char>| #[trigger]
        registry.is_hit(pool.manager.terms, key_path, line) ==> pool.manager.results.contains(line)
    &&& forall|line: Seq<char>| #[trigger]
        registry.is_fault(key_path, line) ==> pool.manager.errors.contains(line)
    &&& forall|child: Seq<char>| #[trigger]
        registry.children(key_path).contains(child) ==> pool.queued.contains(child)
}

/// Whether all of a key up to a stage is in the search.
spec fn gathered(registry: RegistryModel, pool: Pool, key_path: Seq<char>, stage: Stage) -> bool {
    let terms = pool.manager.terms;
    &&& !(stage is Given) && some_term_in(terms, lowercase_of(key_path))
        ==> pool.manager.results.contains(key_line(key_path))
    &&& stage is Followed || stage is Searched ==> match registry.opened(key_path) {
        Ok(key) => {
            &&& forall|line: Seq<char>| #[trigger]
                subkey_errors(key_path, key.subkeys).contains(line)
                    ==> pool.manager.errors.contains(line)
            &&& forall|child: Seq<char>| #[trigger]
                registry.children(key_path).contains(child) ==> pool.queued.contains(child)
        },
        Err(_) => false,
    }
    &&& stage is Searched ==> match registry.opened(key_path) {
        Ok(key) => {
            &&& forall|line: Seq<char>| #[trigger]
                value_lines(terms, key_path, key.values).contains(line)
                    ==> pool.manager.results.contains(line)
            &&& forall|line: Seq<char>| #[trigger]
                value_errors(key_path, key.values).contains(line)
                    ==> pool.manager.errors.contains(line)
        },
        Err(_) => false,
    }
}

/// Whether a worker visits this key.
spec fn visits(pool: Pool, worker: int, key_path: Seq<char>) -> bool {
    pool.is_visiting(worker) && pool.key_of(worker) == key_path
}

/// What a search has of the keys handed out: everything of those that were finished, and of the
/// others what was gathered so far.
spec fn nothing_missing(registry: RegistryModel, start: ManagerModel, pool: Pool) -> bool {
    &&& pool.manager.threads == start.threads
    &&& start.results.subset_of(pool.manager.results)
    &&& start.errors.subset_of(pool.manager.errors)
    &&& forall|key: Seq<char>| #[trigger] start.queue.contains(key) ==> pool.queued.contains(key)
    &&& forall|w: int| #[trigger]
        pool.is_visiting(w) ==> pool.handed_out.contains(pool.key_of(w)) && gathered(
            registry,
            pool,
            pool.key_of(w),
            pool.workers[w]->stage,
        )
    &&& forall|key: Seq<char>| #[trigger]
        pool.handed_out.contains(key) ==> settled(registry, pool, key) || exists|w: int| #[trigger]
            visits(pool, w, key)
}

/// Whether a search, which began as `start`, holds nothing but what it began with and what the
/// registry holds at the keys that it was handed: every line that it found is a hit of one of
/// them, every error that it noted is one of theirs, and every key that was queued is reached
/// from those that it began with.
pub open spec fn nothing_made_up(registry: RegistryModel, start: ManagerModel, pool: Pool) -> bool {
    &&& pool.manager.terms == start.terms
    &&& forall|line: Seq<char>| #[trigger]
        pool.manager.results.contains(line) ==> start.results.contains(line)
            || exists|key: Seq<char>| #[trigger]
            pool.handed_out.contains(key) && registry.is_hit(start.terms, key, line)
    &&& forall|line: Seq<char>| #[trigger]
        pool.manager.errors.contains(line) ==> start.errors.contains(line)
            || exists|key: Seq<char>| #[trigger]
            pool.handed_out.contains(key) && registry.is_fault(key, line)
    &&& forall|key: Seq<char>| #[trigger]
        pool.queued.contains(key) ==> registry.reaches(start.queue, key)
}

/// What is settled stays settled.
proof fn lemma_settled_stays(
    registry: RegistryModel,
    earlier: Pool,
    later: Pool,
    key_path: Seq<char>,
)
    requires
        keeps(earlier, later),
        settled(registry, earlier, key_path),
    ensures
        settled(registry, later, key_path),
{
}

/// What was gathered stays gathered.
proof fn lemma_gathered_stays(
    registry: RegistryModel,
    earlier: Pool,
    later: Pool,
    key_path: Seq<char>,
    stage: Stage,
)
    requires
        keeps(earlier, later),
        gathered(registry, earlier, key_path, stage),
    ensures
        gathered(registry, later, key_path, stage),
{
}

/// A key that was handed out is one that was queued.
proof fn lemma_handed_out_was_queued(pool: Pool, key: Seq<char>)
    requires
        pool.consistent(),
        pool.handed_out.contains(key),
    ensures
        pool.queued.contains(key),
{
    lemma_in_either(pool.handed_out, pool.manager.queue, key);
}

/// A key right below one that is reached is reached.
proof fn lemma_children_are_reached(
    registry: RegistryModel,
    keys: Seq<Seq<char>>,
    parent: Seq<char>,
    child: Seq<char>,
)
    requires
        registry.reaches(keys, parent),
        registry.children(parent).contains(child),
    ensures
        registry.reaches(keys, child),
{
    let depth = choose|depth: nat| #[trigger] registry.lies_below(keys, parent, depth);
    assert(registry.lies_below(keys, parent, ((depth + 1) - 1) as nat));
    assert(registry.lies_below(keys, child, depth + 1));
}

proof fn lemma_step_makes_nothing_up(
    registry: RegistryModel,
    start: ManagerModel,
    pool: Pool,
    step: Step,
)
    requires
        pool.consistent(),
        nothing_missing(registry, start, pool),
        nothing_made_up(registry, start, pool),
        pool.can(step),
        registry.gives(pool, step),
    ensures
        nothing_made_up(registry, start, pool.after(step)),
{
    let next = pool.after(step);
    law_steps_lose_nothing(pool, step);
    law_step_adds_what_it_meets(pool, step);
    assert forall|line: Seq<char>| #[trigger] next.manager.results.contains(line) implies {
        ||| start.results.contains(line)
        ||| exists|key: Seq<char>| #[trigger]
            next.handed_out.contains(key) && registry.is_hit(start.terms, key, line)
    } by {
        if pool.manager.results.contains(line) {
            if !start.results.contains(line) {
                let key = choose|key: Seq<char>| #[trigger]
                    pool.handed_out.contains(key) && registry.is_hit(start.terms, key, line);
                assert(next.handed_out.contains(key));
            }
        } else {
            assert(found_by(pool, step).contains(line));
            match step {
                Step::VisitKey { worker } => {
                    assert(pool.is_visiting(worker));
                    assert(next.handed_out.contains(pool.key_of(worker)));
                },
                Step::ReadValues { worker, .. } => {
                    assert(pool.is_visiting(worker));
                    assert(next.handed_out.contains(pool.key_of(worker)));
                },
                _ => {},
            }
        }
    }
    assert forall|line: Seq<char>| #[trigger] next.manager.errors.contains(line) implies {
        ||| start.errors.contains(line)
        ||| exists|key: Seq<char>| #[trigger]
            next.handed_out.contains(key) && registry.is_fault(key, line)
    } by {
        if pool.manager.errors.contains(line) {
            if !start.errors.contains(line) {
                let key = choose|key: Seq<char>| #[trigger]
                    pool.handed_out.contains(key) && registry.is_fault(key, line);
                assert(next.handed_out.contains(key));
            }
        } else {
            assert(noted_by(pool, step).contains(line));
            match step {
                Step::ReadSubkeys { worker, .. } => {
                    assert(pool.is_visiting(worker));
                    assert(next.handed_out.contains(pool.key_of(worker)));
                },
                Step::ReadValues { worker, .. } => {
                    assert(pool.is_visiting(worker));
                    assert(next.handed_out.contains(pool.key_of(worker)));
                },
                Step::FinishKey { worker, .. } => {
                    assert(pool.is_visiting(worker));
                    assert(next.handed_out.contains(pool.key_of(worker)));
                },
                _ => {},
            }
        }
    }
    assert forall|key: Seq<char>| #[trigger] next.queued.contains(key) implies registry.reaches(
        start.queue,
        key,
    ) by {
        lemma_in_either(pool.queued, queued_by(pool, step), key);
        if !pool.queued.contains(key) {
            if let Step::ReadSubkeys { worker, .. } = step {
                assert(pool.is_visiting(worker));
                lemma_handed_out_was_queued(pool, pool.key_of(worker));
                lemma_children_are_reached(registry, start.queue, pool.key_of(worker), key);
            }
        }
    }
}

/// A step gathers what its stage calls for.
proof fn lemma_step_gathers(
    registry: RegistryModel,
    start: ManagerModel,
    pool: Pool,
    step: Step,
    worker: int,
)
    requires
        nothing_missing(registry, start, pool),
        pool.can(step),
        registry.gives(pool, step),
        pool.after(step).is_visiting(worker),
    ensures
        ({
            let next = pool.after(step);
            &&& next.handed_out.contains(next.key_of(worker))
            &&& gathered(registry, next, next.key_of(worker), next.workers[worker]->stage)
        }),
{
    let next = pool.after(step);
    law_steps_lose_nothing(pool, step);
    law_step_adds_what_it_meets(pool, step);
    let key = next.key_of(worker);
    if pool.is_visiting(worker) && pool.workers[worker] == next.workers[worker] {
        lemma_gathered_stays(registry, pool, next, key, pool.workers[worker]->stage);
    } else if next.workers[worker]->stage is Given {
        assert(next.handed_out.last() == key);
    } else {
        assert(pool.is_visiting(worker));
        assert(pool.key_of(worker) == key);
        lemma_gathered_stays(registry, pool, next, key, pool.workers[worker]->stage);
        match step {
            Step::VisitKey { .. } => {
                if some_term_in(next.manager.terms, lowercase_of(key)) {
                    assert(found_by(pool, step).contains(key_line(key)));
                }
            },
            Step::ReadSubkeys { subkeys, .. } => {
                assert forall|line: Seq<char>| #[trigger]
                    subkey_errors(key, subkeys).contains(line) implies next.manager.errors.contains(
                    line,
                ) by {
                    assert(noted_by(pool, step).contains(line));
                }
                assert forall|child: Seq<char>| #[trigger]
                    registry.children(key).contains(child) implies next.queued.contains(child) by {
                    lemma_in_either(pool.queued, queued_by(pool, step), child);
                }
            },
            Step::ReadValues { values, .. } => {
                assert forall|line: Seq<char>| #[trigger]
                    value_lines(next.manager.terms, key, values).contains(
                    line,
                ) implies next.manager.results.contains(line) by {
                    assert(found_by(pool, step).contains(line));
                }
                assert forall|line: Seq<char>| #[trigger]
                    value_errors(key, values).contains(line) implies next.manager.errors.contains(
                    line,
                ) by {
                    assert(noted_by(pool, step).contains(line));
                }
            },
            _ => {},
        }
    }
}

/// A key that a worker is done with is settled.
proof fn lemma_finished_key_is_settled(
    registry: RegistryModel,
    start: ManagerModel,
    pool: Pool,
    worker: int,
    outcome: Result<(), Seq<char>>,
)
    requires
        nothing_missing(registry, start, pool),
        pool.can(Step::FinishKey { worker, outcome }),
        registry.gives(pool, Step::FinishKey { worker, outcome }),
    ensures
        settled(
            registry,
            pool.after(Step::FinishKey { worker, outcome }),
            pool.key_of(worker),
        ),
{
    let step = Step::FinishKey { worker, outcome };
    let next = pool.after(step);
    let key = pool.key_of(worker);
    assert(pool.is_visiting(worker));
    law_steps_lose_nothing(pool, step);
    law_step_adds_what_it_meets(pool, step);
    lemma_gathered_stays(registry, pool, next, key, pool.workers[worker]->stage);
    if let Err(error) = outcome {
        assert(noted_by(pool, step).contains(key_error(key, error)));
        assert(registry.children(key).len() == 0);
    }
}

proof fn lemma_step_misses_nothing(
    registry: RegistryModel,
    start: ManagerModel,
    pool: Pool,
    step: Step,
)
    requires
        nothing_missing(registry, start, pool),
        pool.can(step),
        registry.gives(pool, step),
    ensures
        nothing_missing(registry, start, pool.after(step)),
{
    let next = pool.after(step);
    law_steps_lose_nothing(pool, step);
    assert forall|w: int| #[trigger] next.is_visiting(w) implies next.handed_out.contains(
        next.key_of(w),
    ) && gathered(registry, next, next.key_of(w), next.workers[w]->stage) by {
        lemma_step_gathers(registry, start, pool, step, w);
    }
    assert forall|key: Seq<char>| #[trigger] next.handed_out.contains(key) implies {
        ||| settled(registry, next, key)
        ||| exists|w: int| #[trigger] visits(next, w, key)
    } by {
        if pool.handed_out.contains(key) {
            if settled(registry, pool, key) {
                lemma_settled_stays(registry, pool, next, key);
            } else {
                let w = choose|w: int| #[trigger] visits(pool, w, key);
                if !visits(next, w, key) {
                    // The worker has left the key: it is done with it.
                    if let Step::FinishKey { worker, outcome } = step {
                        assert(w == worker);
                        lemma_finished_key_is_settled(registry, start, pool, worker, outcome);
                    }
                }
            }
        } else {
            let i = choose|i: int| 0 <= i < next.handed_out.len() && next.handed_out[i] == key;
            if i < pool.handed_out.len() {
                assert(pool.handed_out[i] == key);
            }
            match step {
                Step::Ask { worker } => {
                    assert(visits(next, worker, key));
                },
                Step::FinishKey { worker, .. } => {
                    assert(visits(next, worker, key));
                },
                Step::Wake { worker, .. } => {
                    assert(visits(next, worker, key));
                },
                _ => {},
            }
        }
    }
}

proof fn lemma_search_covers(registry: RegistryModel, start: ManagerModel, steps: Seq<Step>)
    requires
        start.waiting == 0,
        Pool::initial(start).can_all(steps),
        registry.gives_all(Pool::initial(start), steps),
    ensures
        Pool::initial(start).after_all(steps).consistent(),
        nothing_missing(registry, start, Pool::initial(start).after_all(steps)),
        nothing_made_up(registry, start, Pool::initial(start).after_all(steps)),
    decreases steps.len(),
{
    law_every_search_is_complete(start, steps);
    if steps.len() == 0 {
        assert forall|key: Seq<char>| #[trigger]
            start.queue.contains(key) implies registry.reaches(start.queue, key) by {
            assert(registry.lies_below(start.queue, key, 0));
        }
    } else {
        let before = Pool::initial(start).after_all(steps.drop_last());
        lemma_search_covers(registry, start, steps.drop_last());
        lemma_step_misses_nothing(registry, start, before, steps.last());
        lemma_step_makes_nothing_up(registry, start, before, steps.last());
    }
}

/// At every moment of a search, every line that it has found reports a key or a value that
/// matches and that the registry holds at a key that was visited; every error that it has noted
/// is one that the registry gives at such a key; and every such key is reached from those with
/// which the search began.
pub proof fn law_search_makes_nothing_up(
    registry: RegistryModel,
    start: ManagerModel,
    steps: Seq<Step>,
)
    requires
        start.waiting == 0,
        Pool::initial(start).can_all(steps),
        registry.gives_all(Pool::initial(start), steps),
    ensures
        nothing_made_up(registry, start, Pool::initial(start).after_all(steps)),
{
    lemma_search_covers(registry, start, steps);
}

/// A key at any depth was queued, once the search is over.
proof fn lemma_reached_keys_are_queued(
    registry: RegistryModel,
    start: ManagerModel,
    pool: Pool,
    key_path: Seq<char>,
    depth: nat,
)
    requires
        nothing_missing(registry, start, pool),
        pool.handed_out == pool.queued,
        forall|w: int| !pool.is_visiting(w),
        registry.lies_below(start.queue, key_path, depth),
    ensures
        pool.queued.contains(key_path),
    decreases depth,
{
    if depth > 0 {
        let parent = choose|parent: Seq<char>|
            registry.lies_below(start.queue, parent, (depth - 1) as nat)
                && #[trigger] registry.children(parent).contains(key_path);
        lemma_reached_keys_are_queued(registry, start, pool, parent, (depth - 1) as nat);
        assert(pool.handed_out.contains(parent));
        assert(settled(registry, pool, parent));
    }
}

/// What a search comes to, whatever its terms, its workers and its first keys, and however its
/// workers take turns. Once it is over, the keys that were visited are those that are reached
/// from the first ones. Its results are, beside those with which it began, the hits of these
/// keys, all of them and no others; and its errors are theirs, all of them and no others.
pub proof fn law_search_finds_every_hit(
    registry: RegistryModel,
    start: ManagerModel,
    steps: Seq<Step>,
    text: Seq<char>,
)
    requires
        start.waiting == 0,
        Pool::initial(start).can_all(steps),
        registry.gives_all(Pool::initial(start), steps),
        Pool::initial(start).after_all(steps).over,
    ensures
        ({
            let end = Pool::initial(start).after_all(steps);
            &&& end.handed_out.contains(text) <==> registry.reaches(start.queue, text)
            &&& end.manager.results.contains(text) <==> {
                ||| start.results.contains(text)
                ||| exists|key: Seq<char>| #[trigger]
                    registry.reaches(start.queue, key) && registry.is_hit(start.terms, key, text)
            }
            &&& end.manager.errors.contains(text) <==> {
                ||| start.errors.contains(text)
                ||| exists|key: Seq<char>| #[trigger]
                    registry.reaches(start.queue, key) && registry.is_fault(key, text)
            }
        }),
{
    let end = Pool::initial(start).after_all(steps);
    law_every_search_is_complete(start, steps);
    lemma_search_covers(registry, start, steps);
    assert forall|key: Seq<char>| #[trigger]
        registry.reaches(start.queue, key) implies end.handed_out.contains(key) && settled(
        registry,
        end,
        key,
    ) by {
        let depth = choose|depth: nat| #[trigger] registry.lies_below(start.queue, key, depth);
        lemma_reached_keys_are_queued(registry, start, end, key, depth);
        assert(end.handed_out.contains(key));
    }
    assert(end.handed_out.contains(text) ==> end.queued.contains(text));
    if end.manager.results.contains(text) && !start.results.contains(text) {
        let key = choose|key: Seq<char>| #[trigger]
            end.handed_out.contains(key) && registry.is_hit(start.terms, key, text);
        assert(end.queued.contains(key));
        assert(registry.reaches(start.queue, key));
    }
    if end.manager.errors.contains(text) && !start.errors.contains(text) {
        let key = choose|key: Seq<char>| #[trigger]
            end.handed_out.contains(key) && registry.is_fault(key, text);
        assert(end.queued.contains(key));
        assert(registry.reaches(start.queue, key));
    }
}

/// What a search that the run control starts comes to: beside the results that it was given, it
/// holds the hits of all that lies below `Software`, and no others, and its errors are those
/// met there.
pub proof fn law_begun_search_finds_every_hit(
    registry: RegistryModel,
    search_terms: Seq<Seq<char>>,
    threads: usize,
    results: Set<Seq<char>>,
    steps: Seq<Step>,
    text: Seq<char>,
)
    requires
        Pool::initial(search_begun(search_terms, threads, results)).can_all(steps),
        registry.gives_all(Pool::initial(search_begun(search_terms, threads, results)), steps),
        Pool::initial(search_begun(search_terms, threads, results)).after_all(steps).over,
    ensures
        ({
            let start = search_begun(search_terms, threads, results);
            let end = Pool::initial(start).after_all(steps);
            let terms = search_terms.map_values(|term: Seq<char>| lowercase_of(term));
            &&& end.manager.results.contains(text) <==> {
                ||| results.contains(text)
                ||| exists|key: Seq<char>| #[trigger]
                    registry.reaches(seq!["Software"@], key) && registry.is_hit(terms, key, text)
            }
            &&& end.manager.errors.contains(text) <==> exists|key: Seq<char>| #[trigger]
                registry.reaches(seq!["Software"@], key) && registry.is_fault(key, text)
        }),
{
    let start = search_begun(search_terms, threads, results);
    assert(start.queue =~= seq!["Software"@]);
    law_search_finds_every_hit(registry, start, steps, text);
}

/// What holds of the workers of a search at every moment: there are as many as it began with, the
/// keys that they visit were queued, and they read from none that cannot be opened.
pub(crate) proof fn lemma_workers_at_work(
    registry: RegistryModel,
    start: ManagerModel,
    steps: Seq<Step>,
)
    requires
        start.waiting == 0,
        Pool::initial(start).can_all(steps),
        registry.gives_all(Pool::initial(start), steps),
    ensures
        ({
            let pool = Pool::initial(start).after_all(steps);
            &&& pool.workers.len() == start.threads
            &&& forall|w: int| #[trigger]
                pool.is_visiting(w) ==> {
                    &&& pool.queued.contains(pool.key_of(w))
                    &&& pool.is_at(w, Stage::Followed) || pool.is_at(w, Stage::Searched)
                        ==> registry.opened(pool.key_of(w)) is Ok
                }
        }),
{
    let pool = Pool::initial(start).after_all(steps);
    lemma_search_covers(registry, start, steps);
    assert forall|w: int| #[trigger] pool.is_visiting(w) implies {
        &&& pool.queued.contains(pool.key_of(w))
        &&& pool.is_at(w, Stage::Followed) || pool.is_at(w, Stage::Searched) ==> registry.opened(
            pool.key_of(w),
        ) is Ok
    } by {
        lemma_handed_out_was_queued(pool, pool.key_of(w));
    }
}

/// How many workers there are, and how they take turns, makes no difference to what a search
/// comes to.
pub proof fn law_workers_make_no_difference(
    registry: RegistryModel,
    start: ManagerModel,
    threads: usize,
    steps: Seq<Step>,
    others: Seq<Step>,
)
    requires
        start.waiting == 0,
        Pool::initial(start).can_all(steps),
        registry.gives_all(Pool::initial(start), steps),
        Pool::initial(start).after_all(steps).over,
        Pool::initial(ManagerModel { threads, ..start }).can_all(others),
        registry.gives_all(Pool::initial(ManagerModel { threads, ..start }), others),
        Pool::initial(ManagerModel { threads, ..start }).after_all(others).over,
    ensures
        ({
            let one = Pool::initial(start).after_all(steps).manager;
            let other = Pool::initial(ManagerModel { threads, ..start }).after_all(others).manager;
            one.results == other.results && one.errors == other.errors
        }),
{
    let restarted = ManagerModel { threads, ..start };
    let one = Pool::initial(start).after_all(steps).manager;
    let other = Pool::initial(restarted).after_all(others).manager;
    assert forall|text: Seq<char>|
        #![trigger one.results.contains(text)]
        #![trigger one.errors.contains(text)]
        one.results.contains(text) == other.results.contains(text) && one.errors.contains(text)
            == other.errors.contains(text) by {
        law_search_finds_every_hit(registry, start, steps, text);
        law_search_finds_every_hit(registry, restarted, others, text);
    }
    assert(one.results =~= other.results);
    assert(one.errors =~= other.errors);
}

} // verus!
