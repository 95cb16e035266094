//! What the steps of a search find, note and queue: all that they come across, and nothing else.

use vstd::prelude::*;

use crate::pool::{Pool, Step};
use crate::text::lemma_collected_members;
use crate::worker_manager::{
    child_path, child_paths, key_error, key_line, subkey_error, subkey_errors, value_error,
    value_errors, value_line, value_lines, value_matches, ValueModel,
};

verus! {

/// Whether everything that was found, noted, queued or handed out in `earlier` still counts in
/// `later`, for the same terms.
pub open spec fn keeps(earlier: Pool, later: Pool) -> bool {
    &&& later.manager.terms == earlier.manager.terms
    &&& earlier.manager.results.subset_of(later.manager.results)
    &&& earlier.manager.errors.subset_of(later.manager.errors)
    &&& forall|key: Seq<char>| #[trigger]
        earlier.queued.contains(key) ==> later.queued.contains(key)
    &&& forall|key: Seq<char>| #[trigger]
        earlier.handed_out.contains(key) ==> later.handed_out.contains(key)
}

/// Nothing that a search has found, noted, queued or handed out is lost by a step.
pub proof fn law_steps_lose_nothing(pool: Pool, step: Step)
    ensures
        keeps(pool, pool.after(step)),
{
    let next = pool.after(step);
    assert forall|key: Seq<char>| #[trigger]
        pool.queued.contains(key) implies next.queued.contains(key) by {
        let i = choose|i: int| 0 <= i < pool.queued.len() && pool.queued[i] == key;
        assert(next.queued[i] == key);
    }
    assert forall|key: Seq<char>| #[trigger]
        pool.handed_out.contains(key) implies next.handed_out.contains(key) by {
        let i = choose|i: int| 0 <= i < pool.handed_out.len() && pool.handed_out[i] == key;
        assert(next.handed_out[i] == key);
    }
}

/// The lines that a step finds in the search `before` it: those of the key that its worker
/// visits, where it is reported, and of the values that match among those that were read there.
pub open spec fn found_by(before: Pool, step: Step) -> Set<Seq<char>> {
    match step {
        Step::VisitKey { worker } => if before.manager.matches(before.key_of(worker)) {
            set![key_line(before.key_of(worker))]
        } else {
            Set::empty()
        },
        Step::ReadValues { worker, values } => value_lines(
            before.manager.terms,
            before.key_of(worker),
            values,
        ).to_set(),
        _ => Set::empty(),
    }
}

/// The errors that a step notes in the search `before` it: those of the subkeys and of the values
/// that could not be read at the key that its worker visits, and that of the key itself, where it
/// could not be opened.
pub open spec fn noted_by(before: Pool, step: Step) -> Set<Seq<char>> {
    match step {
        Step::ReadSubkeys { worker, subkeys } => subkey_errors(
            before.key_of(worker),
            subkeys,
        ).to_set(),
        Step::ReadValues { worker, values } => value_errors(
            before.key_of(worker),
            values,
        ).to_set(),
        Step::FinishKey { worker, outcome: Err(error) } => set![
            key_error(before.key_of(worker), error),
        ],
        _ => Set::empty(),
    }
}

/// The keys that a step queues in the search `before` it: the subkeys that were read at the key
/// that its worker visits.
pub open spec fn queued_by(before: Pool, step: Step) -> Seq<Seq<char>> {
    match step {
        Step::ReadSubkeys { worker, subkeys } => child_paths(before.key_of(worker), subkeys),
        _ => Seq::empty(),
    }
}

/// A step adds to a search what it finds, notes and queues, and nothing else.
pub proof fn law_step_adds_what_it_meets(pool: Pool, step: Step)
    ensures
        pool.after(step).manager.results == pool.manager.results.union(found_by(pool, step)),
        pool.after(step).manager.errors == pool.manager.errors.union(noted_by(pool, step)),
        pool.after(step).queued == pool.queued + queued_by(pool, step),
{
    let next = pool.after(step);
    assert(next.manager.results =~= pool.manager.results.union(found_by(pool, step)));
    assert(next.manager.errors =~= pool.manager.errors.union(noted_by(pool, step)));
    assert(next.queued =~= pool.queued + queued_by(pool, step));
}

/// The search before the step at position `i`.
pub open spec fn before_step(pool: Pool, steps: Seq<Step>, i: int) -> Pool {
    pool.after_all(steps.take(i))
}

/// A line is among the results of a search exactly where it was there at the beginning or one of
/// its steps found it; likewise an error, and a key in the queue.
pub proof fn law_search_holds_what_its_steps_met(pool: Pool, steps: Seq<Step>, text: Seq<char>)
    ensures
        pool.after_all(steps).manager.results.contains(text) <==> {
            ||| pool.manager.results.contains(text)
            ||| exists|i: int|
                0 <= i < steps.len() && found_by(
                    #[trigger] before_step(pool, steps, i),
                    steps[i],
                ).contains(text)
        },
        pool.after_all(steps).manager.errors.contains(text) <==> {
            ||| pool.manager.errors.contains(text)
            ||| exists|i: int|
                0 <= i < steps.len() && noted_by(
                    #[trigger] before_step(pool, steps, i),
                    steps[i],
                ).contains(text)
        },
        pool.after_all(steps).queued.contains(text) <==> {
            ||| pool.queued.contains(text)
            ||| exists|i: int|
                0 <= i < steps.len() && queued_by(
                    #[trigger] before_step(pool, steps, i),
                    steps[i],
                ).contains(text)
        },
    decreases steps.len(),
{
    if steps.len() > 0 {
        let earlier = steps.drop_last();
        let n = steps.len() - 1;
        let before = pool.after_all(earlier);
        law_search_holds_what_its_steps_met(pool, earlier, text);
        law_step_adds_what_it_meets(before, steps[n]);
        lemma_in_either(before.queued, queued_by(before, steps[n]), text);
        assert(steps.take(n) =~= earlier);
        assert(before_step(pool, steps, n) == before);
        assert forall|i: int| 0 <= i < n implies #[trigger] before_step(pool, steps, i)
            == before_step(pool, earlier, i) && steps[i] == earlier[i] by {
            assert(steps.take(i) =~= earlier.take(i));
        }
        assert forall|i: int| 0 <= i < n implies #[trigger] before_step(pool, earlier, i)
            == before_step(pool, steps, i) && steps[i] == earlier[i] by {
            assert(steps.take(i) =~= earlier.take(i));
        }
    }
}

/// What is in two lists, one behind the other, is in one of them.
pub(crate) proof fn lemma_in_either(a: Seq<Seq<char>>, b: Seq<Seq<char>>, text: Seq<char>)
    ensures
        (a + b).contains(text) <==> a.contains(text) || b.contains(text),
{
    let both = a + b;
    if a.contains(text) {
        let i = choose|i: int| 0 <= i < a.len() && a[i] == text;
        assert(both[i] == text);
    }
    if b.contains(text) {
        let i = choose|i: int| 0 <= i < b.len() && b[i] == text;
        assert(both[a.len() + i] == text);
    }
    if both.contains(text) {
        let i = choose|i: int| 0 <= i < both.len() && both[i] == text;
        if i < a.len() {
            assert(a[i] == text);
        } else {
            assert(b[i - a.len()] == text);
        }
    }
}

/// Every line for the values of a key reports a value that was read there and matches, and every
/// such value has its line; every line for its errors reports an error that was met there, and
/// every such error has its line; every key below it has the name of a subkey that was read
/// there, and every such name has its key.
pub proof fn law_lines_report_what_was_read(
    terms: Seq<Seq<char>>,
    key_path: Seq<char>,
    subkeys: Seq<Result<Seq<char>, Seq<char>>>,
    values: Seq<Result<ValueModel, Seq<char>>>,
    text: Seq<char>,
)
    ensures
        value_lines(terms, key_path, values).contains(text) <==> exists|i: int|
            0 <= i < values.len() && (#[trigger] values[i] matches Ok(value) && value_matches(
                terms,
                value,
            ) && value_line(key_path, value) == text),
        value_errors(key_path, values).contains(text) <==> exists|i: int|
            0 <= i < values.len() && (#[trigger] values[i] matches Err(error) && value_error(
                key_path,
                error,
            ) == text),
        child_paths(key_path, subkeys).contains(text) <==> exists|i: int|
            0 <= i < subkeys.len() && (#[trigger] subkeys[i] matches Ok(name) && child_path(
                key_path,
                name,
            ) == text),
        subkey_errors(key_path, subkeys).contains(text) <==> exists|i: int|
            0 <= i < subkeys.len() && (#[trigger] subkeys[i] matches Err(error) && subkey_error(
                key_path,
                error,
            ) == text),
{
    lemma_collected_members(
        values,
        |read: Result<ValueModel, Seq<char>>| read is Ok && value_matches(terms, read->Ok_0),
        |read: Result<ValueModel, Seq<char>>| value_line(key_path, read->Ok_0),
    );
    lemma_collected_members(
        values,
        |read: Result<ValueModel, Seq<char>>| read is Err,
        |read: Result<ValueModel, Seq<char>>| value_error(key_path, read->Err_0),
    );
    lemma_collected_members(
        subkeys,
        |read: Result<Seq<char>, Seq<char>>| read is Ok,
        |read: Result<Seq<char>, Seq<char>>| child_path(key_path, read->Ok_0),
    );
    lemma_collected_members(
        subkeys,
        |read: Result<Seq<char>, Seq<char>>| read is Err,
        |read: Result<Seq<char>, Seq<char>>| subkey_error(key_path, read->Err_0),
    );
}

} // verus!
