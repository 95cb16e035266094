//! What holds of matching, and of each step of a search.

use vstd::prelude::*;

use crate::text::{
    collected, lemma_collected_ends, lemma_collected_step, lowercase_of, occurs, occurs_at,
};
use crate::worker_manager::{
    child_path, some_term_in, subkey_error, value_error, value_errors, value_line, value_matches,
    EventModel, ManagerModel, ValueModel,
};

verus! {

// ---- Matching ----

/// Texts that differ in the case of their letters alone match alike.
pub proof fn law_case_does_not_matter(manager: ManagerModel, a: Seq<char>, b: Seq<char>)
    requires
        lowercase_of(a) == lowercase_of(b),
    ensures
        manager.matches(a) == manager.matches(b),
{
}

/// Without terms nothing matches; with an empty term everything does.
pub proof fn law_extreme_terms(terms: Seq<Seq<char>>, text: Seq<char>)
    ensures
        terms.len() == 0 ==> !some_term_in(terms, text),
        terms.contains(Seq::<char>::empty()) ==> some_term_in(terms, text),
{
    if terms.contains(Seq::<char>::empty()) {
        let k = choose|k: int| 0 <= k < terms.len() && terms[k] == Seq::<char>::empty();
        assert(text.subrange(0, 0) =~= terms[k]);
        assert(occurs_at(terms[k], text, 0));
    }
}

/// A text matches two lists of terms together where it matches one of them.
pub proof fn law_terms_add_up(a: Seq<Seq<char>>, b: Seq<Seq<char>>, text: Seq<char>)
    ensures
        some_term_in(a + b, text) == (some_term_in(a, text) || some_term_in(b, text)),
{
    if some_term_in(a, text) {
        let k = choose|k: int| 0 <= k < a.len() && occurs(#[trigger] a[k], text);
        assert((a + b)[k] == a[k]);
    }
    if some_term_in(b, text) {
        let k = choose|k: int| 0 <= k < b.len() && occurs(#[trigger] b[k], text);
        assert((a + b)[a.len() + k] == b[k]);
    }
    if some_term_in(a + b, text) {
        let k = choose|k: int| 0 <= k < (a + b).len() && occurs(#[trigger] (a + b)[k], text);
        if k < a.len() {
            assert(a[k] == (a + b)[k]);
        } else {
            assert(b[k - a.len()] == (a + b)[k]);
        }
    }
}

/// A term that stands in a part of a text stands in the text.
pub proof fn law_part_matches_whole(
    terms: Seq<Seq<char>>,
    left: Seq<char>,
    part: Seq<char>,
    right: Seq<char>,
)
    requires
        some_term_in(terms, part),
    ensures
        some_term_in(terms, left + part + right),
{
    let k = choose|k: int| 0 <= k < terms.len() && occurs(#[trigger] terms[k], part);
    let term = terms[k];
    let at = choose|at: int| occurs_at(term, part, at);
    let whole = left + part + right;
    assert(whole.subrange(left.len() + at, left.len() + at + term.len()) =~= part.subrange(
        at,
        at + term.len(),
    ));
    assert(occurs_at(term, whole, left.len() + at));
}

// ---- What is found ----

/// Every line found stays found, and every error met stays noted, whatever a search does next.
pub proof fn law_findings_only_grow(
    manager: ManagerModel,
    event: EventModel,
    key_path: Seq<char>,
    subkeys: Seq<Result<Seq<char>, Seq<char>>>,
    values: Seq<Result<ValueModel, Seq<char>>>,
    keys: Seq<Seq<char>>,
)
    ensures
        ({
            let grown = |later: ManagerModel|
                manager.results.subset_of(later.results) && manager.errors.subset_of(later.errors);
            &&& grown(manager.stepped(event).0)
            &&& grown(manager.key_visited(key_path))
            &&& grown(manager.subkeys_read(key_path, subkeys))
            &&& grown(manager.values_read(key_path, values))
            &&& grown(manager.fed(keys))
        }),
{
}

/// No step of a search changes its terms or its number of workers.
pub proof fn law_terms_and_threads_stay(
    manager: ManagerModel,
    event: EventModel,
    key_path: Seq<char>,
    subkeys: Seq<Result<Seq<char>, Seq<char>>>,
    values: Seq<Result<ValueModel, Seq<char>>>,
    keys: Seq<Seq<char>>,
)
    ensures
        ({
            let kept = |later: ManagerModel|
                later.terms == manager.terms && later.threads == manager.threads;
            &&& kept(manager.stepped(event).0)
            &&& kept(manager.key_visited(key_path))
            &&& kept(manager.subkeys_read(key_path, subkeys))
            &&& kept(manager.values_read(key_path, values))
            &&& kept(manager.fed(keys))
        }),
{
}

/// What is collected from two lists is what is collected from each.
proof fn lemma_collected_of_two<A, B>(
    a: Seq<A>,
    b: Seq<A>,
    keep: spec_fn(A) -> bool,
    form: spec_fn(A) -> B,
)
    ensures
        collected(a + b, keep, form) == collected(a, keep, form) + collected(b, keep, form),
        collected(a + b, keep, form).to_set() == collected(a, keep, form).to_set().union(
            collected(b, keep, form).to_set(),
        ),
{
    Seq::filter_distributes_over_add(a, b, keep);
    let ca = collected(a, keep, form);
    let cb = collected(b, keep, form);
    assert(collected(a + b, keep, form) =~= ca + cb);
    assert forall|x: B| (ca + cb).to_set().contains(x) <==> ca.to_set().union(
        cb.to_set(),
    ).contains(x) by {
        if ca.contains(x) {
            let i = choose|i: int| 0 <= i < ca.len() && ca[i] == x;
            assert((ca + cb)[i] == x);
        }
        if cb.contains(x) {
            let i = choose|i: int| 0 <= i < cb.len() && cb[i] == x;
            assert((ca + cb)[ca.len() + i] == x);
        }
    }
    assert((ca + cb).to_set() =~= ca.to_set().union(cb.to_set()));
}

/// Reading a key's values, or its subkeys, in two portions comes to the same as reading them in
/// one.
pub proof fn law_reading_in_portions(
    manager: ManagerModel,
    key_path: Seq<char>,
    values_a: Seq<Result<ValueModel, Seq<char>>>,
    values_b: Seq<Result<ValueModel, Seq<char>>>,
    subkeys_a: Seq<Result<Seq<char>, Seq<char>>>,
    subkeys_b: Seq<Result<Seq<char>, Seq<char>>>,
)
    ensures
        manager.values_read(key_path, values_a).values_read(key_path, values_b)
            == manager.values_read(key_path, values_a + values_b),
        manager.subkeys_read(key_path, subkeys_a).subkeys_read(key_path, subkeys_b)
            == manager.subkeys_read(key_path, subkeys_a + subkeys_b),
{
    let terms = manager.terms;
    lemma_collected_of_two(
        values_a,
        values_b,
        |read: Result<ValueModel, Seq<char>>| read is Ok && value_matches(terms, read->Ok_0),
        |read: Result<ValueModel, Seq<char>>| value_line(key_path, read->Ok_0),
    );
    lemma_collected_of_two(
        values_a,
        values_b,
        |read: Result<ValueModel, Seq<char>>| read is Err,
        |read: Result<ValueModel, Seq<char>>| value_error(key_path, read->Err_0),
    );
    lemma_collected_of_two(
        subkeys_a,
        subkeys_b,
        |read: Result<Seq<char>, Seq<char>>| read is Ok,
        |read: Result<Seq<char>, Seq<char>>| child_path(key_path, read->Ok_0),
    );
    lemma_collected_of_two(
        subkeys_a,
        subkeys_b,
        |read: Result<Seq<char>, Seq<char>>| read is Err,
        |read: Result<Seq<char>, Seq<char>>| subkey_error(key_path, read->Err_0),
    );
    assert(manager.values_read(key_path, values_a).values_read(key_path, values_b)
        =~= manager.values_read(key_path, values_a + values_b));
    assert(manager.subkeys_read(key_path, subkeys_a).subkeys_read(key_path, subkeys_b)
        =~= manager.subkeys_read(key_path, subkeys_a + subkeys_b));
}

/// Reading one value adds its line to the results where it matches, and changes nothing where it
/// does not.
pub proof fn law_value_reported_iff_it_matches(
    manager: ManagerModel,
    key_path: Seq<char>,
    value: ValueModel,
)
    ensures
        manager.values_read(key_path, seq![Ok(value)]) == if value_matches(manager.terms, value) {
            ManagerModel {
                results: manager.results.insert(value_line(key_path, value)),
                ..manager
            }
        } else {
            manager
        },
{
    broadcast use Seq::lemma_push_to_set_commute;

    let reads: Seq<Result<ValueModel, Seq<char>>> = seq![Ok(value)];
    let terms = manager.terms;
    let hit = |read: Result<ValueModel, Seq<char>>|
        read is Ok && value_matches(terms, read->Ok_0);
    let as_line = |read: Result<ValueModel, Seq<char>>| value_line(key_path, read->Ok_0);
    let bad = |read: Result<ValueModel, Seq<char>>| read is Err;
    let as_error = |read: Result<ValueModel, Seq<char>>| value_error(key_path, read->Err_0);
    lemma_collected_ends(reads, hit, as_line);
    lemma_collected_step(reads, hit, as_line, 0);
    lemma_collected_ends(reads, bad, as_error);
    lemma_collected_step(reads, bad, as_error, 0);
    assert(value_errors(key_path, reads).to_set() =~= Set::empty());
    assert(Seq::<Seq<char>>::empty().to_set() =~= Set::empty());
    let line = value_line(key_path, value);
    if value_matches(terms, value) {
        assert(manager.results.union(Set::empty().insert(line)) =~= manager.results.insert(line));
    }
    assert(manager.values_read(key_path, reads) =~= if value_matches(terms, value) {
        ManagerModel { results: manager.results.insert(line), ..manager }
    } else {
        manager
    });
}

} // verus!
