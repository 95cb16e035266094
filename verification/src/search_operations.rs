//! What holds of every call of an operation of a search, whatever it is called with and whatever it
//! gives back. `call_ensures` holds of a function, what it was called with, and what the call gave.

use vstd::prelude::*;

use crate::findings::law_lines_report_what_was_read;
use crate::roots::{law_export_is_the_selection, Root, SelectedRoots};
use crate::step_laws::{
    law_each_subkey_is_queued, law_free_worker_gets_the_first_key, law_key_error_is_noted,
    law_key_line_is_whole, law_text_matches_around_a_term, law_value_line_is_whole,
    law_value_matches_by_name_or_data, law_visit_reports_the_key,
    law_woken_worker_stops_or_asks_again,
};
use crate::text::{lowercase_of, occurs, texts};
use crate::text_laws::{
    law_orders_are_taken_as_they_are, law_reads_one_for_one, law_texts_one_for_one,
};
use crate::text_set::TextSet;
use crate::worker_manager::{
    run_thread, subkey_error, subkey_models, value_error, value_errors, value_line, value_lines,
    value_matches, value_models, EventModel, KeyAction, KeyContents, KeyEvent,
    ManagerModel, RegistryValue, RunAction, RunEvent, SearchCounters, Signal, Work, WorkerEvent,
    WorkerManager,
};
use crate::worker_runtime::{
    begin_search, begin_search_with, law_running_search_is_left_alone,
    law_search_asked_to_stop_stops, law_search_begins_at_software, worker_runtime, RunControl,
    RuntimeAction, RuntimeEvent,
};

verus! {

// ---- Making a search ----

/// A new search looks for the lower case of each of its terms, one for one and in their order, and
/// has nothing else yet.
pub proof fn law_every_new_search(
    search_terms: Vec<String>,
    threads: usize,
    manager: WorkerManager,
)
    requires
        call_ensures(WorkerManager::new, (search_terms, threads), manager),
    ensures
        manager@.threads == threads,
        manager@.terms.len() == search_terms@.len(),
        forall|i: int|
            0 <= i < search_terms@.len() ==> #[trigger] manager@.terms[i] == lowercase_of(
                search_terms@[i]@,
            ),
        manager@.queue.len() == 0,
        manager@.waiting == 0,
        forall|line: Seq<char>| !manager@.results.contains(line),
        forall|line: Seq<char>| !manager@.errors.contains(line),
{
    law_texts_one_for_one(search_terms@);
}

/// A search for terms in lower case takes them as they are, one for one and in their order, and has
/// nothing else yet.
pub proof fn law_every_new_search_in_lower_case(
    lowered: Vec<String>,
    threads: usize,
    manager: WorkerManager,
)
    requires
        call_ensures(WorkerManager::with_lowercase_terms, (lowered, threads), manager),
    ensures
        manager@.threads == threads,
        manager@.terms.len() == lowered@.len(),
        forall|i: int| 0 <= i < lowered@.len() ==> #[trigger] manager@.terms[i] == lowered@[i]@,
        manager@.queue.len() == 0,
        manager@.waiting == 0,
        forall|line: Seq<char>| !manager@.results.contains(line),
        forall|line: Seq<char>| !manager@.errors.contains(line),
{
    law_texts_one_for_one(lowered@);
}

/// A search that is given results works on these, and is otherwise as it was.
pub proof fn law_every_search_given_results(
    before: WorkerManager,
    results: TextSet,
    manager: WorkerManager,
)
    requires
        call_ensures(WorkerManager::with_results, (before, results), manager),
    ensures
        manager.result_set() == results,
        manager@.results == results@,
        manager@.errors == before@.errors,
        manager@.queue == before@.queue,
        manager@.terms == before@.terms,
        manager@.threads == before@.threads,
        manager@.waiting == before@.waiting,
{
}

/// A search that is begun looks for the lower case of each term, has all the workers it was given,
/// adds to the results it was given, and has the key `Software` to visit and no other.
pub proof fn law_every_begun_search(
    search_terms: Vec<String>,
    threads: usize,
    results: TextSet,
    manager: WorkerManager,
)
    requires
        call_ensures(begin_search_with, (search_terms, threads, results), manager),
    ensures
        manager@.threads == threads,
        manager@.terms.len() == search_terms@.len(),
        forall|i: int|
            0 <= i < search_terms@.len() ==> #[trigger] manager@.terms[i] == lowercase_of(
                search_terms@[i]@,
            ),
        manager@.queue.len() == 1,
        manager@.queue[0] == seq!['S', 'o', 'f', 't', 'w', 'a', 'r', 'e'],
        manager@.waiting == 0,
        manager@.results == results@,
        manager.result_set() == results,
        forall|line: Seq<char>| !manager@.errors.contains(line),
{
    law_texts_one_for_one(search_terms@);
    law_search_begins_at_software(texts(search_terms@), threads, results@);
}

/// The same of a search that is begun with as many workers as the machine says that it has
/// processors.
pub proof fn law_every_search_begun_here(
    search_terms: Vec<String>,
    results: TextSet,
    manager: WorkerManager,
)
    requires
        call_ensures(begin_search, (search_terms, results), manager),
    ensures
        call_ensures(num_cpus::get, (), manager@.threads),
        manager@.threads >= 1,
        manager@.terms.len() == search_terms@.len(),
        forall|i: int|
            0 <= i < search_terms@.len() ==> #[trigger] manager@.terms[i] == lowercase_of(
                search_terms@[i]@,
            ),
        manager@.queue.len() == 1,
        manager@.queue[0] == seq!['S', 'o', 'f', 't', 'w', 'a', 'r', 'e'],
        manager@.waiting == 0,
        manager@.results == results@,
        manager.result_set() == results,
        forall|line: Seq<char>| !manager@.errors.contains(line),
{
    law_texts_one_for_one(search_terms@);
    law_search_begins_at_software(texts(search_terms@), manager@.threads, results@);
}

// ---- Matching and reporting ----

/// A text is said to match exactly where its lower case is some term with something, or nothing,
/// before and behind it.
pub proof fn law_every_answer_on_a_text(manager: &WorkerManager, string: &str, found: bool)
    requires
        call_ensures(WorkerManager::string_matches, (manager, string), found),
    ensures
        found <==> exists|k: int, left: Seq<char>, right: Seq<char>|
            0 <= k < manager@.terms.len() && lowercase_of(string@) == #[trigger] (left
                + manager@.terms[k] + right),
{
    law_text_matches_around_a_term(manager@, string@);
}

/// One of two texts is said to match exactly where some term stands in the lower case of one of
/// them.
pub proof fn law_every_answer_on_two_texts(
    manager: &WorkerManager,
    string: &str,
    string2: &str,
    found: bool,
)
    requires
        call_ensures(WorkerManager::any_string_matches, (manager, string, string2), found),
    ensures
        found <==> exists|k: int|
            0 <= k < manager@.terms.len() && (occurs(
                #[trigger] manager@.terms[k],
                lowercase_of(string@),
            ) || occurs(manager@.terms[k], lowercase_of(string2@))),
{
    let terms = manager@.terms;
    if manager@.matches(string@) {
        let k = choose|k: int|
            0 <= k < terms.len() && occurs(#[trigger] terms[k], lowercase_of(string@));
        assert(occurs(terms[k], lowercase_of(string@)));
    } else if manager@.matches(string2@) {
        let k = choose|k: int|
            0 <= k < terms.len() && occurs(#[trigger] terms[k], lowercase_of(string2@));
        assert(occurs(terms[k], lowercase_of(string2@)));
    }
}

/// A text in lower case is said to match exactly where some term stands in it as it is.
pub proof fn law_every_answer_in_lower_case(manager: &WorkerManager, lowered: &str, found: bool)
    requires
        call_ensures(WorkerManager::matches_lowercase, (manager, lowered), found),
    ensures
        found <==> exists|k: int|
            0 <= k < manager@.terms.len() && occurs(#[trigger] manager@.terms[k], lowered@),
{
}

/// A key is reported exactly where some term stands in the lower case it comes with; its line is
/// the root, a backslash and its path.
pub proof fn law_every_report_of_a_key(
    manager: &WorkerManager,
    key_path: &str,
    lowered: &str,
    line: Option<String>,
)
    requires
        call_ensures(WorkerManager::key_report, (manager, key_path, lowered), line),
    ensures
        line is Some <==> exists|k: int|
            0 <= k < manager@.terms.len() && occurs(#[trigger] manager@.terms[k], lowered@),
        line is Some ==> {
            &&& line->0@.len() == 19 + key_path@.len()
            &&& line->0@.take(18) == "HKEY_LOCAL_MACHINE"@
            &&& line->0@[18] == '\\'
            &&& line->0@.skip(19) == key_path@
        },
{
    law_key_line_is_whole(key_path@);
}

/// A value is reported exactly where some term stands in one of the lower cases it comes with; its
/// line has the root, the path, the name, the data in quotes and the type in brackets.
pub proof fn law_every_report_of_a_value(
    manager: &WorkerManager,
    key_path: &str,
    value: &RegistryValue,
    lowered_name: &str,
    lowered_data: &str,
    line: Option<String>,
)
    requires
        call_ensures(
            WorkerManager::value_report,
            (manager, key_path, value, lowered_name, lowered_data),
            line,
        ),
    ensures
        line is Some <==> exists|k: int|
            0 <= k < manager@.terms.len() && (occurs(#[trigger] manager@.terms[k], lowered_name@)
                || occurs(manager@.terms[k], lowered_data@)),
        line is Some && value.name@.len() > 0 ==> line->0@ == "HKEY_LOCAL_MACHINE"@ + seq!['\\']
            + key_path@ + seq!['\\'] + value.name@ + seq![' ', '=', ' ', '"'] + value.data@ + seq![
            '"',
            ' ',
            '(',
        ] + value.kind@ + seq![')'],
        line is Some && value.name@.len() == 0 ==> line->0@ == "HKEY_LOCAL_MACHINE"@ + seq!['\\']
            + key_path@ + seq!['\\'] + "(Default)"@ + seq![' ', '=', ' ', '"'] + value.data@ + seq![
            '"',
            ' ',
            '(',
        ] + value.kind@ + seq![')'],
{
    law_value_line_is_whole(key_path@, value@);
    let terms = manager@.terms;
    if line is Some {
        if exists|k: int| 0 <= k < terms.len() && occurs(#[trigger] terms[k], lowered_name@) {
            let k = choose|k: int| 0 <= k < terms.len() && occurs(#[trigger] terms[k], lowered_name@);
            assert(occurs(terms[k], lowered_name@));
        } else {
            let k = choose|k: int| 0 <= k < terms.len() && occurs(#[trigger] terms[k], lowered_data@);
            assert(occurs(terms[k], lowered_data@));
        }
    }
}

// ---- Visiting a key ----

/// Queueing keys puts them behind those already queued, one for one and in their order, and changes
/// nothing else.
pub proof fn law_every_feeding(manager: &mut WorkerManager, keys: Vec<String>)
    requires
        call_ensures(WorkerManager::feed_queue, (manager, keys), ()),
    ensures
        final(manager)@.queue.len() == old(manager)@.queue.len() + keys@.len(),
        forall|i: int|
            0 <= i < old(manager)@.queue.len() ==> #[trigger] final(manager)@.queue[i]
                == old(manager)@.queue[i],
        forall|i: int|
            0 <= i < keys@.len() ==> final(manager)@.queue[old(manager)@.queue.len() + i]
                == #[trigger] keys@[i]@,
        final(manager)@.results == old(manager)@.results,
        final(manager)@.errors == old(manager)@.errors,
        final(manager)@.terms == old(manager)@.terms,
        final(manager)@.threads == old(manager)@.threads,
        final(manager)@.waiting == old(manager)@.waiting,
        final(manager).result_set() == old(manager).result_set(),
{
    law_texts_one_for_one(keys@);
}

/// Visiting a key adds its line exactly where some term stands in the lower case of its path, and
/// changes nothing else.
pub proof fn law_every_visit(manager: &mut WorkerManager, key_path: &str)
    requires
        call_ensures(WorkerManager::visit_key, (manager, key_path), ()),
    ensures
        ({
            let found = exists|k: int|
                0 <= k < old(manager)@.terms.len() && occurs(
                    #[trigger] old(manager)@.terms[k],
                    lowercase_of(key_path@),
                );
            &&& found ==> final(manager)@.results == old(manager)@.results.insert(
                "HKEY_LOCAL_MACHINE"@ + seq!['\\'] + key_path@,
            )
            &&& !found ==> final(manager)@.results == old(manager)@.results
            &&& final(manager)@.errors == old(manager)@.errors
            &&& final(manager)@.queue == old(manager)@.queue
            &&& final(manager)@.terms == old(manager)@.terms
            &&& final(manager)@.threads == old(manager)@.threads
            &&& final(manager)@.waiting == old(manager)@.waiting
        }),
{
    law_visit_reports_the_key(old(manager)@, key_path@);
}

/// Whether `queue` is `earlier` with the keys at the names that were read behind it, each at the
/// path of its parent, a backslash and its name, in the order of reading.
pub open spec fn follows(
    queue: Seq<Seq<char>>,
    earlier: Seq<Seq<char>>,
    key_path: Seq<char>,
    reads: Seq<Result<String, String>>,
) -> bool
    decreases reads.len(),
{
    if reads.len() == 0 {
        queue == earlier
    } else {
        match reads.last() {
            Ok(name) => {
                &&& queue.len() > earlier.len()
                &&& queue.last() == key_path + seq!['\\'] + name@
                &&& follows(queue.drop_last(), earlier, key_path, reads.drop_last())
            },
            Err(_) => follows(queue, earlier, key_path, reads.drop_last()),
        }
    }
}

proof fn lemma_subkeys_follow(
    manager: ManagerModel,
    key_path: Seq<char>,
    reads: Seq<Result<String, String>>,
)
    ensures
        follows(
            manager.subkeys_read(key_path, subkey_models(reads)).queue,
            manager.queue,
            key_path,
            reads,
        ),
        manager.queue.len() <= manager.subkeys_read(key_path, subkey_models(reads)).queue.len(),
    decreases reads.len(),
{
    let models = subkey_models(reads);
    if reads.len() == 0 {
        assert(models =~= Seq::empty());
        law_each_subkey_is_queued(manager, key_path, models, Err(Seq::empty()));
    } else {
        let rest = reads.drop_last();
        lemma_subkeys_follow(manager, key_path, rest);
        law_reads_one_for_one(reads, Seq::empty());
        assert(subkey_models(rest).push(models.last()) =~= models);
        assert(reads[reads.len() - 1] == reads.last());
        law_each_subkey_is_queued(manager, key_path, subkey_models(rest), models.last());
        let queue = manager.subkeys_read(key_path, models).queue;
        let before = manager.subkeys_read(key_path, subkey_models(rest)).queue;
        if reads.last() is Ok {
            assert(queue.drop_last() =~= before);
        }
    }
}

/// What the counts are after so many more: their sum, from zero again past the largest.
pub open spec fn counted(before: usize, more: nat, after: usize) -> bool {
    after == if before + more <= usize::MAX {
        before + more
    } else {
        before + more - usize::MAX - 1
    }
}

/// Reading subkeys puts the key of each name behind those already queued, at the path of its
/// parent, a backslash and the name, in the order of reading; notes an error for each failure and
/// no other; counts every read; and changes nothing else.
pub proof fn law_every_reading_of_subkeys(
    manager: &mut WorkerManager,
    counters: &mut SearchCounters,
    key_path: &str,
    reads: &Vec<Result<String, String>>,
    text: Seq<char>,
)
    requires
        call_ensures(WorkerManager::read_subkeys, (manager, counters, key_path, reads), ()),
    ensures
        follows(final(manager)@.queue, old(manager)@.queue, key_path@, reads@),
        final(manager)@.errors.contains(text) <==> {
            ||| old(manager)@.errors.contains(text)
            ||| exists|i: int|
                0 <= i < reads@.len() && (#[trigger] reads@[i] matches Err(error) && text
                    == key_path@ + ", Subkey error: \""@ + error@ + "\""@)
        },
        final(manager)@.results == old(manager)@.results,
        final(manager)@.terms == old(manager)@.terms,
        final(manager)@.threads == old(manager)@.threads,
        final(manager)@.waiting == old(manager)@.waiting,
        counted(old(counters).key_count, reads@.len(), final(counters).key_count),
        final(counters).value_count == old(counters).value_count,
{
    lemma_subkeys_follow(old(manager)@, key_path@, reads@);
    lemma_subkey_errors(old(manager)@, key_path@, reads@, text);
}

proof fn lemma_subkey_errors(
    manager: ManagerModel,
    key_path: Seq<char>,
    reads: Seq<Result<String, String>>,
    text: Seq<char>,
)
    ensures
        manager.subkeys_read(key_path, subkey_models(reads)).errors.contains(text) <==> {
            ||| manager.errors.contains(text)
            ||| exists|i: int|
                0 <= i < reads.len() && (#[trigger] reads[i] matches Err(error) && text == key_path
                    + ", Subkey error: \""@ + error@ + "\""@)
        },
{
    let models = subkey_models(reads);
    law_reads_one_for_one(reads, Seq::empty());
    law_lines_report_what_was_read(Seq::empty(), key_path, models, Seq::empty(), text);
    if exists|i: int|
        0 <= i < models.len() && (#[trigger] models[i] matches Err(error) && subkey_error(
            key_path,
            error,
        ) == text) {
        let i = choose|i: int|
            0 <= i < models.len() && (#[trigger] models[i] matches Err(error)
                && subkey_error(key_path, error) == text);
        assert(reads[i] is Err);
    }
    if exists|i: int|
        0 <= i < reads.len() && (#[trigger] reads[i] matches Err(error) && text == key_path
            + ", Subkey error: \""@ + error@ + "\""@) {
        let i = choose|i: int|
            0 <= i < reads.len() && (#[trigger] reads[i] matches Err(error) && text == key_path
                + ", Subkey error: \""@ + error@ + "\""@);
        assert(models[i] is Err);
    }
}

/// Whether a line is that of a value: the root, the path of the key, the name or `(Default)`, the
/// data in quotes and the type in brackets.
pub open spec fn is_line_of(line: Seq<char>, key_path: Seq<char>, value: RegistryValue) -> bool {
    line == "HKEY_LOCAL_MACHINE"@ + seq!['\\'] + key_path + seq!['\\'] + (if value.name@.len() == 0 {
        "(Default)"@
    } else {
        value.name@
    }) + seq![' ', '=', ' ', '"'] + value.data@ + seq!['"', ' ', '('] + value.kind@ + seq![')']
}

/// Whether some term stands in the lower case of a value's name or of its data.
pub open spec fn holds_a_term(terms: Seq<Seq<char>>, value: RegistryValue) -> bool {
    exists|k: int|
        0 <= k < terms.len() && (occurs(#[trigger] terms[k], lowercase_of(value.name@)) || occurs(
            terms[k],
            lowercase_of(value.data@),
        ))
}

/// Reading values adds the line of each value that holds a term in its name or its data, and no
/// other; notes an error for each failure, and no other; counts every read; and changes nothing
/// else.
pub proof fn law_every_reading_of_values(
    manager: &mut WorkerManager,
    counters: &mut SearchCounters,
    key_path: &str,
    reads: &Vec<Result<RegistryValue, String>>,
    text: Seq<char>,
)
    requires
        call_ensures(WorkerManager::read_values, (manager, counters, key_path, reads), ()),
    ensures
        final(manager)@.results.contains(text) <==> {
            ||| old(manager)@.results.contains(text)
            ||| exists|i: int|
                0 <= i < reads@.len() && (#[trigger] reads@[i] matches Ok(value) && holds_a_term(
                    old(manager)@.terms,
                    value,
                ) && is_line_of(text, key_path@, value))
        },
        final(manager)@.errors.contains(text) <==> {
            ||| old(manager)@.errors.contains(text)
            ||| exists|i: int|
                0 <= i < reads@.len() && (#[trigger] reads@[i] matches Err(error) && text
                    == key_path@ + ", Value error: \""@ + error@ + "\""@)
        },
        final(manager)@.queue == old(manager)@.queue,
        final(manager)@.terms == old(manager)@.terms,
        final(manager)@.threads == old(manager)@.threads,
        final(manager)@.waiting == old(manager)@.waiting,
        counted(old(counters).value_count, reads@.len(), final(counters).value_count),
        final(counters).key_count == old(counters).key_count,
{
    lemma_values_reported(old(manager)@, key_path@, reads@, text);
}

proof fn lemma_values_reported(
    manager: ManagerModel,
    key_path: Seq<char>,
    reads: Seq<Result<RegistryValue, String>>,
    text: Seq<char>,
)
    ensures
        manager.values_read(key_path, value_models(reads)).results.contains(text) <==> {
            ||| manager.results.contains(text)
            ||| exists|i: int|
                0 <= i < reads.len() && (#[trigger] reads[i] matches Ok(value) && holds_a_term(
                    manager.terms,
                    value,
                ) && is_line_of(text, key_path, value))
        },
        manager.values_read(key_path, value_models(reads)).errors.contains(text) <==> {
            ||| manager.errors.contains(text)
            ||| exists|i: int|
                0 <= i < reads.len() && (#[trigger] reads[i] matches Err(error) && text == key_path
                    + ", Value error: \""@ + error@ + "\""@)
        },
{
    let models = value_models(reads);
    law_reads_one_for_one(Seq::empty(), reads);
    law_lines_report_what_was_read(manager.terms, key_path, Seq::empty(), models, text);
    assert forall|i: int| 0 <= i < reads.len() && reads[i] is Ok implies {
        &&& #[trigger] models[i] is Ok
        &&& value_matches(manager.terms, models[i]->Ok_0) <==> holds_a_term(
            manager.terms,
            reads[i]->Ok_0,
        )
        &&& value_line(key_path, models[i]->Ok_0) == text <==> is_line_of(
            text,
            key_path,
            reads[i]->Ok_0,
        )
    } by {
        law_value_matches_by_name_or_data(manager.terms, models[i]->Ok_0);
        law_value_line_is_whole(key_path, models[i]->Ok_0);
    }
    if exists|i: int|
        0 <= i < reads.len() && (#[trigger] reads[i] matches Ok(value) && holds_a_term(
            manager.terms,
            value,
        ) && is_line_of(text, key_path, value)) {
        let i = choose|i: int|
            0 <= i < reads.len() && (#[trigger] reads[i] matches Ok(value) && holds_a_term(
                manager.terms,
                value,
            ) && is_line_of(text, key_path, value));
        assert(models[i] is Ok);
    }
    if exists|i: int|
        0 <= i < reads.len() && (#[trigger] reads[i] matches Err(error) && text == key_path
            + ", Value error: \""@ + error@ + "\""@) {
        let i = choose|i: int|
            0 <= i < reads.len() && (#[trigger] reads[i] matches Err(error) && text == key_path
                + ", Value error: \""@ + error@ + "\""@);
        assert(models[i] is Err);
    }
    if value_lines(manager.terms, key_path, models).contains(text) {
        let i = choose|i: int|
            0 <= i < models.len() && (#[trigger] models[i] matches Ok(value)
                && value_matches(manager.terms, value)
                && value_line(key_path, value) == text);
        assert(reads[i] is Ok);
    }
    if value_errors(key_path, models).contains(text) {
        let i = choose|i: int|
            0 <= i < models.len() && (#[trigger] models[i] matches Err(error)
                && value_error(key_path, error) == text);
        assert(reads[i] is Err);
    }
}

/// What a worker does next with a key, and what it has done to the search: a key that is given is
/// reported and is to be opened; one that was opened is to have its subkeys read, and one that was
/// not is left with its error; then the subkeys are queued and the values are to be read; then
/// these are reported, and the key is left. Nothing else changes.
pub proof fn law_every_step_of_a_visit(
    manager: &mut WorkerManager,
    counters: &mut SearchCounters,
    key_path: &str,
    event: KeyEvent,
    action: KeyAction,
    text: Seq<char>,
)
    requires
        call_ensures(WorkerManager::visit_step, (manager, counters, key_path, event), action),
    ensures
        final(manager)@.terms == old(manager)@.terms,
        final(manager)@.threads == old(manager)@.threads,
        final(manager)@.waiting == old(manager)@.waiting,
        event is Given ==> {
            let found = exists|k: int|
                0 <= k < old(manager)@.terms.len() && occurs(
                    #[trigger] old(manager)@.terms[k],
                    lowercase_of(key_path@),
                );
            &&& action is Open
            &&& found ==> final(manager)@.results == old(manager)@.results.insert(
                "HKEY_LOCAL_MACHINE"@ + seq!['\\'] + key_path@,
            )
            &&& !found ==> final(manager)@.results == old(manager)@.results
            &&& final(manager)@.queue == old(manager)@.queue
            &&& final(manager)@.errors == old(manager)@.errors
            &&& *final(counters) == *old(counters)
        },
        event matches KeyEvent::Opened(opened) ==> {
            &&& opened is Ok ==> action is ReadSubkeys
            &&& opened matches Err(error) ==> action == KeyAction::Leave(Err(error))
            &&& final(manager)@ == old(manager)@
            &&& *final(counters) == *old(counters)
        },
        event matches KeyEvent::SubkeysRead(reads) ==> {
            &&& action is ReadValues
            &&& follows(final(manager)@.queue, old(manager)@.queue, key_path@, reads@)
            &&& final(manager)@.results == old(manager)@.results
            &&& final(manager)@.errors.contains(text) <==> {
                ||| old(manager)@.errors.contains(text)
                ||| exists|i: int|
                    0 <= i < reads@.len() && (#[trigger] reads@[i] matches Err(error) && text
                        == key_path@ + ", Subkey error: \""@ + error@ + "\""@)
            }
            &&& counted(old(counters).key_count, reads@.len(), final(counters).key_count)
            &&& final(counters).value_count == old(counters).value_count
        },
        event matches KeyEvent::ValuesRead(reads) ==> {
            &&& action == KeyAction::Leave(Ok(()))
            &&& final(manager)@.queue == old(manager)@.queue
            &&& final(manager)@.results.contains(text) <==> {
                ||| old(manager)@.results.contains(text)
                ||| exists|i: int|
                    0 <= i < reads@.len() && (#[trigger] reads@[i] matches Ok(value)
                        && holds_a_term(old(manager)@.terms, value) && is_line_of(
                        text,
                        key_path@,
                        value,
                    ))
            }
            &&& final(manager)@.errors.contains(text) <==> {
                ||| old(manager)@.errors.contains(text)
                ||| exists|i: int|
                    0 <= i < reads@.len() && (#[trigger] reads@[i] matches Err(error) && text
                        == key_path@ + ", Value error: \""@ + error@ + "\""@)
            }
            &&& counted(old(counters).value_count, reads@.len(), final(counters).value_count)
            &&& final(counters).key_count == old(counters).key_count
        },
{
    law_visit_reports_the_key(old(manager)@, key_path@);
    if let KeyEvent::SubkeysRead(reads) = event {
        lemma_subkeys_follow(old(manager)@, key_path@, reads@);
        lemma_subkey_errors(old(manager)@, key_path@, reads@, text);
    }
    if let KeyEvent::ValuesRead(reads) = event {
        lemma_values_reported(old(manager)@, key_path@, reads@, text);
    }
}

/// A whole visit of a key. A line is among the results afterwards exactly where it was before, or
/// is that of the key and some term stands in its path, or is that of a value of the opened key
/// that holds a term. The subkeys of an opened key are queued. The errors of reading are noted. The
/// error of a key that could not be opened is handed back, and nothing of it is queued, noted or
/// counted.
pub proof fn law_every_whole_visit(
    manager: &mut WorkerManager,
    counters: &mut SearchCounters,
    key_path: &str,
    opened: Result<KeyContents, String>,
    outcome: Result<(), String>,
    text: Seq<char>,
)
    requires
        call_ensures(
            WorkerManager::feed_queue_and_process_values,
            (manager, counters, key_path, opened),
            outcome,
        ),
    ensures
        ({
            let of_the_key = text == "HKEY_LOCAL_MACHINE"@ + seq!['\\'] + key_path@ && exists|k: int|
                0 <= k < old(manager)@.terms.len() && occurs(
                    #[trigger] old(manager)@.terms[k],
                    lowercase_of(key_path@),
                );
            &&& opened matches Ok(contents) ==> {
                &&& outcome is Ok
                &&& final(manager)@.results.contains(text) <==> {
                    ||| old(manager)@.results.contains(text)
                    ||| of_the_key
                    ||| exists|i: int|
                        0 <= i < contents.values@.len() && (#[trigger] contents.values@[i] matches Ok(
                            value,
                        ) && holds_a_term(old(manager)@.terms, value) && is_line_of(
                            text,
                            key_path@,
                            value,
                        ))
                }
                &&& follows(
                    final(manager)@.queue,
                    old(manager)@.queue,
                    key_path@,
                    contents.subkeys@,
                )
                &&& final(manager)@.errors.contains(text) <==> {
                    ||| old(manager)@.errors.contains(text)
                    ||| exists|i: int|
                        0 <= i < contents.subkeys@.len() && (
                        #[trigger] contents.subkeys@[i] matches Err(error) && text == key_path@
                            + ", Subkey error: \""@ + error@ + "\""@)
                    ||| exists|i: int|
                        0 <= i < contents.values@.len() && (
                        #[trigger] contents.values@[i] matches Err(error) && text == key_path@
                            + ", Value error: \""@ + error@ + "\""@)
                }
                &&& counted(
                    old(counters).key_count,
                    contents.subkeys@.len(),
                    final(counters).key_count,
                )
                &&& counted(
                    old(counters).value_count,
                    contents.values@.len(),
                    final(counters).value_count,
                )
            }
            &&& opened matches Err(error) ==> {
                &&& outcome == Err::<(), String>(error)
                &&& final(manager)@.results.contains(text) <==> {
                    ||| old(manager)@.results.contains(text)
                    ||| of_the_key
                }
                &&& final(manager)@.queue == old(manager)@.queue
                &&& final(manager)@.errors == old(manager)@.errors
                &&& *final(counters) == *old(counters)
            }
            &&& final(manager)@.terms == old(manager)@.terms
            &&& final(manager)@.threads == old(manager)@.threads
            &&& final(manager)@.waiting == old(manager)@.waiting
        }),
{
    let before = old(manager)@;
    let visited = before.key_visited(key_path@);
    law_visit_reports_the_key(before, key_path@);
    if let Ok(contents) = opened {
        let followed = visited.subkeys_read(key_path@, subkey_models(contents.subkeys@));
        lemma_subkeys_follow(visited, key_path@, contents.subkeys@);
        lemma_subkey_errors(visited, key_path@, contents.subkeys@, text);
        lemma_values_reported(followed, key_path@, contents.values@, text);
    }
}

// ---- What workers and the coordinator do ----

/// A worker that asks gets the key at the front of the queue, and it alone leaves; where there is
/// none the worker waits and counts as one more that does. One that is woken by the end stops. One
/// that is woken by work gets the key at the front and counts no longer, or waits on. Nothing else
/// changes.
pub proof fn law_every_request_for_work(
    manager: &mut WorkerManager,
    woken: Option<Signal>,
    work: Work,
)
    requires
        call_ensures(WorkerManager::get_work, (manager, woken), work),
    ensures
        woken == Some(Signal::NoWorkLeft) ==> work is Exit && final(manager)@ == old(manager)@,
        woken != Some(Signal::NoWorkLeft) && old(manager)@.queue.len() > 0 ==> {
            &&& work is Process && work->Process_0@ == old(manager)@.queue[0]
            &&& final(manager)@.queue == old(manager)@.queue.skip(1)
        },
        woken != Some(Signal::NoWorkLeft) && old(manager)@.queue.len() == 0 ==> {
            &&& work is Wait
            &&& final(manager)@.queue.len() == 0
        },
        woken is None && old(manager)@.queue.len() > 0 ==> final(manager)@.waiting
            == old(manager)@.waiting,
        woken is None && old(manager)@.queue.len() == 0 && old(manager)@.waiting < usize::MAX
            ==> final(manager)@.waiting == old(manager)@.waiting + 1,
        woken == Some(Signal::WorkReady) && old(manager)@.queue.len() > 0 && old(manager)@.waiting
            > 0 ==> final(manager)@.waiting == old(manager)@.waiting - 1,
        woken == Some(Signal::WorkReady) && old(manager)@.queue.len() == 0
            ==> final(manager)@.waiting == old(manager)@.waiting,
        final(manager)@.results == old(manager)@.results,
        final(manager)@.errors == old(manager)@.errors,
        final(manager)@.terms == old(manager)@.terms,
        final(manager)@.threads == old(manager)@.threads,
{
    law_free_worker_gets_the_first_key(old(manager)@, EventModel::Started);
    law_woken_worker_stops_or_asks_again(old(manager)@, Signal::WorkReady);
    law_orders_are_taken_as_they_are(work, WorkerEvent::Started, RuntimeAction::Exit);
}

/// Leaving a key notes its error where it has one, with its path, and changes nothing else.
pub proof fn law_every_leaving_of_a_key(
    manager: &mut WorkerManager,
    key_path: &str,
    outcome: &Result<(), String>,
)
    requires
        call_ensures(WorkerManager::finish_key, (manager, key_path, outcome), ()),
    ensures
        *outcome matches Err(error) ==> final(manager)@.errors == old(manager)@.errors.insert(
            key_path@ + ", Key error: \""@ + error@ + "\""@,
        ),
        *outcome is Ok ==> final(manager)@.errors == old(manager)@.errors,
        final(manager)@.results == old(manager)@.results,
        final(manager)@.queue == old(manager)@.queue,
        final(manager)@.terms == old(manager)@.terms,
        final(manager)@.threads == old(manager)@.threads,
        final(manager)@.waiting == old(manager)@.waiting,
{
}

/// The coordinator launches all workers, ends the search exactly when all wait and no key is
/// queued, wakes them exactly when all wait and some key is, and sleeps otherwise.
pub proof fn law_every_order_of_the_coordinator(
    manager: &WorkerManager,
    event: RunEvent,
    action: RunAction,
)
    requires
        call_ensures(WorkerManager::run, (manager, event), action),
    ensures
        event is Started ==> action == (RunAction::Launch { workers: manager@.threads }),
        event is Polled ==> {
            &&& action is Finish <==> manager@.waiting == manager@.threads && manager@.queue.len()
                == 0
            &&& action is Wake <==> manager@.waiting == manager@.threads && manager@.queue.len() > 0
            &&& action is Sleep <==> manager@.waiting != manager@.threads
        },
{
}

/// Whether a worker has got, and a search has lost, what an event calls for: a free worker the key
/// at the front of the queue, or a wait that counts; one that is woken by work that key, or a wait
/// that counts as before; one that is woken by the end nothing. The error of a key that was left is
/// noted.
pub open spec fn goes_on(
    before: ManagerModel,
    event: WorkerEvent,
    after: ManagerModel,
    work: Work,
) -> bool {
    &&& event == WorkerEvent::Woken(Signal::NoWorkLeft) ==> work is Exit && after == before
    &&& event != WorkerEvent::Woken(Signal::NoWorkLeft) ==> {
        &&& before.queue.len() > 0 ==> {
            &&& work is Process && work->Process_0@ == before.queue[0]
            &&& after.queue == before.queue.skip(1)
        }
        &&& before.queue.len() == 0 ==> work is Wait && after.queue.len() == 0
    }
    &&& event is Started || event is Processed ==> {
        &&& before.queue.len() > 0 ==> after.waiting == before.waiting
        &&& before.queue.len() == 0 && before.waiting < usize::MAX ==> after.waiting
            == before.waiting + 1
    }
    &&& event == WorkerEvent::Woken(Signal::WorkReady) ==> {
        &&& before.queue.len() > 0 && before.waiting > 0 ==> after.waiting == before.waiting - 1
        &&& before.queue.len() == 0 ==> after.waiting == before.waiting
    }
    &&& match event {
        WorkerEvent::Processed { key_path, outcome: Err(error) } => after.errors
            == before.errors.insert(key_path@ + ", Key error: \""@ + error@ + "\""@),
        _ => after.errors == before.errors,
    }
    &&& after.results == before.results
    &&& after.terms == before.terms
    &&& after.threads == before.threads
}

proof fn lemma_worker_goes_on(
    before: ManagerModel,
    event: WorkerEvent,
    after: ManagerModel,
    work: Work,
)
    requires
        (after, work@) == before.stepped(event@),
    ensures
        goes_on(before, event, after, work),
{
    law_orders_are_taken_as_they_are(work, event, RuntimeAction::Exit);
    match event {
        WorkerEvent::Started => {
            law_free_worker_gets_the_first_key(before, event@);
        },
        WorkerEvent::Processed { key_path, outcome } => {
            law_free_worker_gets_the_first_key(before, event@);
            law_key_error_is_noted(before, key_path@, event@->outcome);
        },
        WorkerEvent::Woken(signal) => {
            law_woken_worker_stops_or_asks_again(before, signal);
        },
    }
}

/// What every worker of a search does next, after every event.
pub proof fn law_every_turn_of_a_worker(
    manager: &mut WorkerManager,
    event: WorkerEvent,
    work: Work,
)
    requires
        call_ensures(run_thread, (manager, event), work),
    ensures
        goes_on(old(manager)@, event, final(manager)@, work),
{
    lemma_worker_goes_on(old(manager)@, event, final(manager)@, work);
}

/// The same under a run control: a worker of a search that was not asked to stop goes on as if
/// there were none, whatever else the control shows; one of a search that was asked to stop stops,
/// and changes nothing but that it notes the error of the key that it has left.
pub proof fn law_every_turn_under_the_run_control(
    control: &RunControl,
    manager: &mut WorkerManager,
    event: WorkerEvent,
    work: Work,
)
    requires
        call_ensures(RunControl::run_thread, (control, manager, event), work),
    ensures
        !control.stop ==> goes_on(old(manager)@, event, final(manager)@, work),
        control.stop ==> {
            &&& work is Exit
            &&& final(manager)@.queue == old(manager)@.queue
            &&& final(manager)@.results == old(manager)@.results
            &&& final(manager)@.waiting == old(manager)@.waiting
            &&& final(manager)@.terms == old(manager)@.terms
            &&& final(manager)@.threads == old(manager)@.threads
            &&& match event {
                WorkerEvent::Processed { key_path, outcome: Err(error) } => final(manager)@.errors
                    == old(manager)@.errors.insert(
                    key_path@ + ", Key error: \""@ + error@ + "\""@,
                ),
                _ => final(manager)@.errors == old(manager)@.errors,
            }
        },
{
    law_orders_are_taken_as_they_are(work, event, RuntimeAction::Exit);
    if control.stop {
        law_search_asked_to_stop_stops(*control, old(manager)@, RunEvent::Polled, event@);
    } else {
        law_running_search_is_left_alone(*control, old(manager)@, RunEvent::Polled, event@);
        lemma_worker_goes_on(old(manager)@, event, final(manager)@, work);
    }
}

/// The coordinator of a search that was not asked to stop decides as if there were no run control;
/// that of one that was ends it.
pub proof fn law_every_order_under_the_run_control(
    control: &RunControl,
    manager: &WorkerManager,
    event: RunEvent,
    action: RunAction,
)
    requires
        call_ensures(RunControl::run, (control, manager, event), action),
    ensures
        control.stop ==> action is Finish,
        !control.stop && event is Started ==> action == (RunAction::Launch {
            workers: manager@.threads,
        }),
        !control.stop && event is Polled ==> {
            &&& action is Finish <==> manager@.waiting == manager@.threads && manager@.queue.len()
                == 0
            &&& action is Wake <==> manager@.waiting == manager@.threads && manager@.queue.len() > 0
            &&& action is Sleep <==> manager@.waiting != manager@.threads
        },
{
}

// ---- The run control ----

/// A run control that is new shows no search, answers, and asks for no stop.
pub proof fn law_every_new_run_control(control: RunControl)
    requires
        call_ensures(RunControl::new, (), control),
    ensures
        !control.running,
        !control.run_control_temporarily_disabled,
        !control.stop,
{
}

/// Counts begin at zero.
pub proof fn law_every_new_count(counters: SearchCounters)
    requires
        call_ensures(SearchCounters::new, (), counters),
    ensures
        counters.key_count == 0,
        counters.value_count == 0,
{
}

/// What every event makes of the run control, and what is to be done. A search is started exactly
/// where the control is used while none runs, with all the terms that were set, one for one and in
/// their order, and with the roots whose switches are on, in the order of the menu. The loop ends
/// exactly at the stop signal.
pub proof fn law_every_event_of_the_run_control(
    control: &mut RunControl,
    selected_roots: &SelectedRoots,
    search_terms: &Vec<String>,
    event: RuntimeEvent,
    action: RuntimeAction,
    root: Root,
)
    requires
        call_ensures(worker_runtime, (control, selected_roots, search_terms, event), action),
    ensures
        final(control).running == match event {
            RuntimeEvent::SearchBegun => true,
            RuntimeEvent::SearchEnded => false,
            _ => old(control).running,
        },
        final(control).run_control_temporarily_disabled == match event {
            RuntimeEvent::RunControlUsed => true,
            RuntimeEvent::StopSignal => old(control).run_control_temporarily_disabled,
            _ => false,
        },
        final(control).stop == match event {
            RuntimeEvent::RunControlUsed => old(control).stop || old(control).running,
            RuntimeEvent::SearchEnded => false,
            _ => old(control).stop,
        },
        action is StartSearch <==> event is RunControlUsed && !old(control).running,
        action is Exit <==> event is StopSignal,
        action matches RuntimeAction::StartSearch { roots, search_terms: terms } ==> {
            &&& terms@.len() == search_terms@.len()
            &&& forall|i: int|
                0 <= i < search_terms@.len() ==> (#[trigger] terms@[i])@ == search_terms@[i]@
            &&& roots@.contains(root) <==> selected_roots.has(root)
            &&& roots@.no_duplicates()
            &&& forall|i: int, j: int|
                0 <= i < j < roots@.len() ==> (#[trigger] roots@[i]).position() < (
                #[trigger] roots@[j]).position()
        },
{
    law_texts_one_for_one(search_terms@);
    law_export_is_the_selection(*selected_roots, root);
    if let RuntimeAction::StartSearch { roots, search_terms: terms } = action {
        law_texts_one_for_one(terms@);
        assert forall|i: int| 0 <= i < search_terms@.len() implies (#[trigger] terms@[i])@
            == search_terms@[i]@ by {
            assert(texts(terms@)[i] == texts(search_terms@)[i]);
        }
    }
}

/// The operations of a search and of the run control can be called on every search and every
/// control, with everything.
pub proof fn law_search_answers_to_everything(
    manager: &mut WorkerManager,
    shown: &WorkerManager,
    counters: &mut SearchCounters,
    key_path: &str,
    terms: Vec<String>,
    threads: usize,
    results: TextSet,
    subkeys: &Vec<Result<String, String>>,
    values: &Vec<Result<RegistryValue, String>>,
    value: &RegistryValue,
    key_event: KeyEvent,
    opened: Result<KeyContents, String>,
    outcome: &Result<(), String>,
    woken: Option<Signal>,
    run_event: RunEvent,
    event: WorkerEvent,
    control: &RunControl,
    used: &mut RunControl,
    roots: &SelectedRoots,
    search_terms: &Vec<String>,
    runtime_event: RuntimeEvent,
)
    ensures
        call_requires(WorkerManager::new, (terms, threads)),
        call_requires(WorkerManager::with_lowercase_terms, (terms, threads)),
        call_requires(WorkerManager::with_results, (*shown, results)),
        call_requires(WorkerManager::feed_queue, (manager, terms)),
        call_requires(WorkerManager::string_matches, (shown, key_path)),
        call_requires(WorkerManager::any_string_matches, (shown, key_path, key_path)),
        call_requires(WorkerManager::matches_lowercase, (shown, key_path)),
        call_requires(WorkerManager::key_report, (shown, key_path, key_path)),
        call_requires(WorkerManager::value_report, (shown, key_path, value, key_path, key_path)),
        call_requires(WorkerManager::visit_key, (manager, key_path)),
        call_requires(WorkerManager::read_subkeys, (manager, counters, key_path, subkeys)),
        call_requires(WorkerManager::read_values, (manager, counters, key_path, values)),
        call_requires(WorkerManager::visit_step, (manager, counters, key_path, key_event)),
        call_requires(
            WorkerManager::feed_queue_and_process_values,
            (manager, counters, key_path, opened),
        ),
        call_requires(WorkerManager::get_work, (manager, woken)),
        call_requires(WorkerManager::finish_key, (manager, key_path, outcome)),
        call_requires(WorkerManager::run, (shown, run_event)),
        call_requires(run_thread, (manager, event)),
        call_requires(RunControl::run, (control, shown, run_event)),
        call_requires(RunControl::run_thread, (control, manager, event)),
        call_requires(worker_runtime, (used, roots, search_terms, runtime_event)),
        call_requires(begin_search_with, (terms, threads, results)),
        call_requires(begin_search, (terms, results)),
{
}

} // verus!
