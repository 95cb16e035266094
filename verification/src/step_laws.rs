//! What each step of a search does, in plain words and characters: what is reported, queued and
//! noted, and what a worker gets next.

use vstd::prelude::*;

use crate::text::{lemma_collected_ends, lemma_collected_step, lowercase_of, occurs};
use crate::text_laws::law_occurs_between_two_parts;
use crate::worker_manager::{
    child_path, key_error, key_line, some_term_in, subkey_error, value_error, value_line,
    value_matches, EventModel, ManagerModel, RunAction, RunEvent, Signal, ValueModel, WorkModel,
};

verus! {

// ---- Matching ----

/// A text matches exactly where its lower case is some term with something, or nothing, before and
/// behind it, however long the two are and whichever term it is.
pub proof fn law_text_matches_around_a_term(manager: ManagerModel, text: Seq<char>)
    ensures
        manager.matches(text) <==> exists|k: int, left: Seq<char>, right: Seq<char>|
            0 <= k < manager.terms.len() && lowercase_of(text) == #[trigger] (left
                + manager.terms[k] + right),
        some_term_in(manager.terms, lowercase_of(text)) == manager.matches(text),
{
    let lowered = lowercase_of(text);
    if manager.matches(text) {
        let k = choose|k: int|
            0 <= k < manager.terms.len() && occurs(#[trigger] manager.terms[k], lowered);
        law_occurs_between_two_parts(manager.terms[k], lowered);
        let (left, right) = choose|left: Seq<char>, right: Seq<char>|
            lowered == #[trigger] (left + manager.terms[k] + right);
        assert(lowered == left + manager.terms[k] + right);
    }
    if exists|k: int, left: Seq<char>, right: Seq<char>|
        0 <= k < manager.terms.len() && lowered == #[trigger] (left + manager.terms[k] + right) {
        let (k, left, right) = choose|k: int, left: Seq<char>, right: Seq<char>|
            0 <= k < manager.terms.len() && lowered == #[trigger] (left + manager.terms[k]
                + right);
        law_occurs_between_two_parts(manager.terms[k], lowered);
        assert(occurs(manager.terms[k], lowered));
    }
}

/// A value matches exactly where some term stands in the lower case of its name or of its data,
/// however long these are.
pub proof fn law_value_matches_by_name_or_data(terms: Seq<Seq<char>>, value: ValueModel)
    ensures
        value_matches(terms, value) <==> exists|k: int|
            0 <= k < terms.len() && (occurs(#[trigger] terms[k], lowercase_of(value.name))
                || occurs(terms[k], lowercase_of(value.data))),
{
    if value_matches(terms, value) {
        if some_term_in(terms, lowercase_of(value.name)) {
            let k = choose|k: int|
                0 <= k < terms.len() && occurs(#[trigger] terms[k], lowercase_of(value.name));
            assert(occurs(terms[k], lowercase_of(value.name)));
        } else {
            let k = choose|k: int|
                0 <= k < terms.len() && occurs(#[trigger] terms[k], lowercase_of(value.data));
            assert(occurs(terms[k], lowercase_of(value.data)));
        }
    }
}

// ---- The lines ----

/// The path of a subkey is the whole path of its key, one backslash, and its whole name.
pub proof fn law_subkey_path_is_whole(key_path: Seq<char>, name: Seq<char>)
    ensures
        child_path(key_path, name).len() == key_path.len() + 1 + name.len(),
        child_path(key_path, name).take(key_path.len() as int) == key_path,
        child_path(key_path, name)[key_path.len() as int] == '\\',
        child_path(key_path, name).skip(key_path.len() as int + 1) == name,
{
    reveal_strlit("\\");
    assert(child_path(key_path, name).take(key_path.len() as int) =~= key_path);
    assert(child_path(key_path, name).skip(key_path.len() as int + 1) =~= name);
}

/// The line of a key is the name of the root, one backslash, and the whole path of the key.
pub proof fn law_key_line_is_whole(key_path: Seq<char>)
    ensures
        key_line(key_path).len() == 19 + key_path.len(),
        key_line(key_path).take(18) == "HKEY_LOCAL_MACHINE"@,
        key_line(key_path)[18] == '\\',
        key_line(key_path).skip(19) == key_path,
{
    reveal_strlit("HKEY_LOCAL_MACHINE");
    reveal_strlit("HKEY_LOCAL_MACHINE\\");
    assert(key_line(key_path).take(18) =~= "HKEY_LOCAL_MACHINE"@);
    assert(key_line(key_path).skip(19) =~= key_path);
}

/// The line of a value is the line of its key, one backslash, its name, its data in quotes, and its
/// type in brackets, all of them whole. A value without a name shows as `(Default)`.
pub proof fn law_value_line_is_whole(key_path: Seq<char>, value: ValueModel)
    ensures
        value.name.len() > 0 ==> value_line(key_path, value) == "HKEY_LOCAL_MACHINE"@ + seq!['\\']
            + key_path + seq!['\\'] + value.name + seq![' ', '=', ' ', '"'] + value.data + seq![
            '"',
            ' ',
            '(',
        ] + value.kind + seq![')'],
        value.name.len() == 0 ==> value_line(key_path, value) == "HKEY_LOCAL_MACHINE"@ + seq!['\\']
            + key_path + seq!['\\'] + "(Default)"@ + seq![' ', '=', ' ', '"'] + value.data + seq![
            '"',
            ' ',
            '(',
        ] + value.kind + seq![')'],
{
    reveal_strlit("HKEY_LOCAL_MACHINE");
    reveal_strlit("HKEY_LOCAL_MACHINE\\");
    reveal_strlit("\\");
    reveal_strlit(" = \"");
    reveal_strlit("\" (");
    reveal_strlit(")");
    assert("HKEY_LOCAL_MACHINE\\"@ =~= "HKEY_LOCAL_MACHINE"@ + seq!['\\']);
    assert("\\"@ =~= seq!['\\']);
    assert(" = \""@ =~= seq![' ', '=', ' ', '"']);
    assert("\" ("@ =~= seq!['"', ' ', '(']);
    assert(")"@ =~= seq![')']);
}

/// The line of an error is the whole path of its key, what could not be read, and the whole text of
/// the error in quotes.
pub proof fn law_error_lines_are_whole(key_path: Seq<char>, error: Seq<char>)
    ensures
        key_error(key_path, error) == key_path + seq![',', ' '] + "Key error: "@ + seq!['"'] + error
            + seq!['"'],
        subkey_error(key_path, error) == key_path + seq![',', ' '] + "Subkey error: "@ + seq!['"']
            + error + seq!['"'],
        value_error(key_path, error) == key_path + seq![',', ' '] + "Value error: "@ + seq!['"']
            + error + seq!['"'],
{
    reveal_strlit(", Key error: \"");
    reveal_strlit(", Subkey error: \"");
    reveal_strlit(", Value error: \"");
    reveal_strlit("Key error: ");
    reveal_strlit("Subkey error: ");
    reveal_strlit("Value error: ");
    reveal_strlit("\"");
    assert("\""@ =~= seq!['"']);
    assert(key_error(key_path, error) =~= key_path + seq![',', ' '] + "Key error: "@ + seq!['"']
        + error + seq!['"']);
    assert(subkey_error(key_path, error) =~= key_path + seq![',', ' '] + "Subkey error: "@ + seq![
        '"',
    ] + error + seq!['"']);
    assert(value_error(key_path, error) =~= key_path + seq![',', ' '] + "Value error: "@ + seq!['"']
        + error + seq!['"']);
}

// ---- Visiting a key ----

/// Visiting a key adds its line to the results where some term stands in the lower case of its
/// path, adds nothing where none does, and changes nothing else.
pub proof fn law_visit_reports_the_key(manager: ManagerModel, key_path: Seq<char>)
    ensures
        ({
            let after = manager.key_visited(key_path);
            let found = exists|k: int|
                0 <= k < manager.terms.len() && occurs(
                    #[trigger] manager.terms[k],
                    lowercase_of(key_path),
                );
            &&& found ==> after.results == manager.results.insert(
                "HKEY_LOCAL_MACHINE"@ + seq!['\\'] + key_path,
            )
            &&& !found ==> after.results == manager.results
            &&& after.errors == manager.errors && after.queue == manager.queue
            &&& after.terms == manager.terms && after.threads == manager.threads
            &&& after.waiting == manager.waiting
        }),
{
    reveal_strlit("HKEY_LOCAL_MACHINE");
    reveal_strlit("HKEY_LOCAL_MACHINE\\");
    assert(key_line(key_path) =~= "HKEY_LOCAL_MACHINE"@ + seq!['\\'] + key_path);
}

/// Subkeys are taken one by one: reading none changes nothing; each further name puts one key, at
/// the path of the parent, a backslash and that name, behind all that were queued; each further
/// failure notes one error and queues nothing. Nothing else changes.
pub proof fn law_each_subkey_is_queued(
    manager: ManagerModel,
    key_path: Seq<char>,
    reads: Seq<Result<Seq<char>, Seq<char>>>,
    read: Result<Seq<char>, Seq<char>>,
)
    ensures
        manager.subkeys_read(key_path, Seq::empty()) == manager,
        ({
            let before = manager.subkeys_read(key_path, reads);
            let after = manager.subkeys_read(key_path, reads.push(read));
            &&& read matches Ok(name) ==> {
                &&& after.queue == before.queue.push(key_path + seq!['\\'] + name)
                &&& after.errors == before.errors
            }
            &&& read matches Err(error) ==> {
                &&& after.queue == before.queue
                &&& after.errors == before.errors.insert(
                    key_path + ", Subkey error: \""@ + error + "\""@,
                )
            }
            &&& after.results == before.results && after.waiting == before.waiting
            &&& after.terms == before.terms && after.threads == before.threads
        }),
{
    reveal_strlit("\\");
    let ok = |r: Result<Seq<char>, Seq<char>>| r is Ok;
    let as_path = |r: Result<Seq<char>, Seq<char>>| child_path(key_path, r->Ok_0);
    let bad = |r: Result<Seq<char>, Seq<char>>| r is Err;
    let as_error = |r: Result<Seq<char>, Seq<char>>| subkey_error(key_path, r->Err_0);
    let none = Seq::<Result<Seq<char>, Seq<char>>>::empty();
    let more = reads.push(read);
    let n = reads.len() as int;
    assert(none.take(0) =~= none);
    lemma_collected_ends(none, ok, as_path);
    lemma_collected_ends(none, bad, as_error);
    assert(Seq::<Seq<char>>::empty().to_set() =~= Set::empty());
    assert(manager.subkeys_read(key_path, none) =~= manager);
    assert(more.take(n) =~= reads);
    assert(more.take(n + 1) =~= more);
    lemma_collected_step(more, ok, as_path, n);
    lemma_collected_step(more, bad, as_error, n);
    let before = manager.subkeys_read(key_path, reads);
    let after = manager.subkeys_read(key_path, more);
    if let Ok(name) = read {
        assert(child_path(key_path, name) =~= key_path + seq!['\\'] + name);
        assert(after.queue =~= before.queue.push(child_path(key_path, name)));
    }
    if let Err(error) = read {
        assert(after.errors =~= before.errors.insert(subkey_error(key_path, error)));
    }
}

/// Every name that is read below a key is in the queue afterwards, written out in full: as many
/// characters as the parent's path, one backslash and the name have, and those.
pub proof fn law_queue_holds_whole_paths(
    manager: ManagerModel,
    key_path: Seq<char>,
    reads: Seq<Result<Seq<char>, Seq<char>>>,
    i: int,
) -> (at: int)
    requires
        0 <= i < reads.len(),
        reads[i] is Ok,
    ensures
        ({
            let queue = manager.subkeys_read(key_path, reads).queue;
            let name = reads[i]->Ok_0;
            &&& manager.queue.len() <= at < queue.len()
            &&& queue[at].len() == key_path.len() + 1 + name.len()
            &&& forall|c: int| 0 <= c < key_path.len() ==> #[trigger] queue[at][c] == key_path[c]
            &&& queue[at][key_path.len() as int] == '\\'
            &&& forall|c: int|
                0 <= c < name.len() ==> queue[at][key_path.len() + 1 + c] == #[trigger] name[c]
            &&& queue.take(manager.queue.len() as int) == manager.queue
        }),
    decreases reads.len(),
{
    let rest = reads.drop_last();
    law_each_subkey_is_queued(manager, key_path, rest, reads.last());
    assert(rest.push(reads.last()) =~= reads);
    lemma_queue_grows(manager, key_path, reads);
    lemma_queue_grows(manager, key_path, rest);
    let queue = manager.subkeys_read(key_path, reads).queue;
    if i == reads.len() - 1 {
        queue.len() - 1
    } else {
        let at = law_queue_holds_whole_paths(manager, key_path, rest, i);
        assert(queue[at] == manager.subkeys_read(key_path, rest).queue[at]);
        at
    }
}

proof fn lemma_queue_grows(
    manager: ManagerModel,
    key_path: Seq<char>,
    reads: Seq<Result<Seq<char>, Seq<char>>>,
)
    ensures
        manager.queue.len() <= manager.subkeys_read(key_path, reads).queue.len(),
        manager.subkeys_read(key_path, reads).queue.take(manager.queue.len() as int)
            == manager.queue,
{
    assert(manager.subkeys_read(key_path, reads).queue.take(manager.queue.len() as int)
        =~= manager.queue);
}

/// Values are taken one by one: reading none changes nothing; each further value adds its line
/// where some term stands in the lower case of its name or of its data, however long these are, and
/// adds nothing where none does; each further failure notes one error. Nothing else changes.
pub proof fn law_each_value_is_looked_at(
    manager: ManagerModel,
    key_path: Seq<char>,
    reads: Seq<Result<ValueModel, Seq<char>>>,
    read: Result<ValueModel, Seq<char>>,
)
    ensures
        manager.values_read(key_path, Seq::empty()) == manager,
        ({
            let before = manager.values_read(key_path, reads);
            let after = manager.values_read(key_path, reads.push(read));
            &&& read matches Ok(value) ==> {
                let found = exists|k: int|
                    0 <= k < manager.terms.len() && (occurs(
                        #[trigger] manager.terms[k],
                        lowercase_of(value.name),
                    ) || occurs(manager.terms[k], lowercase_of(value.data)));
                &&& found ==> after.results == before.results.insert(
                    "HKEY_LOCAL_MACHINE"@ + seq!['\\'] + key_path + seq!['\\'] + (if value.name.len()
                        == 0 {
                        "(Default)"@
                    } else {
                        value.name
                    }) + seq![' ', '=', ' ', '"'] + value.data + seq!['"', ' ', '('] + value.kind
                        + seq![')'],
                )
                &&& !found ==> after.results == before.results
                &&& after.errors == before.errors
            }
            &&& read matches Err(error) ==> {
                &&& after.results == before.results
                &&& after.errors == before.errors.insert(
                    key_path + ", Value error: \""@ + error + "\""@,
                )
            }
            &&& after.queue == before.queue && after.waiting == before.waiting
            &&& after.terms == before.terms && after.threads == before.threads
        }),
{
    let terms = manager.terms;
    let hit = |r: Result<ValueModel, Seq<char>>| r is Ok && value_matches(terms, r->Ok_0);
    let as_line = |r: Result<ValueModel, Seq<char>>| value_line(key_path, r->Ok_0);
    let bad = |r: Result<ValueModel, Seq<char>>| r is Err;
    let as_error = |r: Result<ValueModel, Seq<char>>| value_error(key_path, r->Err_0);
    let none = Seq::<Result<ValueModel, Seq<char>>>::empty();
    let more = reads.push(read);
    let n = reads.len() as int;
    assert(none.take(0) =~= none);
    lemma_collected_ends(none, hit, as_line);
    lemma_collected_ends(none, bad, as_error);
    assert(Seq::<Seq<char>>::empty().to_set() =~= Set::empty());
    assert(manager.values_read(key_path, none) =~= manager);
    assert(more.take(n) =~= reads);
    assert(more.take(n + 1) =~= more);
    lemma_collected_step(more, hit, as_line, n);
    lemma_collected_step(more, bad, as_error, n);
    let before = manager.values_read(key_path, reads);
    let after = manager.values_read(key_path, more);
    if let Ok(value) = read {
        law_value_matches_by_name_or_data(terms, value);
        law_value_line_is_whole(key_path, value);
        if value_matches(terms, value) {
            assert(after.results =~= before.results.insert(value_line(key_path, value)));
        }
    }
    if let Err(error) = read {
        assert(after.errors =~= before.errors.insert(value_error(key_path, error)));
    }
}

/// A value that holds some term in its name or its data is reported, wherever in a list of values
/// it stands and however long its texts are; and a list in which no value does adds no result.
pub proof fn law_values_that_match_are_reported(
    manager: ManagerModel,
    key_path: Seq<char>,
    reads: Seq<Result<ValueModel, Seq<char>>>,
)
    ensures
        forall|i: int, k: int|
            #![trigger reads[i], manager.terms[k]]
            0 <= i < reads.len() && reads[i] is Ok && 0 <= k < manager.terms.len() && (occurs(
                manager.terms[k],
                lowercase_of(reads[i]->Ok_0.name),
            ) || occurs(manager.terms[k], lowercase_of(reads[i]->Ok_0.data)))
                ==> manager.values_read(key_path, reads).results.contains(
                "HKEY_LOCAL_MACHINE"@ + seq!['\\'] + key_path + seq!['\\'] + (if reads[i]->Ok_0.name.len()
                    == 0 {
                    "(Default)"@
                } else {
                    reads[i]->Ok_0.name
                }) + seq![' ', '=', ' ', '"'] + reads[i]->Ok_0.data + seq!['"', ' ', '(']
                    + reads[i]->Ok_0.kind + seq![')'],
            ),
        (forall|i: int, k: int|
            #![trigger reads[i], manager.terms[k]]
            0 <= i < reads.len() && reads[i] is Ok && 0 <= k < manager.terms.len() ==> !occurs(
                manager.terms[k],
                lowercase_of(reads[i]->Ok_0.name),
            ) && !occurs(manager.terms[k], lowercase_of(reads[i]->Ok_0.data)))
            ==> manager.values_read(key_path, reads).results == manager.results,
    decreases reads.len(),
{
    if reads.len() == 0 {
        assert(reads =~= Seq::empty());
        law_each_value_is_looked_at(manager, key_path, reads, Err(Seq::empty()));
    } else {
        let rest = reads.drop_last();
        let n = reads.len() - 1;
        law_values_that_match_are_reported(manager, key_path, rest);
        law_each_value_is_looked_at(manager, key_path, rest, reads.last());
        assert(rest.push(reads.last()) =~= reads);
        let after = manager.values_read(key_path, reads);
        let before = manager.values_read(key_path, rest);
        assert(before.results.subset_of(after.results));
        assert forall|i: int| 0 <= i < n implies #[trigger] rest[i] == reads[i] by {}
        assert forall|i: int, k: int|
            #![trigger reads[i], manager.terms[k]]
            0 <= i < reads.len() && reads[i] is Ok && 0 <= k < manager.terms.len() && (occurs(
                manager.terms[k],
                lowercase_of(reads[i]->Ok_0.name),
            ) || occurs(
                manager.terms[k],
                lowercase_of(reads[i]->Ok_0.data),
            )) implies after.results.contains(
            "HKEY_LOCAL_MACHINE"@ + seq!['\\'] + key_path + seq!['\\'] + (if reads[i]->Ok_0.name.len()
                == 0 {
                "(Default)"@
            } else {
                reads[i]->Ok_0.name
            }) + seq![' ', '=', ' ', '"'] + reads[i]->Ok_0.data + seq!['"', ' ', '(']
                + reads[i]->Ok_0.kind + seq![')'],
        ) by {
            if i < n {
                assert(rest[i] == reads[i]);
            }
        }
        if forall|i: int, k: int|
            #![trigger reads[i], manager.terms[k]]
            0 <= i < reads.len() && reads[i] is Ok && 0 <= k < manager.terms.len() ==> !occurs(
                manager.terms[k],
                lowercase_of(reads[i]->Ok_0.name),
            ) && !occurs(manager.terms[k], lowercase_of(reads[i]->Ok_0.data)) {
            assert forall|i: int, k: int|
                #![trigger rest[i], manager.terms[k]]
                0 <= i < rest.len() && rest[i] is Ok && 0 <= k < manager.terms.len() implies !occurs(
                manager.terms[k],
                lowercase_of(rest[i]->Ok_0.name),
            ) && !occurs(manager.terms[k], lowercase_of(rest[i]->Ok_0.data)) by {
                assert(rest[i] == reads[i]);
            }
            assert(reads[n] == reads.last());
        }
    }
}

// ---- What workers get ----

/// Keys that are queued stand behind those queued before, one for one and in their order; nothing
/// else changes.
pub proof fn law_fed_keys_stand_behind(manager: ManagerModel, keys: Seq<Seq<char>>)
    ensures
        manager.fed(keys).queue.len() == manager.queue.len() + keys.len(),
        forall|i: int|
            0 <= i < manager.queue.len() ==> #[trigger] manager.fed(keys).queue[i]
                == manager.queue[i],
        forall|i: int|
            0 <= i < keys.len() ==> manager.fed(keys).queue[manager.queue.len() + i]
                == #[trigger] keys[i],
        manager.fed(keys).results == manager.results,
        manager.fed(keys).errors == manager.errors,
        manager.fed(keys).terms == manager.terms,
        manager.fed(keys).threads == manager.threads,
        manager.fed(keys).waiting == manager.waiting,
{
}

/// A new search has its terms and its workers, and nothing else: no key, no result, no error, and
/// no worker that waits.
pub proof fn law_new_search_is_empty(terms: Seq<Seq<char>>, threads: usize)
    ensures
        ManagerModel::fresh(terms, threads).terms == terms,
        ManagerModel::fresh(terms, threads).threads == threads,
        ManagerModel::fresh(terms, threads).queue.len() == 0,
        ManagerModel::fresh(terms, threads).waiting == 0,
        forall|line: Seq<char>| !ManagerModel::fresh(terms, threads).results.contains(line),
        forall|line: Seq<char>| !ManagerModel::fresh(terms, threads).errors.contains(line),
{
}

/// A worker that has started, or is done with its key, gets the key at the front of the queue where
/// there is one, and that key alone leaves the queue; where there is none it waits, and counts as
/// one more that does.
pub proof fn law_free_worker_gets_the_first_key(manager: ManagerModel, event: EventModel)
    requires
        event is Started || event is Processed,
    ensures
        ({
            let (after, work) = manager.stepped(event);
            &&& manager.queue.len() > 0 ==> {
                &&& work == WorkModel::Process(manager.queue[0])
                &&& after.queue == manager.queue.skip(1)
                &&& after.waiting == manager.waiting
            }
            &&& manager.queue.len() == 0 ==> {
                &&& work is Wait
                &&& after.queue.len() == 0
                &&& manager.waiting < usize::MAX ==> after.waiting == manager.waiting + 1
                &&& manager.waiting == usize::MAX ==> after.waiting == 0
            }
            &&& after.results == manager.results
            &&& after.terms == manager.terms && after.threads == manager.threads
        }),
{
    if manager.queue.len() > 0 {
        assert(manager.queue.drop_first() =~= manager.queue.skip(1));
    }
}

/// A worker that waits stops, and changes nothing, where it is told of the end. Told of work, it
/// gets the key at the front of the queue and no longer counts as waiting; where there is none it
/// waits on, and counts as before.
pub proof fn law_woken_worker_stops_or_asks_again(manager: ManagerModel, signal: Signal)
    ensures
        ({
            let (after, work) = manager.stepped(EventModel::Woken(signal));
            &&& signal is NoWorkLeft ==> work is Exit && after == manager
            &&& signal is WorkReady && manager.queue.len() > 0 ==> {
                &&& work == WorkModel::Process(manager.queue[0])
                &&& after.queue == manager.queue.skip(1)
                &&& manager.waiting > 0 ==> after.waiting == manager.waiting - 1
                &&& manager.waiting == 0 ==> after.waiting == usize::MAX
            }
            &&& signal is WorkReady && manager.queue.len() == 0 ==> {
                &&& work is Wait
                &&& after.queue == manager.queue
                &&& after.waiting == manager.waiting
            }
            &&& after.results == manager.results && after.errors == manager.errors
            &&& after.terms == manager.terms && after.threads == manager.threads
        }),
{
    if manager.queue.len() > 0 {
        assert(manager.queue.drop_first() =~= manager.queue.skip(1));
    }
}

/// The error of a key that could not be opened is noted by the worker that is done with it, with
/// the path and the text of the error; nothing is noted otherwise.
pub proof fn law_key_error_is_noted(
    manager: ManagerModel,
    key_path: Seq<char>,
    outcome: Result<(), Seq<char>>,
)
    ensures
        ({
            let noted = manager.key_processed(key_path, outcome);
            let after = manager.stepped(EventModel::Processed { key_path, outcome }).0;
            &&& outcome matches Err(error) ==> noted.errors == manager.errors.insert(
                key_path + ", Key error: \""@ + error + "\""@,
            )
            &&& outcome is Ok ==> noted.errors == manager.errors
            &&& after.errors == noted.errors
            &&& noted.queue == manager.queue && noted.results == manager.results
            &&& noted.waiting == manager.waiting && noted.terms == manager.terms
            &&& noted.threads == manager.threads
        }),
        manager.stepped(EventModel::Started).0.errors == manager.errors,
{
}

/// The coordinator launches as many workers as the search has. From then on it ends the search
/// exactly when as many wait as there are and no key is queued, wakes them exactly when as many
/// wait as there are and some key is queued, and sleeps otherwise.
pub proof fn law_coordinator_decides_by_who_waits(manager: ManagerModel)
    ensures
        manager.run_action(RunEvent::Started) == (RunAction::Launch { workers: manager.threads }),
        manager.run_action(RunEvent::Polled) is Finish <==> manager.waiting == manager.threads
            && manager.queue.len() == 0,
        manager.run_action(RunEvent::Polled) is Wake <==> manager.waiting == manager.threads
            && manager.queue.len() > 0,
        manager.run_action(RunEvent::Polled) is Sleep <==> manager.waiting != manager.threads,
{
}

} // verus!
