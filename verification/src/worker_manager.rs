//! The shared state of a search: the terms to look for, the keys still to visit, how many
//! workers have run out of keys, and what has been found.

use std::collections::VecDeque;

use vstd::prelude::*;
use vstd::string::*;

use crate::text::{
    collected, contains, lemma_collected_ends, lemma_collected_step, lowercase_of, occurs, texts,
};
use crate::text_set::TextSet;

verus! {

/// Whether some term stands in `text`.
pub open spec fn some_term_in(terms: Seq<Seq<char>>, text: Seq<char>) -> bool {
    exists|k: int| 0 <= k < terms.len() && occurs(#[trigger] terms[k], text)
}

/// The line that reports a key whose path matches.
pub open spec fn key_line(key_path: Seq<char>) -> Seq<char> {
    "HKEY_LOCAL_MACHINE\\"@ + key_path
}

/// The path of the subkey `name` of `key_path`.
pub open spec fn child_path(key_path: Seq<char>, name: Seq<char>) -> Seq<char> {
    key_path + "\\"@ + name
}

/// Whether a value without a name is shown as the registry editor shows it.
pub const REGEDIT_OUTPUT_FOR_BLANK_NAMES: bool = true;

/// The name under which a value is shown: the registry's default value has none of its own.
pub open spec fn shown_name(name: Seq<char>) -> Seq<char> {
    if name.len() == 0 && REGEDIT_OUTPUT_FOR_BLANK_NAMES {
        "(Default)"@
    } else {
        name
    }
}

/// The line that reports a value that matches.
pub open spec fn value_line(key_path: Seq<char>, value: ValueModel) -> Seq<char> {
    "HKEY_LOCAL_MACHINE\\"@ + key_path + "\\"@ + shown_name(value.name) + " = \""@ + value.data
        + "\" ("@ + value.kind + ")"@
}

/// The line that reports that a key could not be opened.
pub open spec fn key_error(key_path: Seq<char>, error: Seq<char>) -> Seq<char> {
    key_path + ", Key error: \""@ + error + "\""@
}

/// The line that reports that a subkey could not be read.
pub open spec fn subkey_error(key_path: Seq<char>, error: Seq<char>) -> Seq<char> {
    key_path + ", Subkey error: \""@ + error + "\""@
}

/// The line that reports that a value could not be read.
pub open spec fn value_error(key_path: Seq<char>, error: Seq<char>) -> Seq<char> {
    key_path + ", Value error: \""@ + error + "\""@
}

/// The contents of a `RegistryValue`.
pub struct ValueModel {
    pub name: Seq<char>,
    pub data: Seq<char>,
    pub kind: Seq<char>,
}

/// A value of a registry key, as text: its name, its data and the name of its type.
#[derive(Debug)]
pub struct RegistryValue {
    pub name: String,
    pub data: String,
    pub kind: String,
}

impl View for RegistryValue {
    type V = ValueModel;

    open spec fn view(&self) -> ValueModel {
        ValueModel { name: self.name@, data: self.data@, kind: self.kind@ }
    }
}

/// What reading one subkey's name gave: the name, or the text of the error.
pub open spec fn subkey_model(read: Result<String, String>) -> Result<Seq<char>, Seq<char>> {
    match read {
        Ok(name) => Ok(name@),
        Err(error) => Err(error@),
    }
}

/// What reading one value gave: the value, or the text of the error.
pub open spec fn value_model(read: Result<RegistryValue, String>) -> Result<ValueModel, Seq<char>> {
    match read {
        Ok(value) => Ok(value@),
        Err(error) => Err(error@),
    }
}

/// What reading each subkey's name gave.
pub open spec fn subkey_models(reads: Seq<Result<String, String>>) -> Seq<
    Result<Seq<char>, Seq<char>>,
> {
    reads.map_values(|read: Result<String, String>| subkey_model(read))
}

/// What reading each value gave.
pub open spec fn value_models(reads: Seq<Result<RegistryValue, String>>) -> Seq<
    Result<ValueModel, Seq<char>>,
> {
    reads.map_values(|read: Result<RegistryValue, String>| value_model(read))
}

/// The paths of the subkeys whose names were read, in the order of reading.
pub open spec fn child_paths(
    key_path: Seq<char>,
    reads: Seq<Result<Seq<char>, Seq<char>>>,
) -> Seq<Seq<char>> {
    collected(
        reads,
        |read: Result<Seq<char>, Seq<char>>| read is Ok,
        |read: Result<Seq<char>, Seq<char>>| child_path(key_path, read->Ok_0),
    )
}

/// The lines for the subkeys that could not be read.
pub open spec fn subkey_errors(
    key_path: Seq<char>,
    reads: Seq<Result<Seq<char>, Seq<char>>>,
) -> Seq<Seq<char>> {
    collected(
        reads,
        |read: Result<Seq<char>, Seq<char>>| read is Err,
        |read: Result<Seq<char>, Seq<char>>| subkey_error(key_path, read->Err_0),
    )
}

/// Whether a value's name or its data holds some term, whatever the case of its letters.
pub open spec fn value_matches(terms: Seq<Seq<char>>, value: ValueModel) -> bool {
    some_term_in(terms, lowercase_of(value.name)) || some_term_in(terms, lowercase_of(value.data))
}

/// The lines for the values that match.
pub open spec fn value_lines(
    terms: Seq<Seq<char>>,
    key_path: Seq<char>,
    reads: Seq<Result<ValueModel, Seq<char>>>,
) -> Seq<Seq<char>> {
    collected(
        reads,
        |read: Result<ValueModel, Seq<char>>| read is Ok && value_matches(terms, read->Ok_0),
        |read: Result<ValueModel, Seq<char>>| value_line(key_path, read->Ok_0),
    )
}

/// The lines for the values that could not be read.
pub open spec fn value_errors(
    key_path: Seq<char>,
    reads: Seq<Result<ValueModel, Seq<char>>>,
) -> Seq<Seq<char>> {
    collected(
        reads,
        |read: Result<ValueModel, Seq<char>>| read is Err,
        |read: Result<ValueModel, Seq<char>>| value_error(key_path, read->Err_0),
    )
}

/// What was read of a key that could be opened.
#[derive(Debug)]
pub struct KeyContents {
    pub subkeys: Vec<Result<String, String>>,
    pub values: Vec<Result<RegistryValue, String>>,
}

/// What has just happened to a worker that visits a key.
#[derive(Debug)]
pub enum KeyEvent {
    /// It has been given the key.
    Given,
    /// It has opened the key, or failed to.
    Opened(Result<(), String>),
    /// It has read the names of the subkeys.
    SubkeysRead(Vec<Result<String, String>>),
    /// It has read the values.
    ValuesRead(Vec<Result<RegistryValue, String>>),
}

/// What a worker that visits a key is to do next.
#[derive(Debug, PartialEq, Eq)]
pub enum KeyAction {
    /// Open the key.
    Open,
    /// Read the names of the subkeys.
    ReadSubkeys,
    /// Signal that work is ready, and read the values.
    ReadValues,
    /// Leave the key, with this outcome.
    Leave(Result<(), String>),
}

/// How many keys and values have been enumerated, over all searches of the process. The
/// counts start again at zero past the largest `usize`.
#[derive(Clone, Copy, Debug, PartialEq, Eq, Structural)]
pub struct SearchCounters {
    pub key_count: usize,
    pub value_count: usize,
}

impl SearchCounters {
    /// Both counts at zero.
    pub fn new() -> (counters: Self)
        ensures
            counters.key_count == 0,
            counters.value_count == 0,
    {
        SearchCounters { key_count: 0, value_count: 0 }
    }
}

/// What a `WorkerManager` holds.
#[verifier::ext_equal]
pub struct ManagerModel {
    /// The number of workers.
    pub threads: usize,
    /// The search terms, in lower case.
    pub terms: Seq<Seq<char>>,
    /// The paths of the keys still to visit, the next one first.
    pub queue: Seq<Seq<char>>,
    /// The number of workers that have found the queue empty and wait.
    pub waiting: usize,
    /// The lines found.
    pub results: Set<Seq<char>>,
    /// The errors met.
    pub errors: Set<Seq<char>>,
}

impl ManagerModel {
    /// A search that has not begun.
    pub open spec fn fresh(terms: Seq<Seq<char>>, threads: usize) -> ManagerModel {
        ManagerModel {
            threads,
            terms,
            queue: Seq::empty(),
            waiting: 0,
            results: Set::empty(),
            errors: Set::empty(),
        }
    }

    /// With `keys` behind the keys already queued.
    pub open spec fn fed(self, keys: Seq<Seq<char>>) -> ManagerModel {
        ManagerModel { queue: self.queue + keys, ..self }
    }

    /// Whether a text matches, whatever the case of its letters.
    pub open spec fn matches(self, text: Seq<char>) -> bool {
        some_term_in(self.terms, lowercase_of(text))
    }

    /// With the key reported where its path matches.
    pub open spec fn key_visited(self, key_path: Seq<char>) -> ManagerModel {
        if self.matches(key_path) {
            ManagerModel { results: self.results.insert(key_line(key_path)), ..self }
        } else {
            self
        }
    }

    /// With the subkeys queued, and the errors that reading them gave.
    pub open spec fn subkeys_read(
        self,
        key_path: Seq<char>,
        reads: Seq<Result<Seq<char>, Seq<char>>>,
    ) -> ManagerModel {
        ManagerModel {
            queue: self.queue + child_paths(key_path, reads),
            errors: self.errors.union(subkey_errors(key_path, reads).to_set()),
            ..self
        }
    }

    /// With the values that match reported, and the errors that reading them gave.
    pub open spec fn values_read(
        self,
        key_path: Seq<char>,
        reads: Seq<Result<ValueModel, Seq<char>>>,
    ) -> ManagerModel {
        ManagerModel {
            results: self.results.union(value_lines(self.terms, key_path, reads).to_set()),
            errors: self.errors.union(value_errors(key_path, reads).to_set()),
            ..self
        }
    }
}

/// What wakes a waiting worker.
#[derive(Clone, Copy, Debug, PartialEq, Eq, Structural)]
pub enum Signal {
    /// There may be keys in the queue again.
    WorkReady,
    /// The search is over.
    NoWorkLeft,
}

/// What a worker is to do next.
#[derive(Debug, PartialEq, Eq)]
pub enum Work {
    /// Visit the key at this path.
    Process(String),
    /// Wait for a signal.
    Wait,
    /// Stop.
    Exit,
}

/// The contents of a `Work`.
pub enum WorkModel {
    Process(Seq<char>),
    Wait,
    Exit,
}

impl View for Work {
    type V = WorkModel;

    open spec fn view(&self) -> WorkModel {
        match self {
            Work::Process(key_path) => WorkModel::Process(key_path@),
            Work::Wait => WorkModel::Wait,
            Work::Exit => WorkModel::Exit,
        }
    }
}

/// What has just happened to a worker.
#[derive(Debug)]
pub enum WorkerEvent {
    /// It has been started.
    Started,
    /// It has visited a key, with this outcome.
    Processed { key_path: String, outcome: Result<(), String> },
    /// It was waiting, and was woken.
    Woken(Signal),
}

/// The contents of a `WorkerEvent`.
pub enum EventModel {
    Started,
    Processed { key_path: Seq<char>, outcome: Result<(), Seq<char>> },
    Woken(Signal),
}

impl View for WorkerEvent {
    type V = EventModel;

    open spec fn view(&self) -> EventModel {
        match self {
            WorkerEvent::Started => EventModel::Started,
            WorkerEvent::Processed { key_path, outcome } => EventModel::Processed {
                key_path: key_path@,
                outcome: match outcome {
                    Ok(()) => Ok(()),
                    Err(error) => Err(error@),
                },
            },
            WorkerEvent::Woken(signal) => EventModel::Woken(*signal),
        }
    }
}

/// What has just happened to the coordinator of the workers.
#[derive(Clone, Copy, Debug, PartialEq, Eq, Structural)]
pub enum RunEvent {
    /// The search begins.
    Started,
    /// The time to look at the workers has come.
    Polled,
}

/// What the coordinator of the workers is to do next.
#[derive(Clone, Copy, Debug, PartialEq, Eq, Structural)]
pub enum RunAction {
    /// Start this many workers and signal that work is ready; then look at them.
    Launch { workers: usize },
    /// Signal that work is ready, sleep, and look again.
    Wake,
    /// Sleep, and look again.
    Sleep,
    /// Signal that no work is left, and stop.
    Finish,
}

/// How long the coordinator sleeps before it looks at the workers again, in milliseconds.
pub const RUN_POLL_INTERVAL_MS: u64 = 100;

impl ManagerModel {
    /// A worker asks for a key: it gets the first in the queue, or is counted as waiting.
    pub open spec fn asked(self) -> (ManagerModel, WorkModel) {
        if self.queue.len() > 0 {
            (
                ManagerModel { queue: self.queue.drop_first(), ..self },
                WorkModel::Process(self.queue.first()),
            )
        } else {
            (ManagerModel { waiting: self.waiting.wrapping_add(1), ..self }, WorkModel::Wait)
        }
    }

    /// A waiting worker is woken: it stops where no work is left, and is otherwise no longer
    /// counted as waiting and asks again.
    pub open spec fn woken(self, signal: Signal) -> (ManagerModel, WorkModel) {
        match signal {
            Signal::WorkReady => (ManagerModel {
                waiting: self.waiting.wrapping_sub(1),
                ..self
            }).asked(),
            Signal::NoWorkLeft => (self, WorkModel::Exit),
        }
    }

    /// With the error that opening a key gave, where it gave one.
    pub open spec fn key_processed(
        self,
        key_path: Seq<char>,
        outcome: Result<(), Seq<char>>,
    ) -> ManagerModel {
        match outcome {
            Ok(()) => self,
            Err(error) => ManagerModel {
                errors: self.errors.insert(key_error(key_path, error)),
                ..self
            },
        }
    }

    /// What an event makes of the search, and what the worker is to do next.
    pub open spec fn stepped(self, event: EventModel) -> (ManagerModel, WorkModel) {
        match event {
            EventModel::Started => self.asked(),
            EventModel::Processed { key_path, outcome } => self.key_processed(
                key_path,
                outcome,
            ).asked(),
            EventModel::Woken(signal) => self.woken(signal),
        }
    }

    /// What the coordinator is to do next: the search is over once every worker waits and the
    /// queue is empty; where every worker waits beside a queue that holds keys, they are woken.
    pub open spec fn run_action(self, event: RunEvent) -> RunAction {
        match event {
            RunEvent::Started => RunAction::Launch { workers: self.threads },
            RunEvent::Polled => if self.waiting != self.threads {
                RunAction::Sleep
            } else if self.queue.len() == 0 {
                RunAction::Finish
            } else {
                RunAction::Wake
            },
        }
    }
}

/// The shared state of a search.
pub struct WorkerManager {
    threads: usize,
    search_terms: Vec<String>,
    key_queue: VecDeque<String>,
    threads_waiting_for_work: usize,
    pub results: TextSet,
    pub errors: TextSet,
}

impl View for WorkerManager {
    type V = ManagerModel;

    closed spec fn view(&self) -> ManagerModel {
        ManagerModel {
            threads: self.threads,
            terms: texts(self.search_terms@),
            queue: texts(self.key_queue@),
            waiting: self.threads_waiting_for_work,
            results: self.results@,
            errors: self.errors@,
        }
    }
}

/// What a manager is taken to hold is what its fields hold, one for one and in their order.
proof fn law_manager_is_its_fields(manager: WorkerManager)
    ensures
        manager@.threads == manager.threads,
        manager@.waiting == manager.threads_waiting_for_work,
        manager@.results == manager.results@,
        manager@.errors == manager.errors@,
        manager.result_set() == manager.results,
        manager@.terms.len() == manager.search_terms@.len(),
        forall|i: int|
            0 <= i < manager.search_terms@.len() ==> #[trigger] manager@.terms[i]
                == manager.search_terms@[i]@,
        manager@.queue.len() == manager.key_queue@.len(),
        forall|i: int|
            0 <= i < manager.key_queue@.len() ==> #[trigger] manager@.queue[i]
                == manager.key_queue@[i]@,
{
}

/// `key_path`, then `label`, then `error` in quotes.
fn error_line(key_path: &str, label: &str, error: &str) -> (line: String)
    ensures
        line@ == key_path@ + label@ + error@ + "\""@,
{
    key_path.to_owned().concat(label).concat(error).concat("\"")
}

impl WorkerManager {
    /// The set into which the lines found go.
    pub closed spec fn result_set(self) -> TextSet {
        self.results
    }

    /// A search for `search_terms`, whatever the case of their letters, by `threads_to_use`
    /// workers.
    pub fn new(search_terms: Vec<String>, threads_to_use: usize) -> (manager: Self)
        ensures
            manager@ == ManagerModel::fresh(
                texts(search_terms@).map_values(|term: Seq<char>| lowercase_of(term)),
                threads_to_use,
            ),
    {
        let mut lowered: Vec<String> = Vec::new();
        let mut i: usize = 0;
        while i < search_terms.len()
            invariant
                i <= search_terms.len(),
                lowered.len() == i,
                forall|k: int|
                    0 <= k < i ==> (#[trigger] lowered[k])@ == lowercase_of(search_terms[k]@),
            decreases search_terms.len() - i,
        {
            lowered.push(search_terms[i].as_str().to_lowercase());
            i = i + 1;
        }
        assert(texts(lowered@) =~= texts(search_terms@).map_values(
            |term: Seq<char>| lowercase_of(term),
        ));
        Self::with_lowercase_terms(lowered, threads_to_use)
    }

    /// A search for terms that are in lower case already.
    pub fn with_lowercase_terms(lowered: Vec<String>, threads_to_use: usize) -> (manager: Self)
        ensures
            manager@ == ManagerModel::fresh(texts(lowered@), threads_to_use),
    {
        let manager = Self {
            threads: threads_to_use,
            search_terms: lowered,
            key_queue: VecDeque::new(),
            threads_waiting_for_work: 0,
            results: TextSet::new(),
            errors: TextSet::new(),
        };
        assert(manager@ =~= ManagerModel::fresh(texts(lowered@), threads_to_use));
        manager
    }

    /// The same search, with its lines going into `results`, where there may be some already.
    pub fn with_results(self, results: TextSet) -> (manager: Self)
        ensures
            manager@ == (ManagerModel { results: results@, ..self@ }),
            manager.result_set() == results,
    {
        WorkerManager { results, ..self }
    }

    /// Puts keys behind those already queued.
    pub fn feed_queue(&mut self, keys: Vec<String>)
        ensures
            final(self)@ == old(self)@.fed(texts(keys@)),
            final(self).result_set() == old(self).result_set(),
    {
        let ghost before = self@;
        for key in items: keys
            invariant
                items.seq() == keys@,
                self.results == old(self).results,
                self@ == before.fed(texts(keys@.take(items.index()))),
        {
            let ghost i = items.index();
            let ghost current = self@;
            self.key_queue.push_back(key);
            assert(self@.queue =~= current.queue.push(keys@[i]@));
            assert(texts(keys@.take(i + 1)) =~= texts(keys@.take(i)).push(keys@[i]@));
            assert(self@ =~= before.fed(texts(keys@.take(i + 1))));
        }
        assert(keys@.take(keys@.len() as int) =~= keys@);
    }

    /// Whether some term stands in a text that is in lower case already.
    pub fn matches_lowercase(&self, lowered: &str) -> (found: bool)
        ensures
            found == some_term_in(self@.terms, lowered@),
    {
        let mut i: usize = 0;
        while i < self.search_terms.len()
            invariant
                i <= self.search_terms.len(),
                forall|k: int| 0 <= k < i ==> !occurs(#[trigger] self@.terms[k], lowered@),
            decreases self.search_terms.len() - i,
        {
            assert(self@.terms[i as int] == self.search_terms[i as int]@);
            if contains(lowered, self.search_terms[i].as_str()) {
                return true;
            }
            i = i + 1;
        }
        false
    }

    /// Whether some term stands in one of two texts, whatever the case of the letters.
    pub fn any_string_matches(&self, string: &str, string2: &str) -> (found: bool)
        ensures
            found == (self@.matches(string@) || self@.matches(string2@)),
    {
        let string_lowercase = string.to_lowercase();
        let string2_lowercase = string2.to_lowercase();
        self.matches_lowercase(string_lowercase.as_str()) || self.matches_lowercase(
            string2_lowercase.as_str(),
        )
    }

    /// Whether some term stands in a text, whatever the case of the letters.
    pub fn string_matches(&self, string: &str) -> (found: bool)
        ensures
            found == self@.matches(string@),
    {
        let string_lowercase = string.to_lowercase();
        self.matches_lowercase(string_lowercase.as_str())
    }

    /// The line that reports a key, where some term stands in its path; `lowered` is the
    /// path's lower case.
    pub fn key_report(&self, key_path: &str, lowered: &str) -> (line: Option<String>)
        ensures
            line is Some <==> some_term_in(self@.terms, lowered@),
            line is Some ==> line->0@ == key_line(key_path@),
    {
        if self.matches_lowercase(lowered) {
            Some("HKEY_LOCAL_MACHINE\\".to_owned().concat(key_path))
        } else {
            None
        }
    }

    /// The line that reports a value, where some term stands in its name or its data;
    /// `lowered_name` and `lowered_data` are their lower cases.
    pub fn value_report(
        &self,
        key_path: &str,
        value: &RegistryValue,
        lowered_name: &str,
        lowered_data: &str,
    ) -> (line: Option<String>)
        ensures
            line is Some <==> some_term_in(self@.terms, lowered_name@) || some_term_in(
                self@.terms,
                lowered_data@,
            ),
            line is Some ==> line->0@ == value_line(key_path@, value@),
    {
        if self.matches_lowercase(lowered_name) || self.matches_lowercase(lowered_data) {
            let value_name = if value.name.as_str().is_empty() {
                if REGEDIT_OUTPUT_FOR_BLANK_NAMES {
                    "(Default)"
                } else {
                    value.name.as_str()
                }
            } else {
                value.name.as_str()
            };
            Some(
                "HKEY_LOCAL_MACHINE\\".to_owned().concat(key_path).concat("\\").concat(
                    value_name,
                ).concat(" = \"").concat(value.data.as_str()).concat("\" (").concat(
                    value.kind.as_str(),
                ).concat(")"),
            )
        } else {
            None
        }
    }

    /// Reports a key whose path matches.
    pub fn visit_key(&mut self, key_path: &str)
        ensures
            final(self)@ == old(self)@.key_visited(key_path@),
    {
        let lowered = key_path.to_lowercase();
        if let Some(line) = self.key_report(key_path, lowered.as_str()) {
            self.results.insert(line);
        }
        assert(self@ =~= old(self)@.key_visited(key_path@));
    }

    /// Queues the subkeys of a key, notes those that could not be read, and counts both.
    pub fn read_subkeys(
        &mut self,
        counters: &mut SearchCounters,
        key_path: &str,
        reads: &Vec<Result<String, String>>,
    )
        ensures
            final(self)@ == old(self)@.subkeys_read(key_path@, subkey_models(reads@)),
            final(counters).key_count == old(counters).key_count.wrapping_add(reads.len()),
            final(counters).value_count == old(counters).value_count,
    {
        let ghost before = self@;
        let ghost models = subkey_models(reads@);
        let ghost path = key_path@;
        let ghost ok = |read: Result<Seq<char>, Seq<char>>| read is Ok;
        let ghost as_path = |read: Result<Seq<char>, Seq<char>>| child_path(path, read->Ok_0);
        let ghost bad = |read: Result<Seq<char>, Seq<char>>| read is Err;
        let ghost as_error = |read: Result<Seq<char>, Seq<char>>|
            subkey_error(path, read->Err_0);
        let mut key_paths: Vec<String> = Vec::new();
        proof {
            lemma_collected_ends(models, ok, as_path);
            lemma_collected_ends(models, bad, as_error);
            assert(texts(key_paths@) =~= child_paths(path, models.take(0)));
            assert(self@ =~= ManagerModel {
                errors: before.errors.union(subkey_errors(path, models.take(0)).to_set()),
                ..before
            });
        }
        let mut i: usize = 0;
        while i < reads.len()
            invariant
                i <= reads.len(),
                path == key_path@,
                models == subkey_models(reads@),
                ok == (|read: Result<Seq<char>, Seq<char>>| read is Ok),
                as_path == (|read: Result<Seq<char>, Seq<char>>| child_path(path, read->Ok_0)),
                bad == (|read: Result<Seq<char>, Seq<char>>| read is Err),
                as_error == (|read: Result<Seq<char>, Seq<char>>|
                    subkey_error(path, read->Err_0)),
                texts(key_paths@) == child_paths(path, models.take(i as int)),
                self@ == (ManagerModel {
                    errors: before.errors.union(
                        subkey_errors(path, models.take(i as int)).to_set(),
                    ),
                    ..before
                }),
            decreases reads.len() - i,
        {
            let ghost queued = texts(key_paths@);
            proof {
                lemma_collected_step(models, ok, as_path, i as int);
                lemma_collected_step(models, bad, as_error, i as int);
            }
            match &reads[i] {
                Ok(key_name) => {
                    key_paths.push(
                        key_path.to_owned().concat("\\").concat(key_name.as_str()),
                    );
                    assert(texts(key_paths@) =~= queued.push(as_path(models[i as int])));
                },
                Err(error) => {
                    self.errors.insert(
                        error_line(key_path, ", Subkey error: \"", error.as_str()),
                    );
                },
            }
            i = i + 1;
            assert(self@ =~= ManagerModel {
                errors: before.errors.union(subkey_errors(path, models.take(i as int)).to_set()),
                ..before
            });
        }
        counters.key_count = counters.key_count.wrapping_add(reads.len());
        self.feed_queue(key_paths);
        assert(self@ =~= before.subkeys_read(path, models));
    }

    /// Reports the values of a key that match, notes those that could not be read, and counts
    /// both.
    pub fn read_values(
        &mut self,
        counters: &mut SearchCounters,
        key_path: &str,
        reads: &Vec<Result<RegistryValue, String>>,
    )
        ensures
            final(self)@ == old(self)@.values_read(key_path@, value_models(reads@)),
            final(counters).value_count == old(counters).value_count.wrapping_add(reads.len()),
            final(counters).key_count == old(counters).key_count,
    {
        let ghost before = self@;
        let ghost models = value_models(reads@);
        let ghost path = key_path@;
        let ghost hit = |read: Result<ValueModel, Seq<char>>|
            read is Ok && value_matches(before.terms, read->Ok_0);
        let ghost as_line = |read: Result<ValueModel, Seq<char>>| value_line(path, read->Ok_0);
        let ghost bad = |read: Result<ValueModel, Seq<char>>| read is Err;
        let ghost as_error = |read: Result<ValueModel, Seq<char>>| value_error(path, read->Err_0);
        proof {
            lemma_collected_ends(models, hit, as_line);
            lemma_collected_ends(models, bad, as_error);
            assert(self@ =~= before.values_read(path, models.take(0)));
        }
        let mut i: usize = 0;
        while i < reads.len()
            invariant
                i <= reads.len(),
                path == key_path@,
                models == value_models(reads@),
                hit == (|read: Result<ValueModel, Seq<char>>|
                    read is Ok && value_matches(before.terms, read->Ok_0)),
                as_line == (|read: Result<ValueModel, Seq<char>>| value_line(path, read->Ok_0)),
                bad == (|read: Result<ValueModel, Seq<char>>| read is Err),
                as_error == (|read: Result<ValueModel, Seq<char>>|
                    value_error(path, read->Err_0)),
                self@ == before.values_read(path, models.take(i as int)),
            decreases reads.len() - i,
        {
            proof {
                lemma_collected_step(models, hit, as_line, i as int);
                lemma_collected_step(models, bad, as_error, i as int);
            }
            match &reads[i] {
                Ok(value) => {
                    let lowered_name = value.name.as_str().to_lowercase();
                    let lowered_data = value.data.as_str().to_lowercase();
                    let report = self.value_report(
                        key_path,
                        value,
                        lowered_name.as_str(),
                        lowered_data.as_str(),
                    );
                    if let Some(line) = report {
                        self.results.insert(line);
                    }
                },
                Err(error) => {
                    self.errors.insert(
                        error_line(key_path, ", Value error: \"", error.as_str()),
                    );
                },
            }
            i = i + 1;
            assert(self@ =~= before.values_read(path, models.take(i as int)));
        }
        counters.value_count = counters.value_count.wrapping_add(reads.len());
        assert(models.take(models.len() as int) =~= models);
    }

    /// Decides what a worker does next with the key that it visits: it reports the key where its
    /// path matches, and opens it; then it queues the subkeys, so that other workers can go on
    /// with them; then it reports the values that match. A key that cannot be opened is left with
    /// the error.
    pub fn visit_step(
        &mut self,
        counters: &mut SearchCounters,
        key_path: &str,
        event: KeyEvent,
    ) -> (action: KeyAction)
        ensures
            match event {
                KeyEvent::Given => {
                    &&& action == KeyAction::Open
                    &&& final(self)@ == old(self)@.key_visited(key_path@)
                    &&& *final(counters) == *old(counters)
                },
                KeyEvent::Opened(opened) => {
                    &&& action == match opened {
                        Ok(()) => KeyAction::ReadSubkeys,
                        Err(error) => KeyAction::Leave(Err(error)),
                    }
                    &&& final(self)@ == old(self)@
                    &&& *final(counters) == *old(counters)
                },
                KeyEvent::SubkeysRead(reads) => {
                    &&& action == KeyAction::ReadValues
                    &&& final(self)@ == old(self)@.subkeys_read(key_path@, subkey_models(reads@))
                    &&& final(counters).key_count == old(counters).key_count.wrapping_add(
                        reads.len(),
                    )
                    &&& final(counters).value_count == old(counters).value_count
                },
                KeyEvent::ValuesRead(reads) => {
                    &&& action == KeyAction::Leave(Ok(()))
                    &&& final(self)@ == old(self)@.values_read(key_path@, value_models(reads@))
                    &&& final(counters).value_count == old(counters).value_count.wrapping_add(
                        reads.len(),
                    )
                    &&& final(counters).key_count == old(counters).key_count
                },
            },
    {
        match event {
            KeyEvent::Given => {
                self.visit_key(key_path);
                KeyAction::Open
            },
            KeyEvent::Opened(Ok(())) => KeyAction::ReadSubkeys,
            KeyEvent::Opened(Err(error)) => KeyAction::Leave(Err(error)),
            KeyEvent::SubkeysRead(reads) => {
                self.read_subkeys(counters, key_path, &reads);
                KeyAction::ReadValues
            },
            KeyEvent::ValuesRead(reads) => {
                self.read_values(counters, key_path, &reads);
                KeyAction::Leave(Ok(()))
            },
        }
    }

    /// Visits one key: reports it where its path matches, and, where it could be opened,
    /// queues its subkeys and reports the values that match. The error of a key that could
    /// not be opened is handed back.
    pub fn feed_queue_and_process_values(
        &mut self,
        counters: &mut SearchCounters,
        key_path: &str,
        opened: Result<KeyContents, String>,
    ) -> (outcome: Result<(), String>)
        ensures
            match opened {
                Ok(contents) => {
                    &&& outcome is Ok
                    &&& final(self)@ == old(self)@.key_visited(key_path@).subkeys_read(
                        key_path@,
                        subkey_models(contents.subkeys@),
                    ).values_read(key_path@, value_models(contents.values@))
                    &&& final(counters).key_count == old(counters).key_count.wrapping_add(
                        contents.subkeys.len(),
                    )
                    &&& final(counters).value_count == old(counters).value_count.wrapping_add(
                        contents.values.len(),
                    )
                },
                Err(error) => {
                    &&& outcome == Err::<(), String>(error)
                    &&& final(self)@ == old(self)@.key_visited(key_path@)
                    &&& *final(counters) == *old(counters)
                },
            },
    {
        self.visit_step(counters, key_path, KeyEvent::Given);
        match opened {
            Ok(contents) => {
                self.visit_step(counters, key_path, KeyEvent::Opened(Ok(())));
                self.visit_step(counters, key_path, KeyEvent::SubkeysRead(contents.subkeys));
                self.visit_step(counters, key_path, KeyEvent::ValuesRead(contents.values));
                Ok(())
            },
            Err(error) => Err(error),
        }
    }

    /// A worker asks for a key, or, where `woken` says by what, has been woken from its wait
    /// for one.
    pub fn get_work(&mut self, woken: Option<Signal>) -> (work: Work)
        ensures
            (final(self)@, work@) == match woken {
                None => old(self)@.asked(),
                Some(signal) => old(self)@.woken(signal),
            },
    {
        match woken {
            Some(Signal::NoWorkLeft) => {
                return Work::Exit;
            },
            Some(Signal::WorkReady) => {
                self.threads_waiting_for_work = self.threads_waiting_for_work.wrapping_sub(1);
            },
            None => {},
        }
        let ghost before = self@;
        match self.key_queue.pop_front() {
            Some(key) => {
                assert(before.queue.first() == key@);
                assert(self@.queue =~= before.queue.drop_first());
                Work::Process(key)
            },
            None => {
                self.threads_waiting_for_work = self.threads_waiting_for_work.wrapping_add(1);
                Work::Wait
            },
        }
    }

    /// Notes the error of a key that could not be opened.
    pub fn finish_key(&mut self, key_path: &str, outcome: &Result<(), String>)
        ensures
            final(self)@ == old(self)@.key_processed(
                key_path@,
                match outcome {
                    Ok(()) => Ok(()),
                    Err(error) => Err(error@),
                },
            ),
    {
        if let Err(error) = outcome {
            self.errors.insert(error_line(key_path, ", Key error: \"", error.as_str()));
        }
        assert(self@ =~= old(self)@.key_processed(
            key_path@,
            match outcome {
                Ok(()) => Ok(()),
                Err(error) => Err(error@),
            },
        ));
    }

    /// Decides what the coordinator of the workers does next.
    pub fn run(&self, event: RunEvent) -> (action: RunAction)
        ensures
            action == self@.run_action(event),
    {
        match event {
            RunEvent::Started => RunAction::Launch { workers: self.threads },
            RunEvent::Polled => {
                if self.threads_waiting_for_work == self.threads {
                    if self.key_queue.len() == 0 {
                        RunAction::Finish
                    } else {
                        RunAction::Wake
                    }
                } else {
                    RunAction::Sleep
                }
            },
        }
    }
}

/// Decides what a worker does next, after what has just happened to it.
pub fn run_thread(worker_manager: &mut WorkerManager, event: WorkerEvent) -> (work: Work)
    ensures
        (final(worker_manager)@, work@) == old(worker_manager)@.stepped(event@),
{
    match event {
        WorkerEvent::Started => worker_manager.get_work(None),
        WorkerEvent::Processed { key_path, outcome } => {
            worker_manager.finish_key(key_path.as_str(), &outcome);
            worker_manager.get_work(None)
        },
        WorkerEvent::Woken(signal) => worker_manager.get_work(Some(signal)),
    }
}

} // verus!
