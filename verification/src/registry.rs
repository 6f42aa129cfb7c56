//! The registry of one engine kind: which worker serves which language.
use crate::data_files::EngineKind;
use crate::error::OpenError;
use hashbrown::HashMap;
use vstd::prelude::*;

verus! {

/// The hash map of hashbrown, of which nothing is known but what the
/// functions below state.
#[verifier::external_type_specification]
#[verifier::external_body]
#[verifier::reject_recursive_types(K)]
#[verifier::reject_recursive_types(V)]
#[verifier::reject_recursive_types(S)]
pub struct ExHashMap<K, V, S>(HashMap<K, V, S>);

/// The hasher with which hashbrown makes its maps by default.
#[verifier::external_type_specification]
#[verifier::external_body]
pub struct ExDefaultHashBuilder(hashbrown::hash_map::DefaultHashBuilder);

/// The ticket of a worker: the number under which the engine's owner keeps
/// the opened engine and its serving thread.
pub type WorkerId = u64;

/// What a map of workers holds: for each language in it, the worker filed
/// under that language. Keys are told apart as `String` compares them, that
/// is character by character.
pub uninterp spec fn worker_entries(map: HashMap<String, WorkerId>) -> Map<Seq<char>, WorkerId>;

/// The worker filed under a language, if there is one.
pub open spec fn worker_of(entries: Map<Seq<char>, WorkerId>, language: Seq<char>) -> Option<
    WorkerId,
> {
    if entries.contains_key(language) {
        Some(entries[language])
    } else {
        None
    }
}

/// `HashMap::new` of hashbrown: the map it makes holds no entry.
#[verifier::external_body]
fn workers_new() -> (map: HashMap<String, WorkerId>)
    ensures
        (worker_entries(map) == Map::<Seq<char>, WorkerId>::empty()),
{
    HashMap::new()
}

/// `HashMap::insert` of hashbrown: the value is filed under the key, in
/// place of the one that was there, and that earlier value is returned. No
/// other entry changes. (Like every allocation, the call ends the process
/// where memory runs out.)
#[verifier::external_body]
fn workers_insert(map: &mut HashMap<String, WorkerId>, language: String, worker: WorkerId) -> (previous:
    Option<WorkerId>)
    ensures
        worker_entries(*final(map)) == worker_entries(*old(map)).insert(language@, worker),
        previous == worker_of(worker_entries(*old(map)), language@),
{
    map.insert(language, worker)
}

/// `HashMap::remove` of hashbrown: the key leaves the map, and the value
/// that was filed under it is returned. No other entry changes.
#[verifier::external_body]
fn workers_remove(map: &mut HashMap<String, WorkerId>, language: &str) -> (removed: Option<
    WorkerId,
>)
    ensures
        worker_entries(*final(map)) == worker_entries(*old(map)).remove(language@),
        removed == worker_of(worker_entries(*old(map)), language@),
{
    map.remove(language)
}

/// `HashMap::get` of hashbrown: the value filed under the key, if any,
/// copied out of the map.
#[verifier::external_body]
fn workers_get(map: &HashMap<String, WorkerId>, language: &str) -> (found: Option<WorkerId>)
    ensures
        found == worker_of(worker_entries(*map), language@),
{
    map.get(language).copied()
}

/// `HashMap::keys` of hashbrown: every key of the map once, in an order
/// that the map does not promise. The keys are cloned into a vector.
#[verifier::external_body]
fn workers_keys(map: &HashMap<String, WorkerId>) -> (languages: Vec<String>)
    ensures
        forall|i: int|
            0 <= i < languages@.len() ==> worker_entries(*map).contains_key(
                (#[trigger] languages@[i])@,
            ),
        forall|language: Seq<char>|
            worker_entries(*map).contains_key(language) ==> exists|i: int|
                0 <= i < languages@.len() && (#[trigger] languages@[i])@ == language,
        forall|i: int, j: int|
            0 <= i < j < languages@.len() ==> (#[trigger] languages@[i])@ != (
            #[trigger] languages@[j])@,
{
    map.keys().cloned().collect()
}

/// The workers of one engine kind, by language.
pub struct KindRegistry {
    kind: EngineKind,
    workers: HashMap<String, WorkerId>,
}

impl View for KindRegistry {
    type V = Map<Seq<char>, WorkerId>;

    closed spec fn view(&self) -> Map<Seq<char>, WorkerId> {
        worker_entries(self.workers)
    }
}

impl KindRegistry {
    /// The kind of engine whose workers the registry holds.
    pub closed spec fn kind_of(&self) -> EngineKind {
        self.kind
    }

    /// A registry of the kind that holds no worker yet.
    pub fn new(kind: EngineKind) -> (registry: KindRegistry)
        ensures
            registry@ == Map::<Seq<char>, WorkerId>::empty(),
            registry.kind_of() == kind,
    {
        KindRegistry { kind, workers: workers_new() }
    }

    pub fn kind(&self) -> (kind: EngineKind)
        ensures
            kind == self.kind_of(),
    {
        self.kind
    }

    /// The worker that serves the language, if one is registered.
    pub fn lookup(&self, language: &str) -> (found: Option<WorkerId>)
        ensures
            found == worker_of(self@, language@),
    {
        workers_get(&self.workers, language)
    }

    /// Registers the worker that was opened for the language. Where opening
    /// failed, the registry stays as it is and the failure is handed back.
    /// Otherwise the worker takes the place of the one registered before, which
    /// is returned so that it can be shut down.
    pub fn insert(&mut self, language: &str, opened: Result<WorkerId, OpenError>) -> (displaced:
        Result<Option<WorkerId>, OpenError>)
        ensures
            final(self).kind_of() == old(self).kind_of(),
            match opened {
                Ok(worker) => final(self)@ == old(self)@.insert(language@, worker) && displaced
                    == Ok::<Option<WorkerId>, OpenError>(worker_of(old(self)@, language@)),
                Err(error) => final(self)@ == old(self)@ && displaced == Err::<
                    Option<WorkerId>,
                    OpenError,
                >(error),
            },
    {
        match opened {
            Ok(worker) => Ok(workers_insert(&mut self.workers, language.to_owned(), worker)),
            Err(error) => Err(error),
        }
    }

    /// Puts a newly opened worker in the place of the one that serves the
    /// language, in one step. Where opening failed, the old worker stays.
    pub fn replace(&mut self, language: &str, opened: Result<WorkerId, OpenError>) -> (displaced:
        Result<Option<WorkerId>, OpenError>)
        ensures
            final(self).kind_of() == old(self).kind_of(),
            match opened {
                Ok(worker) => final(self)@ == old(self)@.insert(language@, worker) && displaced
                    == Ok::<Option<WorkerId>, OpenError>(worker_of(old(self)@, language@)),
                Err(error) => final(self)@ == old(self)@ && displaced == Err::<
                    Option<WorkerId>,
                    OpenError,
                >(error),
            },
    {
        self.insert(language, opened)
    }

    /// Takes the language out of the registry and returns its worker, so
    /// that it can be shut down.
    pub fn remove(&mut self, language: &str) -> (removed: Option<WorkerId>)
        ensures
            final(self).kind_of() == old(self).kind_of(),
            final(self)@ == old(self)@.remove(language@),
            removed == worker_of(old(self)@, language@),
    {
        workers_remove(&mut self.workers, language)
    }

    /// The languages that have a worker, each once, in no particular order.
    pub fn languages(&self) -> (languages: Vec<String>)
        ensures
            forall|i: int|
                0 <= i < languages@.len() ==> self@.contains_key((#[trigger] languages@[i])@),
            forall|language: Seq<char>|
                self@.contains_key(language) ==> exists|i: int|
                    0 <= i < languages@.len() && (#[trigger] languages@[i])@ == language,
            forall|i: int, j: int|
                0 <= i < j < languages@.len() ==> (#[trigger] languages@[i])@ != (
                #[trigger] languages@[j])@,
    {
        workers_keys(&self.workers)
    }
}

} // verus!
