//! The registries of the three engine kinds with the preferences cache,
//! and what the dispatcher answers from them.
use crate::data_files::{DataFile, EngineKind};
use crate::error::{ApiError, DispatchError, DispatchErrorView, OpenError, WorkerError};
use crate::preferences::{copy_of, Preferences, PreferencesCache};
use crate::registry::{worker_of, KindRegistry, WorkerId};
use crate::languages::{language_title, title_of};
use crate::watcher::{carry_out, lemma_carry_out_effect, outcome_view, ActionView, Opened, OpenedView};
use vstd::prelude::*;

verus! {

/// What the service is started with. It does not change afterwards.
#[derive(Clone, Debug)]
pub struct Config {
    /// The address on which the service listens.
    pub addr: String,
    /// The root of the data directory.
    pub data_file_dir: String,
    /// How long the watcher waits for a burst of file events to settle.
    pub watcher_interval_ms: u64,
}

/// What offers suggestions for the languages of one engine kind: requests
/// are routed to the worker of their language, and languages come and go.
pub trait LanguageSuggestions {
    /// The workers on offer, by language.
    spec fn workers(&self) -> Map<Seq<char>, WorkerId>;

    /// The kind of engine.
    spec fn engine(&self) -> EngineKind;

    /// The worker to which a request for the language goes, or the error
    /// that tells the client that the language is not loaded.
    fn suggestions(&self, language: &str) -> (routed: Result<WorkerId, ApiError>)
        ensures
            match routed {
                Ok(worker) => worker_of(self.workers(), language@) == Some(worker),
                Err(error) => !self.workers().contains_key(language@) && error.message@
                    == crate::error::no_such_language_message(self.engine(), language@),
            },
    ;

    /// Offers the language through the worker, and returns the worker that
    /// offered it before, if any.
    fn add(&mut self, language: &str, worker: WorkerId) -> (displaced: Option<WorkerId>)
        ensures
            final(self).workers() == old(self).workers().insert(language@, worker),
            final(self).engine() == old(self).engine(),
            displaced == worker_of(old(self).workers(), language@),
    ;

    /// Withdraws the language, and returns the worker that offered it, if
    /// any. A language that is not on offer is left so.
    fn remove(&mut self, language: &str) -> (removed: Option<WorkerId>)
        ensures
            final(self).workers() == old(self).workers().remove(language@),
            final(self).engine() == old(self).engine(),
            removed == worker_of(old(self).workers(), language@),
    ;
}

impl LanguageSuggestions for KindRegistry {
    open spec fn workers(&self) -> Map<Seq<char>, WorkerId> {
        self@
    }

    open spec fn engine(&self) -> EngineKind {
        self.kind_of()
    }

    fn suggestions(&self, language: &str) -> (routed: Result<WorkerId, ApiError>) {
        match self.lookup(language) {
            Some(worker) => Ok(worker),
            None => Err(
                DispatchError::NoSuchLanguage(self.kind(), language.to_owned()).to_api_error(),
            ),
        }
    }

    fn add(&mut self, language: &str, worker: WorkerId) -> (displaced: Option<WorkerId>) {
        match self.insert(language, Ok(worker)) {
            Ok(displaced) => displaced,
            Err(_) => None,
        }
    }

    fn remove(&mut self, language: &str) -> (removed: Option<WorkerId>) {
        KindRegistry::remove(self, language)
    }
}

/// For what comes back in two layers, an outcome inside an outcome:
/// the two made one.
pub trait UnhoistFutureExt<U, E>: Sized {
    /// The inner outcome where the outer one is a success, the outer
    /// failure else.
    spec fn unhoisted(self) -> Result<U, E>;

    fn unhoist(self) -> (flat: Result<U, E>)
        ensures
            flat == self.unhoisted(),
    ;
}

impl<U, E> UnhoistFutureExt<U, E> for Result<Result<U, E>, E> {
    open spec fn unhoisted(self) -> Result<U, E> {
        match self {
            Ok(inner) => inner,
            Err(error) => Err(error),
        }
    }

    fn unhoist(self) -> (flat: Result<U, E>) {
        match self {
            Ok(Ok(result)) => Ok(result),
            Ok(Err(error)) => Err(error),
            Err(error) => Err(error),
        }
    }
}

/// The registries of the three engine kinds.
pub struct LanguageFunctions {
    pub spelling_suggestions: KindRegistry,
    pub grammar_suggestions: KindRegistry,
    pub hyphenation_suggestions: KindRegistry,
}

/// Everything the handlers and the watcher share.
pub struct InnerState {
    pub config: Config,
    pub language_functions: LanguageFunctions,
    pub gramcheck_preferences: PreferencesCache,
}

/// The registries and the cache as plain maps.
pub struct StateView {
    pub spelling: Map<Seq<char>, WorkerId>,
    pub grammar: Map<Seq<char>, WorkerId>,
    pub hyphenation: Map<Seq<char>, WorkerId>,
    pub preferences: Map<Seq<char>, Seq<(Seq<char>, Seq<char>)>>,
}

/// One change to a registry or to the cache. A file event is carried out
/// as a short list of these, each applied in a step of its own.
#[derive(Debug)]
pub enum Mutation {
    /// Registers the worker for the language, in place of the one before.
    InstallWorker { kind: EngineKind, language: String, worker: WorkerId },
    /// Caches the preferences of the grammar language.
    StorePreferences { language: String, preferences: Preferences },
    /// Forgets the preferences of the grammar language.
    ClearPreferences { language: String },
    /// Takes the language out of the registry of the kind.
    RemoveWorker { kind: EngineKind, language: String },
}

pub enum MutationView {
    InstallWorker { kind: EngineKind, language: Seq<char>, worker: WorkerId },
    StorePreferences { language: Seq<char>, preferences: Seq<(Seq<char>, Seq<char>)> },
    ClearPreferences { language: Seq<char> },
    RemoveWorker { kind: EngineKind, language: Seq<char> },
}

impl View for Mutation {
    type V = MutationView;

    open spec fn view(&self) -> MutationView {
        match self {
            Mutation::InstallWorker { kind, language, worker } => MutationView::InstallWorker {
                kind: *kind,
                language: language@,
                worker: *worker,
            },
            Mutation::StorePreferences { language, preferences } => MutationView::StorePreferences {
                language: language@,
                preferences: preferences@,
            },
            Mutation::ClearPreferences { language } => MutationView::ClearPreferences {
                language: language@,
            },
            Mutation::RemoveWorker { kind, language } => MutationView::RemoveWorker {
                kind: *kind,
                language: language@,
            },
        }
    }
}

/// The views of a list of mutations, in order.
pub open spec fn mutation_views(mutations: Seq<Mutation>) -> Seq<MutationView> {
    mutations.map_values(|mutation: Mutation| mutation@)
}

impl StateView {
    /// The state in which nothing is loaded.
    pub open spec fn empty() -> StateView {
        StateView {
            spelling: Map::empty(),
            grammar: Map::empty(),
            hyphenation: Map::empty(),
            preferences: Map::empty(),
        }
    }

    /// The registry of a kind.
    pub open spec fn registry(self, kind: EngineKind) -> Map<Seq<char>, WorkerId> {
        match kind {
            EngineKind::Spelling => self.spelling,
            EngineKind::Grammar => self.grammar,
            EngineKind::Hyphenation => self.hyphenation,
        }
    }

    /// The state with the registry of a kind exchanged.
    pub open spec fn with_registry(
        self,
        kind: EngineKind,
        workers: Map<Seq<char>, WorkerId>,
    ) -> StateView {
        match kind {
            EngineKind::Spelling => StateView { spelling: workers, ..self },
            EngineKind::Grammar => StateView { grammar: workers, ..self },
            EngineKind::Hyphenation => StateView { hyphenation: workers, ..self },
        }
    }

    /// Preferences are cached only for languages that have a grammar
    /// worker. This holds at every moment, also between the two steps of
    /// one file event.
    pub open spec fn guarded(self) -> bool {
        self.preferences.dom().subset_of(self.grammar.dom())
    }

    /// The cache holds preferences for exactly the languages of the grammar
    /// registry. This holds whenever no file event is half carried out.
    pub open spec fn coherent(self) -> bool {
        self.preferences.dom() =~= self.grammar.dom()
    }

    /// The state after one mutation.
    pub open spec fn apply(self, mutation: MutationView) -> StateView {
        match mutation {
            MutationView::InstallWorker { kind, language, worker } => self.with_registry(
                kind,
                self.registry(kind).insert(language, worker),
            ),
            MutationView::StorePreferences { language, preferences } => StateView {
                preferences: self.preferences.insert(language, preferences),
                ..self
            },
            MutationView::ClearPreferences { language } => StateView {
                preferences: self.preferences.remove(language),
                ..self
            },
            MutationView::RemoveWorker { kind, language } => self.with_registry(
                kind,
                self.registry(kind).remove(language),
            ),
        }
    }

    /// The worker that a mutation puts out of service: the one that is
    /// displaced or removed. It is to be shut down once the mutation is done.
    pub open spec fn retired(self, mutation: MutationView) -> Option<WorkerId> {
        match mutation {
            MutationView::InstallWorker { kind, language, worker } => worker_of(
                self.registry(kind),
                language,
            ),
            MutationView::RemoveWorker { kind, language } => worker_of(
                self.registry(kind),
                language,
            ),
            _ => None,
        }
    }

    /// The state after a list of mutations, applied in order.
    pub open spec fn apply_all(self, mutations: Seq<MutationView>) -> StateView
        decreases mutations.len(),
    {
        if mutations.len() == 0 {
            self
        } else {
            self.apply_all(mutations.drop_last()).apply(mutations.last())
        }
    }

    /// The workers that a list of mutations puts out of service, in order.
    pub open spec fn retired_all(self, mutations: Seq<MutationView>) -> Seq<WorkerId>
        decreases mutations.len(),
    {
        if mutations.len() == 0 {
            Seq::empty()
        } else {
            let before = self.apply_all(mutations.drop_last());
            let earlier = self.retired_all(mutations.drop_last());
            match before.retired(mutations.last()) {
                Some(worker) => earlier.push(worker),
                None => earlier,
            }
        }
    }
}

impl LanguageFunctions {
    /// Each registry holds the workers of the kind it is named for.
    pub open spec fn tagged(&self) -> bool {
        &&& self.spelling_suggestions.kind_of() == EngineKind::Spelling
        &&& self.grammar_suggestions.kind_of() == EngineKind::Grammar
        &&& self.hyphenation_suggestions.kind_of() == EngineKind::Hyphenation
    }

    /// Three registries, one of each kind, with no worker in them.
    pub fn new() -> (functions: LanguageFunctions)
        ensures
            functions.tagged(),
            functions.spelling_suggestions@ == Map::<Seq<char>, WorkerId>::empty(),
            functions.grammar_suggestions@ == Map::<Seq<char>, WorkerId>::empty(),
            functions.hyphenation_suggestions@ == Map::<Seq<char>, WorkerId>::empty(),
    {
        LanguageFunctions {
            spelling_suggestions: KindRegistry::new(EngineKind::Spelling),
            grammar_suggestions: KindRegistry::new(EngineKind::Grammar),
            hyphenation_suggestions: KindRegistry::new(EngineKind::Hyphenation),
        }
    }
}

impl View for InnerState {
    type V = StateView;

    open spec fn view(&self) -> StateView {
        StateView {
            spelling: self.language_functions.spelling_suggestions@,
            grammar: self.language_functions.grammar_suggestions@,
            hyphenation: self.language_functions.hyphenation_suggestions@,
            preferences: self.gramcheck_preferences@,
        }
    }
}

impl InnerState {
    /// A state in which nothing is loaded.
    pub fn new(config: Config) -> (state: InnerState)
        ensures
            state@ == StateView::empty(),
            state.language_functions.tagged(),
            state.config == config,
    {
        InnerState {
            config,
            language_functions: LanguageFunctions::new(),
            gramcheck_preferences: PreferencesCache::new(),
        }
    }

    /// Carries out one mutation and returns the worker it put out of
    /// service, which the caller shuts down afterwards.
    pub fn apply(&mut self, mutation: Mutation) -> (retired: Option<WorkerId>)
        ensures
            final(self)@ == old(self)@.apply(mutation@),
            retired == old(self)@.retired(mutation@),
            final(self).config == old(self).config,
            old(self).language_functions.tagged() ==> final(self).language_functions.tagged(),
    {
        match mutation {
            Mutation::InstallWorker { kind, language, worker } => match kind {
                EngineKind::Spelling => self.language_functions.spelling_suggestions.add(
                    language.as_str(),
                    worker,
                ),
                EngineKind::Grammar => self.language_functions.grammar_suggestions.add(
                    language.as_str(),
                    worker,
                ),
                EngineKind::Hyphenation => self.language_functions.hyphenation_suggestions.add(
                    language.as_str(),
                    worker,
                ),
            },
            Mutation::StorePreferences { language, preferences } => {
                self.gramcheck_preferences.insert(language.as_str(), preferences);
                None
            },
            Mutation::ClearPreferences { language } => {
                self.gramcheck_preferences.remove(language.as_str());
                None
            },
            Mutation::RemoveWorker { kind, language } => match kind {
                EngineKind::Spelling => self.language_functions.spelling_suggestions.remove(
                    language.as_str(),
                ),
                EngineKind::Grammar => self.language_functions.grammar_suggestions.remove(
                    language.as_str(),
                ),
                EngineKind::Hyphenation => self.language_functions.hyphenation_suggestions.remove(
                    language.as_str(),
                ),
            },
        }
    }
}

/// The languages of one kind, each with its title.
#[derive(Debug)]
pub struct KindListing {
    pub kind: EngineKind,
    /// Pairs of a language code and the title of that language.
    pub languages: Vec<(String, String)>,
}

/// The entries name exactly the languages that have a worker, each once
/// and each with its title.
pub open spec fn lists(entries: Seq<(String, String)>, workers: Map<Seq<char>, WorkerId>) -> bool {
    &&& forall|i: int|
        0 <= i < entries.len() ==> workers.contains_key((#[trigger] entries[i]).0@)
            && entries[i].1@ == title_of(entries[i].0@)
    &&& forall|language: Seq<char>|
        workers.contains_key(language) ==> exists|i: int|
            0 <= i < entries.len() && (#[trigger] entries[i]).0@ == language
    &&& forall|i: int, j: int|
        0 <= i < j < entries.len() ==> (#[trigger] entries[i]).0@ != (#[trigger] entries[j]).0@
}

impl StateView {
    /// The pairs of kind and language for which a worker is registered.
    pub open spec fn available(self) -> Set<(EngineKind, Seq<char>)> {
        Set::new(|pair: (EngineKind, Seq<char>)| self.registry(pair.0).contains_key(pair.1))
    }

    /// Where a request for a language goes: to the worker registered for
    /// it, or nowhere where the language is not loaded.
    pub open spec fn route(self, kind: EngineKind, language: Seq<char>) -> Result<
        WorkerId,
        DispatchErrorView,
    > {
        match worker_of(self.registry(kind), language) {
            Some(worker) => Ok(worker),
            None => Err(DispatchErrorView::NoSuchLanguage(kind, language)),
        }
    }

    /// How a request ends: where it could not be routed, with the routing
    /// error; else with what the worker made of it.
    pub open spec fn serve<R>(
        self,
        kind: EngineKind,
        language: Seq<char>,
        worked: Result<R, WorkerError>,
    ) -> Result<R, DispatchErrorView> {
        match self.route(kind, language) {
            Ok(_) => answered(worked),
            Err(error) => Err(error),
        }
    }

    /// The preferences a client is given for a grammar language: those
    /// cached for it, none where the cache has none for it at this moment,
    /// and an error where the language has no grammar worker.
    pub open spec fn preferences_of(self, language: Seq<char>) -> Result<
        Seq<(Seq<char>, Seq<char>)>,
        DispatchErrorView,
    > {
        if !self.grammar.contains_key(language) {
            Err(DispatchErrorView::NoSuchLanguage(EngineKind::Grammar, language))
        } else if self.preferences.contains_key(language) {
            Ok(self.preferences[language])
        } else {
            Ok(Seq::empty())
        }
    }
}

/// What the client gets once the worker has dealt with the request: the
/// worker's response, or an engine fault that carries the worker's error.
pub open spec fn answered<R>(worked: Result<R, WorkerError>) -> Result<R, DispatchErrorView> {
    match worked {
        Ok(response) => Ok(response),
        Err(fault) => Err(DispatchErrorView::EngineFault(fault)),
    }
}

/// A request for a language that is listed as available is routed to the
/// worker registered for it, and ends with the worker's response or with
/// an engine fault: never with the answer that the language is not loaded.
pub proof fn lemma_available_is_served<R>(
    state: StateView,
    kind: EngineKind,
    language: Seq<char>,
    worked: Result<R, WorkerError>,
)
    requires
        state.available().contains((kind, language)),
    ensures
        state.route(kind, language) == Ok::<WorkerId, DispatchErrorView>(
            state.registry(kind)[language],
        ),
        match state.serve(kind, language, worked) {
            Ok(response) => worked == Ok::<R, WorkerError>(response),
            Err(error) => error is EngineFault,
        },
{
}

/// No worker is lost: a worker that a mutation takes out of its place in
/// a registry is the one the mutation hands back for shutdown.
pub proof fn lemma_displaced_is_retired(
    state: StateView,
    mutation: MutationView,
    kind: EngineKind,
    language: Seq<char>,
)
    requires
        state.registry(kind).contains_key(language),
    ensures
        worker_of(state.apply(mutation).registry(kind), language) == Some(
            state.registry(kind)[language],
        ) || state.retired(mutation) == Some(state.registry(kind)[language]),
{
}

/// In a coherent state every language of the grammar registry has its
/// preferences cached, and a client that asks for them gets those.
pub proof fn lemma_grammar_has_preferences(state: StateView, language: Seq<char>)
    requires
        state.coherent(),
        state.grammar.contains_key(language),
    ensures
        state.preferences.contains_key(language),
        state.preferences_of(language) == Ok::<Seq<(Seq<char>, Seq<char>)>, DispatchErrorView>(
            state.preferences[language],
        ),
{
}

/// Turns what the worker made of a request into what the client gets.
pub fn answer<R>(outcome: Result<R, WorkerError>) -> (response: Result<R, DispatchError>)
    ensures
        match answered(outcome) {
            Ok(value) => response == Ok::<R, DispatchError>(value),
            Err(error) => response is Err && response->Err_0@ == error,
        },
{
    match outcome {
        Ok(response) => Ok(response),
        Err(fault) => Err(DispatchError::EngineFault(fault)),
    }
}

/// The languages of a registry with their titles.
fn listing_of(registry: &KindRegistry) -> (entries: Vec<(String, String)>)
    ensures
        lists(entries@, registry@),
{
    let languages = registry.languages();
    let mut entries: Vec<(String, String)> = Vec::new();
    let mut i: usize = 0;
    while i < languages.len()
        invariant
            0 <= i <= languages.len(),
            entries@.len() == i,
            forall|k: int| 0 <= k < i ==> (#[trigger] entries@[k]).0@ == languages@[k]@,
            forall|k: int| 0 <= k < i ==> (#[trigger] entries@[k]).1@ == title_of(languages@[k]@),
        decreases languages.len() - i,
    {
        let code = languages[i].clone();
        let title = language_title(code.as_str());
        entries.push((code, title));
        i = i + 1;
    }
    proof {
        assert forall|language: Seq<char>| registry@.contains_key(language) implies exists|k: int|
            0 <= k < entries@.len() && (#[trigger] entries@[k]).0@ == language by {
            let k = choose|k: int| 0 <= k < languages@.len() && (#[trigger] languages@[k])@ == language;
            assert(entries@[k].0@ == language);
        }
        assert forall|a: int, b: int| 0 <= a < b < entries@.len() implies (#[trigger] entries@[a]).0@
            != (#[trigger] entries@[b]).0@ by {
            assert(languages@[a]@ != languages@[b]@);
        }
        assert forall|k: int| 0 <= k < entries@.len() implies registry@.contains_key(
            (#[trigger] entries@[k]).0@,
        ) && entries@[k].1@ == title_of(entries@[k].0@) by {
            assert(registry@.contains_key(languages@[k]@));
        }
    }
    entries
}

impl InnerState {
    /// Carries out a list of mutations in order and returns the workers
    /// they put out of service.
    pub fn apply_all(&mut self, mutations: Vec<Mutation>) -> (retired: Vec<WorkerId>)
        ensures
            final(self)@ == old(self)@.apply_all(mutation_views(mutations@)),
            retired@ == old(self)@.retired_all(mutation_views(mutations@)),
            final(self).config == old(self).config,
            old(self).language_functions.tagged() ==> final(self).language_functions.tagged(),
    {
        let ghost all = mutation_views(mutations@);
        let mut retired: Vec<WorkerId> = Vec::new();
        let mut rest = mutations;
        let mut done: Ghost<int> = Ghost(0);
        assert(all.take(0) =~= Seq::<MutationView>::empty());
        while rest.len() > 0
            invariant
                0 <= done@ <= all.len(),
                mutation_views(rest@) == all.skip(done@),
                self@ == old(self)@.apply_all(all.take(done@)),
                retired@ == old(self)@.retired_all(all.take(done@)),
                self.config == old(self).config,
                old(self).language_functions.tagged() ==> self.language_functions.tagged(),
            decreases rest.len(),
        {
            let ghost before = rest@;
            let mutation = rest.remove(0);
            proof {
                assert(mutation_views(before).len() == before.len());
                assert(all.skip(done@).len() == all.len() - done@);
                assert(mutation@ == mutation_views(before)[0]);
                assert(all.skip(done@)[0] == all[done@]);
                assert(mutation@ == all[done@]);
                assert forall|k: int| 0 <= k < rest@.len() implies mutation_views(rest@)[k]
                    == all.skip(done@ + 1)[k] by {
                    assert(rest@[k] == before[k + 1]);
                    assert(mutation_views(before)[k + 1] == all.skip(done@)[k + 1]);
                }
                assert(mutation_views(rest@) =~= all.skip(done@ + 1));
                assert(all.take(done@ + 1).drop_last() =~= all.take(done@));
                assert(all.take(done@ + 1).last() == all[done@]);
            }
            match self.apply(mutation) {
                Some(worker) => {
                    retired.push(worker);
                },
                None => {},
            }
            proof {
                done@ = done@ + 1;
            }
        }
        assert(all.take(done@) =~= all);
        retired
    }

    /// The worker to which a request of the kind for the language goes. A
    /// language that is not loaded gives `NoSuchLanguage` with its code.
    pub fn suggest(&self, kind: EngineKind, language: &str) -> (routed: Result<
        WorkerId,
        DispatchError,
    >)
        ensures
            match self@.route(kind, language@) {
                Ok(worker) => routed == Ok::<WorkerId, DispatchError>(worker),
                Err(error) => routed is Err && routed->Err_0@ == error,
            },
    {
        let found = match kind {
            EngineKind::Spelling => self.language_functions.spelling_suggestions.lookup(language),
            EngineKind::Grammar => self.language_functions.grammar_suggestions.lookup(language),
            EngineKind::Hyphenation => self.language_functions.hyphenation_suggestions.lookup(
                language,
            ),
        };
        match found {
            Some(worker) => Ok(worker),
            None => Err(DispatchError::NoSuchLanguage(kind, language.to_owned())),
        }
    }

    /// The preferences of a grammar language. A language that has no
    /// grammar worker gives `NoSuchLanguage`; one whose preferences are not
    /// cached at this moment gives none.
    pub fn preferences(&self, language: &str) -> (found: Result<Preferences, DispatchError>)
        ensures
            match self@.preferences_of(language@) {
                Ok(preferences) => found is Ok && found->Ok_0@ == preferences,
                Err(error) => found is Err && found->Err_0@ == error,
            },
    {
        match self.language_functions.grammar_suggestions.lookup(language) {
            None => Err(DispatchError::NoSuchLanguage(EngineKind::Grammar, language.to_owned())),
            Some(_) => match self.gramcheck_preferences.get(language) {
                Some(preferences) => Ok(copy_of(preferences)),
                None => Ok(Preferences::empty()),
            },
        }
    }

    /// The loaded languages with their titles, kind by kind. A kind with
    /// no loaded language is left out.
    pub fn available(&self) -> (listings: Vec<KindListing>)
        ensures
            forall|i: int|
                0 <= i < listings@.len() ==> lists(
                    (#[trigger] listings@[i]).languages@,
                    self@.registry(listings@[i].kind),
                ) && listings@[i].languages@.len() > 0,
            forall|i: int, j: int|
                0 <= i < j < listings@.len() ==> (#[trigger] listings@[i]).kind.rank() < (
                #[trigger] listings@[j]).kind.rank(),
            forall|kind: EngineKind, language: Seq<char>|
                self@.available().contains((kind, language)) ==> exists|i: int|
                    0 <= i < listings@.len() && (#[trigger] listings@[i]).kind == kind,
    {
        let mut listings: Vec<KindListing> = Vec::new();
        let spelling = listing_of(&self.language_functions.spelling_suggestions);
        if spelling.len() > 0 {
            listings.push(KindListing { kind: EngineKind::Spelling, languages: spelling });
        }
        let ghost after_spelling = listings@;
        let grammar = listing_of(&self.language_functions.grammar_suggestions);
        if grammar.len() > 0 {
            listings.push(KindListing { kind: EngineKind::Grammar, languages: grammar });
        }
        let ghost after_grammar = listings@;
        let hyphenation = listing_of(&self.language_functions.hyphenation_suggestions);
        if hyphenation.len() > 0 {
            listings.push(KindListing { kind: EngineKind::Hyphenation, languages: hyphenation });
        }
        proof {
            assert forall|kind: EngineKind, language: Seq<char>|
                self@.available().contains((kind, language)) implies exists|i: int|
                0 <= i < listings@.len() && (#[trigger] listings@[i]).kind == kind by {
                match kind {
                    EngineKind::Spelling => {
                        assert(spelling@.len() > 0);
                        assert(listings@[0].kind == kind);
                    },
                    EngineKind::Grammar => {
                        assert(grammar@.len() > 0);
                        assert(listings@[after_spelling.len() as int].kind == kind);
                    },
                    EngineKind::Hyphenation => {
                        assert(hyphenation@.len() > 0);
                        assert(listings@[after_grammar.len() as int].kind == kind);
                    },
                }
            }
        }
        listings
    }
}

/// A data file found at start, with what opening it gave.
#[derive(Debug)]
pub struct LoadedFile {
    pub file: DataFile,
    pub outcome: Result<Opened, OpenError>,
}

pub struct LoadedFileView {
    pub kind: EngineKind,
    pub language: Seq<char>,
    pub outcome: Result<OpenedView, OpenError>,
}

impl View for LoadedFile {
    type V = LoadedFileView;

    open spec fn view(&self) -> LoadedFileView {
        LoadedFileView {
            kind: self.file@.kind,
            language: self.file@.language,
            outcome: outcome_view(self.outcome),
        }
    }
}

/// The views of a list of loaded files, in order.
pub open spec fn loaded_views(files: Seq<LoadedFile>) -> Seq<LoadedFileView> {
    files.map_values(|file: LoadedFile| file@)
}

/// The workers of a kind after the files have been loaded in order: each
/// file of the kind that could be opened puts its worker under its
/// language, a later file in place of an earlier one.
pub open spec fn loaded_workers(files: Seq<LoadedFileView>, kind: EngineKind) -> Map<
    Seq<char>,
    WorkerId,
>
    decreases files.len(),
{
    if files.len() == 0 {
        Map::empty()
    } else {
        let earlier = loaded_workers(files.drop_last(), kind);
        let last = files.last();
        if last.kind == kind && last.outcome is Ok {
            earlier.insert(last.language, last.outcome->Ok_0.worker)
        } else {
            earlier
        }
    }
}

/// The workers of a kind that were put out of their place while the files
/// were loaded, in order.
pub open spec fn displaced_workers(files: Seq<LoadedFileView>, kind: EngineKind) -> Seq<WorkerId>
    decreases files.len(),
{
    if files.len() == 0 {
        Seq::empty()
    } else {
        let earlier = displaced_workers(files.drop_last(), kind);
        let registered = loaded_workers(files.drop_last(), kind);
        let last = files.last();
        if last.kind == kind && last.outcome is Ok && registered.contains_key(last.language) {
            earlier.push(registered[last.language])
        } else {
            earlier
        }
    }
}

/// The preferences cached after the files have been loaded in order:
/// those of each grammar file that could be opened, under its language.
pub open spec fn loaded_preferences(files: Seq<LoadedFileView>) -> Map<
    Seq<char>,
    Seq<(Seq<char>, Seq<char>)>,
>
    decreases files.len(),
{
    if files.len() == 0 {
        Map::empty()
    } else {
        let earlier = loaded_preferences(files.drop_last());
        let last = files.last();
        if last.kind == EngineKind::Grammar && last.outcome is Ok {
            earlier.insert(last.language, last.outcome->Ok_0.preferences)
        } else {
            earlier
        }
    }
}

/// The state with which the service starts, given the files found.
pub open spec fn loaded_state(files: Seq<LoadedFileView>) -> StateView {
    StateView {
        spelling: loaded_workers(files, EngineKind::Spelling),
        grammar: loaded_workers(files, EngineKind::Grammar),
        hyphenation: loaded_workers(files, EngineKind::Hyphenation),
        preferences: loaded_preferences(files),
    }
}

/// The state after the files have been opened one by one, each carried
/// out as the watcher carries out a file that has appeared.
pub open spec fn opened_in_turn(state: StateView, files: Seq<LoadedFileView>) -> StateView
    decreases files.len(),
{
    if files.len() == 0 {
        state
    } else {
        let last = files.last();
        carry_out(
            opened_in_turn(state, files.drop_last()),
            ActionView::Open { kind: last.kind, language: last.language },
            last.outcome,
        )
    }
}

/// The state at start is the one that the watcher would have reached from
/// the empty state, had the files appeared one after the other; and it is
/// coherent.
pub proof fn lemma_loaded_as_watched(files: Seq<LoadedFileView>)
    ensures
        loaded_state(files) == opened_in_turn(StateView::empty(), files),
        loaded_state(files).coherent(),
    decreases files.len(),
{
    if files.len() > 0 {
        let last = files.last();
        lemma_loaded_as_watched(files.drop_last());
        lemma_carry_out_effect(
            loaded_state(files.drop_last()),
            ActionView::Open { kind: last.kind, language: last.language },
            last.outcome,
        );
    }
}

/// The registry of a kind as the files found at start fill it, with the
/// workers that were displaced on the way.
fn get_workers(files: &Vec<LoadedFile>, kind: EngineKind) -> (loaded: (KindRegistry, Vec<WorkerId>))
    ensures
        loaded.0@ == loaded_workers(loaded_views(files@), kind),
        loaded.0.kind_of() == kind,
        loaded.1@ == displaced_workers(loaded_views(files@), kind),
{
    let ghost all = loaded_views(files@);
    let mut registry = KindRegistry::new(kind);
    let mut displaced: Vec<WorkerId> = Vec::new();
    let mut i: usize = 0;
    assert(all.take(0) =~= Seq::<LoadedFileView>::empty());
    while i < files.len()
        invariant
            0 <= i <= files.len(),
            all == loaded_views(files@),
            registry@ == loaded_workers(all.take(i as int), kind),
            registry.kind_of() == kind,
            displaced@ == displaced_workers(all.take(i as int), kind),
        decreases files.len() - i,
    {
        proof {
            assert(all.take(i + 1).drop_last() =~= all.take(i as int));
            assert(all.take(i + 1).last() == files@[i as int]@);
        }
        let file = &files[i];
        if file.file.kind() == kind {
            match &file.outcome {
                Ok(opened) => {
                    match registry.add(file.file.language(), opened.worker) {
                        Some(worker) => {
                            displaced.push(worker);
                        },
                        None => {},
                    }
                },
                Err(_) => {},
            }
        }
        i = i + 1;
    }
    assert(all.take(files.len() as int) =~= all);
    (registry, displaced)
}

/// The spellers found at start, by language.
pub fn get_speller(files: &Vec<LoadedFile>) -> (loaded: (KindRegistry, Vec<WorkerId>))
    ensures
        loaded.0@ == loaded_workers(loaded_views(files@), EngineKind::Spelling),
        loaded.0.kind_of() == EngineKind::Spelling,
        loaded.1@ == displaced_workers(loaded_views(files@), EngineKind::Spelling),
{
    get_workers(files, EngineKind::Spelling)
}

/// The grammar checkers found at start, by language.
pub fn get_gramchecker(files: &Vec<LoadedFile>) -> (loaded: (KindRegistry, Vec<WorkerId>))
    ensures
        loaded.0@ == loaded_workers(loaded_views(files@), EngineKind::Grammar),
        loaded.0.kind_of() == EngineKind::Grammar,
        loaded.1@ == displaced_workers(loaded_views(files@), EngineKind::Grammar),
{
    get_workers(files, EngineKind::Grammar)
}

/// The hyphenators found at start, by language.
pub fn get_hyphenation(files: &Vec<LoadedFile>) -> (loaded: (KindRegistry, Vec<WorkerId>))
    ensures
        loaded.0@ == loaded_workers(loaded_views(files@), EngineKind::Hyphenation),
        loaded.0.kind_of() == EngineKind::Hyphenation,
        loaded.1@ == displaced_workers(loaded_views(files@), EngineKind::Hyphenation),
{
    get_workers(files, EngineKind::Hyphenation)
}

/// The preferences of the grammar checkers found at start, by language.
pub fn get_gramcheck_preferences(files: &Vec<LoadedFile>) -> (cache: PreferencesCache)
    ensures
        cache@ == loaded_preferences(loaded_views(files@)),
{
    let ghost all = loaded_views(files@);
    let mut cache = PreferencesCache::new();
    let mut i: usize = 0;
    assert(all.take(0) =~= Seq::<LoadedFileView>::empty());
    while i < files.len()
        invariant
            0 <= i <= files.len(),
            all == loaded_views(files@),
            cache@ == loaded_preferences(all.take(i as int)),
        decreases files.len() - i,
    {
        proof {
            assert(all.take(i + 1).drop_last() =~= all.take(i as int));
            assert(all.take(i + 1).last() == files@[i as int]@);
        }
        let file = &files[i];
        if file.file.kind() == EngineKind::Grammar {
            match &file.outcome {
                Ok(opened) => {
                    cache.insert(file.file.language(), copy_of(&opened.preferences));
                },
                Err(_) => {},
            }
        }
        i = i + 1;
    }
    assert(all.take(files.len() as int) =~= all);
    cache
}

/// The state with which the service starts: the registries and the cache
/// filled from the data files found, each with what opening it gave. A
/// file that could not be opened is passed over. The workers displaced on
/// the way are returned, to be shut down.
pub fn create_state(config: Config, files: &Vec<LoadedFile>) -> (started: (
    InnerState,
    Vec<WorkerId>,
))
    ensures
        started.0@ == loaded_state(loaded_views(files@)),
        started.0@.coherent(),
        started.0.language_functions.tagged(),
        started.0.config == config,
        started.1@ == displaced_workers(loaded_views(files@), EngineKind::Spelling)
            + displaced_workers(loaded_views(files@), EngineKind::Grammar) + displaced_workers(
            loaded_views(files@),
            EngineKind::Hyphenation,
        ),
{
    let (spelling, mut displaced) = get_speller(files);
    let (grammar, mut displaced_grammar) = get_gramchecker(files);
    let (hyphenation, mut displaced_hyphenation) = get_hyphenation(files);
    displaced.append(&mut displaced_grammar);
    displaced.append(&mut displaced_hyphenation);
    proof {
        lemma_loaded_as_watched(loaded_views(files@));
    }
    let state = InnerState {
        config,
        language_functions: LanguageFunctions {
            spelling_suggestions: spelling,
            grammar_suggestions: grammar,
            hyphenation_suggestions: hyphenation,
        },
        gramcheck_preferences: get_gramcheck_preferences(files),
    };
    (state, displaced)
}

} // verus!
