//! The watcher of the data directory: what each file event does to the
//! registries and to the preferences cache.
use crate::data_files::{classify, classify_by_name, classify_file, classify_name,
    get_typed_data_dir, joined, DataFile, EngineKind, PathKind};
use crate::error::OpenError;
use crate::preferences::Preferences;
use crate::registry::WorkerId;
use crate::server::state::{mutation_views, Config, InnerState, Mutation, MutationView, StateView};
use vstd::prelude::*;

verus! {

/// What the directory watch reports, whatever happened in between settled.
#[derive(Debug)]
pub enum FileEvent {
    /// A file has appeared.
    Create { path: String, on_disk: PathKind },
    /// A file has been written to.
    Write { path: String, on_disk: PathKind },
    /// A file is gone.
    Remove { path: String },
    /// Anything else, which the watcher only notes.
    Other,
}

pub enum FileEventView {
    Create { path: Seq<char>, on_disk: PathKind },
    Write { path: Seq<char>, on_disk: PathKind },
    Remove { path: Seq<char> },
    Other,
}

impl View for FileEvent {
    type V = FileEventView;

    open spec fn view(&self) -> FileEventView {
        match self {
            FileEvent::Create { path, on_disk } => FileEventView::Create {
                path: path@,
                on_disk: *on_disk,
            },
            FileEvent::Write { path, on_disk } => FileEventView::Write {
                path: path@,
                on_disk: *on_disk,
            },
            FileEvent::Remove { path } => FileEventView::Remove { path: path@ },
            FileEvent::Other => FileEventView::Other,
        }
    }
}

/// What is to be done about a file event before the registries change.
#[derive(Debug)]
pub enum Action {
    /// Nothing: the event concerns no data file.
    Ignore,
    /// Open an engine from the file; what comes of it decides the rest.
    Open(DataFile),
    /// Take the language of the file out of service.
    Close(DataFile),
}

pub enum ActionView {
    Ignore,
    Open { kind: EngineKind, language: Seq<char> },
    Close { kind: EngineKind, language: Seq<char> },
}

impl View for Action {
    type V = ActionView;

    open spec fn view(&self) -> ActionView {
        match self {
            Action::Ignore => ActionView::Ignore,
            Action::Open(file) => ActionView::Open { kind: file@.kind, language: file@.language },
            Action::Close(file) => ActionView::Close { kind: file@.kind, language: file@.language },
        }
    }
}

/// What opening a data file gave: the worker that now owns the engine,
/// and, for a grammar checker, the preferences it lists.
#[derive(Debug)]
pub struct Opened {
    pub worker: WorkerId,
    pub preferences: Preferences,
}

pub struct OpenedView {
    pub worker: WorkerId,
    pub preferences: Seq<(Seq<char>, Seq<char>)>,
}

impl View for Opened {
    type V = OpenedView;

    open spec fn view(&self) -> OpenedView {
        OpenedView { worker: self.worker, preferences: self.preferences@ }
    }
}

/// The view of what an attempt to open a file gave.
pub open spec fn outcome_view(outcome: Result<Opened, OpenError>) -> Result<OpenedView, OpenError> {
    match outcome {
        Ok(opened) => Ok(opened@),
        Err(error) => Err(error),
    }
}

/// The action a file event calls for. A file that appeared or was written
/// is opened if a look at the disk and its name make it a data file; a file
/// that is gone is judged by its name alone.
pub open spec fn action_for(event: FileEventView) -> ActionView {
    match event {
        FileEventView::Create { path, on_disk } => match classify(path, on_disk) {
            Some((kind, language)) => ActionView::Open { kind, language },
            None => ActionView::Ignore,
        },
        FileEventView::Write { path, on_disk } => match classify(path, on_disk) {
            Some((kind, language)) => ActionView::Open { kind, language },
            None => ActionView::Ignore,
        },
        FileEventView::Remove { path } => match classify_name(path) {
            Some((kind, language)) => ActionView::Close { kind, language },
            None => ActionView::Ignore,
        },
        FileEventView::Other => ActionView::Ignore,
    }
}

/// The mutations that carry an action out, in the order in which they are
/// applied. For a grammar file the registry changes first and the cache
/// second when a worker is installed, the cache first and the registry
/// second when one is removed. A file that could not be opened changes
/// nothing.
pub open spec fn mutations_for(action: ActionView, outcome: Result<OpenedView, OpenError>) -> Seq<
    MutationView,
> {
    match action {
        ActionView::Ignore => Seq::empty(),
        ActionView::Open { kind, language } => match outcome {
            Ok(opened) => if kind == EngineKind::Grammar {
                seq![
                    MutationView::InstallWorker { kind, language, worker: opened.worker },
                    MutationView::StorePreferences { language, preferences: opened.preferences },
                ]
            } else {
                seq![MutationView::InstallWorker { kind, language, worker: opened.worker }]
            },
            Err(_) => Seq::empty(),
        },
        ActionView::Close { kind, language } => if kind == EngineKind::Grammar {
            seq![
                MutationView::ClearPreferences { language },
                MutationView::RemoveWorker { kind, language },
            ]
        } else {
            seq![MutationView::RemoveWorker { kind, language }]
        },
    }
}

/// The state after an action has been carried out.
pub open spec fn carry_out(
    state: StateView,
    action: ActionView,
    outcome: Result<OpenedView, OpenError>,
) -> StateView {
    state.apply_all(mutations_for(action, outcome))
}

/// The state after a file event, given what opening the file gave.
pub open spec fn step(
    state: StateView,
    event: FileEventView,
    outcome: Result<OpenedView, OpenError>,
) -> StateView {
    carry_out(state, action_for(event), outcome)
}

/// The workers that a file event puts out of service.
pub open spec fn retired_by(
    state: StateView,
    event: FileEventView,
    outcome: Result<OpenedView, OpenError>,
) -> Seq<WorkerId> {
    state.retired_all(mutations_for(action_for(event), outcome))
}

/// The state after a file event, said directly. A data file that was
/// opened has its worker registered under its language, and, if it is a
/// grammar file, its preferences cached; a data file that is gone has its
/// language taken out of both; every other event, and a file that could not
/// be opened, leaves the state as it was. Nothing else changes.
pub open spec fn effect_of(
    state: StateView,
    action: ActionView,
    outcome: Result<OpenedView, OpenError>,
) -> StateView {
    match action {
        ActionView::Ignore => state,
        ActionView::Open { kind, language } => match outcome {
            Ok(opened) => StateView {
                preferences: if kind == EngineKind::Grammar {
                    state.preferences.insert(language, opened.preferences)
                } else {
                    state.preferences
                },
                ..state.with_registry(kind, state.registry(kind).insert(language, opened.worker))
            },
            Err(_) => state,
        },
        ActionView::Close { kind, language } => StateView {
            preferences: if kind == EngineKind::Grammar {
                state.preferences.remove(language)
            } else {
                state.preferences
            },
            ..state.with_registry(kind, state.registry(kind).remove(language))
        },
    }
}

/// Carrying an action out, mutation by mutation, has the effect that
/// `effect_of` states.
pub proof fn lemma_carry_out_effect(
    state: StateView,
    action: ActionView,
    outcome: Result<OpenedView, OpenError>,
)
    ensures
        carry_out(state, action, outcome) == effect_of(state, action, outcome),
{
    lemma_apply_short(state, mutations_for(action, outcome));
}

/// A file event has the effect that `effect_of` states of its action.
pub proof fn lemma_step_effect(
    state: StateView,
    event: FileEventView,
    outcome: Result<OpenedView, OpenError>,
)
    ensures
        step(state, event, outcome) == effect_of(state, action_for(event), outcome),
{
    lemma_carry_out_effect(state, action_for(event), outcome);
}

/// What a list of at most two mutations does.
proof fn lemma_apply_short(state: StateView, mutations: Seq<MutationView>)
    requires
        mutations.len() <= 2,
    ensures
        mutations.len() == 0 ==> state.apply_all(mutations) == state,
        mutations.len() == 1 ==> state.apply_all(mutations) == state.apply(mutations[0]),
        mutations.len() == 2 ==> state.apply_all(mutations) == state.apply(mutations[0]).apply(
            mutations[1],
        ),
        mutations.len() == 0 ==> state.retired_all(mutations) == Seq::<WorkerId>::empty(),
        mutations.len() == 1 ==> state.retired_all(mutations) == (match state.retired(
            mutations[0],
        ) {
            Some(worker) => seq![worker],
            None => Seq::<WorkerId>::empty(),
        }),
{
    if mutations.len() >= 1 {
        let front = mutations.drop_last();
        assert(front.len() == mutations.len() - 1);
        if front.len() == 1 {
            assert(front.drop_last().len() == 0);
            assert(front.last() == mutations[0]);
            assert(state.apply_all(front.drop_last()) == state);
            assert(state.apply_all(front) == state.apply(mutations[0]));
        } else {
            assert(state.apply_all(front) == state);
            assert(state.retired_all(front) =~= Seq::<WorkerId>::empty());
        }
        if mutations.len() == 1 {
            match state.retired(mutations[0]) {
                Some(worker) => {
                    assert(state.retired_all(mutations) =~= seq![worker]);
                },
                None => {},
            }
        }
    }
}

/// A file event keeps the cache in step with the grammar registry: from
/// a coherent state it leads to a coherent state, and between its two
/// mutations preferences are cached for no language without a worker.
pub proof fn lemma_step_keeps_coherence(
    state: StateView,
    event: FileEventView,
    outcome: Result<OpenedView, OpenError>,
)
    requires
        state.coherent(),
    ensures
        step(state, event, outcome).coherent(),
        forall|n: int|
            0 <= n <= mutations_for(action_for(event), outcome).len() ==> (
            #[trigger] state.apply_all(
                mutations_for(action_for(event), outcome).take(n),
            )).guarded(),
{
    let mutations = mutations_for(action_for(event), outcome);
    lemma_apply_short(state, mutations);
    lemma_step_effect(state, event, outcome);
    assert forall|n: int| 0 <= n <= mutations.len() implies (#[trigger] state.apply_all(
        mutations.take(n),
    )).guarded() by {
        let prefix = mutations.take(n);
        lemma_apply_short(state, prefix);
        if n == mutations.len() {
            assert(prefix =~= mutations);
        } else if n == 1 {
            assert(prefix[0] == mutations[0]);
        }
    }
}

/// A list of file events, each with what opening its file gave.
pub type Happenings = Seq<(FileEventView, Result<OpenedView, OpenError>)>;

/// The state after a list of file events, carried out in order.
pub open spec fn run(state: StateView, happenings: Happenings) -> StateView
    decreases happenings.len(),
{
    if happenings.len() == 0 {
        state
    } else {
        step(run(state, happenings.drop_last()), happenings.last().0, happenings.last().1)
    }
}

/// The event is about the data file of the kind and language, and, where
/// it asks for the file to be opened, opening has succeeded.
pub open spec fn concerns(
    happening: (FileEventView, Result<OpenedView, OpenError>),
    kind: EngineKind,
    language: Seq<char>,
) -> bool {
    match action_for(happening.0) {
        ActionView::Ignore => false,
        ActionView::Open { kind: k, language: l } => k == kind && l == language
            && happening.1 is Ok,
        ActionView::Close { kind: k, language: l } => k == kind && l == language,
    }
}

/// After any run of events about one data file, each of which could be
/// carried out, the language is available exactly if the file is there at
/// the end, that is if the last event was not its removal. What came before
/// does not matter, and no other language is touched.
pub proof fn lemma_last_event_decides(
    state: StateView,
    happenings: Happenings,
    kind: EngineKind,
    language: Seq<char>,
)
    requires
        happenings.len() > 0,
        forall|i: int| 0 <= i < happenings.len() ==> concerns(#[trigger] happenings[i], kind, language),
    ensures
        run(state, happenings).available().contains((kind, language)) == (action_for(
            happenings.last().0,
        ) is Open),
        forall|k: EngineKind, l: Seq<char>|
            (k, l) != (kind, language) ==> (#[trigger] run(state, happenings).available().contains(
                (k, l),
            )) == state.available().contains((k, l)),
        state.coherent() ==> run(state, happenings).coherent(),
    decreases happenings.len(),
{
    let earlier = happenings.drop_last();
    let before = run(state, earlier);
    let last = happenings.last();
    assert(concerns(last, kind, language));
    lemma_step_effect(before, last.0, last.1);
    if earlier.len() > 0 {
        assert forall|i: int| 0 <= i < earlier.len() implies concerns(
            #[trigger] earlier[i],
            kind,
            language,
        ) by {
            assert(earlier[i] == happenings[i]);
        }
        lemma_last_event_decides(state, earlier, kind, language);
    }
    if state.coherent() {
        lemma_step_keeps_coherence(before, last.0, last.1);
    }
    assert forall|k: EngineKind, l: Seq<char>| (k, l) != (kind, language) implies (
    #[trigger] run(state, happenings).available().contains((k, l)))
        == state.available().contains((k, l)) by {
        assert(before.available().contains((k, l)) == state.available().contains((k, l)));
    }
}

/// A file that appears, goes and appears again is served again, by the
/// worker opened last; the worker opened first is handed back for shutdown
/// when the file goes, and nothing is handed back when it returns.
pub proof fn lemma_create_remove_create(
    state: StateView,
    path: Seq<char>,
    first: OpenedView,
    second: OpenedView,
)
    requires
        classify_name(path) is Some,
    ensures
        ({
            let (kind, language) = classify_name(path)->Some_0;
            let created = FileEventView::Create { path, on_disk: PathKind::File };
            let removed = FileEventView::Remove { path };
            let one = step(state, created, Ok(first));
            let two = step(one, removed, Err(OpenError::Io));
            let three = step(two, created, Ok(second));
            &&& one.route(kind, language) == Ok::<WorkerId, crate::error::DispatchErrorView>(
                first.worker,
            )
            &&& two.route(kind, language) is Err
            &&& retired_by(one, removed, Err(OpenError::Io)) == seq![first.worker]
            &&& three.route(kind, language) == Ok::<WorkerId, crate::error::DispatchErrorView>(
                second.worker,
            )
            &&& retired_by(two, created, Ok(second)) == Seq::<WorkerId>::empty()
        }),
{
    let (kind, language) = classify_name(path)->Some_0;
    let created = FileEventView::Create { path, on_disk: PathKind::File };
    let removed = FileEventView::Remove { path };
    let one = step(state, created, Ok(first));
    let two = step(one, removed, Err(OpenError::Io));
    lemma_step_effect(state, created, Ok(first));
    lemma_step_effect(one, removed, Err(OpenError::Io));
    lemma_step_effect(two, created, Ok(second));
    lemma_retired(one, removed, Err(OpenError::Io));
    lemma_retired(two, created, Ok(second));
}

/// The workers that a file event puts out of service, said directly: the
/// worker that served the language of an opened or removed data file, if
/// there was one, and no other.
pub proof fn lemma_retired(
    state: StateView,
    event: FileEventView,
    outcome: Result<OpenedView, OpenError>,
)
    ensures
        retired_by(state, event, outcome) == (match action_for(event) {
            ActionView::Ignore => Seq::<WorkerId>::empty(),
            ActionView::Open { kind, language } => if outcome is Ok && state.registry(
                kind,
            ).contains_key(language) {
                seq![state.registry(kind)[language]]
            } else {
                Seq::<WorkerId>::empty()
            },
            ActionView::Close { kind, language } => if state.registry(kind).contains_key(language) {
                seq![state.registry(kind)[language]]
            } else {
                Seq::<WorkerId>::empty()
            },
        }),
{
    let mutations = mutations_for(action_for(event), outcome);
    lemma_apply_short(state, mutations);
    if mutations.len() == 2 {
        let front = mutations.drop_last();
        assert(front.len() == 1);
        assert(front[0] == mutations[0]);
        assert(mutations.last() == mutations[1]);
        lemma_apply_short(state, front);
        let middle = state.apply_all(front);
        assert(middle == state.apply(mutations[0]));
        match action_for(event) {
            ActionView::Open { kind, language } => {
                assert(middle.retired(mutations[1]) is None);
            },
            ActionView::Close { kind, language } => {
                assert(state.retired(mutations[0]) is None);
                assert(state.retired_all(front) =~= Seq::<WorkerId>::empty());
                assert(middle.registry(kind) == state.registry(kind));
                match middle.retired(mutations[1]) {
                    Some(worker) => {
                        assert(state.retired_all(mutations) =~= seq![worker]);
                    },
                    None => {},
                }
            },
            _ => {},
        }
    }
}

/// The watcher of the data directory. It holds nothing itself: it
/// decides what each event does to the state it is handed.
pub struct Watcher;

impl Watcher {
    /// The directories to watch, each for itself and not what lies below
    /// it: that of the grammar files, that of the spelling files and that of
    /// the hyphenation files, in this order.
    pub fn watched_dirs(config: &Config) -> (dirs: Vec<(EngineKind, String)>)
        ensures
            dirs@.len() == 3,
            dirs@[0].0 == EngineKind::Grammar,
            dirs@[1].0 == EngineKind::Spelling,
            dirs@[2].0 == EngineKind::Hyphenation,
            forall|i: int|
                0 <= i < 3 ==> (#[trigger] dirs@[i]).1@ == joined(
                    config.data_file_dir@,
                    dirs@[i].0.dir(),
                ),
    {
        let root = config.data_file_dir.as_str();
        let mut dirs: Vec<(EngineKind, String)> = Vec::new();
        dirs.push((EngineKind::Grammar, get_typed_data_dir(root, EngineKind::Grammar)));
        dirs.push((EngineKind::Spelling, get_typed_data_dir(root, EngineKind::Spelling)));
        dirs.push((EngineKind::Hyphenation, get_typed_data_dir(root, EngineKind::Hyphenation)));
        dirs
    }

    /// Decides what a file event calls for.
    pub fn plan(event: &FileEvent) -> (action: Action)
        ensures
            action@ == action_for(event@),
    {
        match event {
            FileEvent::Create { path, on_disk } => match classify_file(path.as_str(), *on_disk) {
                Some(file) => Action::Open(file),
                None => Action::Ignore,
            },
            FileEvent::Write { path, on_disk } => match classify_file(path.as_str(), *on_disk) {
                Some(file) => Action::Open(file),
                None => Action::Ignore,
            },
            FileEvent::Remove { path } => match classify_by_name(path.as_str()) {
                Some(file) => Action::Close(file),
                None => Action::Ignore,
            },
            FileEvent::Other => Action::Ignore,
        }
    }

    /// The mutations that carry an action out, in order. What opening the
    /// file gave is looked at only where the action is to open one.
    pub fn mutations(action: &Action, outcome: Result<Opened, OpenError>) -> (mutations: Vec<
        Mutation,
    >)
        ensures
            mutation_views(mutations@) == mutations_for(action@, outcome_view(outcome)),
    {
        let mut mutations: Vec<Mutation> = Vec::new();
        match action {
            Action::Ignore => {},
            Action::Open(file) => match outcome {
                Ok(opened) => {
                    let kind = file.kind();
                    mutations.push(
                        Mutation::InstallWorker {
                            kind,
                            language: file.language().to_owned(),
                            worker: opened.worker,
                        },
                    );
                    if kind == EngineKind::Grammar {
                        mutations.push(
                            Mutation::StorePreferences {
                                language: file.language().to_owned(),
                                preferences: opened.preferences,
                            },
                        );
                    }
                },
                Err(_) => {},
            },
            Action::Close(file) => {
                let kind = file.kind();
                if kind == EngineKind::Grammar {
                    mutations.push(
                        Mutation::ClearPreferences { language: file.language().to_owned() },
                    );
                }
                mutations.push(Mutation::RemoveWorker { kind, language: file.language().to_owned() });
            },
        }
        assert(mutation_views(mutations@) =~= mutations_for(action@, outcome_view(outcome)));
        mutations
    }

    /// Carries a file event out on the state: decides the action, turns it
    /// and what opening the file gave into mutations, and applies them in
    /// order. The workers put out of service are returned, to be shut down.
    pub fn handle(state: &mut InnerState, event: &FileEvent, outcome: Result<
        Opened,
        OpenError,
    >) -> (retired: Vec<WorkerId>)
        ensures
            final(state)@ == step(old(state)@, event@, outcome_view(outcome)),
            retired@ == retired_by(old(state)@, event@, outcome_view(outcome)),
            final(state).config == old(state).config,
            old(state).language_functions.tagged() ==> final(state).language_functions.tagged(),
    {
        let action = Watcher::plan(event);
        let mutations = Watcher::mutations(&action, outcome);
        state.apply_all(mutations)
    }
}

} // verus!
