//! The worker of one language: the requests waiting for its engine, and
//! the order in which the serving thread takes them.
use crate::data_files::EngineKind;
use crate::error::{DispatchError, OpenError, WorkerError};
use vstd::prelude::*;

verus! {

/// A request for suggestions on a text.
#[derive(Debug)]
pub struct SuggestRequest {
    pub text: String,
}

impl SuggestRequest {
    /// The request that a client's message makes. A message without a text
    /// is an input error.
    pub fn new(text: Option<String>) -> (request: Result<SuggestRequest, DispatchError>)
        ensures
            match text {
                Some(given) => request is Ok && request->Ok_0.text == given,
                None => request is Err && request->Err_0 is InputError,
            },
    {
        match text {
            Some(text) => Ok(SuggestRequest { text }),
            None => Err(DispatchError::InputError),
        }
    }
}

/// What the serving thread hands back for a request: the engine's result,
/// or an engine fault in place of whatever the native layer reported.
pub fn engine_outcome<R, E>(native: Result<R, E>) -> (worked: Result<R, WorkerError>)
    ensures
        match native {
            Ok(response) => worked == Ok::<R, WorkerError>(response),
            Err(_) => worked == Err::<R, WorkerError>(WorkerError::EngineFault),
        },
{
    match native {
        Ok(response) => Ok(response),
        Err(_) => Err(WorkerError::EngineFault),
    }
}

/// The queue of one worker. Requests get a ticket when they are taken in,
/// and leave in the order in which they came. The queue holds a bounded
/// number of requests; a request that finds it full is turned away as busy.
pub struct EngineWorker {
    kind: EngineKind,
    path: String,
    pending: Vec<(u64, SuggestRequest)>,
    issued: u64,
    limit: usize,
    closed: bool,
}

pub struct WorkerView {
    pub kind: EngineKind,
    pub path: Seq<char>,
    /// The waiting requests, oldest first, each with its ticket.
    pub pending: Seq<(u64, Seq<char>)>,
    /// The number of tickets given out so far.
    pub issued: nat,
    /// The number of requests that may wait at a time.
    pub limit: nat,
    /// Whether the worker has been shut down.
    pub closed: bool,
}

impl WorkerView {
    /// What becomes of a request handed to the worker.
    pub open spec fn admits(self) -> Result<u64, WorkerError> {
        if self.closed {
            Err(WorkerError::Closed)
        } else if self.pending.len() >= self.limit || self.issued >= u64::MAX {
            Err(WorkerError::Busy)
        } else {
            Ok(self.issued as u64)
        }
    }

    /// The worker after a request has been handed to it: the request is
    /// put last, with the next ticket, if it is admitted.
    pub open spec fn submitted(self, text: Seq<char>) -> WorkerView {
        match self.admits() {
            Ok(ticket) => WorkerView {
                pending: self.pending.push((ticket, text)),
                issued: self.issued + 1,
                ..self
            },
            Err(_) => self,
        }
    }

    /// The worker after the serving thread has taken a request: the
    /// oldest one is gone.
    pub open spec fn taken(self) -> WorkerView {
        if self.pending.len() > 0 {
            WorkerView { pending: self.pending.drop_first(), ..self }
        } else {
            self
        }
    }

    /// The worker after the serving thread has taken `n` requests.
    pub open spec fn taken_times(self, n: nat) -> WorkerView
        decreases n,
    {
        if n == 0 {
            self
        } else {
            self.taken().taken_times((n - 1) as nat)
        }
    }

    /// The worker is shut down and no request waits: the serving thread
    /// ends and the engine is dropped.
    pub open spec fn finished(self) -> bool {
        self.closed && self.pending.len() == 0
    }
}

impl View for EngineWorker {
    type V = WorkerView;

    closed spec fn view(&self) -> WorkerView {
        WorkerView {
            kind: self.kind,
            path: self.path@,
            pending: self.pending@.map_values(
                |entry: (u64, SuggestRequest)| (entry.0, entry.1.text@),
            ),
            issued: self.issued as nat,
            limit: self.limit as nat,
            closed: self.closed,
        }
    }
}

impl EngineWorker {
    /// The worker for an engine of the kind that was loaded from the path.
    /// Where loading failed, there is no worker, and the failure is handed
    /// back.
    pub fn open(kind: EngineKind, path: &str, loaded: Result<(), OpenError>, limit: usize) -> (worker:
        Result<EngineWorker, OpenError>)
        ensures
            match loaded {
                Ok(_) => worker is Ok && worker->Ok_0@ == (WorkerView {
                    kind,
                    path: path@,
                    pending: Seq::empty(),
                    issued: 0,
                    limit: limit as nat,
                    closed: false,
                }),
                Err(error) => worker is Err && worker->Err_0 == error,
            },
    {
        match loaded {
            Ok(_) => {
                let worker = EngineWorker {
                    kind,
                    path: path.to_owned(),
                    pending: Vec::new(),
                    issued: 0,
                    limit,
                    closed: false,
                };
                assert(worker@.pending =~= Seq::empty());
                Ok(worker)
            },
            Err(error) => Err(error),
        }
    }

    /// Hands a request to the worker. It is put last in the queue and its
    /// ticket is returned; a worker that is shut down answers `Closed`, one
    /// whose queue is full `Busy`, and neither takes the request in.
    pub fn submit(&mut self, request: SuggestRequest) -> (ticket: Result<u64, WorkerError>)
        ensures
            ticket == old(self)@.admits(),
            final(self)@ == old(self)@.submitted(request.text@),
    {
        if self.closed {
            return Err(WorkerError::Closed);
        }
        if self.pending.len() >= self.limit || self.issued == u64::MAX {
            return Err(WorkerError::Busy);
        }
        let ticket = self.issued;
        let ghost before = self@;
        let ghost text = request.text@;
        self.pending.push((ticket, request));
        self.issued = ticket + 1;
        assert(self@.pending =~= before.pending.push((ticket, text)));
        Ok(ticket)
    }

    /// Takes the oldest waiting request, with its ticket, for the serving
    /// thread to work on. There is none where nothing waits.
    pub fn next(&mut self) -> (job: Option<(u64, SuggestRequest)>)
        ensures
            final(self)@ == old(self)@.taken(),
            match job {
                Some((ticket, request)) => old(self)@.pending.len() > 0 && (ticket, request.text@)
                    == old(self)@.pending[0],
                None => old(self)@.pending.len() == 0,
            },
    {
        if self.pending.len() == 0 {
            return None;
        }
        let ghost before = self@;
        let job = self.pending.remove(0);
        assert(self@.pending =~= before.pending.drop_first());
        Some(job)
    }

    /// Shuts the worker down: it takes no further request in, and those
    /// that wait are still served.
    pub fn shutdown(&mut self)
        ensures
            final(self)@ == (WorkerView { closed: true, ..old(self)@ }),
    {
        self.closed = true;
    }

    /// Whether the serving thread is to end: the worker is shut down and
    /// nothing waits.
    pub fn is_finished(&self) -> (finished: bool)
        ensures
            finished == self@.finished(),
    {
        self.closed && self.pending.len() == 0
    }

    pub fn kind(&self) -> (kind: EngineKind)
        ensures
            kind == self@.kind,
    {
        self.kind
    }

    pub fn path(&self) -> (path: &str)
        ensures
            path@ == self@.path,
    {
        self.path.as_str()
    }
}

/// Requests are served in the order in which they were handed in: two
/// requests that a worker admits one after the other wait behind those
/// that waited before, the first before the second and with the smaller
/// ticket, and once the earlier ones are taken, they are taken in that
/// order.
pub proof fn lemma_first_in_first_out(worker: WorkerView, first: Seq<char>, second: Seq<char>)
    requires
        worker.admits() is Ok,
        worker.submitted(first).admits() is Ok,
    ensures
        ({
            let both = worker.submitted(first).submitted(second);
            let waiting = worker.pending.len();
            &&& both.pending == worker.pending.push((worker.admits()->Ok_0, first)).push(
                (worker.submitted(first).admits()->Ok_0, second),
            )
            &&& worker.admits()->Ok_0 < worker.submitted(first).admits()->Ok_0
            &&& both.taken_times(waiting).pending.len() == 2
            &&& both.taken_times(waiting).pending[0].1 == first
            &&& both.taken_times(waiting).taken().pending[0].1 == second
        }),
{
    let both = worker.submitted(first).submitted(second);
    lemma_taken_times(both, worker.pending.len());
    let rest = both.taken_times(worker.pending.len());
    assert(rest.pending =~= both.pending.skip(worker.pending.len() as int));
}

/// Taking `n` of the waiting requests leaves those behind the first `n`.
pub proof fn lemma_taken_times(worker: WorkerView, n: nat)
    requires
        n <= worker.pending.len(),
    ensures
        worker.taken_times(n) == (WorkerView { pending: worker.pending.skip(n as int), ..worker }),
    decreases n,
{
    if n == 0 {
        assert(worker.pending.skip(0) =~= worker.pending);
    } else {
        lemma_taken_times(worker.taken(), (n - 1) as nat);
        assert(worker.taken().pending.skip(n - 1) =~= worker.pending.skip(n as int));
    }
}

} // verus!
