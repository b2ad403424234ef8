//! How a log server serves its requests.
//!
//! There is one stream of requests per message type. The [`Selection`] says in which order the
//! streams are polled, so that the types keep their priority. The [`RequestPump`] says what is to
//! be done next: it hands each request to the worker of its loglet, which is started on demand,
//! answers the requests that a worker refuses, and winds up on shutdown.
use std::collections::HashMap;

use vstd::prelude::*;

verus! {

pub const DEFAULT_WRITERS_CAPACITY: usize = 128;

/// The message types that a log server takes.
#[derive(Clone, Copy, Debug, PartialEq, Eq, Structural)]
pub enum RequestKind {
    GetDigest,
    WaitForTail,
    Release,
    Seal,
    GetLogletInfo,
    GetRecords,
    Trim,
    Store,
}

/// What the pump waits for.
#[derive(Clone, Copy, Debug, PartialEq, Eq, Structural)]
pub enum Source {
    /// The server is told to stop.
    Shutdown,
    /// A request of this type arrives.
    Requests(RequestKind),
}

impl Source {
    /// The place of a source in the order of priority; smaller goes first.
    pub open spec fn rank(self) -> int {
        match self {
            Source::Shutdown => 0,
            Source::Requests(RequestKind::GetDigest) => 1,
            Source::Requests(RequestKind::WaitForTail) => 2,
            Source::Requests(RequestKind::Release) => 3,
            Source::Requests(RequestKind::Seal) => 4,
            Source::Requests(RequestKind::GetLogletInfo) => 5,
            Source::Requests(RequestKind::GetRecords) => 6,
            Source::Requests(RequestKind::Trim) => 7,
            Source::Requests(RequestKind::Store) => 8,
        }
    }

    /// The source behind this one in the order of priority.
    pub fn next(self) -> (r: Option<Source>)
        ensures
            match r {
                Some(source) => source.rank() == self.rank() + 1,
                None => forall|source: Source| #[trigger] source.rank() <= self.rank(),
            },
    {
        match self {
            Source::Shutdown => Some(Source::Requests(RequestKind::GetDigest)),
            Source::Requests(kind) => match kind {
                RequestKind::GetDigest => Some(Source::Requests(RequestKind::WaitForTail)),
                RequestKind::WaitForTail => Some(Source::Requests(RequestKind::Release)),
                RequestKind::Release => Some(Source::Requests(RequestKind::Seal)),
                RequestKind::Seal => Some(Source::Requests(RequestKind::GetLogletInfo)),
                RequestKind::GetLogletInfo => Some(Source::Requests(RequestKind::GetRecords)),
                RequestKind::GetRecords => Some(Source::Requests(RequestKind::Trim)),
                RequestKind::Trim => Some(Source::Requests(RequestKind::Store)),
                RequestKind::Store => None,
            },
        }
    }
}

/// One wait for the next thing to do.
///
/// The sources are polled in rounds: first [`Selection::first`], then, as long as nothing is
/// ready, what [`Selection::after`] names. A stream that has ended is not polled again.
pub struct Selection {
    ended: Vec<RequestKind>,
}

impl View for Selection {
    type V = Set<RequestKind>;

    /// The streams that have ended.
    closed spec fn view(&self) -> Set<RequestKind> {
        Set::new(|kind: RequestKind| self.ended@.contains(kind))
    }
}

/// Whether a source is still polled: the shutdown always is.
pub open spec fn is_polled(ended: Set<RequestKind>, source: Source) -> bool {
    match source {
        Source::Shutdown => true,
        Source::Requests(kind) => !ended.contains(kind),
    }
}

/// `next` is the source to poll once `polled` was: the one with the highest priority of those
/// behind it that are still polled, if there is any.
pub open spec fn follows(
    ended: Set<RequestKind>,
    polled: Source,
    next: Option<Source>,
) -> bool {
    match next {
        Some(next) => {
            &&& is_polled(ended, next)
            &&& polled.rank() < next.rank()
            &&& forall|other: Source|
                polled.rank() < other.rank() < next.rank() ==> !#[trigger] is_polled(ended, other)
        },
        None => forall|other: Source|
            polled.rank() < other.rank() ==> !#[trigger] is_polled(ended, other),
    }
}

impl Selection {
    /// Nothing was polled, and no stream is known to have ended.
    pub fn new() -> (selection: Self)
        ensures
            selection@ == Set::<RequestKind>::empty(),
    {
        let selection = Selection { ended: Vec::new() };
        assert(selection@ =~= Set::<RequestKind>::empty());
        selection
    }

    /// The source with which a round starts.
    pub fn first(&self) -> (source: Source)
        ensures
            source.rank() == 0,
            is_polled(self@, source),
    {
        Source::Shutdown
    }

    /// The source to poll after `polled`, if there is one in this round.
    pub fn after(&self, polled: Source) -> (next: Option<Source>)
        ensures
            follows(self@, polled, next),
    {
        let mut at = polled;
        loop
            invariant
                polled.rank() <= at.rank(),
                forall|other: Source|
                    polled.rank() < other.rank() <= at.rank() ==> !#[trigger] is_polled(
                        self@,
                        other,
                    ),
            decreases 8 - at.rank(),
        {
            match at.next() {
                Some(next) => {
                    proof {
                        lemma_ranks_differ(next);
                    }
                    if self.polls(next) {
                        return Some(next);
                    }
                    at = next;
                },
                None => {
                    assert forall|other: Source| polled.rank() < other.rank() implies !#[trigger]
                        is_polled(self@, other) by {
                        assert(other.rank() <= at.rank());
                    }
                    return None;
                },
            }
        }
    }

    /// Whether a source is still polled.
    pub fn polls(&self, source: Source) -> (b: bool)
        ensures
            b == is_polled(self@, source),
    {
        let kind = match source {
            Source::Shutdown => {
                return true;
            },
            Source::Requests(kind) => kind,
        };
        let mut i: usize = 0;
        while i < self.ended.len()
            invariant
                i <= self.ended@.len(),
                source == Source::Requests(kind),
                forall|j: int| 0 <= j < i ==> self.ended@[j] != kind,
            decreases self.ended@.len() - i,
        {
            if self.ended[i] == kind {
                assert(self.ended@.contains(kind));
                return false;
            }
            i = i + 1;
        }
        assert(!self.ended@.contains(kind));
        true
    }

    /// The stream of these requests has ended.
    pub fn end(&mut self, kind: RequestKind)
        ensures
            final(self)@ == old(self)@.insert(kind),
    {
        let ghost ended = self.ended@;
        self.ended.push(kind);
        assert forall|other: RequestKind| #[trigger]
            self@.contains(other) == old(self)@.insert(kind).contains(other) by {
            assert(self@.contains(other) == self.ended@.contains(other));
            assert(old(self)@.contains(other) == ended.contains(other));
            if ended.contains(other) {
                let j = choose|j: int| 0 <= j < ended.len() && ended[j] == other;
                assert(self.ended@[j] == other);
            }
            if other == kind {
                assert(self.ended@[ended.len() as int] == other);
            }
        }
        assert(self@ =~= old(self)@.insert(kind));
    }
}

proof fn lemma_ranks_differ(source: Source)
    ensures
        forall|other: Source| #[trigger] other.rank() == source.rank() ==> other == source,
{
}

/// A request to a loglet.
#[derive(Clone, Copy, Debug, PartialEq, Eq, Structural)]
pub enum Request {
    GetDigest { loglet_id: u64 },
    WaitForTail { loglet_id: u64 },
    Release { loglet_id: u64 },
    Seal { loglet_id: u64 },
    GetLogletInfo { loglet_id: u64 },
    GetRecords { loglet_id: u64, from_offset: u64 },
    Trim { loglet_id: u64 },
    Store { loglet_id: u64 },
}

impl Request {
    /// The type of the request.
    pub open spec fn kind(self) -> RequestKind {
        match self {
            Request::GetDigest { .. } => RequestKind::GetDigest,
            Request::WaitForTail { .. } => RequestKind::WaitForTail,
            Request::Release { .. } => RequestKind::Release,
            Request::Seal { .. } => RequestKind::Seal,
            Request::GetLogletInfo { .. } => RequestKind::GetLogletInfo,
            Request::GetRecords { .. } => RequestKind::GetRecords,
            Request::Trim { .. } => RequestKind::Trim,
            Request::Store { .. } => RequestKind::Store,
        }
    }

    /// The loglet that the request is about.
    pub open spec fn loglet(self) -> u64 {
        match self {
            Request::GetDigest { loglet_id } => loglet_id,
            Request::WaitForTail { loglet_id } => loglet_id,
            Request::Release { loglet_id } => loglet_id,
            Request::Seal { loglet_id } => loglet_id,
            Request::GetLogletInfo { loglet_id } => loglet_id,
            Request::GetRecords { loglet_id, .. } => loglet_id,
            Request::Trim { loglet_id } => loglet_id,
            Request::Store { loglet_id } => loglet_id,
        }
    }

    /// The loglet that the request is about.
    pub fn loglet_id(&self) -> (loglet_id: u64)
        ensures
            loglet_id == self.loglet(),
    {
        match *self {
            Request::GetDigest { loglet_id } => loglet_id,
            Request::WaitForTail { loglet_id } => loglet_id,
            Request::Release { loglet_id } => loglet_id,
            Request::Seal { loglet_id } => loglet_id,
            Request::GetLogletInfo { loglet_id } => loglet_id,
            Request::GetRecords { loglet_id, .. } => loglet_id,
            Request::Trim { loglet_id } => loglet_id,
            Request::Store { loglet_id } => loglet_id,
        }
    }
}

/// The answers with which requests are turned down: they carry nothing but the status that says
/// so.
#[derive(Clone, Copy, Debug, PartialEq, Eq, Structural)]
pub enum Response {
    Digest,
    TailUpdated,
    Released,
    Sealed,
    LogletInfo,
    /// No records; the next are those from this offset on.
    Records { next_offset: u64 },
    Trimmed,
    Stored,
}

impl Response {
    /// The type of the request that is answered.
    pub open spec fn answers(self) -> RequestKind {
        match self {
            Response::Digest => RequestKind::GetDigest,
            Response::TailUpdated => RequestKind::WaitForTail,
            Response::Released => RequestKind::Release,
            Response::Sealed => RequestKind::Seal,
            Response::LogletInfo => RequestKind::GetLogletInfo,
            Response::Records { .. } => RequestKind::GetRecords,
            Response::Trimmed => RequestKind::Trim,
            Response::Stored => RequestKind::Store,
        }
    }
}

/// The answer with which a request is turned down.
pub open spec fn refusal(request: Request) -> Response {
    match request {
        Request::GetDigest { .. } => Response::Digest,
        Request::WaitForTail { .. } => Response::TailUpdated,
        Request::Release { .. } => Response::Released,
        Request::Seal { .. } => Response::Sealed,
        Request::GetLogletInfo { .. } => Response::LogletInfo,
        Request::GetRecords { from_offset, .. } => Response::Records { next_offset: from_offset },
        Request::Trim { .. } => Response::Trimmed,
        Request::Store { .. } => Response::Stored,
    }
}

/// What the server tells of its health.
#[derive(Clone, Copy, Debug, PartialEq, Eq, Structural)]
pub enum LogServerStatus {
    Ready,
    Stopping,
    Unknown,
}

/// Why the pump gave up.
#[derive(Clone, Copy, Debug, PartialEq, Eq, Structural)]
pub enum Failure {
    /// The state of a loglet cannot be loaded from the log store.
    CannotLoadState,
    /// The worker of a loglet cannot be started.
    CannotStartWorker,
}

/// How far the pump has come.
#[derive(Clone, Copy, Debug, PartialEq, Eq, Structural)]
pub enum Phase {
    /// The server is about to be ready.
    Starting,
    /// Waiting for the shutdown or a request.
    Selecting,
    /// The state of the request's loglet is being loaded.
    Loading(Request),
    /// The worker of the request's loglet is being started.
    StartingWorker(Request),
    /// The request is being handed to its worker.
    Enqueueing(Request),
    /// A request that its worker did not take is being answered.
    Responding(Response),
    /// The server is about to stop.
    Stopping,
    /// No more messages are to be accepted.
    ClosingStreams,
    /// The workers are being cancelled.
    CancellingWorkers,
    /// The server has stopped and is about to say so.
    Stopped,
    /// Nothing is left to do after a shutdown.
    Finished,
    /// Nothing is left to do after an error.
    Failed(Failure),
}

/// What the pump asks for.
#[derive(Clone, Copy, Debug, PartialEq, Eq, Structural)]
pub enum Action {
    /// Tell of this health.
    UpdateHealth(LogServerStatus),
    /// Wait for the shutdown or a request, in the order of a [`Selection`].
    Select,
    /// Load the state of a loglet.
    LoadState { loglet_id: u64 },
    /// Start the worker of a loglet on the state that was loaded.
    StartWorker { loglet_id: u64 },
    /// Hand the request to the worker of its loglet.
    Enqueue(Request),
    /// Try to send this answer.
    Respond(Response),
    /// Drop the streams of requests.
    DropStreams,
    /// Cancel all workers, which [`RequestPump::shutdown`] gives out, and wait for them.
    CancelWorkers,
    /// Return without an error.
    Return,
    /// Return this error.
    Fail(Failure),
}

/// What came of an action.
pub enum Event<H> {
    /// The action was done. Whether an answer could be sent makes no difference.
    Done,
    /// While waiting: the server is told to stop.
    Shutdown,
    /// While waiting: a request arrived.
    Received(Request),
    /// Whether the state of the loglet was loaded.
    StateLoaded(bool),
    /// The worker's handle, or none where it could not be started.
    WorkerStarted(Option<H>),
    /// Whether the worker took the request. It does not when it has crashed or is shutting down.
    Enqueued(bool),
}

impl Phase {
    /// What is to be done in a phase.
    pub open spec fn action(self) -> Action {
        match self {
            Phase::Starting => Action::UpdateHealth(LogServerStatus::Ready),
            Phase::Selecting => Action::Select,
            Phase::Loading(request) => Action::LoadState { loglet_id: request.loglet() },
            Phase::StartingWorker(request) => Action::StartWorker { loglet_id: request.loglet() },
            Phase::Enqueueing(request) => Action::Enqueue(request),
            Phase::Responding(response) => Action::Respond(response),
            Phase::Stopping => Action::UpdateHealth(LogServerStatus::Stopping),
            Phase::ClosingStreams => Action::DropStreams,
            Phase::CancellingWorkers => Action::CancelWorkers,
            Phase::Stopped => Action::UpdateHealth(LogServerStatus::Unknown),
            Phase::Finished => Action::Return,
            Phase::Failed(failure) => Action::Fail(failure),
        }
    }
}

#[verifier::reject_recursive_types(H)]
pub struct PumpView<H> {
    pub phase: Phase,
    /// The workers by their loglet.
    pub workers: Map<u64, H>,
}

impl<H> PumpView<H> {
    /// A pump at its start.
    pub open spec fn initial() -> PumpView<H> {
        PumpView { phase: Phase::Starting, workers: Map::empty() }
    }

    pub open spec fn in_phase(self, phase: Phase) -> PumpView<H> {
        PumpView { phase, ..self }
    }

    /// The pump after an event; `None` where the phase does not expect it.
    pub open spec fn next(self, event: Event<H>) -> Option<PumpView<H>> {
        match (self.phase, event) {
            (Phase::Starting, Event::Done) => Some(self.in_phase(Phase::Selecting)),
            (Phase::Selecting, Event::Shutdown) => Some(self.in_phase(Phase::Stopping)),
            (Phase::Selecting, Event::Received(request)) => Some(
                self.in_phase(
                    if self.workers.contains_key(request.loglet()) {
                        Phase::Enqueueing(request)
                    } else {
                        Phase::Loading(request)
                    },
                ),
            ),
            (Phase::Loading(request), Event::StateLoaded(true)) => Some(
                self.in_phase(Phase::StartingWorker(request)),
            ),
            (Phase::Loading(_), Event::StateLoaded(false)) => Some(
                self.in_phase(Phase::Failed(Failure::CannotLoadState)),
            ),
            (Phase::StartingWorker(request), Event::WorkerStarted(Some(handle))) => Some(
                PumpView {
                    phase: Phase::Enqueueing(request),
                    workers: self.workers.insert(request.loglet(), handle),
                },
            ),
            (Phase::StartingWorker(_), Event::WorkerStarted(None)) => Some(
                self.in_phase(Phase::Failed(Failure::CannotStartWorker)),
            ),
            (Phase::Enqueueing(_), Event::Enqueued(true)) => Some(self.in_phase(Phase::Selecting)),
            (Phase::Enqueueing(request), Event::Enqueued(false)) => Some(
                self.in_phase(Phase::Responding(refusal(request))),
            ),
            (Phase::Responding(_), Event::Done) => Some(self.in_phase(Phase::Selecting)),
            (Phase::Stopping, Event::Done) => Some(self.in_phase(Phase::ClosingStreams)),
            (Phase::ClosingStreams, Event::Done) => Some(self.in_phase(Phase::CancellingWorkers)),
            (Phase::CancellingWorkers, Event::Done) => Some(self.in_phase(Phase::Stopped)),
            (Phase::Stopped, Event::Done) => Some(self.in_phase(Phase::Finished)),
            _ => None,
        }
    }
}

/// Decides what a log server does next. `H` is the handle of a worker.
///
/// The server does what [`RequestPump::action`] asks for and tells [`RequestPump::on_event`] what
/// came of it, until it is asked to return.
#[verifier::reject_recursive_types(H)]
pub struct RequestPump<H> {
    phase: Phase,
    loglet_workers: HashMap<u64, H>,
}

impl<H> View for RequestPump<H> {
    type V = PumpView<H>;

    closed spec fn view(&self) -> PumpView<H> {
        PumpView { phase: self.phase, workers: self.loglet_workers@ }
    }
}

impl<H> RequestPump<H> {
    /// A pump at its start, without workers.
    pub fn new() -> (pump: Self)
        ensures
            pump@ == PumpView::<H>::initial(),
    {
        RequestPump {
            phase: Phase::Starting,
            loglet_workers: HashMap::with_capacity(DEFAULT_WRITERS_CAPACITY),
        }
    }

    /// What is to be done next.
    pub fn action(&self) -> (action: Action)
        ensures
            action == self@.phase.action(),
    {
        match self.phase {
            Phase::Starting => Action::UpdateHealth(LogServerStatus::Ready),
            Phase::Selecting => Action::Select,
            Phase::Loading(request) => Action::LoadState { loglet_id: request.loglet_id() },
            Phase::StartingWorker(request) => Action::StartWorker {
                loglet_id: request.loglet_id(),
            },
            Phase::Enqueueing(request) => Action::Enqueue(request),
            Phase::Responding(response) => Action::Respond(response),
            Phase::Stopping => Action::UpdateHealth(LogServerStatus::Stopping),
            Phase::ClosingStreams => Action::DropStreams,
            Phase::CancellingWorkers => Action::CancelWorkers,
            Phase::Stopped => Action::UpdateHealth(LogServerStatus::Unknown),
            Phase::Finished => Action::Return,
            Phase::Failed(failure) => Action::Fail(failure),
        }
    }

    /// Takes what came of the action. An event that the phase does not expect is not taken and
    /// changes nothing.
    pub fn on_event(&mut self, event: Event<H>) -> (taken: bool)
        ensures
            match old(self)@.next(event) {
                Some(next) => taken && final(self)@ == next,
                None => !taken && final(self)@ == old(self)@,
            },
    {
        broadcast use vstd::std_specs::hash::group_hash_axioms;

        match (self.phase, event) {
            (Phase::Starting, Event::Done) => {
                self.phase = Phase::Selecting;
            },
            (Phase::Selecting, Event::Shutdown) => {
                self.phase = Phase::Stopping;
            },
            (Phase::Selecting, Event::Received(request)) => {
                self.phase = self.find_or_create_worker(request);
            },
            (Phase::Loading(request), Event::StateLoaded(loaded)) => {
                self.phase = if loaded {
                    Phase::StartingWorker(request)
                } else {
                    Phase::Failed(Failure::CannotLoadState)
                };
            },
            (Phase::StartingWorker(request), Event::WorkerStarted(Some(handle))) => {
                self.loglet_workers.insert(request.loglet_id(), handle);
                self.phase = Phase::Enqueueing(request);
            },
            (Phase::StartingWorker(_), Event::WorkerStarted(None)) => {
                self.phase = Phase::Failed(Failure::CannotStartWorker);
            },
            (Phase::Enqueueing(request), Event::Enqueued(enqueued)) => {
                self.phase = match Self::on_request(request, enqueued) {
                    Some(response) => Phase::Responding(response),
                    None => Phase::Selecting,
                };
            },
            (Phase::Responding(_), Event::Done) => {
                self.phase = Phase::Selecting;
            },
            (Phase::Stopping, Event::Done) => {
                self.phase = Phase::ClosingStreams;
            },
            (Phase::ClosingStreams, Event::Done) => {
                self.phase = Phase::CancellingWorkers;
            },
            (Phase::CancellingWorkers, Event::Done) => {
                self.phase = Phase::Stopped;
            },
            (Phase::Stopped, Event::Done) => {
                self.phase = Phase::Finished;
            },
            _ => {
                return false;
            },
        }
        true
    }

    /// The worker of a loglet, if it was started.
    pub fn worker(&self, loglet_id: u64) -> (worker: Option<&H>)
        ensures
            match worker {
                Some(handle) => self@.workers.contains_key(loglet_id) && self@.workers[loglet_id]
                    == *handle,
                None => !self@.workers.contains_key(loglet_id),
            },
    {
        broadcast use vstd::std_specs::hash::group_hash_axioms;

        self.loglet_workers.get(&loglet_id)
    }

    /// Gives out the workers once they are to be cancelled; none before that.
    pub fn shutdown(&mut self) -> (workers: HashMap<u64, H>)
        ensures
            old(self)@.phase == Phase::CancellingWorkers ==> {
                &&& workers@ == old(self)@.workers
                &&& final(self)@ == (PumpView { workers: Map::empty(), ..old(self)@ })
            },
            old(self)@.phase != Phase::CancellingWorkers ==> {
                &&& workers@ == Map::<u64, H>::empty()
                &&& final(self)@ == old(self)@
            },
    {
        let mut workers: HashMap<u64, H> = HashMap::new();
        if self.phase == Phase::CancellingWorkers {
            std::mem::swap(&mut workers, &mut self.loglet_workers);
        }
        workers
    }

    /// The phase in which a request is served: it is handed to the worker of its loglet where
    /// there is one, else the worker's state is loaded first.
    fn find_or_create_worker(&self, request: Request) -> (phase: Phase)
        ensures
            phase == if self@.workers.contains_key(request.loglet()) {
                Phase::Enqueueing(request)
            } else {
                Phase::Loading(request)
            },
    {
        match self.worker(request.loglet_id()) {
            Some(_) => Phase::Enqueueing(request),
            None => Phase::Loading(request),
        }
    }

    /// The answer that is owed to a request, given whether its worker took it.
    fn on_request(request: Request, enqueued: bool) -> (response: Option<Response>)
        ensures
            response == if enqueued {
                None
            } else {
                Some(refusal(request))
            },
    {
        match request {
            Request::GetDigest { .. } => Self::on_get_digest(enqueued),
            Request::WaitForTail { .. } => Self::on_wait_for_tail(enqueued),
            Request::Release { .. } => Self::on_release(enqueued),
            Request::Seal { .. } => Self::on_seal(enqueued),
            Request::GetLogletInfo { .. } => Self::on_get_loglet_info(enqueued),
            Request::GetRecords { from_offset, .. } => Self::on_get_records(enqueued, from_offset),
            Request::Trim { .. } => Self::on_trim(enqueued),
            Request::Store { .. } => Self::on_store(enqueued),
        }
    }

    fn on_get_digest(enqueued: bool) -> (response: Option<Response>)
        ensures
            response == if enqueued {
                None
            } else {
                Some(Response::Digest)
            },
    {
        if enqueued {
            None
        } else {
            Some(Response::Digest)
        }
    }

    fn on_wait_for_tail(enqueued: bool) -> (response: Option<Response>)
        ensures
            response == if enqueued {
                None
            } else {
                Some(Response::TailUpdated)
            },
    {
        if enqueued {
            None
        } else {
            Some(Response::TailUpdated)
        }
    }

    fn on_store(enqueued: bool) -> (response: Option<Response>)
        ensures
            response == if enqueued {
                None
            } else {
                Some(Response::Stored)
            },
    {
        if enqueued {
            None
        } else {
            Some(Response::Stored)
        }
    }

    fn on_release(enqueued: bool) -> (response: Option<Response>)
        ensures
            response == if enqueued {
                None
            } else {
                Some(Response::Released)
            },
    {
        if enqueued {
            None
        } else {
            Some(Response::Released)
        }
    }

    fn on_seal(enqueued: bool) -> (response: Option<Response>)
        ensures
            response == if enqueued {
                None
            } else {
                Some(Response::Sealed)
            },
    {
        if enqueued {
            None
        } else {
            Some(Response::Sealed)
        }
    }

    fn on_get_loglet_info(enqueued: bool) -> (response: Option<Response>)
        ensures
            response == if enqueued {
                None
            } else {
                Some(Response::LogletInfo)
            },
    {
        if enqueued {
            None
        } else {
            Some(Response::LogletInfo)
        }
    }

    fn on_get_records(enqueued: bool, from_offset: u64) -> (response: Option<Response>)
        ensures
            response == if enqueued {
                None
            } else {
                Some(Response::Records { next_offset: from_offset })
            },
    {
        if enqueued {
            None
        } else {
            Some(Response::Records { next_offset: from_offset })
        }
    }

    fn on_trim(enqueued: bool) -> (response: Option<Response>)
        ensures
            response == if enqueued {
                None
            } else {
                Some(Response::Trimmed)
            },
    {
        if enqueued {
            None
        } else {
            Some(Response::Trimmed)
        }
    }
}

} // verus!
