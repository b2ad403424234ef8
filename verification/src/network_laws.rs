//! What holds of the request pump, whatever happens around it.
use vstd::prelude::*;

use crate::network::follows;
use crate::network::is_polled;
use crate::network::refusal;
use crate::network::Action;
use crate::network::Event;
use crate::network::Failure;
use crate::network::LogServerStatus;
use crate::network::Phase;
use crate::network::PumpView;
use crate::network::Request;
use crate::network::RequestKind;
use crate::network::Response;
use crate::network::Source;

verus! {

/// The sources that are polled in one round, up to the last of `order`: each is the one to poll
/// after the one before it.
pub open spec fn is_round(ended: Set<RequestKind>, order: Seq<Source>) -> bool {
    &&& order.len() > 0
    &&& order[0] == Source::Shutdown
    &&& forall|i: int|
        0 <= i < order.len() - 1 ==> follows(ended, #[trigger] order[i], Some(order[i + 1]))
}

proof fn lemma_round_leaves_none_out(
    ended: Set<RequestKind>,
    order: Seq<Source>,
    source: Source,
) -> (at: int)
    requires
        is_round(ended, order),
        is_polled(ended, source),
        source.rank() <= order.last().rank(),
    ensures
        0 <= at < order.len(),
        order[at] == source,
    decreases order.len(),
{
    let last = order.len() - 1;
    if order[last] == source {
        last
    } else if last == 0 {
        assert(source.rank() == 0);
        0
    } else {
        let shorter = order.drop_last();
        assert(follows(ended, order[last - 1], Some(order[last - 1 + 1])));
        assert(source.rank() != order[last].rank());
        assert(source.rank() <= order[last - 1].rank());
        assert forall|i: int| 0 <= i < shorter.len() - 1 implies follows(
            ended,
            #[trigger] shorter[i],
            Some(shorter[i + 1]),
        ) by {
            assert(follows(ended, order[i], Some(order[i + 1])));
        }
        let at = lemma_round_leaves_none_out(ended, shorter, source);
        assert(order[at] == source);
        at
    }
}

/// The shutdown goes first, and then the requests by the priority of their types: where a round
/// stops at the first source that is ready, no source with a higher priority was.
pub proof fn law_round_keeps_the_priority(
    ended: Set<RequestKind>,
    order: Seq<Source>,
    ready: Set<Source>,
    source: Source,
)
    requires
        is_round(ended, order),
        forall|i: int| 0 <= i < order.len() - 1 ==> !ready.contains(#[trigger] order[i]),
        is_polled(ended, source),
        ready.contains(source),
    ensures
        order.last().rank() <= source.rank(),
{
    if source.rank() < order.last().rank() {
        let at = lemma_round_leaves_none_out(ended, order, source);
        assert(!ready.contains(order[at]));
    }
}

/// A worker is there when a request is handed to it, and none is while one is being made ready.
pub open spec fn workers_match_phase<H>(pump: PumpView<H>) -> bool {
    match pump.phase {
        Phase::Enqueueing(request) => pump.workers.contains_key(request.loglet()),
        Phase::Loading(request) => !pump.workers.contains_key(request.loglet()),
        Phase::StartingWorker(request) => !pump.workers.contains_key(request.loglet()),
        _ => true,
    }
}

/// A request is handed to a worker only once its loglet has one, and a worker is made only for a
/// loglet that has none.
pub proof fn law_worker_is_there_before_its_request<H>(pump: PumpView<H>, event: Event<H>)
    ensures
        workers_match_phase(PumpView::<H>::initial()),
        workers_match_phase(pump) ==> match pump.next(event) {
            Some(next) => workers_match_phase(next),
            None => true,
        },
{
}

/// A loglet keeps its worker: an event adds at most the worker of the loglet that asked for it.
pub proof fn law_worker_is_never_replaced<H>(pump: PumpView<H>, event: Event<H>)
    requires
        workers_match_phase(pump),
        pump.next(event) is Some,
    ensures
        ({
            let next = pump.next(event)->0;
            &&& pump.workers.submap_of(next.workers)
            &&& next.workers != pump.workers ==> {
                &&& pump.phase matches Phase::StartingWorker(request)
                &&& event matches Event::WorkerStarted(Some(handle))
                &&& next.workers == pump.workers.insert(request.loglet(), handle)
            }
        }),
{
}

/// The pump after these events; `None` where one of them is not expected.
pub open spec fn after_events<H>(pump: PumpView<H>, events: Seq<Event<H>>) -> Option<PumpView<H>>
    decreases events.len(),
{
    if events.len() == 0 {
        Some(pump)
    } else {
        match after_events(pump, events.drop_last()) {
            Some(before) => before.next(events.last()),
            None => None,
        }
    }
}

/// A request that arrives is handed to its worker, once that was started, or ends the pump with
/// the error that kept its worker from being started. There is no other way on.
pub proof fn law_request_reaches_its_worker<H>(
    pump: PumpView<H>,
    request: Request,
    event: Event<H>,
)
    ensures
        pump.phase == Phase::Selecting ==> (pump.next(Event::Received(request)) matches Some(next)
            && next.phase == if pump.workers.contains_key(request.loglet()) {
            Phase::Enqueueing(request)
        } else {
            Phase::Loading(request)
        }),
        pump.phase == Phase::Loading(request) ==> match pump.next(event) {
            Some(next) => {
                ||| event == Event::<H>::StateLoaded(true) && next.phase == Phase::StartingWorker(
                    request,
                )
                ||| event == Event::<H>::StateLoaded(false) && next.phase == Phase::Failed(
                    Failure::CannotLoadState,
                )
            },
            None => !(event is StateLoaded),
        },
        pump.phase == Phase::StartingWorker(request) ==> match pump.next(event) {
            Some(next) => {
                ||| (event matches Event::WorkerStarted(Some(handle)) && next.phase
                    == Phase::Enqueueing(request) && next.workers[request.loglet()] == handle)
                ||| event == Event::<H>::WorkerStarted(None) && next.phase == Phase::Failed(
                    Failure::CannotStartWorker,
                )
            },
            None => !(event is WorkerStarted),
        },
{
}

/// A request that its worker does not take is answered by an empty response to that type of
/// request. One for records names the offset that the request asked for. Whether the answer could
/// be sent or not, the pump goes on, with the same workers.
pub proof fn law_refused_request_is_answered<H>(pump: PumpView<H>, request: Request)
    requires
        pump.phase == Phase::Enqueueing(request),
    ensures
        refusal(request).answers() == request.kind(),
        request matches Request::GetRecords { from_offset, .. } ==> refusal(request)
            == (Response::Records { next_offset: from_offset }),
        pump.next(Event::Enqueued(false)) matches Some(next) && {
            &&& next.phase.action() == Action::Respond(refusal(request))
            &&& next.next(Event::Done) == Some(pump.in_phase(Phase::Selecting))
        },
        pump.next(Event::Enqueued(true)) == Some(pump.in_phase(Phase::Selecting)),
{
}

/// On shutdown the server says that it is stopping, accepts no more messages, cancels the workers
/// that it has, all of them, says that it has stopped, and returns.
pub proof fn law_shutdown_winds_up<H>(pump: PumpView<H>)
    requires
        pump.phase == Phase::Selecting,
    ensures
        pump.next(Event::Shutdown) == Some(pump.in_phase(Phase::Stopping)),
        Phase::Stopping.action() == Action::UpdateHealth(LogServerStatus::Stopping),
        pump.in_phase(Phase::Stopping).next(Event::Done) == Some(
            pump.in_phase(Phase::ClosingStreams),
        ),
        Phase::ClosingStreams.action() == Action::DropStreams,
        pump.in_phase(Phase::ClosingStreams).next(Event::Done) == Some(
            pump.in_phase(Phase::CancellingWorkers),
        ),
        Phase::CancellingWorkers.action() == Action::CancelWorkers,
        pump.in_phase(Phase::CancellingWorkers).next(Event::Done) == Some(
            pump.in_phase(Phase::Stopped),
        ),
        Phase::Stopped.action() == Action::UpdateHealth(LogServerStatus::Unknown),
        pump.in_phase(Phase::Stopped).next(Event::Done) == Some(pump.in_phase(Phase::Finished)),
        Phase::Finished.action() == Action::Return,
{
}

/// A pump that has returned takes no more events.
pub proof fn law_end_is_the_end<H>(pump: PumpView<H>, event: Event<H>)
    requires
        pump.phase is Finished || pump.phase is Failed,
    ensures
        pump.next(event) is None,
{
}

/// What the server has told of its health after these events.
pub open spec fn told<H>(pump: PumpView<H>, events: Seq<Event<H>>) -> Seq<LogServerStatus>
    decreases events.len(),
{
    if events.len() == 0 {
        Seq::empty()
    } else {
        match after_events(pump, events.drop_last()) {
            Some(before) => match before.phase.action() {
                Action::UpdateHealth(status) => told(pump, events.drop_last()).push(status),
                _ => told(pump, events.drop_last()),
            },
            None => told(pump, events.drop_last()),
        }
    }
}

/// What was told of the server's health by the time that it is in a phase.
pub open spec fn told_by(phase: Phase) -> Seq<LogServerStatus> {
    match phase {
        Phase::Starting => seq![],
        Phase::ClosingStreams | Phase::CancellingWorkers | Phase::Stopped => seq![
            LogServerStatus::Ready,
            LogServerStatus::Stopping,
        ],
        Phase::Finished => seq![
            LogServerStatus::Ready,
            LogServerStatus::Stopping,
            LogServerStatus::Unknown,
        ],
        _ => seq![LogServerStatus::Ready],
    }
}

/// The server says that it is ready before it serves anything, that it is stopping before it
/// drops the streams, and that it has stopped before it returns, each once. After an error it
/// says nothing more.
pub proof fn law_health_is_told_in_order<H>(events: Seq<Event<H>>)
    ensures
        after_events(PumpView::<H>::initial(), events) matches Some(pump) ==> told(
            PumpView::<H>::initial(),
            events,
        ) == told_by(pump.phase),
    decreases events.len(),
{
    if events.len() > 0 {
        law_health_is_told_in_order(events.drop_last());
        if let Some(before) = after_events(PumpView::<H>::initial(), events.drop_last()) {
            if let Some(pump) = before.next(events.last()) {
                let now = told(PumpView::<H>::initial(), events);
                assert(now =~= told_by(pump.phase));
            }
        }
    }
}

/// Whatever has happened, no event takes a worker away that was started.
pub proof fn law_started_workers_stay<H>(events: Seq<Event<H>>, more: Event<H>)
    requires
        after_events(PumpView::<H>::initial(), events) is Some,
        after_events(PumpView::<H>::initial(), events.push(more)) is Some,
    ensures
        after_events(PumpView::<H>::initial(), events)->0.workers.submap_of(
            after_events(PumpView::<H>::initial(), events.push(more))->0.workers,
        ),
        workers_match_phase(after_events(PumpView::<H>::initial(), events)->0),
{
    lemma_reached_pumps_match(events);
    assert(events.push(more).drop_last() =~= events);
    law_worker_is_never_replaced(after_events(PumpView::<H>::initial(), events)->0, more);
}

proof fn lemma_reached_pumps_match<H>(events: Seq<Event<H>>)
    requires
        after_events(PumpView::<H>::initial(), events) is Some,
    ensures
        workers_match_phase(after_events(PumpView::<H>::initial(), events)->0),
    decreases events.len(),
{
    if events.len() > 0 {
        lemma_reached_pumps_match(events.drop_last());
        law_worker_is_there_before_its_request(
            after_events(PumpView::<H>::initial(), events.drop_last())->0,
            events.last(),
        );
    }
}

/// A request is routed by the loglet id that it carries, whatever kind it is of and whatever else
/// it carries.
pub proof fn law_request_is_routed_by_its_loglet_id(loglet_id: u64, from_offset: u64)
    ensures
        (Request::GetDigest { loglet_id }).loglet() == loglet_id,
        (Request::WaitForTail { loglet_id }).loglet() == loglet_id,
        (Request::Release { loglet_id }).loglet() == loglet_id,
        (Request::Seal { loglet_id }).loglet() == loglet_id,
        (Request::GetLogletInfo { loglet_id }).loglet() == loglet_id,
        (Request::GetRecords { loglet_id, from_offset }).loglet() == loglet_id,
        (Request::Trim { loglet_id }).loglet() == loglet_id,
        (Request::Store { loglet_id }).loglet() == loglet_id,
{
}

/// Two reads of the same loglet go to the same worker, whatever their offsets: where that loglet's
/// worker runs, each is handed to it, and else each asks for the state of that loglet.
pub proof fn law_reads_of_a_loglet_go_to_one_worker<H>(
    pump: PumpView<H>,
    loglet_id: u64,
    one: u64,
    other: u64,
)
    requires
        pump.phase == Phase::Selecting,
    ensures
        ({
            let a = Request::GetRecords { loglet_id, from_offset: one };
            let b = Request::GetRecords { loglet_id, from_offset: other };
            &&& a.loglet() == b.loglet()
            &&& pump.workers.contains_key(loglet_id) ==> {
                &&& pump.next(Event::Received(a)) matches Some(next) && next.phase.action()
                    == Action::Enqueue(a)
                &&& pump.next(Event::Received(b)) matches Some(next) && next.phase.action()
                    == Action::Enqueue(b)
            }
            &&& !pump.workers.contains_key(loglet_id) ==> {
                &&& pump.next(Event::Received(a)) matches Some(next) && next.phase.action()
                    == (Action::LoadState { loglet_id })
                &&& pump.next(Event::Received(b)) matches Some(next) && next.phase.action()
                    == (Action::LoadState { loglet_id })
            }
        }),
{
}

/// The worker that is started for a request is the one of the loglet whose id the request carries:
/// its state is loaded, it is started and kept under that id, and then the request is handed over.
/// No other loglet's worker is touched.
pub proof fn law_worker_is_started_for_the_requests_loglet<H>(
    pump: PumpView<H>,
    loglet_id: u64,
    from_offset: u64,
    handle: H,
)
    requires
        pump.phase == Phase::Selecting,
        !pump.workers.contains_key(loglet_id),
    ensures
        ({
            let request = Request::GetRecords { loglet_id, from_offset };
            let events = seq![
                Event::Received(request),
                Event::StateLoaded(true),
                Event::WorkerStarted(Some(handle)),
            ];
            after_events(pump, events) matches Some(end) && {
                &&& end.phase.action() == Action::Enqueue(request)
                &&& end.workers.contains_key(loglet_id) && end.workers[loglet_id] == handle
                &&& forall|id: u64|
                    id != loglet_id ==> (#[trigger] end.workers.contains_key(id)
                        <==> pump.workers.contains_key(id)) && (pump.workers.contains_key(id)
                        ==> end.workers[id] == pump.workers[id])
            }
        }),
{
    let request = Request::GetRecords { loglet_id, from_offset };
    let events = seq![
        Event::Received(request),
        Event::StateLoaded(true),
        Event::WorkerStarted(Some(handle)),
    ];
    let two = events.drop_last();
    let one = two.drop_last();
    assert(one.drop_last() =~= Seq::<Event<H>>::empty());
    assert(after_events(pump, one.drop_last()) == Some(pump));
    assert(one.last() == Event::<H>::Received(request));
    assert(two.last() == Event::<H>::StateLoaded(true));
    assert(events.last() == Event::WorkerStarted(Some(handle)));
    assert(after_events(pump, one) is Some);
    assert(after_events(pump, two) is Some);
}

/// The shutdown goes before every request, and the types of requests have this order.
pub proof fn law_order_of_priority()
    ensures
        Source::Shutdown.rank() < Source::Requests(RequestKind::GetDigest).rank()
            < Source::Requests(RequestKind::WaitForTail).rank() < Source::Requests(
            RequestKind::Release,
        ).rank() < Source::Requests(RequestKind::Seal).rank() < Source::Requests(
            RequestKind::GetLogletInfo,
        ).rank() < Source::Requests(RequestKind::GetRecords).rank() < Source::Requests(
            RequestKind::Trim,
        ).rank() < Source::Requests(RequestKind::Store).rank(),
{
}

/// A stream is polled as long as it is not known to have ended, and the shutdown always. A stream
/// that has ended takes no other one along.
pub proof fn law_streams_are_polled_until_they_end(
    ended: Set<RequestKind>,
    kind: RequestKind,
    other: RequestKind,
)
    ensures
        is_polled(ended, Source::Shutdown),
        is_polled(ended, Source::Requests(kind)) <==> !ended.contains(kind),
        !is_polled(ended.insert(kind), Source::Requests(kind)),
        other != kind ==> is_polled(ended.insert(kind), Source::Requests(other)) == is_polled(
            ended,
            Source::Requests(other),
        ),
        is_polled(Set::empty(), Source::Requests(kind)),
{
}

/// A round that finds nothing ready leaves no stream out: it ends only behind the last source that
/// is still polled, and has polled all of them.
pub proof fn law_round_leaves_none_out(
    ended: Set<RequestKind>,
    order: Seq<Source>,
    source: Source,
)
    requires
        is_round(ended, order),
        follows(ended, order.last(), None),
        source == Source::Shutdown || exists|kind: RequestKind|
            source == Source::Requests(kind) && !ended.contains(kind),
    ensures
        order.contains(source),
{
    assert(is_polled(ended, source));
    if source.rank() > order.last().rank() {
        assert(!is_polled(ended, source));
    }
    let at = lemma_round_leaves_none_out(ended, order, source);
}

/// What follows in a round is one source only, so that a round is determined by the streams that
/// have ended.
pub proof fn law_round_is_determined(
    ended: Set<RequestKind>,
    polled: Source,
    one: Option<Source>,
    other: Option<Source>,
)
    requires
        follows(ended, polled, one),
        follows(ended, polled, other),
    ensures
        one == other,
        one matches Some(next) ==> next.rank() > polled.rank(),
{
    if let (Some(a), Some(b)) = (one, other) {
        if a.rank() < b.rank() {
            assert(!is_polled(ended, a));
        }
        if b.rank() < a.rank() {
            assert(!is_polled(ended, b));
        }
    }
    if let (Some(a), None) = (one, other) {
        assert(!is_polled(ended, a));
    }
    if let (None, Some(b)) = (one, other) {
        assert(!is_polled(ended, b));
    }
}

/// Each kind of request is turned down with its own kind of answer, whatever loglet it is for. A
/// read is told the offset that it asked for.
pub proof fn law_answers_to_refused_requests(loglet_id: u64, from_offset: u64)
    ensures
        refusal(Request::GetDigest { loglet_id }) == Response::Digest,
        refusal(Request::WaitForTail { loglet_id }) == Response::TailUpdated,
        refusal(Request::Release { loglet_id }) == Response::Released,
        refusal(Request::Seal { loglet_id }) == Response::Sealed,
        refusal(Request::GetLogletInfo { loglet_id }) == Response::LogletInfo,
        refusal(Request::GetRecords { loglet_id, from_offset }) == (Response::Records {
            next_offset: from_offset,
        }),
        refusal(Request::Trim { loglet_id }) == Response::Trimmed,
        refusal(Request::Store { loglet_id }) == Response::Stored,
{
}

/// What is asked for while a request is served: the state of its loglet, the worker of its loglet,
/// and that the request itself, and no other, is handed over.
pub proof fn law_actions_are_for_the_request(request: Request, response: Response)
    ensures
        Phase::Loading(request).action() == (Action::LoadState { loglet_id: request.loglet() }),
        Phase::StartingWorker(request).action() == (Action::StartWorker {
            loglet_id: request.loglet(),
        }),
        Phase::Enqueueing(request).action() == Action::Enqueue(request),
        Phase::Responding(response).action() == Action::Respond(response),
        Phase::Selecting.action() == Action::Select,
        Phase::Starting.action() == Action::UpdateHealth(LogServerStatus::Ready),
        Phase::Failed(Failure::CannotLoadState).action() == Action::Fail(
            Failure::CannotLoadState,
        ),
        Phase::Failed(Failure::CannotStartWorker).action() == Action::Fail(
            Failure::CannotStartWorker,
        ),
{
}

/// An event is taken exactly if it is an outcome of what was asked for.
pub proof fn law_events_are_taken_as_they_were_asked_for<H>(pump: PumpView<H>, event: Event<H>)
    ensures
        pump.next(event) is Some <==> match pump.phase.action() {
            Action::UpdateHealth(_) => event is Done,
            Action::Select => event is Shutdown || event is Received,
            Action::LoadState { .. } => event is StateLoaded,
            Action::StartWorker { .. } => event is WorkerStarted,
            Action::Enqueue(_) => event is Enqueued,
            Action::Respond(_) => event is Done,
            Action::DropStreams => event is Done,
            Action::CancelWorkers => event is Done,
            Action::Return => false,
            Action::Fail(_) => false,
        },
{
}

/// The pump starts without workers and without having told anything, and waits for requests once it
/// has said that it is ready. After each request, taken or answered, it waits again.
pub proof fn law_pump_waits_between_requests<H>(
    pump: PumpView<H>,
    request: Request,
    response: Response,
)
    ensures
        PumpView::<H>::initial().phase == Phase::Starting,
        forall|id: u64| !PumpView::<H>::initial().workers.contains_key(id),
        pump.phase == Phase::Starting ==> (pump.next(Event::Done) matches Some(next) && next.phase
            == Phase::Selecting && next.workers == pump.workers),
        pump.phase == Phase::Enqueueing(request) ==> (pump.next(
            Event::Enqueued(true),
        ) matches Some(next) && next.phase == Phase::Selecting && next.workers == pump.workers),
        pump.phase == Phase::Enqueueing(request) ==> (pump.next(
            Event::Enqueued(false),
        ) matches Some(next) && next.phase == Phase::Responding(refusal(request)) && next.workers
            == pump.workers),
        pump.phase == Phase::Responding(response) ==> (pump.next(Event::Done) matches Some(next)
            && next.phase == Phase::Selecting && next.workers == pump.workers),
        pump.phase == Phase::Selecting ==> (pump.next(Event::Shutdown) matches Some(next)
            && next.phase == Phase::Stopping && next.workers == pump.workers),
        pump.phase == Phase::Stopping ==> (pump.next(Event::Done) matches Some(next) && next.phase
            == Phase::ClosingStreams && next.workers == pump.workers),
        pump.phase == Phase::ClosingStreams ==> (pump.next(Event::Done) matches Some(next)
            && next.phase == Phase::CancellingWorkers && next.workers == pump.workers),
        pump.phase == Phase::CancellingWorkers ==> (pump.next(Event::Done) matches Some(next)
            && next.phase == Phase::Stopped && next.workers == pump.workers),
        pump.phase == Phase::Stopped ==> (pump.next(Event::Done) matches Some(next) && next.phase
            == Phase::Finished && next.workers == pump.workers),
{
}

/// To be put into a phase changes nothing but the phase.
pub proof fn law_phase_is_all_that_changes<H>(pump: PumpView<H>, phase: Phase)
    ensures
        pump.in_phase(phase).phase == phase,
        pump.in_phase(phase).workers == pump.workers,
{
}

} // verus!
