use server_core::network::Action;
use server_core::network::Event;
use server_core::network::Failure;
use server_core::network::LogServerStatus;
use server_core::network::Request;
use server_core::network::RequestKind;
use server_core::network::RequestPump;
use server_core::network::Response;
use server_core::network::Selection;
use server_core::network::Source;

fn ready_pump() -> RequestPump<&'static str> {
    let mut pump = RequestPump::new();
    assert!(pump.on_event(Event::Done));
    pump
}

/// Serves a request up to the point where it is handed to its worker.
fn reach_worker(pump: &mut RequestPump<&'static str>, request: Request, handle: &'static str) {
    assert!(pump.on_event(Event::Received(request)));
    if pump.worker(request.loglet_id()).is_none() {
        assert!(pump.on_event(Event::StateLoaded(true)));
        assert!(pump.on_event(Event::WorkerStarted(Some(handle))));
    }
    assert_eq!(pump.action(), Action::Enqueue(request));
}

#[test]
fn sources_are_polled_by_priority() {
    let selection = Selection::new();
    let mut order = vec![selection.first()];
    while let Some(next) = selection.after(*order.last().unwrap()) {
        order.push(next);
    }
    assert_eq!(
        order,
        vec![
            Source::Shutdown,
            Source::Requests(RequestKind::GetDigest),
            Source::Requests(RequestKind::WaitForTail),
            Source::Requests(RequestKind::Release),
            Source::Requests(RequestKind::Seal),
            Source::Requests(RequestKind::GetLogletInfo),
            Source::Requests(RequestKind::GetRecords),
            Source::Requests(RequestKind::Trim),
            Source::Requests(RequestKind::Store),
        ]
    );
}

#[test]
fn ended_streams_are_left_out() {
    let mut selection = Selection::new();
    selection.end(RequestKind::WaitForTail);
    selection.end(RequestKind::Store);
    selection.end(RequestKind::Store);
    assert!(!selection.polls(Source::Requests(RequestKind::Store)));
    assert!(selection.polls(Source::Requests(RequestKind::Trim)));
    assert!(selection.polls(Source::Shutdown));
    assert_eq!(
        selection.after(Source::Requests(RequestKind::GetDigest)),
        Some(Source::Requests(RequestKind::Release))
    );
    assert_eq!(selection.after(Source::Requests(RequestKind::Trim)), None);
}

#[test]
fn shutdown_is_polled_when_all_streams_have_ended() {
    let mut selection = Selection::new();
    for kind in [
        RequestKind::GetDigest,
        RequestKind::WaitForTail,
        RequestKind::Release,
        RequestKind::Seal,
        RequestKind::GetLogletInfo,
        RequestKind::GetRecords,
        RequestKind::Trim,
        RequestKind::Store,
    ] {
        selection.end(kind);
    }
    assert_eq!(selection.first(), Source::Shutdown);
    assert_eq!(selection.after(Source::Shutdown), None);
}

#[test]
fn worker_is_started_for_the_first_request_only() {
    let mut pump = ready_pump();
    assert_eq!(pump.action(), Action::Select);
    let first = Request::Store { loglet_id: 7 };
    assert!(pump.on_event(Event::Received(first)));
    assert_eq!(pump.action(), Action::LoadState { loglet_id: 7 });
    assert!(pump.worker(7).is_none());
    assert!(pump.on_event(Event::StateLoaded(true)));
    assert_eq!(pump.action(), Action::StartWorker { loglet_id: 7 });
    assert!(pump.on_event(Event::WorkerStarted(Some("seven"))));
    assert_eq!(pump.action(), Action::Enqueue(first));
    assert_eq!(pump.worker(7), Some(&"seven"));
    assert!(pump.on_event(Event::Enqueued(true)));

    let second = Request::Seal { loglet_id: 7 };
    assert_eq!(pump.action(), Action::Select);
    assert!(pump.on_event(Event::Received(second)));
    assert_eq!(pump.action(), Action::Enqueue(second));
    assert!(pump.on_event(Event::Enqueued(true)));

    let other = Request::Seal { loglet_id: 8 };
    assert!(pump.on_event(Event::Received(other)));
    assert_eq!(pump.action(), Action::LoadState { loglet_id: 8 });
    assert_eq!(pump.worker(7), Some(&"seven"));
}

#[test]
fn refused_requests_are_answered_empty() {
    let mut pump = ready_pump();
    for (request, response) in [
        (Request::GetDigest { loglet_id: 1 }, Response::Digest),
        (Request::WaitForTail { loglet_id: 1 }, Response::TailUpdated),
        (Request::Release { loglet_id: 1 }, Response::Released),
        (Request::Seal { loglet_id: 1 }, Response::Sealed),
        (Request::GetLogletInfo { loglet_id: 1 }, Response::LogletInfo),
        (
            Request::GetRecords { loglet_id: 1, from_offset: 42 },
            Response::Records { next_offset: 42 },
        ),
        (Request::Trim { loglet_id: 1 }, Response::Trimmed),
        (Request::Store { loglet_id: 1 }, Response::Stored),
    ] {
        reach_worker(&mut pump, request, "one");
        assert!(pump.on_event(Event::Enqueued(false)));
        assert_eq!(pump.action(), Action::Respond(response));
        assert!(pump.on_event(Event::Done));
        assert_eq!(pump.action(), Action::Select);
        assert_eq!(pump.worker(1), Some(&"one"));
    }
}

#[test]
fn shutdown_winds_up() {
    let mut pump: RequestPump<&'static str> = RequestPump::new();
    assert_eq!(pump.action(), Action::UpdateHealth(LogServerStatus::Ready));
    assert!(pump.on_event(Event::Done));
    for (id, handle) in [(1, "one"), (2, "two")] {
        reach_worker(&mut pump, Request::Trim { loglet_id: id }, handle);
        assert!(pump.on_event(Event::Enqueued(true)));
    }
    // workers are not given out before they are to be cancelled
    assert!(pump.shutdown().is_empty());

    assert!(pump.on_event(Event::Shutdown));
    assert_eq!(pump.action(), Action::UpdateHealth(LogServerStatus::Stopping));
    assert!(pump.on_event(Event::Done));
    assert_eq!(pump.action(), Action::DropStreams);
    assert!(pump.on_event(Event::Done));
    assert_eq!(pump.action(), Action::CancelWorkers);
    let workers = pump.shutdown();
    assert_eq!(workers.len(), 2);
    assert_eq!(workers[&1], "one");
    assert_eq!(workers[&2], "two");
    assert!(pump.shutdown().is_empty());
    assert!(pump.on_event(Event::Done));
    assert_eq!(pump.action(), Action::UpdateHealth(LogServerStatus::Unknown));
    assert!(pump.on_event(Event::Done));
    assert_eq!(pump.action(), Action::Return);
    assert!(!pump.on_event(Event::Done));
}

#[test]
fn failure_to_load_ends_the_pump() {
    let mut pump = ready_pump();
    assert!(pump.on_event(Event::Received(Request::Store { loglet_id: 3 })));
    assert!(pump.on_event(Event::StateLoaded(false)));
    assert_eq!(pump.action(), Action::Fail(Failure::CannotLoadState));
    assert!(pump.worker(3).is_none());
    assert!(!pump.on_event(Event::Done));
}

#[test]
fn failure_to_start_ends_the_pump() {
    let mut pump = ready_pump();
    assert!(pump.on_event(Event::Received(Request::Store { loglet_id: 3 })));
    assert!(pump.on_event(Event::StateLoaded(true)));
    assert!(pump.on_event(Event::WorkerStarted(None)));
    assert_eq!(pump.action(), Action::Fail(Failure::CannotStartWorker));
    assert!(pump.worker(3).is_none());
    assert!(!pump.on_event(Event::Shutdown));
}

#[test]
fn unexpected_events_are_not_taken() {
    let mut pump = ready_pump();
    assert!(!pump.on_event(Event::Done));
    assert!(!pump.on_event(Event::Enqueued(true)));
    assert!(!pump.on_event(Event::StateLoaded(true)));
    assert!(!pump.on_event(Event::WorkerStarted(Some("stray"))));
    assert_eq!(pump.action(), Action::Select);
}
