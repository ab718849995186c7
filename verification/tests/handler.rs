use load_balancer::error::{Containment, ErrorKind};
use load_balancer::handler::{ConnAction, ConnEvent, Connection, Outcome, UpstreamFailure};
use load_balancer::selector::Selection;

const EVENTS: [ConnEvent; 6] = [
    ConnEvent::Selected(Selection::Backend(1)),
    ConnEvent::Selected(Selection::Unavailable),
    ConnEvent::Connected,
    ConnEvent::ConnectFailed,
    ConnEvent::StreamClosed,
    ConnEvent::StreamFailed,
];

#[test]
fn served_connection_goes_through_all_states() {
    let mut conn = Connection::accepted();
    assert_eq!(conn, Connection::Accepted);
    assert_eq!(conn.outcome(), None);
    assert_eq!(conn.backend(), None);
    assert_eq!(
        conn.step(ConnEvent::Selected(Selection::Backend(2))),
        Some(ConnAction::Connect(2))
    );
    assert_eq!(conn, Connection::BackendSelected { backend: 2 });
    assert_eq!(conn.step(ConnEvent::Connected), Some(ConnAction::Forward));
    assert_eq!(conn, Connection::Forwarding { backend: 2 });
    assert!(!conn.is_terminal());
    assert_eq!(conn.outcome(), None);
    assert_eq!(conn.step(ConnEvent::StreamClosed), Some(ConnAction::CloseBoth));
    assert_eq!(conn, Connection::Closed { served: Some(2) });
    assert!(conn.is_terminal());
    assert_eq!(conn.outcome(), Some(Outcome::Success));
    assert_eq!(conn.backend(), Some(2));
    assert_eq!(conn.error_kind(), None);
}

#[test]
fn unavailable_selection_answers_the_client_and_closes() {
    let mut conn = Connection::accepted();
    assert_eq!(
        conn.step(ConnEvent::Selected(Selection::Unavailable)),
        Some(ConnAction::RespondUnavailable)
    );
    assert_eq!(conn, Connection::Closed { served: None });
    assert!(conn.is_terminal());
    assert_eq!(conn.outcome(), Some(Outcome::Unavailable));
    assert_eq!(conn.backend(), None);
    assert_eq!(conn.error_kind(), Some(ErrorKind::NoHealthyBackend));
}

#[test]
fn refused_upstream_connection_fails_the_request() {
    let mut conn = Connection::BackendSelected { backend: 0 };
    assert_eq!(conn.step(ConnEvent::ConnectFailed), Some(ConnAction::CloseBoth));
    assert_eq!(conn, Connection::Failed { backend: 0, failure: UpstreamFailure::Connect });
    assert_eq!(conn.outcome(), Some(Outcome::Failure));
    assert_eq!(conn.error_kind(), Some(ErrorKind::UpstreamConnectFailure));
    assert_eq!(conn.backend(), Some(0));
}

#[test]
fn broken_stream_fails_the_request() {
    let mut conn = Connection::Forwarding { backend: 5 };
    assert_eq!(conn.step(ConnEvent::StreamFailed), Some(ConnAction::CloseBoth));
    assert_eq!(conn, Connection::Failed { backend: 5, failure: UpstreamFailure::Stream });
    assert_eq!(conn.outcome(), Some(Outcome::Failure));
    assert_eq!(conn.error_kind(), Some(ErrorKind::UpstreamStreamFailure));
}

#[test]
fn final_states_take_no_event() {
    let finals = [
        Connection::Closed { served: None },
        Connection::Closed { served: Some(3) },
        Connection::Failed { backend: 3, failure: UpstreamFailure::Connect },
        Connection::Failed { backend: 3, failure: UpstreamFailure::Stream },
    ];
    for state in finals {
        for event in EVENTS {
            let mut conn = state;
            assert_eq!(conn.step(event), None);
            assert_eq!(conn, state);
        }
    }
}

#[test]
fn events_out_of_place_change_nothing() {
    let misplaced = [
        (Connection::Accepted, ConnEvent::Connected),
        (Connection::Accepted, ConnEvent::ConnectFailed),
        (Connection::Accepted, ConnEvent::StreamClosed),
        (Connection::Accepted, ConnEvent::StreamFailed),
        (Connection::BackendSelected { backend: 1 }, ConnEvent::Selected(Selection::Backend(0))),
        (Connection::BackendSelected { backend: 1 }, ConnEvent::Selected(Selection::Unavailable)),
        (Connection::BackendSelected { backend: 1 }, ConnEvent::StreamClosed),
        (Connection::BackendSelected { backend: 1 }, ConnEvent::StreamFailed),
        (Connection::Forwarding { backend: 1 }, ConnEvent::Selected(Selection::Backend(0))),
        (Connection::Forwarding { backend: 1 }, ConnEvent::Selected(Selection::Unavailable)),
        (Connection::Forwarding { backend: 1 }, ConnEvent::Connected),
        (Connection::Forwarding { backend: 1 }, ConnEvent::ConnectFailed),
    ];
    for (state, event) in misplaced {
        let mut conn = state;
        assert_eq!(conn.step(event), None);
        assert_eq!(conn, state);
    }
}

#[test]
fn a_connection_is_never_given_a_second_backend() {
    let mut conn = Connection::accepted();
    conn.step(ConnEvent::Selected(Selection::Backend(1)));
    assert_eq!(conn.step(ConnEvent::Selected(Selection::Backend(0))), None);
    assert_eq!(conn.backend(), Some(1));
    conn.step(ConnEvent::ConnectFailed);
    assert_eq!(conn.step(ConnEvent::Selected(Selection::Backend(0))), None);
    assert_eq!(conn.backend(), Some(1));
}

#[test]
fn only_the_loss_of_the_listener_is_fatal() {
    let kinds = [
        (ErrorKind::ProbeFailure, Containment::Backend),
        (ErrorKind::NoHealthyBackend, Containment::Request),
        (ErrorKind::UpstreamConnectFailure, Containment::Request),
        (ErrorKind::UpstreamStreamFailure, Containment::Request),
        (ErrorKind::ListenerFailure, Containment::Process),
    ];
    for (kind, reach) in kinds {
        assert_eq!(kind.contained_to(), reach);
        assert_eq!(kind.is_fatal(), kind == ErrorKind::ListenerFailure);
        assert_eq!(kind.reaches_client(), reach == Containment::Request);
    }
}
