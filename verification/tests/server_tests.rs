use http_tunnel::server::{set_finished, ServerAction, ServerEvent, ServerState};

#[test]
fn server_starts_binding() {
    assert_eq!(ServerState::start(), ServerState::Binding);
}

#[test]
fn bound_server_accepts() {
    let (state, action) = ServerState::start().on_event(ServerEvent::Bound);
    assert_eq!(state, ServerState::Listening);
    assert_eq!(action, ServerAction::Accept);
}

#[test]
fn bind_failure_stops_the_server() {
    let (state, action) = ServerState::start().on_event(ServerEvent::BindFailed);
    assert_eq!(state, ServerState::Stopped);
    assert_eq!(action, ServerAction::ReportBindFailure);
}

#[test]
fn accepted_connection_is_spawned() {
    let (state, action) = ServerState::Listening.on_event(ServerEvent::Accepted);
    assert_eq!(state, ServerState::Listening);
    assert_eq!(action, ServerAction::SpawnConnection);
}

#[test]
fn accept_failure_is_logged_and_the_loop_goes_on() {
    let (state, action) = ServerState::Listening.on_event(ServerEvent::AcceptFailed);
    assert_eq!(state, ServerState::Listening);
    assert_eq!(action, ServerAction::LogAndAccept);
}

#[test]
fn connection_failure_does_not_touch_the_server() {
    let (state, action) =
        ServerState::Listening.on_event(ServerEvent::ConnectionEnded { failed: true });
    assert_eq!(state, ServerState::Listening);
    assert_eq!(action, ServerAction::LogConnectionError);
    let (state, action) =
        ServerState::Listening.on_event(ServerEvent::ConnectionEnded { failed: false });
    assert_eq!(state, ServerState::Listening);
    assert_eq!(action, ServerAction::Nothing);
}

#[test]
fn set_ends_when_every_bind_failed() {
    assert!(set_finished(&vec![]));
    assert!(set_finished(&vec![ServerState::Stopped]));
    assert!(set_finished(&vec![ServerState::Stopped, ServerState::Stopped]));
    assert!(!set_finished(&vec![ServerState::Stopped, ServerState::Listening]));
    assert!(!set_finished(&vec![ServerState::Binding, ServerState::Stopped]));
    assert!(!set_finished(&vec![ServerState::Listening]));
}

#[test]
fn one_bind_failure_leaves_the_other_tunnels() {
    let mut servers = vec![ServerState::start(), ServerState::start()];
    servers[0] = servers[0].on_event(ServerEvent::BindFailed).0;
    servers[1] = servers[1].on_event(ServerEvent::Bound).0;
    assert_eq!(servers, vec![ServerState::Stopped, ServerState::Listening]);
    assert!(!set_finished(&servers));
}
