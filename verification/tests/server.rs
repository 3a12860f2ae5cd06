use example_service::error::BindError;
use example_service::server::{Action, Event, Server, Stage};

fn accepting(drain_timeout: u64) -> Server {
    let mut server = Server::new(drain_timeout);
    assert_eq!(server.step(Event::Bound), Action::Nothing);
    server
}

#[test]
fn new_server_is_starting() {
    let server = Server::new(500);
    assert_eq!(server.stage(), Stage::Starting);
    assert_eq!(server.active(), 0);
}

#[test]
fn bound_server_admits_connections() {
    let mut server = accepting(500);
    assert_eq!(server.stage(), Stage::Accepting);
    assert_eq!(server.step(Event::Incoming), Action::Admit);
    assert_eq!(server.step(Event::Incoming), Action::Admit);
    assert_eq!(server.active(), 2);
    assert_eq!(server.step(Event::ConnectionClosed), Action::Nothing);
    assert_eq!(server.active(), 1);
}

#[test]
fn server_that_is_not_bound_refuses_connections() {
    let mut server = Server::new(500);
    assert_eq!(server.step(Event::Incoming), Action::Refuse);
    assert_eq!(server.active(), 0);
}

#[test]
fn bind_failure_is_fatal() {
    let mut server = Server::new(500);
    assert_eq!(server.step(Event::BindFailed), Action::Fatal(BindError {}));
    assert_eq!(server.stage(), Stage::Failed);
    assert_eq!(server.step(Event::Bound), Action::Nothing);
    assert_eq!(server.step(Event::Incoming), Action::Refuse);
    assert_eq!(server.step(Event::Shutdown { now: 1 }), Action::Nothing);
    assert_eq!(server.step(Event::Tick { now: 1_000_000 }), Action::Nothing);
    assert_eq!(server.stage(), Stage::Failed);
}

#[test]
fn bind_failure_after_binding_is_ignored() {
    let mut server = accepting(500);
    assert_eq!(server.step(Event::BindFailed), Action::Nothing);
    assert_eq!(server.stage(), Stage::Accepting);
}

#[test]
fn shutdown_without_connections_stops_at_once() {
    let mut server = accepting(500);
    assert_eq!(server.step(Event::Shutdown { now: 10 }), Action::Stop);
    assert_eq!(server.stage(), Stage::Stopped);
    assert_eq!(server.step(Event::Incoming), Action::Refuse);
}

#[test]
fn shutdown_without_drain_time_closes_by_force() {
    let mut server = accepting(0);
    assert_eq!(server.step(Event::Incoming), Action::Admit);
    assert_eq!(server.step(Event::Shutdown { now: 10 }), Action::ForceClose);
    assert_eq!(server.stage(), Stage::Stopped);
    assert_eq!(server.active(), 0);
    assert_eq!(server.step(Event::ConnectionClosed), Action::Nothing);
}

#[test]
fn shutdown_with_connections_drains_until_the_deadline() {
    let mut server = accepting(500);
    assert_eq!(server.step(Event::Incoming), Action::Admit);
    assert_eq!(server.step(Event::Incoming), Action::Admit);
    assert_eq!(server.step(Event::Shutdown { now: 1000 }), Action::Drain { deadline: 1500 });
    assert_eq!(server.stage(), Stage::Draining);
    assert_eq!(server.step(Event::Incoming), Action::Refuse);
    assert_eq!(server.step(Event::Tick { now: 1499 }), Action::Nothing);
    assert_eq!(server.stage(), Stage::Draining);
    assert_eq!(server.step(Event::Tick { now: 1500 }), Action::ForceClose);
    assert_eq!(server.stage(), Stage::Stopped);
    assert_eq!(server.active(), 0);
    assert_eq!(server.step(Event::Tick { now: 2000 }), Action::Nothing);
    assert_eq!(server.step(Event::Incoming), Action::Refuse);
}

#[test]
fn draining_ends_with_the_last_connection() {
    let mut server = accepting(500);
    assert_eq!(server.step(Event::Incoming), Action::Admit);
    assert_eq!(server.step(Event::Incoming), Action::Admit);
    assert_eq!(server.step(Event::Shutdown { now: 1000 }), Action::Drain { deadline: 1500 });
    assert_eq!(server.step(Event::ConnectionClosed), Action::Nothing);
    assert_eq!(server.stage(), Stage::Draining);
    assert_eq!(server.step(Event::ConnectionClosed), Action::Stop);
    assert_eq!(server.stage(), Stage::Stopped);
    assert_eq!(server.step(Event::Tick { now: 9999 }), Action::Nothing);
}

#[test]
fn second_shutdown_changes_nothing() {
    let mut server = accepting(500);
    assert_eq!(server.step(Event::Incoming), Action::Admit);
    assert_eq!(server.step(Event::Shutdown { now: 1000 }), Action::Drain { deadline: 1500 });
    assert_eq!(server.step(Event::Shutdown { now: 1200 }), Action::Nothing);
    assert_eq!(server.step(Event::Tick { now: 1500 }), Action::ForceClose);
}

#[test]
fn deadline_stops_at_the_end_of_time() {
    let mut server = accepting(u64::MAX);
    assert_eq!(server.step(Event::Incoming), Action::Admit);
    assert_eq!(server.step(Event::Shutdown { now: 5 }), Action::Drain { deadline: u64::MAX });
    assert_eq!(server.step(Event::Tick { now: u64::MAX - 1 }), Action::Nothing);
    assert_eq!(server.step(Event::Tick { now: u64::MAX }), Action::ForceClose);
}

#[test]
fn shutdown_before_binding_stops_the_server() {
    let mut server = Server::new(500);
    assert_eq!(server.step(Event::Shutdown { now: 0 }), Action::Stop);
    assert_eq!(server.stage(), Stage::Stopped);
    assert_eq!(server.step(Event::Bound), Action::Nothing);
    assert_eq!(server.stage(), Stage::Stopped);
}

#[test]
fn closing_with_no_connection_changes_nothing() {
    let mut server = accepting(500);
    assert_eq!(server.step(Event::ConnectionClosed), Action::Nothing);
    assert_eq!(server.active(), 0);
    assert_eq!(server.stage(), Stage::Accepting);
}
