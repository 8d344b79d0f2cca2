use auto_volume::error::MeterError;
use auto_volume::session::{monitor_source_name, Action, ConnectionState, Event, Session, SinkSlot};

const SINK: &str = "alsa_output.pci-0000_00_1f.3.analog-stereo";
const MONITOR: &str = "alsa_output.pci-0000_00_1f.3.analog-stereo.monitor";

fn info(name: &str) -> Event {
    Event::ServerInfo(Some(name.to_string()))
}

#[test]
fn monitor_source_is_sink_name_with_suffix() {
    assert_eq!(monitor_source_name(SINK), MONITOR);
    assert_eq!(monitor_source_name(""), ".monitor");
    assert_eq!(monitor_source_name("é"), "é.monitor");
}

#[test]
fn new_session_is_connecting() {
    assert_eq!(Session::new(), Session::Connecting);
}

#[test]
fn session_waits_while_not_ready() {
    let (session, action) = Session::new().step(Event::Iterated(ConnectionState::Unconnected));
    assert_eq!(session, Session::Connecting);
    assert_eq!(action, Action::Iterate);
    let (session, action) = session.step(Event::Iterated(ConnectionState::Connecting));
    assert_eq!(session, Session::Connecting);
    assert_eq!(action, Action::Iterate);
}

#[test]
fn ready_connection_asks_for_server_info() {
    let (session, action) = Session::new().step(Event::Iterated(ConnectionState::Ready));
    assert_eq!(session, Session::Resolving);
    assert_eq!(action, Action::RequestServerInfo);
}

#[test]
fn resolving_keeps_iterating_until_the_answer() {
    let (session, action) = Session::Resolving.step(Event::Iterated(ConnectionState::Ready));
    assert_eq!(session, Session::Resolving);
    assert_eq!(action, Action::Iterate);
}

#[test]
fn default_sink_resolves_to_its_monitor() {
    let (session, action) = Session::Resolving.step(info(SINK));
    assert_eq!(session, Session::Resolved(MONITOR.to_string()));
    assert_eq!(action, Action::OpenStream { source: MONITOR.to_string() });
}

#[test]
fn missing_default_sink_is_a_resolution_error() {
    let (session, action) = Session::Resolving.step(Event::ServerInfo(None));
    assert_eq!(session, Session::Aborted(MeterError::Resolution));
    assert_eq!(action, Action::Abort(MeterError::Resolution));
}

#[test]
fn failed_connection_aborts_startup_and_opens_no_stream() {
    let (session, action) = Session::new().step(Event::Iterated(ConnectionState::Connecting));
    assert_eq!(action, Action::Iterate);
    let (session, action) = session.step(Event::Iterated(ConnectionState::Failed));
    assert_eq!(session, Session::Aborted(MeterError::Connection));
    assert_eq!(action, Action::Abort(MeterError::Connection));
    let (session, action) = session.step(Event::Iterated(ConnectionState::Ready));
    assert_eq!(action, Action::Abort(MeterError::Connection));
    let (session, action) = session.step(info(SINK));
    assert_eq!(session, Session::Aborted(MeterError::Connection));
    assert_eq!(action, Action::Abort(MeterError::Connection));
}

#[test]
fn terminated_connection_aborts_startup() {
    let (session, action) = Session::new().step(Event::Iterated(ConnectionState::Terminated));
    assert_eq!(session, Session::Aborted(MeterError::Connection));
    assert_eq!(action, Action::Abort(MeterError::Connection));
}

#[test]
fn connection_lost_while_resolving_aborts() {
    let (session, action) = Session::Resolving.step(Event::Iterated(ConnectionState::Failed));
    assert_eq!(session, Session::Aborted(MeterError::Connection));
    assert_eq!(action, Action::Abort(MeterError::Connection));
    let (_, action) = Session::Resolving.step(Event::Iterated(ConnectionState::Terminated));
    assert_eq!(action, Action::Abort(MeterError::Connection));
}

#[test]
fn connection_lost_after_resolution_aborts() {
    let (session, action) =
        Session::Resolved(MONITOR.to_string()).step(Event::Iterated(ConnectionState::Failed));
    assert_eq!(session, Session::Aborted(MeterError::Connection));
    assert_eq!(action, Action::Abort(MeterError::Connection));
}

#[test]
fn server_info_that_was_not_asked_for_is_ignored() {
    let (session, action) = Session::new().step(info(SINK));
    assert_eq!(session, Session::Connecting);
    assert_eq!(action, Action::Iterate);
}

#[test]
fn resolved_session_keeps_its_answer() {
    let (session, action) =
        Session::Resolved(MONITOR.to_string()).step(Event::Iterated(ConnectionState::Ready));
    assert_eq!(session, Session::Resolved(MONITOR.to_string()));
    assert_eq!(action, Action::OpenStream { source: MONITOR.to_string() });
    let (session, action) = session.step(info("other"));
    assert_eq!(session, Session::Resolved(MONITOR.to_string()));
    assert_eq!(action, Action::OpenStream { source: MONITOR.to_string() });
}

#[test]
fn aborted_session_repeats_its_error() {
    let (session, action) = Session::Aborted(MeterError::Resolution).step(info(SINK));
    assert_eq!(session, Session::Aborted(MeterError::Resolution));
    assert_eq!(action, Action::Abort(MeterError::Resolution));
    let (_, action) = session.step(Event::Iterated(ConnectionState::Failed));
    assert_eq!(action, Action::Abort(MeterError::Resolution));
}

#[test]
fn sink_slot_starts_empty() {
    let slot = SinkSlot::new();
    assert!(!slot.is_done());
    assert_eq!(slot.poll(), None);
}

#[test]
fn sink_slot_hands_over_the_answer() {
    let mut slot = SinkSlot::new();
    slot.deliver(Some(SINK.to_string()));
    assert!(slot.is_done());
    assert_eq!(slot.poll(), Some(info(SINK)));
    assert_eq!(slot.poll(), Some(info(SINK)));
}

#[test]
fn sink_slot_hands_over_a_missing_sink() {
    let mut slot = SinkSlot::new();
    slot.deliver(None);
    assert!(slot.is_done());
    assert_eq!(slot.poll(), Some(Event::ServerInfo(None)));
}

#[test]
fn sink_slot_is_written_once() {
    let mut slot = SinkSlot::new();
    slot.deliver(Some(SINK.to_string()));
    slot.deliver(Some("other".to_string()));
    slot.deliver(None);
    assert_eq!(slot, SinkSlot::Filled(Some(SINK.to_string())));
}

#[test]
fn only_failed_and_terminated_are_fatal() {
    assert!(ConnectionState::Failed.fatal());
    assert!(ConnectionState::Terminated.fatal());
    assert!(!ConnectionState::Unconnected.fatal());
    assert!(!ConnectionState::Connecting.fatal());
    assert!(!ConnectionState::Ready.fatal());
}
