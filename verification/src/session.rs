use crate::error::MeterError;
use vstd::prelude::*;
use vstd::string::StringExecFns;

verus! {

/// State of the connection, as the audio server reports it.
#[derive(Clone, Copy, Debug, PartialEq, Eq, Structural)]
pub enum ConnectionState {
    Unconnected,
    Connecting,
    Ready,
    Failed,
    Terminated,
}

impl ConnectionState {
    /// A state from which the connection never recovers.
    pub open spec fn is_fatal(self) -> bool {
        self is Failed || self is Terminated
    }

    /// Whether the connection can never recover from this state.
    pub fn fatal(&self) -> (yes: bool)
        ensures
            yes == self.is_fatal(),
    {
        match self {
            ConnectionState::Failed | ConnectionState::Terminated => true,
            _ => false,
        }
    }
}

/// What the driver of the event loop reports to the session.
#[derive(Debug, PartialEq, Eq)]
pub enum Event {
    /// The event loop ran once; the connection is now in this state.
    Iterated(ConnectionState),
    /// The server answered the introspection request, with the name of the
    /// default output device if it has one.
    ServerInfo(Option<String>),
}

/// What the session asks its driver to do next.
#[derive(Debug, PartialEq, Eq)]
pub enum Action {
    /// Run the event loop once more, blocking, and report the state.
    Iterate,
    /// Ask the server for its info, then keep running the event loop.
    RequestServerInfo,
    /// Open the capture stream on this monitor source.
    OpenStream { source: String },
    /// Give up: startup has failed for good.
    Abort(MeterError),
}

/// The handshake with the audio server, from the first connection attempt to
/// the name of the monitor source to capture from.
#[derive(Debug, PartialEq, Eq)]
pub enum Session {
    /// Waiting for the connection to become ready.
    Connecting,
    /// Connected; waiting for the server to name its default output.
    Resolving,
    /// Done: the monitor source is known.
    Resolved(String),
    /// Failed for good.
    Aborted(MeterError),
}

/// Mathematical form of an [`Event`].
pub enum EventView {
    Iterated(ConnectionState),
    ServerInfo(Option<Seq<char>>),
}

/// Mathematical form of an [`Action`].
pub enum ActionView {
    Iterate,
    RequestServerInfo,
    OpenStream { source: Seq<char> },
    Abort(MeterError),
}

/// Mathematical form of a [`Session`].
pub enum SessionView {
    Connecting,
    Resolving,
    Resolved(Seq<char>),
    Aborted(MeterError),
}

impl View for Event {
    type V = EventView;

    open spec fn view(&self) -> EventView {
        match *self {
            Event::Iterated(state) => EventView::Iterated(state),
            Event::ServerInfo(Some(name)) => EventView::ServerInfo(Some(name@)),
            Event::ServerInfo(None) => EventView::ServerInfo(None),
        }
    }
}

impl View for Action {
    type V = ActionView;

    open spec fn view(&self) -> ActionView {
        match *self {
            Action::Iterate => ActionView::Iterate,
            Action::RequestServerInfo => ActionView::RequestServerInfo,
            Action::OpenStream { source } => ActionView::OpenStream { source: source@ },
            Action::Abort(error) => ActionView::Abort(error),
        }
    }
}

impl View for Session {
    type V = SessionView;

    open spec fn view(&self) -> SessionView {
        match *self {
            Session::Connecting => SessionView::Connecting,
            Session::Resolving => SessionView::Resolving,
            Session::Resolved(source) => SessionView::Resolved(source@),
            Session::Aborted(error) => SessionView::Aborted(error),
        }
    }
}

/// What is appended to the name of an output device to name the source that
/// mirrors it.
pub open spec fn monitor_suffix() -> Seq<char> {
    seq!['.', 'm', 'o', 'n', 'i', 't', 'o', 'r']
}

/// The monitor source of the output device `sink`.
pub open spec fn monitor_of(sink: Seq<char>) -> Seq<char> {
    sink + monitor_suffix()
}

/// The state after `event`, and what to do next.
///
/// A fatal connection state ends the session whenever it is seen. Until
/// then: while connecting, `Ready` moves on to resolution; while resolving,
/// the server's answer either names the monitor source or, without a default
/// output, fails the session. A finished session answers every event the
/// same way.
pub open spec fn next(session: SessionView, event: EventView) -> (SessionView, ActionView) {
    match session {
        SessionView::Aborted(error) => (session, ActionView::Abort(error)),
        _ => match event {
            EventView::Iterated(state) => if state.is_fatal() {
                (
                    SessionView::Aborted(MeterError::Connection),
                    ActionView::Abort(MeterError::Connection),
                )
            } else {
                match session {
                    SessionView::Connecting => if state is Ready {
                        (SessionView::Resolving, ActionView::RequestServerInfo)
                    } else {
                        (session, ActionView::Iterate)
                    },
                    SessionView::Resolved(source) => (session, ActionView::OpenStream { source }),
                    _ => (session, ActionView::Iterate),
                }
            },
            EventView::ServerInfo(info) => match session {
                SessionView::Resolving => match info {
                    Some(sink) => (
                        SessionView::Resolved(monitor_of(sink)),
                        ActionView::OpenStream { source: monitor_of(sink) },
                    ),
                    None => (
                        SessionView::Aborted(MeterError::Resolution),
                        ActionView::Abort(MeterError::Resolution),
                    ),
                },
                SessionView::Resolved(source) => (session, ActionView::OpenStream { source }),
                _ => (session, ActionView::Iterate),
            },
        },
    }
}

/// Name of the source that mirrors the output device `sink`.
pub fn monitor_source_name(sink: &str) -> (source: String)
    ensures
        source@ == monitor_of(sink@),
{
    proof {
        reveal_strlit(".monitor");
    }
    let mut source: String = String::from_str(sink);
    source.append(".monitor");
    assert(source@ =~= monitor_of(sink@));
    source
}

impl Session {
    /// A session that has just asked to be connected.
    pub fn new() -> (session: Session)
        ensures
            session@ == SessionView::Connecting,
    {
        Session::Connecting
    }

    /// Takes one event and says what to do next.
    pub fn step(self, event: Event) -> (result: (Session, Action))
        ensures
            (result.0@, result.1@) == next(self@, event@),
    {
        match self {
            Session::Aborted(error) => (Session::Aborted(error), Action::Abort(error)),
            session => match event {
                Event::Iterated(state) => {
                    if state.fatal() {
                        (
                            Session::Aborted(MeterError::Connection),
                            Action::Abort(MeterError::Connection),
                        )
                    } else {
                        match session {
                            Session::Connecting => {
                                if state == ConnectionState::Ready {
                                    (Session::Resolving, Action::RequestServerInfo)
                                } else {
                                    (Session::Connecting, Action::Iterate)
                                }
                            },
                            Session::Resolved(source) => {
                                let kept: String = source.clone();
                                (Session::Resolved(kept), Action::OpenStream { source })
                            },
                            waiting => (waiting, Action::Iterate),
                        }
                    }
                },
                Event::ServerInfo(info) => match session {
                    Session::Resolving => match info {
                        Some(sink) => {
                            let source: String = monitor_source_name(sink.as_str());
                            let kept: String = source.clone();
                            (Session::Resolved(kept), Action::OpenStream { source })
                        },
                        None => (
                            Session::Aborted(MeterError::Resolution),
                            Action::Abort(MeterError::Resolution),
                        ),
                    },
                    Session::Resolved(source) => {
                        let kept: String = source.clone();
                        (Session::Resolved(kept), Action::OpenStream { source })
                    },
                    waiting => (waiting, Action::Iterate),
                },
            },
        }
    }
}

/// The one-place hand-off between the introspection callback, which fills
/// it, and the loop that waits for it.
#[derive(Debug, PartialEq, Eq)]
pub enum SinkSlot {
    /// The server has not answered yet.
    Pending,
    /// The server has answered, with the default output's name if any.
    Filled(Option<String>),
}

/// Mathematical form of a [`SinkSlot`].
pub enum SinkSlotView {
    Pending,
    Filled(Option<Seq<char>>),
}

/// The characters of an optional name.
pub open spec fn name_view(name: Option<String>) -> Option<Seq<char>> {
    match name {
        Some(text) => Some(text@),
        None => None,
    }
}

impl View for SinkSlot {
    type V = SinkSlotView;

    open spec fn view(&self) -> SinkSlotView {
        match *self {
            SinkSlot::Pending => SinkSlotView::Pending,
            SinkSlot::Filled(name) => SinkSlotView::Filled(name_view(name)),
        }
    }
}

impl SinkSlot {
    /// An empty slot.
    pub fn new() -> (slot: SinkSlot)
        ensures
            slot@ == SinkSlotView::Pending,
    {
        SinkSlot::Pending
    }

    /// Records the server's answer. The slot is written once: a later
    /// answer changes nothing.
    pub fn deliver(&mut self, name: Option<String>)
        ensures
            old(self)@ is Pending ==> final(self)@ == SinkSlotView::Filled(name_view(name)),
            old(self)@ is Filled ==> final(self)@ == old(self)@,
    {
        if let SinkSlot::Pending = *self {
            *self = SinkSlot::Filled(name);
        }
    }

    /// Whether the server has answered.
    pub fn is_done(&self) -> (done: bool)
        ensures
            done == (self@ is Filled),
    {
        match self {
            SinkSlot::Pending => false,
            SinkSlot::Filled(_) => true,
        }
    }

    /// The event to hand to the session: the server's answer once it is
    /// there, and nothing before.
    pub fn poll(&self) -> (event: Option<Event>)
        ensures
            match self@ {
                SinkSlotView::Pending => event is None,
                SinkSlotView::Filled(name) => event is Some && event->Some_0@
                    == EventView::ServerInfo(name),
            },
    {
        match self {
            SinkSlot::Pending => None,
            SinkSlot::Filled(None) => Some(Event::ServerInfo(None)),
            SinkSlot::Filled(Some(name)) => Some(Event::ServerInfo(Some(name.clone()))),
        }
    }
}

/// The session after a run of events, starting from a fresh one.
pub open spec fn run(events: Seq<EventView>) -> SessionView
    decreases events.len(),
{
    if events.len() == 0 {
        SessionView::Connecting
    } else {
        next(run(events.drop_last()), events.last()).0
    }
}

/// The action that answers event `i` of a run.
pub open spec fn action_at(events: Seq<EventView>, i: int) -> ActionView {
    next(run(events.take(i)), events[i]).1
}

/// The connection was seen ready somewhere in `events`.
pub open spec fn ready_seen(events: Seq<EventView>) -> bool {
    exists|i: int|
        0 <= i < events.len() && events[i] == EventView::Iterated(ConnectionState::Ready)
}

/// Event `i` reports a connection state that is fatal.
pub open spec fn fatal_at(events: Seq<EventView>, i: int) -> bool {
    events[i] matches EventView::Iterated(state) && state.is_fatal()
}

proof fn lemma_run_step(events: Seq<EventView>, i: int)
    requires
        0 <= i < events.len(),
    ensures
        run(events.take(i + 1)) == next(run(events.take(i)), events[i]).0,
{
    assert(events.take(i + 1).drop_last() =~= events.take(i));
}

proof fn lemma_progress_needs_ready(events: Seq<EventView>)
    ensures
        !ready_seen(events) ==> run(events) == SessionView::Connecting || run(events)
            == SessionView::Aborted(MeterError::Connection),
    decreases events.len(),
{
    if events.len() > 0 {
        let before = events.drop_last();
        lemma_progress_needs_ready(before);
        if ready_seen(before) {
            let i = choose|i: int|
                0 <= i < before.len() && before[i] == EventView::Iterated(ConnectionState::Ready);
            assert(events[i] == EventView::Iterated(ConnectionState::Ready));
        } else if events.last() == EventView::Iterated(ConnectionState::Ready) {
            assert(events[events.len() - 1] == EventView::Iterated(ConnectionState::Ready));
        }
    }
}

proof fn lemma_aborted_stays(events: Seq<EventView>, i: int, j: int)
    requires
        0 <= i <= j <= events.len(),
        run(events.take(i)) is Aborted,
    ensures
        run(events.take(j)) == run(events.take(i)),
    decreases j - i,
{
    if i < j {
        lemma_aborted_stays(events, i, j - 1);
        lemma_run_step(events, j - 1);
    }
}

/// A session that has failed stays failed: it answers every event with the
/// same error.
pub proof fn lemma_aborted_is_final(error: MeterError, event: EventView)
    ensures
        next(SessionView::Aborted(error), event) == (
            SessionView::Aborted(error),
            ActionView::Abort(error),
        ),
{
}

/// Once a fatal connection state has been reported, every answer of the
/// session is to give up: no stream is opened afterwards.
pub proof fn lemma_no_stream_after_failure(events: Seq<EventView>, i: int, j: int)
    requires
        0 <= i <= j < events.len(),
        fatal_at(events, i),
    ensures
        action_at(events, j) is Abort,
{
    if i < j {
        lemma_run_step(events, i);
        lemma_aborted_stays(events, i + 1, j);
    }
}

/// A connection that fails before it was ever ready is reported as a
/// connection error.
pub proof fn lemma_failure_before_ready(events: Seq<EventView>, i: int)
    requires
        0 <= i < events.len(),
        fatal_at(events, i),
        !ready_seen(events.take(i)),
    ensures
        action_at(events, i) == ActionView::Abort(MeterError::Connection),
{
    lemma_progress_needs_ready(events.take(i));
}

/// A stream is only ever opened after the connection was seen ready.
pub proof fn lemma_stream_needs_ready(events: Seq<EventView>, j: int)
    requires
        0 <= j < events.len(),
        action_at(events, j) is OpenStream,
    ensures
        ready_seen(events.take(j)),
{
    lemma_progress_needs_ready(events.take(j));
}

} // verus!
