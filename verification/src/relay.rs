//! One exchange with the compilation backend, as the decisions that the
//! relay takes between the steps of the transport.
//!
//! The caller owns the connection. It tells `step` what happened and does
//! what `step` answers, until an answer ends the exchange.

use vstd::prelude::*;
use vstd::string::StringExecFns;
use crate::response::{BackendResponse, ResponseView};

verus! {

/// The path of the backend's compile operation, appended to its base
/// address.
pub const RUN_PATH: &'static str = "/run";

/// Whether an HTTP status reports success: 200 to 299.
pub open spec fn success_status(status: u16) -> bool {
    200 <= status <= 299
}

/// Tells a success status from every other status.
pub fn is_success(status: u16) -> (yes: bool)
    ensures
        yes == success_status(status),
{
    200 <= status && status <= 299
}

/// The address of the compile operation for a backend at `base_url`.
pub fn endpoint(base_url: &str) -> (url: String)
    ensures
        url@ == base_url@ + RUN_PATH@,
{
    let mut url = String::from_str(base_url);
    url.append(RUN_PATH);
    url
}

/// Why an exchange gave no backend response.
#[derive(Clone, Debug, PartialEq, Eq)]
pub enum RelayError {
    /// The transport failed; the field describes the cause.
    Network(String),
    /// The backend answered with a status other than success; the field is
    /// the body of its answer.
    Backend(String),
    /// The backend's body could not be decoded; the field describes why.
    Decode(String),
}

/// A `RelayError` with its text as a sequence.
pub enum RelayErrorView {
    Network(Seq<char>),
    Backend(Seq<char>),
    Decode(Seq<char>),
}

impl View for RelayError {
    type V = RelayErrorView;

    open spec fn view(&self) -> RelayErrorView {
        match self {
            RelayError::Network(cause) => RelayErrorView::Network(cause@),
            RelayError::Backend(text) => RelayErrorView::Backend(text@),
            RelayError::Decode(cause) => RelayErrorView::Decode(cause@),
        }
    }
}

/// How far an exchange has come.
#[derive(Clone, Copy, Debug, PartialEq, Eq)]
pub enum Phase {
    /// Nothing has been sent.
    Ready,
    /// The request is on its way; the status is awaited.
    AwaitingStatus,
    /// The status was no success; the body is awaited as text.
    AwaitingErrorText,
    /// The status was a success; the body is awaited as bytes.
    AwaitingBody,
    /// The body arrived; its decoding is awaited.
    AwaitingDecode,
    /// The exchange is over.
    Done,
}

/// What the caller reports.
#[derive(Clone, Debug, PartialEq, Eq)]
pub enum Event {
    /// A job arrived with this source code.
    Submitted(String),
    /// The transport failed, for this cause.
    TransportFailed(String),
    /// The backend answered with this status.
    StatusReceived(u16),
    /// The body arrived as text.
    TextReceived(String),
    /// The body arrived as bytes.
    BodyReceived(Vec<u8>),
    /// The body was decoded.
    Decoded(BackendResponse),
    /// The body could not be decoded, for this cause.
    DecodeFailed(String),
}

/// An `Event` as mathematical values.
pub enum EventView {
    Submitted(Seq<char>),
    TransportFailed(Seq<char>),
    StatusReceived(u16),
    TextReceived(Seq<char>),
    BodyReceived(Seq<u8>),
    Decoded(ResponseView),
    DecodeFailed(Seq<char>),
}

impl View for Event {
    type V = EventView;

    open spec fn view(&self) -> EventView {
        match self {
            Event::Submitted(code) => EventView::Submitted(code@),
            Event::TransportFailed(cause) => EventView::TransportFailed(cause@),
            Event::StatusReceived(status) => EventView::StatusReceived(*status),
            Event::TextReceived(text) => EventView::TextReceived(text@),
            Event::BodyReceived(bytes) => EventView::BodyReceived(bytes@),
            Event::Decoded(response) => EventView::Decoded(response@),
            Event::DecodeFailed(cause) => EventView::DecodeFailed(cause@),
        }
    }
}

/// What the caller is to do next.
#[derive(Clone, Debug, PartialEq, Eq)]
pub enum Action {
    /// Post `body` to `url`, once.
    Send { url: String, body: String },
    /// Read the body of the answer as text.
    ReadText,
    /// Read the whole body of the answer as bytes.
    ReadBody,
    /// Decode these bytes as a backend response.
    Decode(Vec<u8>),
    /// The exchange ends with this response.
    Deliver(BackendResponse),
    /// The exchange ends with this error.
    Fail(RelayError),
    /// Nothing: the event does not belong to the phase.
    Nothing,
}

/// An `Action` as mathematical values.
pub enum ActionView {
    Send { url: Seq<char>, body: Seq<char> },
    ReadText,
    ReadBody,
    Decode(Seq<u8>),
    Deliver(ResponseView),
    Fail(RelayErrorView),
    Nothing,
}

impl View for Action {
    type V = ActionView;

    open spec fn view(&self) -> ActionView {
        match self {
            Action::Send { url, body } => ActionView::Send { url: url@, body: body@ },
            Action::ReadText => ActionView::ReadText,
            Action::ReadBody => ActionView::ReadBody,
            Action::Decode(bytes) => ActionView::Decode(bytes@),
            Action::Deliver(response) => ActionView::Deliver(response@),
            Action::Fail(error) => ActionView::Fail(error@),
            Action::Nothing => ActionView::Nothing,
        }
    }
}

/// The phase that follows `phase` on `event`, and what is to be done.
///
/// A job is sent once, as it is, to the compile operation of the backend at
/// `base_url`. A transport failure while anything is awaited from the
/// backend ends the exchange with `Network`. A status other than success
/// has the body read as text, and that text ends the exchange with
/// `Backend`. A success status has the body read as bytes and decoded: the
/// response ends the exchange, or `Decode` does. An event that the phase
/// does not await changes nothing.
pub open spec fn transition(base_url: Seq<char>, phase: Phase, event: EventView) -> (
    Phase,
    ActionView,
) {
    match (phase, event) {
        (Phase::Ready, EventView::Submitted(code)) => (
            Phase::AwaitingStatus,
            ActionView::Send { url: base_url + RUN_PATH@, body: code },
        ),
        (Phase::AwaitingStatus, EventView::TransportFailed(cause)) => (
            Phase::Done,
            ActionView::Fail(RelayErrorView::Network(cause)),
        ),
        (Phase::AwaitingErrorText, EventView::TransportFailed(cause)) => (
            Phase::Done,
            ActionView::Fail(RelayErrorView::Network(cause)),
        ),
        (Phase::AwaitingBody, EventView::TransportFailed(cause)) => (
            Phase::Done,
            ActionView::Fail(RelayErrorView::Network(cause)),
        ),
        (Phase::AwaitingStatus, EventView::StatusReceived(status)) => if success_status(status) {
            (Phase::AwaitingBody, ActionView::ReadBody)
        } else {
            (Phase::AwaitingErrorText, ActionView::ReadText)
        },
        (Phase::AwaitingErrorText, EventView::TextReceived(text)) => (
            Phase::Done,
            ActionView::Fail(RelayErrorView::Backend(text)),
        ),
        (Phase::AwaitingBody, EventView::BodyReceived(bytes)) => (
            Phase::AwaitingDecode,
            ActionView::Decode(bytes),
        ),
        (Phase::AwaitingDecode, EventView::Decoded(response)) => (
            Phase::Done,
            ActionView::Deliver(response),
        ),
        (Phase::AwaitingDecode, EventView::DecodeFailed(cause)) => (
            Phase::Done,
            ActionView::Fail(RelayErrorView::Decode(cause)),
        ),
        _ => (phase, ActionView::Nothing),
    }
}

/// Takes one step of an exchange with the backend at `base_url`.
pub fn step(base_url: &str, phase: Phase, event: Event) -> (next: (Phase, Action))
    ensures
        (next.0, next.1@) == transition(base_url@, phase, event@),
{
    match (phase, event) {
        (Phase::Ready, Event::Submitted(code)) => (
            Phase::AwaitingStatus,
            Action::Send { url: endpoint(base_url), body: code },
        ),
        (Phase::AwaitingStatus, Event::TransportFailed(cause)) => (
            Phase::Done,
            Action::Fail(RelayError::Network(cause)),
        ),
        (Phase::AwaitingErrorText, Event::TransportFailed(cause)) => (
            Phase::Done,
            Action::Fail(RelayError::Network(cause)),
        ),
        (Phase::AwaitingBody, Event::TransportFailed(cause)) => (
            Phase::Done,
            Action::Fail(RelayError::Network(cause)),
        ),
        (Phase::AwaitingStatus, Event::StatusReceived(status)) => if is_success(status) {
            (Phase::AwaitingBody, Action::ReadBody)
        } else {
            (Phase::AwaitingErrorText, Action::ReadText)
        },
        (Phase::AwaitingErrorText, Event::TextReceived(text)) => (
            Phase::Done,
            Action::Fail(RelayError::Backend(text)),
        ),
        (Phase::AwaitingBody, Event::BodyReceived(bytes)) => (
            Phase::AwaitingDecode,
            Action::Decode(bytes),
        ),
        (Phase::AwaitingDecode, Event::Decoded(response)) => (
            Phase::Done,
            Action::Deliver(response),
        ),
        (Phase::AwaitingDecode, Event::DecodeFailed(cause)) => (
            Phase::Done,
            Action::Fail(RelayError::Decode(cause)),
        ),
        (phase, _) => (phase, Action::Nothing),
    }
}

/// How far a phase lies from the start of an exchange.
pub open spec fn progress(phase: Phase) -> nat {
    match phase {
        Phase::Ready => 0,
        Phase::AwaitingStatus => 1,
        Phase::AwaitingErrorText => 2,
        Phase::AwaitingBody => 2,
        Phase::AwaitingDecode => 3,
        Phase::Done => 4,
    }
}

/// An exchange sends once and never again: a request goes out only for a job
/// that arrives while nothing has been sent, it holds the job's code as it
/// came, and no step leads back to an earlier phase.
pub proof fn lemma_sends_once(base_url: Seq<char>, phase: Phase, event: EventView)
    ensures
        progress(phase) <= progress(transition(base_url, phase, event).0),
        transition(base_url, phase, event).1 is Send ==> phase == Phase::Ready && event
            == EventView::Submitted(transition(base_url, phase, event).1->body) && progress(phase)
            < progress(transition(base_url, phase, event).0),
{
}

/// An exchange ends exactly where a response is delivered or an error is
/// raised, and an ended exchange does nothing more.
pub proof fn lemma_ends_with_an_answer(base_url: Seq<char>, phase: Phase, event: EventView)
    ensures
        phase == Phase::Done ==> transition(base_url, phase, event) == (
            Phase::Done,
            ActionView::Nothing,
        ),
        phase != Phase::Done ==> (transition(base_url, phase, event).0 == Phase::Done <==> (
            transition(base_url, phase, event).1 is Deliver || transition(
                base_url,
                phase,
                event,
            ).1 is Fail)),
{
}

/// What a caller is asked to do, one action for each event, when it reports
/// `events` in turn to an exchange that stands in `phase`.
pub open spec fn actions(base_url: Seq<char>, phase: Phase, events: Seq<EventView>) -> Seq<
    ActionView,
>
    decreases events.len(),
{
    if events.len() == 0 {
        Seq::empty()
    } else {
        let (next, action) = transition(base_url, phase, events[0]);
        seq![action] + actions(base_url, next, events.drop_first())
    }
}

/// How many of `actions` ask for a request to be sent.
pub open spec fn sends(actions: Seq<ActionView>) -> nat
    decreases actions.len(),
{
    if actions.len() == 0 {
        0
    } else if actions[0] is Send {
        1 + sends(actions.drop_first())
    } else {
        sends(actions.drop_first())
    }
}

/// Whatever is reported and in whatever order, an exchange asks for at most
/// one request, and for none once it has left its first phase: nothing is
/// ever tried again.
pub proof fn lemma_never_sends_twice(base_url: Seq<char>, phase: Phase, events: Seq<EventView>)
    ensures
        sends(actions(base_url, phase, events)) <= 1,
        phase != Phase::Ready ==> sends(actions(base_url, phase, events)) == 0,
    decreases events.len(),
{
    if events.len() > 0 {
        let (next, action) = transition(base_url, phase, events[0]);
        let later = actions(base_url, next, events.drop_first());
        lemma_never_sends_twice(base_url, next, events.drop_first());
        assert((seq![action] + later).drop_first() =~= later);
    }
}

} // verus!
