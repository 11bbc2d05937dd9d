//! One probe of one target, from the first connection attempt to its result.
//!
//! The probe is a state machine. The caller does the outside work (opening
//! the connection, sending the request, waiting for the answer, watching the
//! clock) and reports what happened as a [`ProbeEvent`]; the machine answers
//! with the next thing to do, or with the probe's result.
//!
//! ```text
//! Pending -> Connecting -> Connected -> Querying -> Succeeded
//!                |             |            |
//!                |             +------------+----> ProtocolFailed
//!                +-------------+------------+----> ConnectFailed
//! ```

use crate::response::RawStatusResponse;
use crate::status::{status_of, ServerStatus};
use crate::target::ScanTarget;
use vstd::prelude::*;

verus! {

/// Why a probe gave no status.
#[derive(Debug, Clone, Copy, PartialEq, Eq, Structural)]
pub enum ProbeError {
    /// No connection came about, or the time budget ran out.
    Unreachable,
    /// The connection stood, but the status exchange failed or its answer
    /// was not a well-formed response.
    ProtocolError,
}

/// Where a probe stands.
#[derive(Debug, Clone, Copy, PartialEq, Eq, Structural)]
pub enum ProbeState {
    /// Nothing has been done yet.
    Pending,
    /// The connection is being opened.
    Connecting,
    /// The connection stands; the status request is to be sent.
    Connected,
    /// The request is out; the answer is awaited.
    Querying,
    /// A well-formed answer came. The only state that yields a status.
    Succeeded,
    /// The exchange failed, or the answer was malformed.
    ProtocolFailed,
    /// The connection did not come about, or the time budget ran out.
    ConnectFailed,
}

/// What the caller reports to the machine.
#[derive(Debug, Clone, PartialEq, Eq)]
pub enum ProbeEvent {
    /// The worker has taken up the target.
    Begin,
    /// The connection was opened.
    ConnectionOpened,
    /// The connection was refused or the target could not be reached.
    ConnectionFailed,
    /// The status request was sent.
    RequestSent,
    /// A well-formed response arrived.
    ResponseReceived(RawStatusResponse),
    /// Sending or receiving failed, or the response was malformed.
    ExchangeFailed,
    /// The probe's time budget ran out.
    TimedOut,
}

/// What the machine asks of the caller.
#[derive(Debug, PartialEq, Eq)]
pub enum ProbeAction {
    /// Open a connection to the target.
    Connect,
    /// Send the status request over the connection.
    SendRequest,
    /// Wait for the response.
    AwaitResponse,
    /// Stop: this is the probe's result.
    Finish(Result<ServerStatus, ProbeError>),
}

impl ProbeState {
    /// Whether the probe has ended in this state.
    pub open spec fn is_final(self) -> bool {
        self == ProbeState::Succeeded || self == ProbeState::ProtocolFailed || self
            == ProbeState::ConnectFailed
    }

    /// How far a probe in this state has come.
    pub open spec fn rank(self) -> nat {
        match self {
            ProbeState::Pending => 0,
            ProbeState::Connecting => 1,
            ProbeState::Connected => 2,
            ProbeState::Querying => 3,
            ProbeState::Succeeded => 4,
            ProbeState::ProtocolFailed => 4,
            ProbeState::ConnectFailed => 4,
        }
    }

    /// Whether the probe has ended in this state.
    pub fn ended(self) -> (ended: bool)
        ensures
            ended == self.is_final(),
    {
        match self {
            ProbeState::Succeeded | ProbeState::ProtocolFailed | ProbeState::ConnectFailed => true,
            _ => false,
        }
    }
}

/// The state that follows `state` when `event` is reported, or `None` where a
/// probe in `state` does not await `event`.
///
/// Once the time budget has run out the target counts as unreachable,
/// whether the connection had come about or not.
pub open spec fn next_state(state: ProbeState, event: ProbeEvent) -> Option<ProbeState> {
    match (state, event) {
        (ProbeState::Pending, ProbeEvent::Begin) => Some(ProbeState::Connecting),
        (ProbeState::Connecting, ProbeEvent::ConnectionOpened) => Some(ProbeState::Connected),
        (ProbeState::Connecting, ProbeEvent::ConnectionFailed) => Some(ProbeState::ConnectFailed),
        (ProbeState::Connecting, ProbeEvent::TimedOut) => Some(ProbeState::ConnectFailed),
        (ProbeState::Connected, ProbeEvent::RequestSent) => Some(ProbeState::Querying),
        (ProbeState::Connected, ProbeEvent::ExchangeFailed) => Some(ProbeState::ProtocolFailed),
        (ProbeState::Connected, ProbeEvent::TimedOut) => Some(ProbeState::ConnectFailed),
        (ProbeState::Querying, ProbeEvent::ResponseReceived(_)) => Some(ProbeState::Succeeded),
        (ProbeState::Querying, ProbeEvent::ExchangeFailed) => Some(ProbeState::ProtocolFailed),
        (ProbeState::Querying, ProbeEvent::TimedOut) => Some(ProbeState::ConnectFailed),
        _ => None,
    }
}

/// Whether `action` is what the machine asks for when `event` has brought a
/// probe of `address` into `state`.
pub open spec fn action_fits(
    action: ProbeAction,
    state: ProbeState,
    event: ProbeEvent,
    address: Seq<char>,
) -> bool {
    match state {
        ProbeState::Pending => false,
        ProbeState::Connecting => action == ProbeAction::Connect,
        ProbeState::Connected => action == ProbeAction::SendRequest,
        ProbeState::Querying => action == ProbeAction::AwaitResponse,
        ProbeState::Succeeded => {
            &&& event matches ProbeEvent::ResponseReceived(response)
            &&& action matches ProbeAction::Finish(Ok(status))
            &&& status@ == status_of(response@, address)
        },
        ProbeState::ProtocolFailed => action == ProbeAction::Finish(
            Err(ProbeError::ProtocolError),
        ),
        ProbeState::ConnectFailed => action == ProbeAction::Finish(Err(ProbeError::Unreachable)),
    }
}

/// Every event that a probe accepts brings it forward, and a probe that has
/// ended accepts none. So a probe ends after four events at most, and it
/// connects once and asks once.
pub proof fn lemma_probe_advances(state: ProbeState, event: ProbeEvent)
    ensures
        state.is_final() ==> next_state(state, event) is None,
        next_state(state, event) matches Some(next) ==> state.rank() < next.rank() <= 4,
        next_state(state, event) == Some(ProbeState::Connecting) ==> state == ProbeState::Pending,
        next_state(state, event) == Some(ProbeState::Querying) ==> state == ProbeState::Connected,
{
}

/// A probe whose time runs out ends as unreachable, whether it was
/// connecting, about to ask, or waiting for the answer.
pub proof fn lemma_timeout_means_unreachable(
    state: ProbeState,
    action: ProbeAction,
    address: Seq<char>,
)
    requires
        state == ProbeState::Connecting || state == ProbeState::Connected || state
            == ProbeState::Querying,
    ensures
        next_state(state, ProbeEvent::TimedOut) == Some(ProbeState::ConnectFailed),
        action_fits(action, ProbeState::ConnectFailed, ProbeEvent::TimedOut, address) ==> action
            == ProbeAction::Finish(Err(ProbeError::Unreachable)),
{
}

/// A status comes out of a probe in the state `Succeeded` and in no other,
/// and it bears the address that was probed. A probe hands out a result when
/// it has ended, and only then.
pub proof fn lemma_only_success_yields_status(
    action: ProbeAction,
    state: ProbeState,
    event: ProbeEvent,
    address: Seq<char>,
)
    requires
        action_fits(action, state, event, address),
    ensures
        (action matches ProbeAction::Finish(Ok(_))) <==> state == ProbeState::Succeeded,
        action matches ProbeAction::Finish(Ok(status)) ==> status.address@ == address,
        (action is Finish) <==> state.is_final(),
{
}

/// The probe of one address.
#[derive(Debug, Clone, PartialEq, Eq)]
pub struct Probe {
    pub address: String,
    pub state: ProbeState,
}

impl Probe {
    /// A probe of `address` on which nothing has been done yet.
    pub fn new(address: String) -> (probe: Probe)
        ensures
            probe.address == address,
            probe.state == ProbeState::Pending,
    {
        Probe { address, state: ProbeState::Pending }
    }

    /// Takes `event` and says what to do next.
    ///
    /// Returns `None`, and leaves the probe as it is, where the probe does
    /// not await `event` in its state. Otherwise the probe moves to the state
    /// that `next_state` gives, and the action is the one for that state:
    /// the next piece of outside work, or the result. The result of a
    /// well-formed response is its status, made for the probe's address.
    pub fn step(&mut self, event: ProbeEvent) -> (action: Option<ProbeAction>)
        ensures
            final(self).address == old(self).address,
            match next_state(old(self).state, event) {
                Some(next) => {
                    &&& final(self).state == next
                    &&& action matches Some(action)
                    &&& action_fits(action, next, event, old(self).address@)
                },
                None => action is None && final(self).state == old(self).state,
            },
    {
        match (self.state, event) {
            (ProbeState::Pending, ProbeEvent::Begin) => {
                self.state = ProbeState::Connecting;
                Some(ProbeAction::Connect)
            },
            (ProbeState::Connecting, ProbeEvent::ConnectionOpened) => {
                self.state = ProbeState::Connected;
                Some(ProbeAction::SendRequest)
            },
            (ProbeState::Connected, ProbeEvent::RequestSent) => {
                self.state = ProbeState::Querying;
                Some(ProbeAction::AwaitResponse)
            },
            (ProbeState::Querying, ProbeEvent::ResponseReceived(response)) => {
                self.state = ProbeState::Succeeded;
                let status = ServerStatus::from_status(response, self.address.clone());
                Some(ProbeAction::Finish(Ok(status)))
            },
            (ProbeState::Connecting, ProbeEvent::ConnectionFailed) => {
                self.state = ProbeState::ConnectFailed;
                Some(ProbeAction::Finish(Err(ProbeError::Unreachable)))
            },
            (ProbeState::Connected, ProbeEvent::ExchangeFailed)
            | (ProbeState::Querying, ProbeEvent::ExchangeFailed) => {
                self.state = ProbeState::ProtocolFailed;
                Some(ProbeAction::Finish(Err(ProbeError::ProtocolError)))
            },
            (ProbeState::Connecting, ProbeEvent::TimedOut)
            | (ProbeState::Connected, ProbeEvent::TimedOut)
            | (ProbeState::Querying, ProbeEvent::TimedOut) => {
                self.state = ProbeState::ConnectFailed;
                Some(ProbeAction::Finish(Err(ProbeError::Unreachable)))
            },
            _ => None,
        }
    }
}

/// What an attempt to open a connection came to.
#[derive(Debug, PartialEq, Eq)]
pub enum ConnectOutcome<C> {
    /// The connection stands.
    Opened(C),
    /// The target refused, or could not be reached.
    Failed,
    /// The time budget ran out first.
    TimedOut,
}

/// What a status exchange came to.
#[derive(Debug, Clone, PartialEq, Eq)]
pub enum QueryOutcome {
    /// A well-formed response arrived.
    Answered(RawStatusResponse),
    /// Sending or receiving failed, or the response was malformed.
    Failed,
    /// The time budget ran out first.
    TimedOut,
}

/// Whether `result` is what a probe of `address` comes to when opening the
/// connection gave `connected` and the status exchange, if there was one,
/// gave `answered`.
///
/// Without a connection nothing is asked and the target is unreachable. With
/// one, a well-formed response gives its status, a failed exchange is a
/// protocol error, and an exchange that ran out of time leaves the target
/// unreachable.
pub open spec fn probe_comes_to<C>(
    address: Seq<char>,
    connected: ConnectOutcome<C>,
    answered: Option<QueryOutcome>,
    result: Result<ServerStatus, ProbeError>,
) -> bool {
    match connected {
        ConnectOutcome::Opened(_) => match answered {
            Some(QueryOutcome::Answered(response)) => {
                &&& result matches Ok(status)
                &&& status@ == status_of(response@, address)
            },
            Some(QueryOutcome::Failed) => result == Err::<ServerStatus, ProbeError>(
                ProbeError::ProtocolError,
            ),
            Some(QueryOutcome::TimedOut) => result == Err::<ServerStatus, ProbeError>(
                ProbeError::Unreachable,
            ),
            None => false,
        },
        _ => answered is None && result == Err::<ServerStatus, ProbeError>(ProbeError::Unreachable),
    }
}

/// Probes `target` once on the calling thread: `connect` is called to open
/// the connection, and `query`, if the connection stands, to ask for the
/// status over it. Both are given the time budget `timeout_ms`. Neither is
/// called a second time, whatever comes of the first call.
pub fn probe_with<
    C,
    F: FnOnce(&String, u64) -> ConnectOutcome<C>,
    G: FnOnce(C, u64) -> QueryOutcome,
>(
    target: &ScanTarget,
    timeout_ms: u64,
    connect: F,
    query: G,
) -> (result: Result<ServerStatus, ProbeError>)
    requires
        connect.requires((&target.address, timeout_ms)),
        forall|connection: C|
            connect.ensures((&target.address, timeout_ms), ConnectOutcome::Opened(connection))
                ==> #[trigger] query.requires((connection, timeout_ms)),
    ensures
        (exists|connected: ConnectOutcome<C>, answered: Option<QueryOutcome>|
            {
                &&& connect.ensures((&target.address, timeout_ms), connected)
                &&& answered matches Some(answer) ==> connected matches ConnectOutcome::Opened(
                    connection,
                ) && query.ensures((connection, timeout_ms), answer)
                &&& #[trigger] probe_comes_to(target.address@, connected, answered, result)
            }),
{
    let mut machine = Probe::new(target.address.clone());
    machine.step(ProbeEvent::Begin);
    let connected = connect(&target.address, timeout_ms);
    let ghost mut answered: Option<QueryOutcome> = None;
    let last = match connected {
        ConnectOutcome::Opened(connection) => {
            machine.step(ProbeEvent::ConnectionOpened);
            machine.step(ProbeEvent::RequestSent);
            let answer = query(connection, timeout_ms);
            proof {
                answered = Some(answer);
            }
            match answer {
                QueryOutcome::Answered(response) => machine.step(
                    ProbeEvent::ResponseReceived(response),
                ),
                QueryOutcome::Failed => machine.step(ProbeEvent::ExchangeFailed),
                QueryOutcome::TimedOut => machine.step(ProbeEvent::TimedOut),
            }
        },
        ConnectOutcome::Failed => machine.step(ProbeEvent::ConnectionFailed),
        ConnectOutcome::TimedOut => machine.step(ProbeEvent::TimedOut),
    };
    let result = match last {
        Some(ProbeAction::Finish(result)) => result,
        _ => Err(ProbeError::ProtocolError),
    };
    proof {
        assert(probe_comes_to(target.address@, connected, answered, result));
    }
    result
}

} // verus!
