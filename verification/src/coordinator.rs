//! The endpoints of the gateway, one per target version, and their shutdown.
//!
//! Each known version gets a listening endpoint of its own, on a port that
//! follows from the version. An endpoint hands every connection it accepts to
//! a session. All endpoints and sessions hang on one tree of cancellation
//! scopes: the coordinator holds the root, every endpoint shares it, and every
//! session gets a child of it, so that cancelling the root reaches them all.
//! The functions here decide; binding, accepting and waiting are the caller's.

use crate::provider::PatchProvider;
use crate::session::Session;
use std::sync::Arc;
use tokio_util::sync::CancellationToken;
use vstd::prelude::*;

verus! {

/// `tokio_util::sync::CancellationToken`: a handle to a cancellation scope.
/// Nothing inside it is visible to the contracts of this crate.
#[verifier::external_type_specification]
#[verifier::external_body]
pub struct ExCancellationToken(tokio_util::sync::CancellationToken);

/// `CancellationToken::new` makes a scope of its own, not cancelled. Nothing
/// is claimed of the result: whether a scope is cancelled can change at any
/// time through another handle.
pub assume_specification[ CancellationToken::new ]() -> (token: CancellationToken)
;

/// `CancellationToken::child_token` makes a scope that is cancelled whenever
/// the given one is, and whose own cancellation leaves the given one alone.
/// Nothing is claimed of the result.
pub assume_specification[ CancellationToken::child_token ](token: &CancellationToken) -> (child:
    CancellationToken)
;

/// `CancellationToken::cancel` cancels the scope and every scope derived from
/// it, and wakes whoever waits for that. It returns nothing, and nothing is
/// claimed of it.
pub assume_specification[ CancellationToken::cancel ](token: &CancellationToken)
;

/// `Clone::clone` of a `CancellationToken` makes another handle to the same
/// scope: the two compare equal, and cancelling either cancels both. The
/// contract claims that the result is the handle it was made from. It claims
/// nothing of whether the scope is cancelled.
pub assume_specification[ <CancellationToken as Clone>::clone ](token: &CancellationToken) -> (copy:
    CancellationToken)
    ensures
        copy == *token,
;

/// `Arc::clone` of std: another handle to the same provider.
#[verifier::external_body]
fn share_provider(provider: &Arc<PatchProvider>) -> (shared: Arc<PatchProvider>)
    ensures
        shared == *provider,
{
    Arc::clone(provider)
}

/// The port of the endpoint for version 0; the endpoint for version `v` listens `v` ports above it.
pub const BASE_PORT: u16 = 32000;

/// The number of connections that may wait to be accepted at an endpoint.
pub const LISTEN_BACKLOG: u32 = 5;

/// The port of the endpoint for `version`, where the version has one.
pub open spec fn port_of(version: u16) -> Option<u16> {
    if BASE_PORT + version <= u16::MAX {
        Some((BASE_PORT + version) as u16)
    } else {
        None
    }
}

/// Where an endpoint stands.
#[derive(Clone, Copy, Debug, PartialEq, Eq, Structural)]
pub enum EndpointState {
    /// The endpoint has a port but does not listen yet.
    Starting,
    /// The endpoint listens. Only now are connections served.
    Listening,
    /// The gateway is shutting down.
    Cancelled,
    /// Binding, listening or accepting has failed. The endpoint is lost; the others go on.
    Errored,
    /// The listener is released. Nothing follows.
    Stopped,
}

/// What happened at an endpoint.
#[derive(Clone, Copy, Debug, PartialEq, Eq, Structural)]
pub enum EndpointEvent {
    /// The listener is bound to the port and listens.
    Bound,
    /// The listener could not be bound, or could not listen.
    BindFailed,
    /// A connection has been accepted.
    Accepted,
    /// Accepting has failed.
    AcceptFailed,
    /// The endpoint's cancellation scope has fired.
    Cancelled,
    /// The listener has been released.
    Released,
}

/// What the caller does next at an endpoint.
#[derive(Clone, Copy, Debug, PartialEq, Eq, Structural)]
pub enum EndpointAction {
    /// Bind a listener to the endpoint's port on all interfaces and listen.
    Open,
    /// Wait for the next connection or for cancellation, whichever comes first.
    Accept,
    /// Start a session on the connection that was accepted, then wait as for `Accept`.
    Serve,
    /// Drop the connection that was accepted, then do what the endpoint's state asks for.
    Refuse,
    /// Stop accepting and release the listener.
    Halt,
    /// Nothing is left to do.
    Rest,
}

/// The state that follows `state` on `event`.
///
/// Binding starts the listening. A failure loses an endpoint that is starting
/// or listening, and cancellation takes it out of service. Releasing the
/// listener stops an endpoint that is lost or out of service. In every other
/// case the state stays as it is.
pub open spec fn next_endpoint_state(state: EndpointState, event: EndpointEvent) -> EndpointState {
    match (state, event) {
        (EndpointState::Starting, EndpointEvent::Bound) => EndpointState::Listening,
        (EndpointState::Starting, EndpointEvent::BindFailed) => EndpointState::Errored,
        (EndpointState::Starting, EndpointEvent::AcceptFailed) => EndpointState::Errored,
        (EndpointState::Starting, EndpointEvent::Cancelled) => EndpointState::Cancelled,
        (EndpointState::Listening, EndpointEvent::BindFailed) => EndpointState::Errored,
        (EndpointState::Listening, EndpointEvent::AcceptFailed) => EndpointState::Errored,
        (EndpointState::Listening, EndpointEvent::Cancelled) => EndpointState::Cancelled,
        (EndpointState::Cancelled, EndpointEvent::Released) => EndpointState::Stopped,
        (EndpointState::Errored, EndpointEvent::Released) => EndpointState::Stopped,
        _ => state,
    }
}

/// What an endpoint in `state` asks for when nothing has happened.
pub open spec fn standing_order(state: EndpointState) -> EndpointAction {
    match state {
        EndpointState::Starting => EndpointAction::Open,
        EndpointState::Listening => EndpointAction::Accept,
        EndpointState::Cancelled => EndpointAction::Halt,
        EndpointState::Errored => EndpointAction::Halt,
        EndpointState::Stopped => EndpointAction::Rest,
    }
}

/// What the caller does when `event` reaches an endpoint in `state`.
///
/// A connection is served when the endpoint listens and refused otherwise.
/// After any other event the caller follows the standing order of the state
/// that the event leads to.
pub open spec fn endpoint_order(state: EndpointState, event: EndpointEvent) -> EndpointAction {
    if event == EndpointEvent::Accepted {
        if state == EndpointState::Listening {
            EndpointAction::Serve
        } else {
            EndpointAction::Refuse
        }
    } else {
        standing_order(next_endpoint_state(state, event))
    }
}

/// The state of an endpoint that started in `state` after `events`, in their order.
pub open spec fn endpoint_after(state: EndpointState, events: Seq<EndpointEvent>) -> EndpointState
    decreases events.len(),
{
    if events.len() == 0 {
        state
    } else {
        next_endpoint_state(endpoint_after(state, events.drop_last()), events.last())
    }
}

/// True when an endpoint in `state` is out of service for good.
pub open spec fn out_of_service(state: EndpointState) -> bool {
    state == EndpointState::Cancelled || state == EndpointState::Errored || state
        == EndpointState::Stopped
}

/// Once an endpoint has been cancelled or lost, whatever happens later, it
/// never listens again and never serves another connection.
pub proof fn no_service_after_shutdown(
    state: EndpointState,
    events: Seq<EndpointEvent>,
    event: EndpointEvent,
)
    requires
        out_of_service(state),
    ensures
        out_of_service(endpoint_after(state, events)),
        endpoint_order(endpoint_after(state, events), event) != EndpointAction::Serve,
        endpoint_order(endpoint_after(state, events), event) != EndpointAction::Accept,
        endpoint_order(endpoint_after(state, events), event) != EndpointAction::Open,
    decreases events.len(),
{
    if events.len() > 0 {
        no_service_after_shutdown(state, events.drop_last(), events.last());
    }
}

/// Cancellation takes every endpoint out of service, whatever its state.
pub proof fn cancellation_ends_service(state: EndpointState)
    ensures
        out_of_service(next_endpoint_state(state, EndpointEvent::Cancelled)),
        endpoint_order(state, EndpointEvent::Cancelled) == EndpointAction::Halt || endpoint_order(
            state,
            EndpointEvent::Cancelled,
        ) == EndpointAction::Rest,
{
}

/// The port on which the endpoint for `version` listens: `version` ports
/// above the base port, where that is still a port.
pub fn endpoint_port(version: u16) -> (port: Option<u16>)
    ensures
        port == port_of(version),
{
    BASE_PORT.checked_add(version)
}

/// The listening endpoint of one target version.
pub struct Endpoint {
    target_version: u16,
    port: u16,
    state: EndpointState,
    patch_provider: Arc<PatchProvider>,
    scope: CancellationToken,
}

impl Endpoint {
    /// The version that clients of this endpoint are brought to.
    pub closed spec fn target(&self) -> u16 {
        self.target_version
    }

    /// The port on which the endpoint listens.
    pub closed spec fn listens_on(&self) -> u16 {
        self.port
    }

    /// Where the endpoint stands.
    pub closed spec fn current(&self) -> EndpointState {
        self.state
    }

    /// The provider that the endpoint's sessions read.
    pub closed spec fn provider(&self) -> Arc<PatchProvider> {
        self.patch_provider
    }

    /// The cancellation scope that the endpoint waits on.
    pub closed spec fn cancellation(&self) -> CancellationToken {
        self.scope
    }

    /// The version that clients of this endpoint are brought to.
    pub fn target_version(&self) -> (version: u16)
        ensures
            version == self.target(),
    {
        self.target_version
    }

    /// The port on which the endpoint listens.
    pub fn port(&self) -> (port: u16)
        ensures
            port == self.listens_on(),
    {
        self.port
    }

    /// Where the endpoint stands.
    pub fn state(&self) -> (state: EndpointState)
        ensures
            state == self.current(),
    {
        self.state
    }

    /// What the endpoint asks for when nothing has happened.
    pub fn order(&self) -> (action: EndpointAction)
        ensures
            action == standing_order(self.current()),
    {
        match self.state {
            EndpointState::Starting => EndpointAction::Open,
            EndpointState::Listening => EndpointAction::Accept,
            EndpointState::Cancelled => EndpointAction::Halt,
            EndpointState::Errored => EndpointAction::Halt,
            EndpointState::Stopped => EndpointAction::Rest,
        }
    }

    /// A handle to the provider that the endpoint's sessions read.
    pub fn patch_provider(&self) -> (provider: Arc<PatchProvider>)
        ensures
            provider == self.provider(),
    {
        share_provider(&self.patch_provider)
    }

    /// A handle to the cancellation scope that the endpoint waits on: the
    /// scope that the endpoint was given when it was made, not a new one and
    /// not a child of it.
    pub fn scope(&self) -> (scope: CancellationToken)
        ensures
            scope == self.cancellation(),
    {
        self.scope.clone()
    }

    /// Takes note of what happened at the endpoint and says what to do next.
    pub fn on_event(&mut self, event: EndpointEvent) -> (action: EndpointAction)
        ensures
            final(self).current() == next_endpoint_state(old(self).current(), event),
            action == endpoint_order(old(self).current(), event),
            final(self).target() == old(self).target(),
            final(self).listens_on() == old(self).listens_on(),
            final(self).provider() == old(self).provider(),
            final(self).cancellation() == old(self).cancellation(),
    {
        let before = self.state;
        let after = match (before, event) {
            (EndpointState::Starting, EndpointEvent::Bound) => EndpointState::Listening,
            (EndpointState::Starting, EndpointEvent::BindFailed) => EndpointState::Errored,
            (EndpointState::Starting, EndpointEvent::AcceptFailed) => EndpointState::Errored,
            (EndpointState::Starting, EndpointEvent::Cancelled) => EndpointState::Cancelled,
            (EndpointState::Listening, EndpointEvent::BindFailed) => EndpointState::Errored,
            (EndpointState::Listening, EndpointEvent::AcceptFailed) => EndpointState::Errored,
            (EndpointState::Listening, EndpointEvent::Cancelled) => EndpointState::Cancelled,
            (EndpointState::Cancelled, EndpointEvent::Released) => EndpointState::Stopped,
            (EndpointState::Errored, EndpointEvent::Released) => EndpointState::Stopped,
            _ => before,
        };
        self.state = after;
        match event {
            EndpointEvent::Accepted => match before {
                EndpointState::Listening => EndpointAction::Serve,
                _ => EndpointAction::Refuse,
            },
            _ => self.order(),
        }
    }

    /// A session for a connection that the endpoint is to serve, with the
    /// cancellation scope that the session waits on: a child of the endpoint's.
    pub fn open_session(&self) -> (opened: (Session, CancellationToken))
        ensures
            opened.0.target() == self.target(),
            opened.0.current() == crate::session::SessionState::Handshaking,
    {
        (Session::new(self.target_version), self.scope.child_token())
    }
}

/// Starts the endpoints of the gateway and shuts them down together.
pub struct SocketCoordinator {
    patch_provider: Arc<PatchProvider>,
    cancel_token: CancellationToken,
    shut_down: bool,
}

impl SocketCoordinator {
    /// The provider that every session reads.
    pub closed spec fn provider(&self) -> Arc<PatchProvider> {
        self.patch_provider
    }

    /// True once the gateway has been told to shut down.
    pub closed spec fn stopping(&self) -> bool {
        self.shut_down
    }

    /// The root of the cancellation scopes.
    pub closed spec fn root(&self) -> CancellationToken {
        self.cancel_token
    }

    /// A coordinator without endpoints, whose cancellation scope is the root of all others.
    pub fn new(patch_provider: Arc<PatchProvider>) -> (coordinator: SocketCoordinator)
        ensures
            coordinator.provider() == patch_provider,
            !coordinator.stopping(),
    {
        SocketCoordinator {
            patch_provider,
            cancel_token: CancellationToken::new(),
            shut_down: false,
        }
    }

    /// Tells whether the gateway has been told to shut down.
    pub fn is_shut_down(&self) -> (stopping: bool)
        ensures
            stopping == self.stopping(),
    {
        self.shut_down
    }

    /// The endpoint for the target version `patch`, for the caller to run.
    ///
    /// There is one exactly when the version has a port. It shares the
    /// coordinator's provider and cancellation scope. It is about to start,
    /// unless the gateway is already shutting down: then it is out of service
    /// from the beginning and will serve no connection.
    pub fn accept_patch(&mut self, patch: u16) -> (endpoint: Option<Endpoint>)
        ensures
            final(self).provider() == old(self).provider(),
            final(self).stopping() == old(self).stopping(),
            final(self).root() == old(self).root(),
            match endpoint {
                Some(endpoint) => {
                    &&& port_of(patch) == Some(endpoint.listens_on())
                    &&& endpoint.target() == patch
                    &&& endpoint.provider() == old(self).provider()
                    &&& endpoint.cancellation() == old(self).root()
                    &&& endpoint.current() == if old(self).stopping() {
                        EndpointState::Cancelled
                    } else {
                        EndpointState::Starting
                    }
                },
                None => port_of(patch).is_none(),
            },
    {
        match endpoint_port(patch) {
            Some(port) => Some(
                Endpoint {
                    target_version: patch,
                    port,
                    state: if self.shut_down {
                        EndpointState::Cancelled
                    } else {
                        EndpointState::Starting
                    },
                    patch_provider: share_provider(&self.patch_provider),
                    scope: self.cancel_token.clone(),
                },
            ),
            None => None,
        }
    }

    /// Tells every endpoint and every session to stop, by cancelling the root
    /// of the cancellation scopes. Endpoints made from now on are out of service.
    pub fn shutdown(&mut self)
        ensures
            final(self).stopping(),
            final(self).provider() == old(self).provider(),
            final(self).root() == old(self).root(),
    {
        self.cancel_token.cancel();
        self.shut_down = true;
    }
}

} // verus!
