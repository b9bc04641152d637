//! The lifecycle of the overlay client.
//!
//! The client decides; the caller does the network's work. A call of
//! [`VeilidClient::start`] moves an uninitialised client to `Starting` and
//! the caller attaches to the network, then reports the outcome with
//! [`VeilidClient::attached`]. Stopping works the same way.

use vstd::prelude::*;
use crate::error::{Error, ErrorKind};
use crate::veilid_client::config::VeilidConfig;

verus! {

/// The state of the connection to the overlay network.
#[derive(Clone, Copy, Debug, PartialEq, Eq, Structural)]
pub enum VeilidState {
    /// Not initialised.
    Uninitialized,
    /// Starting up.
    Starting,
    /// Attached to the network.
    Connected,
    /// Temporarily without connection.
    Disconnected,
    /// Shutting down.
    Stopping,
    /// Stopped.
    Stopped,
}

/// What happens to the client.
#[derive(Clone, Copy, Debug, PartialEq, Eq, Structural)]
pub enum LifecycleEvent {
    /// The user asks the client to start.
    Start,
    /// The node has attached to the network.
    Attached,
    /// The connection was lost.
    ConnectionLost,
    /// The connection came back.
    ConnectionRestored,
    /// The user asks the client to stop.
    Stop,
    /// The node has shut down.
    ShutDown,
}

/// The state that follows `state` on `event`; `None` where the event is not
/// allowed in that state.
///
/// A client starts only when it is uninitialised. Stopping is allowed in
/// every state and leaves a stopped client stopped. The other events move
/// the client only along `Starting`, `Connected`, `Disconnected`, and from
/// `Stopping` to `Stopped`.
pub open spec fn spec_next_state(state: VeilidState, event: LifecycleEvent) -> Option<VeilidState> {
    match (state, event) {
        (VeilidState::Uninitialized, LifecycleEvent::Start) => Some(VeilidState::Starting),
        (VeilidState::Starting, LifecycleEvent::Attached) => Some(VeilidState::Connected),
        (VeilidState::Connected, LifecycleEvent::ConnectionLost) => Some(VeilidState::Disconnected),
        (VeilidState::Disconnected, LifecycleEvent::ConnectionRestored) => Some(VeilidState::Connected),
        (VeilidState::Stopped, LifecycleEvent::Stop) => Some(VeilidState::Stopped),
        (_, LifecycleEvent::Stop) => Some(VeilidState::Stopping),
        (VeilidState::Stopping, LifecycleEvent::ShutDown) => Some(VeilidState::Stopped),
        _ => None,
    }
}

/// The state that follows `state` on `event`.
pub fn next_state(state: VeilidState, event: LifecycleEvent) -> (next: Option<VeilidState>)
    ensures
        next == spec_next_state(state, event),
{
    match (state, event) {
        (VeilidState::Uninitialized, LifecycleEvent::Start) => Some(VeilidState::Starting),
        (VeilidState::Starting, LifecycleEvent::Attached) => Some(VeilidState::Connected),
        (VeilidState::Connected, LifecycleEvent::ConnectionLost) => Some(VeilidState::Disconnected),
        (VeilidState::Disconnected, LifecycleEvent::ConnectionRestored) => Some(VeilidState::Connected),
        (VeilidState::Stopped, LifecycleEvent::Stop) => Some(VeilidState::Stopped),
        (_, LifecycleEvent::Stop) => Some(VeilidState::Stopping),
        (VeilidState::Stopping, LifecycleEvent::ShutDown) => Some(VeilidState::Stopped),
        _ => None,
    }
}

/// The client of the overlay network.
#[derive(Clone, Debug)]
pub struct VeilidClient {
    config: VeilidConfig,
    state: VeilidState,
}

impl VeilidClient {
    /// The state of the client.
    pub closed spec fn spec_state(&self) -> VeilidState {
        self.state
    }

    /// The configuration of the client.
    pub closed spec fn spec_config(&self) -> VeilidConfig {
        self.config
    }

    /// An uninitialised client with the given configuration.
    pub fn new(config: VeilidConfig) -> (client: Self)
        ensures
            client.spec_state() == VeilidState::Uninitialized,
            client.spec_config() == config,
    {
        VeilidClient { config, state: VeilidState::Uninitialized }
    }

    /// Applies an event that the lifecycle allows; any other is refused as
    /// invalid and changes nothing.
    pub fn apply(&mut self, event: LifecycleEvent) -> (done: Result<(), Error>)
        ensures
            final(self).spec_config() == old(self).spec_config(),
            match spec_next_state(old(self).spec_state(), event) {
                Some(next) => done.is_ok() && final(self).spec_state() == next,
                None => done matches Err(e) && e.spec_kind() == ErrorKind::Invalid && final(self).spec_state() == old(
                    self,
                ).spec_state(),
            },
    {
        match next_state(self.state, event) {
            Some(next) => {
                self.state = next;
                Ok(())
            },
            None => Err(Error::Invalid("not allowed in this state".to_owned())),
        }
    }

    /// Asks the client to start. Only an uninitialised client starts; any
    /// other refuses with an invalid-state error. On success the client is
    /// `Starting`, and the caller attaches to the network.
    pub fn start(&mut self) -> (done: Result<(), Error>)
        ensures
            final(self).spec_config() == old(self).spec_config(),
            done.is_ok() <==> old(self).spec_state() == VeilidState::Uninitialized,
            done.is_ok() ==> final(self).spec_state() == VeilidState::Starting,
            done matches Err(e) ==> e.spec_kind() == ErrorKind::Invalid && final(self).spec_state() == old(
                self,
            ).spec_state(),
    {
        self.apply(LifecycleEvent::Start)
    }

    /// Reports that the node has attached: a starting client is connected.
    pub fn attached(&mut self) -> (done: Result<(), Error>)
        ensures
            final(self).spec_config() == old(self).spec_config(),
            done.is_ok() <==> old(self).spec_state() == VeilidState::Starting,
            done.is_ok() ==> final(self).spec_state() == VeilidState::Connected,
            done matches Err(e) ==> e.spec_kind() == ErrorKind::Invalid && final(self).spec_state() == old(
                self,
            ).spec_state(),
    {
        self.apply(LifecycleEvent::Attached)
    }

    /// Asks the client to stop. A stopped client stays stopped and there is
    /// nothing to do: the answer is `false`. Any other client is `Stopping`
    /// and the caller shuts the node down: the answer is `true`.
    pub fn stop(&mut self) -> (work: bool)
        ensures
            final(self).spec_config() == old(self).spec_config(),
            work == (old(self).spec_state() != VeilidState::Stopped),
            final(self).spec_state() == if work {
                VeilidState::Stopping
            } else {
                VeilidState::Stopped
            },
    {
        if self.state == VeilidState::Stopped {
            false
        } else {
            self.state = VeilidState::Stopping;
            true
        }
    }

    /// Reports that the node has shut down: a stopping client is stopped.
    pub fn stopped(&mut self) -> (done: Result<(), Error>)
        ensures
            final(self).spec_config() == old(self).spec_config(),
            done.is_ok() <==> old(self).spec_state() == VeilidState::Stopping,
            done.is_ok() ==> final(self).spec_state() == VeilidState::Stopped,
            done matches Err(e) ==> e.spec_kind() == ErrorKind::Invalid && final(self).spec_state() == old(
                self,
            ).spec_state(),
    {
        self.apply(LifecycleEvent::ShutDown)
    }

    /// The state of the client.
    pub fn state(&self) -> (state: VeilidState)
        ensures
            state == self.spec_state(),
    {
        self.state
    }

    /// Whether the client is attached to the network.
    pub fn is_connected(&self) -> (connected: bool)
        ensures
            connected == (self.spec_state() == VeilidState::Connected),
    {
        self.state == VeilidState::Connected
    }

    /// The configuration of the client.
    pub fn config(&self) -> (config: &VeilidConfig)
        ensures
            *config == self.spec_config(),
    {
        &self.config
    }

    /// Whether an operation on the network may go ahead: only a connected
    /// client may create, read, write or delete records, or send.
    pub fn require_connected(&self) -> (ready: Result<(), Error>)
        ensures
            ready.is_ok() <==> self.spec_state() == VeilidState::Connected,
            ready matches Err(e) ==> e.spec_kind() == ErrorKind::Network,
    {
        if self.state == VeilidState::Connected {
            Ok(())
        } else {
            Err(Error::Network("Not connected".to_owned()))
        }
    }

    /// What has arrived for this client outside its mailbox: nothing, since
    /// messages arrive in the mailbox only. A client that is not connected
    /// cannot say.
    pub fn receive_message(&self) -> (arrived: Result<Option<Vec<u8>>, Error>)
        ensures
            arrived.is_ok() <==> self.spec_state() == VeilidState::Connected,
            arrived matches Ok(data) ==> data.is_none(),
            arrived matches Err(e) ==> e.spec_kind() == ErrorKind::Network,
    {
        if self.state == VeilidState::Connected {
            Ok(None)
        } else {
            Err(Error::Network("Not connected".to_owned()))
        }
    }
}

/// Stopping a client that is stopped leaves it stopped; stopping any other
/// client and then shutting down ends in `Stopped`.
pub proof fn lemma_stop_is_idempotent(state: VeilidState)
    ensures
        spec_next_state(VeilidState::Stopped, LifecycleEvent::Stop) == Some(VeilidState::Stopped),
        state != VeilidState::Stopped ==> spec_next_state(state, LifecycleEvent::Stop) == Some(VeilidState::Stopping),
        spec_next_state(VeilidState::Stopping, LifecycleEvent::ShutDown) == Some(VeilidState::Stopped),
        spec_next_state(state, LifecycleEvent::Start).is_some() <==> state == VeilidState::Uninitialized,
{
}

} // verus!
