//! The accept loop of one component.
//!
//! A listener binds its address once, then accepts forever: every accepted
//! connection is served by a task of its own, and a failed accept is skipped.
//! Only a failed bind ends the loop.
use vstd::prelude::*;
use crate::executor::ComponentBinding;
use crate::text::{address_of, socket_address};

verus! {

/// Why binding a listener's address failed.
#[derive(Clone, Copy, Debug, PartialEq, Eq, Structural)]
pub enum BindError {
    AddressInUse,
    PermissionDenied,
    InvalidAddress,
    Other,
}

/// Why a listener task ended.
#[derive(Clone, Copy, Debug, PartialEq, Eq, Structural)]
pub enum ListenerError {
    Bind(BindError),
    /// The task stopped without reporting, for instance by panicking.
    Aborted,
}

#[derive(Clone, Copy, Debug, PartialEq, Eq, Structural)]
pub enum ListenerPhase {
    Binding,
    Accepting,
    Failed(BindError),
}

/// What the socket reports to a listener.
#[derive(Clone, Copy, Debug)]
pub enum ListenerEvent {
    Bound,
    BindFailed(BindError),
    Accepted,
    AcceptFailed,
}

/// What the listener asks for next.
#[derive(Clone, Copy, Debug)]
pub enum ListenerAction {
    /// Bind the listener's address.
    Bind,
    /// Wait for the next connection.
    Accept,
    /// Hand the accepted connection to a task of its own, then accept again.
    Serve,
    /// End the loop with this error.
    Exit(ListenerError),
}

/// The accept loop's rule: the next phase and action after an event.
pub open spec fn listen_next(p: ListenerPhase, e: ListenerEvent) -> (ListenerPhase, ListenerAction) {
    match p {
        ListenerPhase::Binding => match e {
            ListenerEvent::Bound => (ListenerPhase::Accepting, ListenerAction::Accept),
            ListenerEvent::BindFailed(err) => (
                ListenerPhase::Failed(err),
                ListenerAction::Exit(ListenerError::Bind(err)),
            ),
            _ => (p, ListenerAction::Bind),
        },
        ListenerPhase::Accepting => match e {
            ListenerEvent::Accepted => (p, ListenerAction::Serve),
            _ => (p, ListenerAction::Accept),
        },
        ListenerPhase::Failed(err) => (p, ListenerAction::Exit(ListenerError::Bind(err))),
    }
}

/// The listener of one component.
pub struct Listener {
    pub component_id: String,
    pub address: String,
    pub phase: ListenerPhase,
}

impl Listener {
    /// The listener for `binding` on `host`, about to bind `host:port`.
    pub fn new(binding: &ComponentBinding, host: &str) -> (r: Listener)
        ensures
            r.component_id@ == binding.component_id@,
            r.address@ == address_of(host@, binding.settings.port),
            r.phase == ListenerPhase::Binding,
    {
        Listener {
            component_id: binding.component_id.clone(),
            address: socket_address(host, binding.settings.port),
            phase: ListenerPhase::Binding,
        }
    }

    /// Advances the loop by one event; the component and address never change.
    pub fn step(&mut self, event: ListenerEvent) -> (a: ListenerAction)
        ensures
            (final(self).phase, a) == listen_next(old(self).phase, event),
            final(self).component_id == old(self).component_id,
            final(self).address == old(self).address,
    {
        match self.phase {
            ListenerPhase::Binding => match event {
                ListenerEvent::Bound => {
                    self.phase = ListenerPhase::Accepting;
                    ListenerAction::Accept
                },
                ListenerEvent::BindFailed(err) => {
                    self.phase = ListenerPhase::Failed(err);
                    ListenerAction::Exit(ListenerError::Bind(err))
                },
                _ => ListenerAction::Bind,
            },
            ListenerPhase::Accepting => match event {
                ListenerEvent::Accepted => ListenerAction::Serve,
                _ => ListenerAction::Accept,
            },
            ListenerPhase::Failed(err) => ListenerAction::Exit(ListenerError::Bind(err)),
        }
    }
}

} // verus!
