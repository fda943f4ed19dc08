//! The decisions of the UDP worker: the task that broadcasts the service's
//! properties, listens for peers and drops the stale ones, driven by
//! commands from the service.
//!
//! The caller owns the channels, the timers and the socket; it hands each
//! event to [`UdpWorker::step`] and performs the action that comes back.

use vstd::prelude::*;

use crate::peers::{fresh_part, names_view, stale_names};
use crate::properties::{DnetServiceProperties, PropertiesView};
use crate::udp::{MessageView, UdpDiscovery, UdpMessage, secs_to_nanos};

verus! {

/// Commands sent from the service to the UDP worker.
#[derive(Debug)]
pub enum UdpCommand {
    /// Immediately broadcast the current properties.
    BroadcastNow,
    /// Replace the properties that the worker broadcasts.
    UpdateProperties(DnetServiceProperties),
    /// Broadcast a removal message for the given instance.
    BroadcastRemove(String),
    /// Stop the worker.
    Shutdown,
}

/// An event that the worker reacts to.
#[derive(Debug)]
pub enum WorkerEvent {
    /// A command from the service.
    Command(UdpCommand),
    /// The service closed the command channel.
    CommandsClosed,
    /// The broadcast timer ticked.
    BroadcastTick,
    /// The cleanup timer ticked at the given time.
    CleanupTick(u128),
    /// A message arrived at the given time.
    Received(UdpMessage, u128),
    /// Receiving failed.
    ReceiveFailed,
}

/// What the caller does after an event.
#[derive(Debug)]
pub enum WorkerAction {
    /// Nothing more.
    Nothing,
    /// Broadcast the worker's properties as an update.
    BroadcastProperties,
    /// Broadcast a removal of the given instance.
    BroadcastRemove(String),
    /// Tell the service that these peers timed out.
    PeersTimedOut(Vec<String>),
    /// Hand the message to the service.
    Message(UdpMessage),
    /// Wait a little before receiving again.
    Backoff,
    /// Stop the worker.
    Exit,
}

/// The state of the UDP worker.
pub struct UdpWorker {
    properties: DnetServiceProperties,
    is_passive: bool,
    discovery: UdpDiscovery,
}

impl UdpWorker {
    /// The state is well formed.
    pub closed spec fn wf(&self) -> bool {
        self.discovery.wf()
    }

    /// The properties that the worker broadcasts.
    pub closed spec fn spec_properties(&self) -> PropertiesView {
        self.properties@
    }

    /// Whether the worker never announces the service.
    pub closed spec fn spec_is_passive(&self) -> bool {
        self.is_passive
    }

    /// The discovery state.
    pub closed spec fn spec_discovery(&self) -> UdpDiscovery {
        self.discovery
    }

    /// Creates a worker that broadcasts `properties` unless it is passive.
    pub fn new(properties: DnetServiceProperties, is_passive: bool, discovery: UdpDiscovery) -> (r: Self)
        requires
            discovery.wf(),
        ensures
            r.wf(),
            r.spec_properties() == properties@,
            r.spec_is_passive() == is_passive,
            r.spec_discovery() == discovery,
    {
        UdpWorker { properties, is_passive, discovery }
    }

    /// The properties that the worker broadcasts.
    pub fn properties(&self) -> (r: &DnetServiceProperties)
        ensures
            r@ == self.spec_properties(),
    {
        &self.properties
    }

    /// The discovery state.
    pub fn discovery(&self) -> (r: &UdpDiscovery)
        ensures
            *r == self.spec_discovery(),
    {
        &self.discovery
    }

    /// Reacts to an event of the worker's loop.
    ///
    /// - A broadcast tick or a `BroadcastNow` command broadcasts the
    ///   properties, unless the worker is passive.
    /// - `UpdateProperties` replaces the properties.
    /// - `BroadcastRemove` broadcasts the removal.
    /// - `Shutdown`, or the closing of the command channel, stops the worker.
    /// - A cleanup tick drops the stale peers and reports them, if any.
    /// - A received message marks an updating sender as heard from and is
    ///   handed on; a failed receive asks for a short wait.
    pub fn step(&mut self, event: WorkerEvent) -> (r: WorkerAction)
        requires
            old(self).wf(),
        ensures
            final(self).wf(),
            final(self).spec_is_passive() == old(self).spec_is_passive(),
            final(self).spec_discovery().same_settings(&old(self).spec_discovery()),
            match event {
                WorkerEvent::Command(UdpCommand::UpdateProperties(p)) => {
                    &&& r is Nothing
                    &&& final(self).spec_properties() == p@
                    &&& final(self).spec_discovery() == old(self).spec_discovery()
                },
                WorkerEvent::CleanupTick(now) => {
                    let timeout = secs_to_nanos(old(self).spec_discovery().spec_peer_timeout());
                    let last = old(self).spec_discovery().last_seen();
                    &&& final(self).spec_properties() == old(self).spec_properties()
                    &&& final(self).spec_discovery().last_seen() == fresh_part(last, now, timeout)
                    &&& match r {
                        WorkerAction::PeersTimedOut(names) => {
                            &&& names@.len() > 0
                            &&& names_view(names@).no_duplicates()
                            &&& names_view(names@).to_set() == stale_names(last, now, timeout)
                        },
                        WorkerAction::Nothing => stale_names(last, now, timeout).is_empty(),
                        _ => false,
                    }
                },
                WorkerEvent::Received(msg, now) => {
                    &&& final(self).spec_properties() == old(self).spec_properties()
                    &&& final(self).spec_discovery().last_seen() == match msg@ {
                        MessageView::Update(p) => old(self).spec_discovery().last_seen().insert(p.instance, now),
                        MessageView::Remove(_) => old(self).spec_discovery().last_seen(),
                    }
                    &&& r matches WorkerAction::Message(m) && m@ == msg@
                },
                _ => {
                    &&& final(self).spec_properties() == old(self).spec_properties()
                    &&& final(self).spec_discovery() == old(self).spec_discovery()
                    &&& match event {
                        WorkerEvent::Command(UdpCommand::BroadcastNow) | WorkerEvent::BroadcastTick =>
                            if old(self).spec_is_passive() { r is Nothing } else { r is BroadcastProperties },
                        WorkerEvent::Command(UdpCommand::BroadcastRemove(name)) =>
                            r matches WorkerAction::BroadcastRemove(n) && n@ == name@,
                        WorkerEvent::Command(UdpCommand::Shutdown) | WorkerEvent::CommandsClosed => r is Exit,
                        WorkerEvent::ReceiveFailed => r is Backoff,
                        _ => true,
                    }
                },
            },
    {
        match event {
            WorkerEvent::Command(UdpCommand::BroadcastNow) | WorkerEvent::BroadcastTick => {
                if self.is_passive {
                    WorkerAction::Nothing
                } else {
                    WorkerAction::BroadcastProperties
                }
            },
            WorkerEvent::Command(UdpCommand::UpdateProperties(p)) => {
                self.properties = p;
                WorkerAction::Nothing
            },
            WorkerEvent::Command(UdpCommand::BroadcastRemove(name)) => WorkerAction::BroadcastRemove(name),
            WorkerEvent::Command(UdpCommand::Shutdown) | WorkerEvent::CommandsClosed => WorkerAction::Exit,
            WorkerEvent::CleanupTick(now) => {
                let timed_out = self.discovery.cleanup_stale_peers(now);
                if timed_out.len() == 0 {
                    let ghost st = stale_names(
                        old(self).discovery.last_seen(),
                        now,
                        secs_to_nanos(old(self).discovery.spec_peer_timeout()),
                    );
                    assert(names_view(timed_out@) =~= Seq::<Seq<char>>::empty());
                    assert(st =~= Set::<Seq<char>>::empty());
                    WorkerAction::Nothing
                } else {
                    WorkerAction::PeersTimedOut(timed_out)
                }
            },
            WorkerEvent::Received(msg, now) => {
                self.discovery.record_message(&msg, now);
                WorkerAction::Message(msg)
            },
            WorkerEvent::ReceiveFailed => WorkerAction::Backoff,
        }
    }
}

} // verus!
