//! The state of a `dnet` service and its decisions: which peers it knows,
//! what it does on each tick of its timers and on each message it receives.
//!
//! The caller owns the socket, the timers and the cancellation signal; it
//! hands each event to [`DnetService::step`] and performs the action that
//! comes back.

use vstd::prelude::*;

use crate::peers::{fresh_part, is_stale, names_view, stale_names, PeerMap};
use crate::properties::{DnetServiceProperties, PropertiesView};
use crate::udp::{MessageView, UdpDiscovery, UdpMessage, secs_to_nanos};

verus! {

/// The properties of the peers in a table, by view.
pub open spec fn peers_view(m: Map<Seq<char>, DnetServiceProperties>) -> Map<Seq<char>, PropertiesView> {
    m.map_values(|p: DnetServiceProperties| p@)
}

/// The peer table after an announcement of `incoming` reaches a service
/// whose own properties are `own`:
/// - a service that is not passive and hears its own instance name stores
///   its own properties under that name;
/// - a manager ignores another manager;
/// - otherwise the announced properties are stored under their instance.
pub open spec fn spec_announce(
    own: PropertiesView,
    is_manager: bool,
    is_passive: bool,
    peers: Map<Seq<char>, PropertiesView>,
    incoming: PropertiesView,
) -> Map<Seq<char>, PropertiesView> {
    if !is_passive && incoming.instance == own.instance {
        peers.insert(own.instance, own)
    } else if is_manager && incoming.is_manager {
        peers
    } else {
        peers.insert(incoming.instance, incoming)
    }
}

/// Every entry of the table is stored under its own instance name, and a
/// manager knows no other manager than itself.
pub open spec fn peers_consistent(own: PropertiesView, is_manager: bool, peers: Map<Seq<char>, PropertiesView>) -> bool {
    &&& forall|k: Seq<char>| #[trigger] peers.dom().contains(k) ==> peers[k].instance == k
    &&& is_manager ==> forall|k: Seq<char>| #[trigger] peers.dom().contains(k) && k != own.instance
        ==> !peers[k].is_manager
}

/// Every peer that the service knows has a last-seen time, so that it is
/// dropped once it stays silent for longer than the peer timeout.
pub open spec fn peers_tracked(peers: Map<Seq<char>, PropertiesView>, last_seen: Map<Seq<char>, u128>) -> bool {
    forall|k: Seq<char>| #[trigger] peers.dom().contains(k) ==> last_seen.dom().contains(k)
}

/// An event that the service reacts to.
pub enum ServiceEvent {
    /// The broadcast timer ticked.
    BroadcastTick,
    /// The cleanup timer ticked at the given time.
    CleanupTick(u128),
    /// A message arrived at the given time.
    Message(UdpMessage, u128),
    /// The service was asked to stop.
    Cancelled,
}

/// What the caller does after an event.
#[derive(Debug)]
pub enum ServiceAction {
    /// Nothing more.
    Continue,
    /// Broadcast the service's own properties.
    BroadcastProperties,
    /// Stop the service.
    Stop,
}

/// A `dnet` service: its own properties and the peers that it knows.
pub struct DnetService {
    /// The properties of the peers, keyed by instance name.
    peer_props: PeerMap<DnetServiceProperties>,
    /// The service's own properties, which it broadcasts.
    properties: DnetServiceProperties,
    /// UDP discovery settings and last-seen times.
    udp: UdpDiscovery,
    /// Whether this service is a manager or not.
    is_manager: bool,
    /// Whether this service only monitors the others, without announcing itself.
    is_passive: bool,
}

impl DnetService {
    /// The state is well formed.
    pub closed spec fn wf(&self) -> bool {
        &&& self.peer_props.wf()
        &&& self.udp.wf()
        &&& self.properties.is_manager == self.is_manager
        &&& peers_consistent(self.properties@, self.is_manager, peers_view(self.peer_props@))
    }

    /// The properties of the known peers.
    pub closed spec fn peers(&self) -> Map<Seq<char>, PropertiesView> {
        peers_view(self.peer_props@)
    }

    /// The service's own properties.
    pub closed spec fn own(&self) -> PropertiesView {
        self.properties@
    }

    /// Whether the service is a manager.
    pub closed spec fn spec_is_manager(&self) -> bool {
        self.is_manager
    }

    /// Whether the service is passive.
    pub closed spec fn spec_is_passive(&self) -> bool {
        self.is_passive
    }

    /// The UDP discovery state.
    pub closed spec fn discovery(&self) -> UdpDiscovery {
        self.udp
    }

    /// Creates a service that knows no peer yet.
    pub fn new(properties: DnetServiceProperties, is_passive: bool, udp: UdpDiscovery) -> (r: Self)
        requires
            udp.wf(),
        ensures
            r.wf(),
            r.own() == properties@,
            r.spec_is_manager() == properties.is_manager,
            r.spec_is_passive() == is_passive,
            r.discovery() == udp,
            r.peers() == Map::<Seq<char>, PropertiesView>::empty(),
    {
        let is_manager = properties.is_manager;
        let peer_props = PeerMap::new();
        assert(peers_view(peer_props@) =~= Map::<Seq<char>, PropertiesView>::empty());
        DnetService { peer_props, properties, udp, is_manager, is_passive }
    }

    /// The service's own properties.
    pub fn properties(&self) -> (r: &DnetServiceProperties)
        ensures
            r@ == self.own(),
    {
        &self.properties
    }

    /// The known peers, each under its instance name.
    pub fn peer_props(&self) -> (r: &PeerMap<DnetServiceProperties>)
        ensures
            peers_view(r@) == self.peers(),
            r.wf() <== self.wf(),
    {
        &self.peer_props
    }

    /// The UDP discovery state.
    pub fn udp(&self) -> (r: &UdpDiscovery)
        ensures
            *r == self.discovery(),
    {
        &self.udp
    }

    /// Whether this service is a manager.
    pub fn is_manager(&self) -> (r: bool)
        ensures
            r == self.spec_is_manager(),
    {
        self.is_manager
    }

    /// Whether this service is passive.
    pub fn is_passive(&self) -> (r: bool)
        ensures
            r == self.spec_is_passive(),
    {
        self.is_passive
    }

    /// Handles the properties that a peer announced.
    pub fn handle_udp_announcement(&mut self, properties: DnetServiceProperties)
        requires
            old(self).wf(),
        ensures
            final(self).wf(),
            final(self).own() == old(self).own(),
            final(self).spec_is_manager() == old(self).spec_is_manager(),
            final(self).spec_is_passive() == old(self).spec_is_passive(),
            final(self).discovery() == old(self).discovery(),
            final(self).peers() == spec_announce(
                old(self).own(),
                old(self).spec_is_manager(),
                old(self).spec_is_passive(),
                old(self).peers(),
                properties@,
            ),
    {
        let ghost before = peers_view(self.peer_props@);
        let ghost incoming = properties@;
        proof {
            lemma_announce_consistent(self.properties@, self.is_manager, self.is_passive, before, incoming);
        }
        if !self.is_passive && properties.instance == self.properties.instance {
            let own = self.properties.clone();
            let key = own.instance.clone();
            let ghost own_view = own@;
            self.peer_props.insert(key, own);
            assert(peers_view(self.peer_props@) =~= before.insert(own_view.instance, own_view));
            return;
        }
        if self.is_manager && properties.is_manager {
            return;
        }
        let key = properties.instance.clone();
        self.peer_props.insert(key, properties);
        assert(peers_view(self.peer_props@) =~= before.insert(incoming.instance, incoming));
    }

    /// Forgets a peer.
    pub fn remove_peer(&mut self, instance: &String)
        requires
            old(self).wf(),
        ensures
            final(self).wf(),
            final(self).own() == old(self).own(),
            final(self).spec_is_manager() == old(self).spec_is_manager(),
            final(self).spec_is_passive() == old(self).spec_is_passive(),
            final(self).discovery() == old(self).discovery(),
            final(self).peers() == old(self).peers().remove(instance@),
    {
        let ghost before = peers_view(self.peer_props@);
        self.peer_props.remove(instance);
        assert(peers_view(self.peer_props@) =~= before.remove(instance@));
    }

    /// Sets the busy status of the service; a passive service keeps its
    /// status. The new status is broadcast on the next broadcast tick.
    pub fn set_is_busy(&mut self, is_busy: bool)
        requires
            old(self).wf(),
        ensures
            final(self).wf(),
            final(self).own() == (if old(self).spec_is_passive() {
                old(self).own()
            } else {
                PropertiesView { is_busy, ..old(self).own() }
            }),
            final(self).spec_is_manager() == old(self).spec_is_manager(),
            final(self).spec_is_passive() == old(self).spec_is_passive(),
            final(self).discovery() == old(self).discovery(),
            final(self).peers() == old(self).peers(),
    {
        if self.properties.is_busy == is_busy || self.is_passive {
            return;
        }
        self.properties.is_busy = is_busy;
    }

    /// Reacts to an event of the service's loop.
    ///
    /// - On a broadcast tick a service that is not passive broadcasts its
    ///   properties.
    /// - On a cleanup tick the peers not heard from within the peer timeout
    ///   are forgotten.
    /// - A message marks an updating sender as heard from; an update is
    ///   handled as an announcement, and a removal forgets the named peer.
    /// - Cancellation stops the service.
    pub fn step(&mut self, event: ServiceEvent) -> (r: ServiceAction)
        requires
            old(self).wf(),
        ensures
            final(self).wf(),
            final(self).own() == old(self).own(),
            final(self).spec_is_manager() == old(self).spec_is_manager(),
            final(self).spec_is_passive() == old(self).spec_is_passive(),
            final(self).discovery().same_settings(&old(self).discovery()),
            peers_tracked(old(self).peers(), old(self).discovery().last_seen())
                ==> peers_tracked(final(self).peers(), final(self).discovery().last_seen()),
            match event {
                ServiceEvent::BroadcastTick => {
                    &&& r == (if old(self).spec_is_passive() { ServiceAction::Continue } else { ServiceAction::BroadcastProperties })
                    &&& final(self).peers() == old(self).peers()
                    &&& final(self).discovery() == old(self).discovery()
                },
                ServiceEvent::CleanupTick(now) => {
                    let timeout = secs_to_nanos(old(self).discovery().spec_peer_timeout());
                    let last = old(self).discovery().last_seen();
                    &&& r == ServiceAction::Continue
                    &&& final(self).discovery().last_seen() == fresh_part(last, now, timeout)
                    &&& final(self).peers() == old(self).peers().remove_keys(stale_names(last, now, timeout))
                    &&& peers_tracked(old(self).peers(), last) ==> forall|k: Seq<char>|
                        #[trigger] final(self).peers().dom().contains(k)
                        ==> !is_stale(final(self).discovery().last_seen()[k], now, timeout)
                },
                ServiceEvent::Message(msg, now) => {
                    &&& r == ServiceAction::Continue
                    &&& match msg@ {
                        MessageView::Update(p) => {
                            &&& final(self).discovery().last_seen() == old(self).discovery().last_seen().insert(p.instance, now)
                            &&& final(self).peers() == spec_announce(
                                old(self).own(),
                                old(self).spec_is_manager(),
                                old(self).spec_is_passive(),
                                old(self).peers(),
                                p,
                            )
                        },
                        MessageView::Remove(name) => {
                            &&& final(self).discovery().last_seen() == old(self).discovery().last_seen()
                            &&& final(self).peers() == old(self).peers().remove(name)
                        },
                    }
                },
                ServiceEvent::Cancelled => {
                    &&& r == ServiceAction::Stop
                    &&& final(self).peers() == old(self).peers()
                    &&& final(self).discovery() == old(self).discovery()
                },
            },
    {
        match event {
            ServiceEvent::BroadcastTick => {
                if self.is_passive {
                    ServiceAction::Continue
                } else {
                    ServiceAction::BroadcastProperties
                }
            },
            ServiceEvent::CleanupTick(now) => {
                let timed_out = self.udp.cleanup_stale_peers(now);
                let ghost stale = names_view(timed_out@).to_set();
                let ghost before = self.peers();
                let mut i: usize = 0;
                while i < timed_out.len()
                    invariant
                        self.wf(),
                        i <= timed_out@.len(),
                        self.properties@ == old(self).properties@,
                        self.is_manager == old(self).is_manager,
                        self.is_passive == old(self).is_passive,
                        self.udp.same_settings(&old(self).udp),
                        self.udp.last_seen() == fresh_part(
                            old(self).udp.last_seen(),
                            now,
                            secs_to_nanos(old(self).udp.spec_peer_timeout()),
                        ),
                        self.peers() == before.remove_keys(names_view(timed_out@.take(i as int)).to_set()),
                    decreases timed_out@.len() - i,
                {
                    let ghost prev = self.peers();
                    self.remove_peer(&timed_out[i]);
                    assert(names_view(timed_out@.take(i + 1)).to_set() =~= names_view(timed_out@.take(i as int)).to_set().insert(timed_out@[i as int]@)) by {
                        let a = names_view(timed_out@.take(i as int));
                        let b = names_view(timed_out@.take(i + 1));
                        assert(b =~= a.push(timed_out@[i as int]@));
                        lemma_push_to_set(a, timed_out@[i as int]@);
                    }
                    assert(self.peers() =~= before.remove_keys(names_view(timed_out@.take(i + 1)).to_set()));
                    i = i + 1;
                }
                assert(timed_out@.take(timed_out@.len() as int) =~= timed_out@);
                ServiceAction::Continue
            },
            ServiceEvent::Message(msg, now) => {
                self.udp.record_message(&msg, now);
                match msg {
                    UdpMessage::Update(p) => {
                        self.handle_udp_announcement(p);
                    },
                    UdpMessage::Remove(name) => {
                        self.remove_peer(&name);
                    },
                }
                ServiceAction::Continue
            },
            ServiceEvent::Cancelled => ServiceAction::Stop,
        }
    }
}

/// The only manager that a manager knows is itself, and every peer is
/// known under its own instance name: this holds of every well-formed
/// service, and every operation keeps the service well formed.
pub proof fn lemma_single_manager(s: &DnetService)
    requires
        s.wf(),
    ensures
        forall|k: Seq<char>| #[trigger] s.peers().dom().contains(k) ==> s.peers()[k].instance == k,
        s.spec_is_manager() ==> forall|k: Seq<char>| #[trigger] s.peers().dom().contains(k) && k != s.own().instance
            ==> !s.peers()[k].is_manager,
{
}

/// The elements of a sequence after a push are those before and the new one.
proof fn lemma_push_to_set<A>(s: Seq<A>, x: A)
    ensures
        s.push(x).to_set() == s.to_set().insert(x),
{
    assert forall|q: A| #[trigger] s.push(x).to_set().contains(q) <==> s.to_set().insert(x).contains(q) by {
        if s.push(x).contains(q) {
            let j = choose|j: int| 0 <= j < s.push(x).len() && s.push(x)[j] == q;
            if j < s.len() {
                assert(s[j] == q);
                assert(s.contains(q));
            }
        }
        if s.contains(q) {
            let j = choose|j: int| 0 <= j < s.len() && s[j] == q;
            assert(s.push(x)[j] == q);
        }
        if q == x {
            assert(s.push(x)[s.len() as int] == q);
        }
    }
    assert(s.push(x).to_set() =~= s.to_set().insert(x));
}

/// Handling an announcement keeps every peer under its own instance name,
/// and a manager never comes to know another manager.
pub proof fn lemma_announce_consistent(
    own: PropertiesView,
    is_manager: bool,
    is_passive: bool,
    peers: Map<Seq<char>, PropertiesView>,
    incoming: PropertiesView,
)
    requires
        own.is_manager == is_manager,
        peers_consistent(own, is_manager, peers),
    ensures
        peers_consistent(own, is_manager, spec_announce(own, is_manager, is_passive, peers, incoming)),
{
}

/// An announcement from a peer stores exactly the announced properties
/// under the peer's instance name, whether or not that peer was already
/// known, and leaves every other entry as it was; so a later announcement of
/// a peer replaces an earlier one. This holds unless the peer carries the
/// service's own instance name (and the service is not passive) or a manager
/// hears another manager: the first stores the service's own properties under
/// its name, the second leaves the table unchanged.
pub proof fn lemma_announcement_stored(
    own: PropertiesView,
    is_manager: bool,
    is_passive: bool,
    peers: Map<Seq<char>, PropertiesView>,
    incoming: PropertiesView,
    later: PropertiesView,
)
    requires
        !(is_manager && incoming.is_manager),
        is_passive || incoming.instance != own.instance,
    ensures
        spec_announce(own, is_manager, is_passive, peers, incoming).dom() == peers.dom().insert(incoming.instance),
        spec_announce(own, is_manager, is_passive, peers, incoming)[incoming.instance] == incoming,
        forall|k: Seq<char>| #[trigger] peers.dom().contains(k) && k != incoming.instance
            ==> spec_announce(own, is_manager, is_passive, peers, incoming)[k] == peers[k],
        later.instance == incoming.instance && !(is_manager && later.is_manager) ==> spec_announce(
            own,
            is_manager,
            is_passive,
            spec_announce(own, is_manager, is_passive, peers, incoming),
            later,
        )[incoming.instance] == later,
{
    assert(spec_announce(own, is_manager, is_passive, peers, incoming).dom() =~= peers.dom().insert(incoming.instance));
}

/// A service that is not passive and hears its own instance name keeps its
/// own properties under that name; a manager that hears another manager
/// leaves its table unchanged.
pub proof fn lemma_announcement_ignored(
    own: PropertiesView,
    is_manager: bool,
    is_passive: bool,
    peers: Map<Seq<char>, PropertiesView>,
    incoming: PropertiesView,
)
    ensures
        !is_passive && incoming.instance == own.instance ==> spec_announce(
            own,
            is_manager,
            is_passive,
            peers,
            incoming,
        ) == peers.insert(own.instance, own),
        (is_passive || incoming.instance != own.instance) && is_manager && incoming.is_manager ==> spec_announce(
            own,
            is_manager,
            is_passive,
            peers,
            incoming,
        ) == peers,
{
}

} // verus!
