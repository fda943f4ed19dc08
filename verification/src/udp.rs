//! UDP discovery: its settings, the table of the times at which peers were
//! last heard from, and the decisions of the UDP worker.
//!
//! Times are nanoseconds on one monotonic clock of the caller's choice.

use vstd::prelude::*;

use crate::config::{all_digits, digits_value, is_digit, setting_or, spec_parse_u64, unsigned_digits};
use crate::peers::{fresh_part, names_view, stale_names, PeerMap};
use crate::properties::{DnetServiceProperties, PropertiesView};

verus! {

/// Message received from UDP discovery.
#[derive(Debug)]
pub enum UdpMessage {
    /// Update message: peer is announcing their properties.
    Update(DnetServiceProperties),
    /// Remove message: peer is gracefully shutting down.
    Remove(String),
}

impl UdpMessage {
    /// Message type byte of an update (`U`).
    pub const MSG_TYPE_UPDATE: u8 = 85;

    /// Message type byte of a removal (`R`).
    pub const MSG_TYPE_REMOVE: u8 = 82;
}

/// The mathematical content of a [`UdpMessage`].
pub enum MessageView {
    Update(PropertiesView),
    Remove(Seq<char>),
}

impl View for UdpMessage {
    type V = MessageView;

    open spec fn view(&self) -> MessageView {
        match self {
            UdpMessage::Update(p) => MessageView::Update(p@),
            UdpMessage::Remove(s) => MessageView::Remove(s@),
        }
    }
}

/// The value of a setting in seconds: the number that `raw` writes, or
/// `default`.
pub open spec fn spec_setting(raw: Option<Seq<char>>, default: u64) -> u64 {
    match raw {
        Some(s) => match spec_parse_u64(s) {
            Some(v) => v,
            None => default,
        },
        None => default,
    }
}

/// A setting is read as `u64::from_str` reads its text: a text of decimal
/// digits gives the number that all its digits write, when it fits in a
/// `u64`; any other text, or none, gives the default.
pub proof fn lemma_setting_value(s: Seq<char>, default: u64)
    ensures
        spec_setting(Some(s), default) == match spec_parse_u64(s) {
            Some(v) => v,
            None => default,
        },
        spec_setting(None, default) == default,
        s.len() > 0 && all_digits(s) && digits_value(s) <= u64::MAX ==> spec_setting(Some(s), default) == digits_value(s),
{
    if s.len() > 0 && all_digits(s) {
        assert(is_digit(s[0]));
        assert(unsigned_digits(s) == s);
    }
}

/// Nanoseconds in `secs` seconds.
pub open spec fn secs_to_nanos(secs: u64) -> u128 {
    (secs * 1_000_000_000) as u128
}

/// UDP discovery settings and the times at which peers were last heard from.
pub struct UdpDiscovery {
    /// Port to broadcast and listen on.
    port: u16,
    /// Seconds between two broadcasts of the service's properties.
    broadcast_interval: u64,
    /// Seconds between two removals of stale peers.
    cleanup_interval: u64,
    /// Seconds after which a peer that was not heard from is dropped.
    peer_timeout: u64,
    /// Last time each peer was heard from, keyed by instance name.
    peer_last_seen: PeerMap<u128>,
}

impl UdpDiscovery {
    /// Default UDP port for discovery; every instance must use the same.
    pub const DEFAULT_PORT: u16 = 37021;

    /// Default broadcast interval in seconds.
    pub const DEFAULT_BROADCAST_INTERVAL: u64 = 3;

    /// Default cleanup interval in seconds.
    pub const DEFAULT_CLEANUP_INTERVAL: u64 = 5;

    /// Default peer timeout in seconds: three broadcast intervals.
    pub const DEFAULT_PEER_TIMEOUT: u64 = Self::DEFAULT_BROADCAST_INTERVAL * 3;

    /// The discovery state is well formed.
    pub closed spec fn wf(&self) -> bool {
        self.peer_last_seen.wf()
    }

    /// When each peer was last heard from.
    pub closed spec fn last_seen(&self) -> Map<Seq<char>, u128> {
        self.peer_last_seen@
    }

    /// The peer timeout in seconds.
    pub closed spec fn spec_peer_timeout(&self) -> u64 {
        self.peer_timeout
    }

    /// The port to broadcast and listen on.
    pub closed spec fn spec_port(&self) -> u16 {
        self.port
    }

    /// The broadcast interval in seconds.
    pub closed spec fn spec_broadcast_interval(&self) -> u64 {
        self.broadcast_interval
    }

    /// The cleanup interval in seconds.
    pub closed spec fn spec_cleanup_interval(&self) -> u64 {
        self.cleanup_interval
    }

    /// The settings are those of `other`.
    pub open spec fn same_settings(&self, other: &Self) -> bool {
        &&& self.spec_port() == other.spec_port()
        &&& self.spec_broadcast_interval() == other.spec_broadcast_interval()
        &&& self.spec_cleanup_interval() == other.spec_cleanup_interval()
        &&& self.spec_peer_timeout() == other.spec_peer_timeout()
    }

    /// The port to broadcast and listen on.
    pub fn port(&self) -> (r: u16)
        ensures
            r == self.spec_port(),
    {
        self.port
    }

    /// Seconds between two broadcasts of the service's properties.
    pub fn broadcast_interval(&self) -> (r: u64)
        ensures
            r == self.spec_broadcast_interval(),
    {
        self.broadcast_interval
    }

    /// Seconds between two removals of stale peers.
    pub fn cleanup_interval(&self) -> (r: u64)
        ensures
            r == self.spec_cleanup_interval(),
    {
        self.cleanup_interval
    }

    /// Creates the discovery state from the raw values of the settings
    /// `DNET_P2P_UDP_PEER_TIMEOUT`, `DNET_P2P_UDP_BROADCAST_INTERVAL` and
    /// `DNET_P2P_UDP_CLEANUP_INTERVAL`, in seconds; a missing value, or one
    /// that is not a number, gives the default. No peer is known yet.
    pub fn new(peer_timeout: Option<&str>, broadcast_interval: Option<&str>, cleanup_interval: Option<&str>) -> (r: Self)
        ensures
            r.wf(),
            r.spec_port() == Self::DEFAULT_PORT,
            r.spec_peer_timeout() == spec_setting(
                match peer_timeout { Some(s) => Some(s@), None => None },
                Self::DEFAULT_PEER_TIMEOUT,
            ),
            r.spec_broadcast_interval() == spec_setting(
                match broadcast_interval { Some(s) => Some(s@), None => None },
                Self::DEFAULT_BROADCAST_INTERVAL,
            ),
            r.spec_cleanup_interval() == spec_setting(
                match cleanup_interval { Some(s) => Some(s@), None => None },
                Self::DEFAULT_CLEANUP_INTERVAL,
            ),
            r.last_seen() == Map::<Seq<char>, u128>::empty(),
    {
        UdpDiscovery {
            port: Self::DEFAULT_PORT,
            broadcast_interval: setting_or(broadcast_interval, Self::DEFAULT_BROADCAST_INTERVAL),
            cleanup_interval: setting_or(cleanup_interval, Self::DEFAULT_CLEANUP_INTERVAL),
            peer_timeout: setting_or(peer_timeout, Self::DEFAULT_PEER_TIMEOUT),
            peer_last_seen: PeerMap::new(),
        }
    }

    /// The peer timeout in seconds.
    pub fn peer_timeout(&self) -> (r: u64)
        ensures
            r == self.spec_peer_timeout(),
    {
        self.peer_timeout
    }

    /// Notes a received message: an update marks its sender as heard from
    /// at time `now`; a removal changes nothing here.
    pub fn record_message(&mut self, msg: &UdpMessage, now: u128)
        requires
            old(self).wf(),
        ensures
            final(self).wf(),
            final(self).same_settings(&*old(self)),
            final(self).last_seen() == match msg@ {
                MessageView::Update(p) => old(self).last_seen().insert(p.instance, now),
                MessageView::Remove(_) => old(self).last_seen(),
            },
    {
        match msg {
            UdpMessage::Update(p) => {
                self.peer_last_seen.insert(p.instance.clone(), now);
            },
            UdpMessage::Remove(_) => {},
        }
    }

    /// Removes the peers not heard from within the peer timeout, as of time
    /// `now`, and returns their instance names, each once, in no particular
    /// order.
    pub fn cleanup_stale_peers(&mut self, now: u128) -> (r: Vec<String>)
        requires
            old(self).wf(),
        ensures
            final(self).wf(),
            final(self).same_settings(&*old(self)),
            final(self).last_seen() == fresh_part(old(self).last_seen(), now, secs_to_nanos(old(self).spec_peer_timeout())),
            names_view(r@).no_duplicates(),
            names_view(r@).to_set() == stale_names(old(self).last_seen(), now, secs_to_nanos(old(self).spec_peer_timeout())),
    {
        let timeout: u128 = self.peer_timeout as u128 * 1_000_000_000u128;
        self.peer_last_seen.remove_stale(now, timeout)
    }
}

} // verus!
