//! Names and addresses used with mDNS service discovery.

use vstd::prelude::*;
use vstd::string::*;

use crate::peers::{distinct_keys, entries_map, PeerMap};
use crate::utils::{is_private, is_private_v4};

verus! {

/// `s` ends with `suffix`.
pub open spec fn text_ends_with(s: Seq<char>, suffix: Seq<char>) -> bool {
    suffix.len() <= s.len() && s.skip(s.len() - suffix.len()) == suffix
}

/// Whether `s` ends with `suffix`.
pub fn ends_with(s: &str, suffix: &str) -> (r: bool)
    ensures
        r == text_ends_with(s@, suffix@),
{
    let n = s.unicode_len();
    let m = suffix.unicode_len();
    if m > n {
        return false;
    }
    let start = n - m;
    let mut i: usize = 0;
    while i < m
        invariant
            n == s@.len(),
            m == suffix@.len(),
            start == n - m,
            i <= m,
            forall|j: int| 0 <= j < i ==> s@[start + j] == suffix@[j],
        decreases m - i,
    {
        if s.get_char(start + i) != suffix.get_char(i) {
            assert(s@.skip(start as int)[i as int] != suffix@[i as int]);
            return false;
        }
        i = i + 1;
    }
    assert(s@.skip(start as int) =~= suffix@);
    true
}

/// The full service type of `service_type`: it gets the domain `.local.`
/// unless it already ends with it.
pub fn normalize_service_type(service_type: String) -> (r: String)
    ensures
        r@ == if text_ends_with(service_type@, ".local."@) {
            service_type@
        } else {
            service_type@ + ".local."@
        },
{
    if ends_with(service_type.as_str(), ".local.") {
        service_type
    } else {
        let mut s = service_type;
        s.append(".local.");
        s
    }
}

/// The mDNS host name of a host: `{hostname}.local.`.
pub fn service_hostname(hostname: &str) -> (r: String)
    ensures
        r@ == hostname@ + ".local."@,
{
    let mut s = hostname.to_owned();
    s.append(".local.");
    s
}

/// The first private IPv4 address among `addrs`, in their order.
pub open spec fn first_private(addrs: Seq<u32>) -> Option<u32>
    decreases addrs.len(),
{
    if addrs.len() == 0 {
        None
    } else if is_private_v4(addrs[0]) {
        Some(addrs[0])
    } else {
        first_private(addrs.drop_first())
    }
}

/// The address at which a resolved service is reached: when its full name
/// is of the given service type, the first private IPv4 address among
/// those it resolved to.
pub open spec fn spec_service_address(fullname: Seq<char>, service_type: Seq<char>, addrs: Seq<u32>) -> Option<u32> {
    if text_ends_with(fullname, service_type) {
        first_private(addrs)
    } else {
        None
    }
}

/// The first private address is the private address at the least index:
/// an address is taken when it is private and none before it is, and there
/// is none when no address is private.
proof fn lemma_first_private_least(addrs: Seq<u32>, i: int)
    ensures
        0 <= i < addrs.len() && is_private_v4(addrs[i])
            && (forall|j: int| 0 <= j < i ==> !is_private_v4(#[trigger] addrs[j]))
            ==> first_private(addrs) == Some(addrs[i]),
        (forall|j: int| 0 <= j < addrs.len() ==> !is_private_v4(#[trigger] addrs[j])) ==> first_private(addrs) is None,
    decreases addrs.len(),
{
    if addrs.len() > 0 {
        lemma_first_private_least(addrs.drop_first(), i - 1);
        if forall|j: int| 0 <= j < addrs.len() ==> !is_private_v4(#[trigger] addrs[j]) {
            assert(!is_private_v4(addrs[0]));
            assert forall|j: int| 0 <= j < addrs.drop_first().len() implies !is_private_v4(#[trigger] addrs.drop_first()[j]) by {
                assert(addrs.drop_first()[j] == addrs[j + 1]);
            }
        }
        if 0 < i < addrs.len() && is_private_v4(addrs[i]) && (forall|j: int| 0 <= j < i ==> !is_private_v4(#[trigger] addrs[j])) {
            assert(!is_private_v4(addrs[0]));
            assert(addrs.drop_first()[i - 1] == addrs[i]);
            assert forall|j: int| 0 <= j < i - 1 implies !is_private_v4(#[trigger] addrs.drop_first()[j]) by {
                assert(addrs.drop_first()[j] == addrs[j + 1]);
            }
        }
    }
}

/// A service whose full name is of the given type is reached at the private
/// address at the least index among those it resolved to (the first one
/// when it is private), and at none when none is private; a service of
/// another type is reached at none.
pub proof fn lemma_service_address_first(fullname: Seq<char>, service_type: Seq<char>, addrs: Seq<u32>, i: int)
    ensures
        text_ends_with(fullname, service_type) && 0 <= i < addrs.len() && is_private_v4(addrs[i])
            && (forall|j: int| 0 <= j < i ==> !is_private_v4(#[trigger] addrs[j]))
            ==> spec_service_address(fullname, service_type, addrs) == Some(addrs[i]),
        (forall|j: int| 0 <= j < addrs.len() ==> !is_private_v4(#[trigger] addrs[j]))
            ==> spec_service_address(fullname, service_type, addrs) is None,
        !text_ends_with(fullname, service_type) ==> spec_service_address(fullname, service_type, addrs) is None,
{
    lemma_first_private_least(addrs, i);
}

/// The address at which a resolved service is reached: when its full name
/// is of the given service type, the first private IPv4 address among
/// those it resolved to, in the given order.
pub fn resolve_service_address(fullname: &str, service_type: &str, addrs_v4: &Vec<u32>) -> (r: Option<u32>)
    ensures
        r == spec_service_address(fullname@, service_type@, addrs_v4@),
{
    if !ends_with(fullname, service_type) {
        return None;
    }
    let mut i: usize = 0;
    assert(addrs_v4@.skip(0) =~= addrs_v4@);
    while i < addrs_v4.len()
        invariant
            i <= addrs_v4@.len(),
            first_private(addrs_v4@) == first_private(addrs_v4@.skip(i as int)),
            text_ends_with(fullname@, service_type@),
        decreases addrs_v4@.len() - i,
    {
        let ghost rest = addrs_v4@.skip(i as int);
        assert(rest[0] == addrs_v4@[i as int]);
        if is_private(addrs_v4[i]) {
            assert(first_private(rest) == Some(rest[0]));
            return Some(addrs_v4[i]);
        }
        assert(rest.drop_first() =~= addrs_v4@.skip(i + 1));
        i = i + 1;
    }
    None
}

/// An event of an mDNS browse.
#[derive(Debug)]
pub enum BrowseEvent {
    /// A service was resolved to these IPv4 addresses and port.
    Resolved { fullname: String, addrs_v4: Vec<u32>, port: u16 },
    /// A service of the given type was removed.
    Removed { service_type: String, fullname: String },
    /// Anything else the daemon reports.
    Other,
    /// The browse was asked to stop.
    Cancelled,
}

/// What the browse does next.
#[derive(Debug, Clone, Copy, PartialEq, Eq, Structural)]
pub enum BrowseAction {
    /// Keep browsing.
    Continue,
    /// Stop browsing.
    Stop,
}

/// The services found by browsing: each full name with the address and
/// port at which it is reached.
pub struct MdnsPeers {
    peers: PeerMap<(u32, u16)>,
}

impl View for MdnsPeers {
    type V = Map<Seq<char>, (u32, u16)>;

    closed spec fn view(&self) -> Map<Seq<char>, (u32, u16)> {
        self.peers@
    }
}

impl MdnsPeers {
    /// The table is well formed.
    pub closed spec fn wf(&self) -> bool {
        self.peers.wf()
    }

    /// No service found yet.
    pub fn new() -> (r: Self)
        ensures
            r.wf(),
            r@ == Map::<Seq<char>, (u32, u16)>::empty(),
    {
        MdnsPeers { peers: PeerMap::new() }
    }

    /// The services found, in no particular order.
    pub fn entries(&self) -> (r: &[(String, (u32, u16))])
        requires
            self.wf(),
        ensures
            distinct_keys(r@),
            entries_map(r@) == self@,
    {
        self.peers.entries()
    }

    /// Reacts to an event of the browse for services of `service_type`:
    /// a resolved service of that type with a private IPv4 address is
    /// recorded at the first such address; a removed service of that type
    /// is dropped; cancellation stops the browse.
    pub fn step(&mut self, service_type: &str, event: BrowseEvent) -> (r: BrowseAction)
        requires
            old(self).wf(),
        ensures
            final(self).wf(),
            match event {
                BrowseEvent::Resolved { fullname, addrs_v4, port } => {
                    &&& r == BrowseAction::Continue
                    &&& final(self)@ == match spec_service_address(fullname@, service_type@, addrs_v4@) {
                        Some(a) => old(self)@.insert(fullname@, (a, port)),
                        None => old(self)@,
                    }
                },
                BrowseEvent::Removed { service_type: t, fullname } => {
                    &&& r == BrowseAction::Continue
                    &&& final(self)@ == if text_ends_with(t@, service_type@) {
                        old(self)@.remove(fullname@)
                    } else {
                        old(self)@
                    }
                },
                BrowseEvent::Other => r == BrowseAction::Continue && final(self)@ == old(self)@,
                BrowseEvent::Cancelled => r == BrowseAction::Stop && final(self)@ == old(self)@,
            },
    {
        match event {
            BrowseEvent::Resolved { fullname, addrs_v4, port } => {
                match resolve_service_address(fullname.as_str(), service_type, &addrs_v4) {
                    Some(a) => {
                        self.peers.insert(fullname, (a, port));
                    },
                    None => {},
                }
                BrowseAction::Continue
            },
            BrowseEvent::Removed { service_type: t, fullname } => {
                if ends_with(t.as_str(), service_type) {
                    self.peers.remove(&fullname);
                }
                BrowseAction::Continue
            },
            BrowseEvent::Other => BrowseAction::Continue,
            BrowseEvent::Cancelled => BrowseAction::Stop,
        }
    }
}

} // verus!
