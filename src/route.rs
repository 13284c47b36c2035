use crate::net::{is_network, IpAddress, IpPrefix};
use vstd::prelude::*;

verus! {

/// A forwarding IPv4 address that a route may use.
#[derive(Clone, Copy, Debug, PartialEq, Eq, Structural)]
pub struct Nexthop {
    pub nexthop: u32,
}

/// What is known of the route to one IPv4 prefix.
#[derive(Debug)]
pub struct RibEntry {
    pub selected: bool,
    pub preference: u32,
    pub tag: u32,
    pub color: Vec<String>,
    pub nexthops: Vec<Nexthop>,
    pub gateway: IpAddress,
}

/// A route as the operating system announces it.
#[derive(Clone, Copy, Debug, PartialEq, Eq, Structural)]
pub struct OsRoute {
    pub route: IpPrefix,
    pub gateway: IpAddress,
}

/// A freshly made entry: not selected, preference and tag zero, no colors, no nexthops.
pub open spec fn is_fresh_entry(e: RibEntry, gateway: IpAddress) -> bool {
    &&& !e.selected
    &&& e.preference == 0
    &&& e.tag == 0
    &&& e.color@.len() == 0
    &&& e.nexthops@.len() == 0
    &&& e.gateway == gateway
}

impl RibEntry {
    /// An empty entry whose gateway is the unspecified IPv4 address.
    pub fn new() -> (r: RibEntry)
        ensures
            is_fresh_entry(r, IpAddress::V4(0)),
    {
        RibEntry {
            selected: false,
            preference: 0,
            tag: 0,
            color: Vec::new(),
            nexthops: Vec::new(),
            gateway: IpAddress::V4(0),
        }
    }
}

/// A key of the route table: an IPv4 network address and a prefix length.
pub type RouteKey = (u32, u8);

/// The key is a prefix length of at most 32 with all host bits clear.
pub open spec fn key_wf(k: RouteKey) -> bool {
    is_network(k.0, k.1)
}

pub type RouteTrie = prefix_trie::PrefixMap<RouteKey, RibEntry>;

#[verifier::external_type_specification]
#[verifier::external_body]
#[verifier::reject_recursive_types(P)]
#[verifier::reject_recursive_types(T)]
pub struct ExPrefixMap<P, T>(prefix_trie::PrefixMap<P, T>);

/// The entries that a route trie holds, by exact prefix.
pub uninterp spec fn trie_entries(m: RouteTrie) -> Map<RouteKey, RibEntry>;

/// Relies on prefix_trie::PrefixMap::new: the map starts empty.
#[verifier::external_body]
pub(crate) fn trie_new() -> (r: RouteTrie)
    ensures
        trie_entries(r).dom().len() == 0,
        trie_entries(r).dom().finite(),
{
    prefix_trie::PrefixMap::new()
}

/// Relies on prefix_trie::PrefixMap::insert: the value is stored under the exact prefix,
/// replacing what was there.
#[verifier::external_body]
pub(crate) fn trie_insert(m: &mut RouteTrie, k: RouteKey, v: RibEntry)
    requires
        key_wf(k),
    ensures
        trie_entries(*final(m)) == trie_entries(*old(m)).insert(k, v),
{
    m.insert(k, v);
}

/// Relies on prefix_trie::PrefixMap::remove: the entry under the exact prefix, if any, is taken
/// out.
#[verifier::external_body]
pub(crate) fn trie_remove(m: &mut RouteTrie, k: RouteKey)
    requires
        key_wf(k),
    ensures
        trie_entries(*final(m)) == trie_entries(*old(m)).remove(k),
{
    m.remove(&k);
}

/// Relies on prefix_trie::PrefixMap::get: the entry under the exact prefix.
#[verifier::external_body]
pub(crate) fn trie_get(m: &RouteTrie, k: RouteKey) -> (r: Option<&RibEntry>)
    requires
        key_wf(k),
    ensures
        r is Some <==> trie_entries(*m).contains_key(k),
        r is Some ==> r->0 == trie_entries(*m)[k],
{
    m.get(&k)
}

/// Relies on prefix_trie::PrefixMap::len: the number of entries.
#[verifier::external_body]
pub(crate) fn trie_len(m: &RouteTrie) -> (r: usize)
    ensures
        r == trie_entries(*m).len(),
{
    m.len()
}

/// Relies on prefix_trie::PrefixMap::iter: each stored prefix once.
#[verifier::external_body]
pub(crate) fn trie_keys(m: &RouteTrie) -> (r: Vec<RouteKey>)
    ensures
        r@.no_duplicates(),
        r@.to_set() == trie_entries(*m).dom(),
{
    m.iter().map(|(k, _)| *k).collect()
}

} // verus!
