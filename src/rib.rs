use crate::link::{
    link_addr_added, link_addr_del, link_addr_removed, link_addr_update, link_wf, Link, LinkAddr,
    OsAddr, OsLink,
};
use crate::net::{ipv4_network, network_of, IpPrefix};
use crate::route::{
    is_fresh_entry, key_wf, trie_entries, trie_insert, trie_len, trie_new, trie_remove, OsRoute,
    RibEntry, RouteKey, RouteTrie,
};
use vstd::prelude::*;
use vstd::string::*;

verus! {

/// A display command that the dispatch table can name.
#[derive(Clone, Copy, Debug, PartialEq, Eq, Structural)]
pub enum Command {
    ShowInterfaces,
    ShowIpRoute,
}

/// A change of the host's network state, as the operating system reports it.
#[derive(Clone, Debug)]
pub enum OsMessage {
    NewLink(OsLink),
    DelLink(OsLink),
    NewAddr(OsAddr),
    DelAddr(OsAddr),
    NewRoute(OsRoute),
    DelRoute(OsRoute),
}

/// The operation that a configuration request asks for.
#[derive(Clone, Copy, Debug, PartialEq, Eq, Structural)]
pub enum ConfigOp {
    Assign,
    Delete,
    Completion,
}

/// The routing information base: links with their addresses, IPv4 routes, and the table of
/// display commands.
pub struct Rib {
    links: Vec<Link>,
    rib: RouteTrie,
    callbacks: Vec<(String, Command)>,
}

/// Link indices strictly increase along the table.
pub open spec fn links_sorted(s: Seq<Link>) -> bool {
    forall|i: int, j: int| 0 <= i < j < s.len() ==> s[i].index < s[j].index
}

pub open spec fn links_wf(s: Seq<Link>) -> bool {
    &&& links_sorted(s)
    &&& forall|i: int| 0 <= i < s.len() ==> link_wf(#[trigger] s[i])
}

/// Some link of the table has index `idx`.
pub open spec fn has_link(s: Seq<Link>, idx: u32) -> bool {
    exists|i: int| 0 <= i < s.len() && s[i].index == idx
}

/// Exactly one link of the table has index `idx`.
pub open spec fn one_link(s: Seq<Link>, idx: u32) -> bool {
    exists|i: int|
        0 <= i < s.len() && s[i].index == idx && (forall|j: int|
            0 <= j < s.len() && s[j].index == idx ==> j == i)
}

/// `l` is the link that an announcement `os` makes: no addresses yet.
pub open spec fn is_new_link(l: Link, os: OsLink) -> bool {
    &&& l.index == os.index
    &&& l.name@ == os.name@
    &&& l.flags == os.flags
    &&& l.addr4@.len() == 0
    &&& l.addr6@.len() == 0
}

/// `t` is the table `s` after a link announcement: a link of a new index goes in at its place
/// in index order; a known index changes nothing.
pub open spec fn link_added(s: Seq<Link>, t: Seq<Link>, os: OsLink) -> bool {
    if has_link(s, os.index) {
        t == s
    } else {
        exists|p: int| 0 <= p <= s.len() && is_new_link(t[p], os) && t == s.insert(p, t[p])
    }
}

/// `t` is the table `s` after the link of index `idx`, if any, is taken out.
pub open spec fn link_removed(s: Seq<Link>, t: Seq<Link>, idx: u32) -> bool {
    if has_link(s, idx) {
        exists|i: int| 0 <= i < s.len() && s[i].index == idx && t == s.remove(i)
    } else {
        t == s
    }
}

/// `t` is the table `s` after an address event: the owning link, if present, gains (`add`) or
/// loses the address; without it nothing changes.
pub open spec fn addr_applied(s: Seq<Link>, t: Seq<Link>, a: LinkAddr, add: bool) -> bool {
    if has_link(s, a.link_index) {
        exists|i: int|
            0 <= i < s.len() && s[i].index == a.link_index && t == s.update(i, t[i]) && (if add {
                link_addr_added(s[i], t[i], a)
            } else {
                link_addr_removed(s[i], t[i], a)
            })
    } else {
        t == s
    }
}

/// The route table key of an IPv4 route: its network address and prefix length.
pub open spec fn route_key(addr: u32, len: u8) -> RouteKey {
    (network_of(addr, len), len)
}

/// `t` is the route map `s` after a route announcement: an IPv4 route with a fitting prefix
/// length replaces the entry under its prefix; any other route changes nothing.
pub open spec fn route_added(
    s: Map<RouteKey, RibEntry>,
    t: Map<RouteKey, RibEntry>,
    r: OsRoute,
) -> bool {
    match r.route {
        IpPrefix::V4(addr, len) => if len <= 32 {
            let k = route_key(addr, len);
            &&& t.dom() == s.dom().insert(k)
            &&& is_fresh_entry(t[k], r.gateway)
            &&& forall|q: RouteKey| q != k && s.contains_key(q) ==> t[q] == s[q]
        } else {
            t == s
        },
        IpPrefix::V6(_, _) => t == s,
    }
}

/// `t` is the route map `s` after a route withdrawal: an IPv4 route removes the entry under its
/// prefix; any other route changes nothing.
pub open spec fn route_removed(
    s: Map<RouteKey, RibEntry>,
    t: Map<RouteKey, RibEntry>,
    r: OsRoute,
) -> bool {
    match r.route {
        IpPrefix::V4(addr, len) => if len <= 32 {
            t == s.remove(route_key(addr, len))
        } else {
            t == s
        },
        IpPrefix::V6(_, _) => t == s,
    }
}

/// The path under which the interface summary is registered.
pub const PATH_INTERFACES: &'static str = "/show/interfaces";

/// The path under which the IPv4 route listing is registered.
pub const PATH_IP_ROUTE: &'static str = "/show/ip/route";

/// The command that a table of registrations gives for `p`: the latest registration of `p`.
pub open spec fn table_lookup(t: Seq<(String, Command)>, p: Seq<char>) -> Option<Command>
    decreases t.len(),
{
    if t.len() == 0 {
        None
    } else if t.last().0@ == p {
        Some(t.last().1)
    } else {
        table_lookup(t.drop_last(), p)
    }
}

/// The addresses that an event carries have a prefix length that fits their family.
pub open spec fn msg_wf(msg: OsMessage) -> bool {
    match msg {
        OsMessage::NewAddr(a) => a.addr.valid(),
        OsMessage::DelAddr(a) => a.addr.valid(),
        _ => true,
    }
}

/// `r` is the base `q` after the event `msg`.
pub open spec fn os_applied(q: Rib, r: Rib, msg: OsMessage) -> bool {
    match msg {
        OsMessage::NewLink(l) => link_added(q.links_view(), r.links_view(), l) && r.routes()
            == q.routes(),
        OsMessage::DelLink(l) => link_removed(q.links_view(), r.links_view(), l.index)
            && r.routes() == q.routes(),
        OsMessage::NewAddr(a) => addr_applied(
            q.links_view(),
            r.links_view(),
            LinkAddr { addr: a.addr, link_index: a.link_index },
            true,
        ) && r.routes() == q.routes(),
        OsMessage::DelAddr(a) => addr_applied(
            q.links_view(),
            r.links_view(),
            LinkAddr { addr: a.addr, link_index: a.link_index },
            false,
        ) && r.routes() == q.routes(),
        OsMessage::NewRoute(rt) => route_added(q.routes(), r.routes(), rt) && r.links_view()
            == q.links_view(),
        OsMessage::DelRoute(rt) => route_removed(q.routes(), r.routes(), rt) && r.links_view()
            == q.links_view(),
    }
}

impl Rib {
    pub closed spec fn links_view(&self) -> Seq<Link> {
        self.links@
    }

    pub closed spec fn routes(&self) -> Map<RouteKey, RibEntry> {
        trie_entries(self.rib)
    }

    pub closed spec fn callback_table(&self) -> Seq<(String, Command)> {
        self.callbacks@
    }

    /// The links, in index order.
    pub fn links(&self) -> (r: &Vec<Link>)
        ensures
            r@ == self.links_view(),
    {
        &self.links
    }

    pub(crate) fn route_table(&self) -> (r: &RouteTrie)
        ensures
            trie_entries(*r) == self.routes(),
    {
        &self.rib
    }

    pub open spec fn wf(&self) -> bool {
        &&& links_wf(self.links_view())
        &&& self.routes().dom().finite()
        &&& forall|k: RouteKey| #[trigger] self.routes().contains_key(k) ==> key_wf(k)
    }

    /// The position of the first link whose index is at least `idx`.
    fn link_position(&self, idx: u32) -> (r: usize)
        requires
            self.wf(),
        ensures
            r <= self.links_view().len(),
            forall|k: int| 0 <= k < r ==> self.links_view()[k].index < idx,
            r < self.links_view().len() ==> self.links_view()[r as int].index >= idx,
            has_link(self.links_view(), idx) <==> (r < self.links_view().len()
                && self.links_view()[r as int].index == idx),
    {
        let mut i: usize = 0;
        while i < self.links.len()
            invariant
                self.wf(),
                i <= self.links@.len(),
                forall|k: int| 0 <= k < i ==> self.links@[k].index < idx,
            decreases self.links@.len() - i,
        {
            if self.links[i].index >= idx {
                proof {
                    if has_link(self.links@, idx) {
                        let j = choose|j: int| 0 <= j < self.links@.len() && self.links@[j].index == idx;
                        if j > i {
                            assert(self.links@[i as int].index < self.links@[j].index);
                        }
                    }
                }
                return i;
            }
            i = i + 1;
        }
        i
    }

    /// Puts in a link of an index not yet present; an announcement of a known index is ignored.
    pub fn link_add(&mut self, oslink: OsLink)
        requires
            old(self).wf(),
        ensures
            final(self).wf(),
            link_added(old(self).links_view(), final(self).links_view(), oslink),
            final(self).routes() == old(self).routes(),
            final(self).callback_table() == old(self).callback_table(),
    {
        let p = self.link_position(oslink.index);
        if p < self.links.len() && self.links[p].index == oslink.index {
            return;
        }
        let link = Link::from_os(oslink);
        self.links.insert(p, link);
        proof {
            let s = old(self).links@;
            let t = self.links@;
            assert(t[p as int] == link);
            assert forall|i: int, j: int| 0 <= i < j < t.len() implies t[i].index < t[j].index by {
                if j < p {
                } else if j == p {
                } else if i < p {
                    assert(t[j] == s[j - 1]);
                } else if i == p {
                    assert(t[j] == s[j - 1]);
                } else {
                    assert(t[j] == s[j - 1] && t[i] == s[i - 1]);
                }
            }
            assert forall|i: int| 0 <= i < t.len() implies link_wf(#[trigger] t[i]) by {
                if i < p {
                    assert(t[i] == s[i]);
                } else if i > p {
                    assert(t[i] == s[i - 1]);
                }
            }
        }
    }

    /// Takes out the link of the given index, if there is one.
    pub fn link_delete(&mut self, oslink: OsLink)
        requires
            old(self).wf(),
        ensures
            final(self).wf(),
            link_removed(old(self).links_view(), final(self).links_view(), oslink.index),
            final(self).routes() == old(self).routes(),
            final(self).callback_table() == old(self).callback_table(),
    {
        let p = self.link_position(oslink.index);
        if p < self.links.len() && self.links[p].index == oslink.index {
            self.links.remove(p);
            proof {
                let s = old(self).links@;
                let t = self.links@;
                assert forall|i: int, j: int| 0 <= i < j < t.len() implies t[i].index
                    < t[j].index by {
                    if j < p {
                    } else if i < p {
                        assert(t[j] == s[j + 1]);
                    } else {
                        assert(t[j] == s[j + 1] && t[i] == s[i + 1]);
                    }
                }
                assert forall|i: int| 0 <= i < t.len() implies link_wf(#[trigger] t[i]) by {
                    if i >= p {
                        assert(t[i] == s[i + 1]);
                    }
                }
            }
        }
    }

    fn addr_event(&mut self, osaddr: OsAddr, add: bool)
        requires
            old(self).wf(),
            osaddr.addr.valid(),
        ensures
            final(self).wf(),
            addr_applied(
                old(self).links_view(),
                final(self).links_view(),
                LinkAddr { addr: osaddr.addr, link_index: osaddr.link_index },
                add,
            ),
            final(self).routes() == old(self).routes(),
            final(self).callback_table() == old(self).callback_table(),
    {
        let addr = LinkAddr::from_os(osaddr);
        let p = self.link_position(addr.link_index);
        if p < self.links.len() && self.links[p].index == addr.link_index {
            let ghost s = self.links@;
            let link = &mut self.links[p];
            if add {
                link_addr_update(link, addr);
            } else {
                link_addr_del(link, addr);
            }
            proof {
                let t = self.links@;
                assert(t == s.update(p as int, t[p as int]));
                assert forall|i: int, j: int| 0 <= i < j < t.len() implies t[i].index
                    < t[j].index by {
                    assert(s[i].index < s[j].index);
                }
                assert forall|i: int| 0 <= i < t.len() implies link_wf(#[trigger] t[i]) by {
                    if i != p {
                        assert(t[i] == s[i]);
                    }
                }
            }
        }
    }

    /// Adds an address to the link that owns it; an address of an unknown link is dropped.
    pub fn addr_add(&mut self, osaddr: OsAddr)
        requires
            old(self).wf(),
            osaddr.addr.valid(),
        ensures
            final(self).wf(),
            addr_applied(
                old(self).links_view(),
                final(self).links_view(),
                LinkAddr { addr: osaddr.addr, link_index: osaddr.link_index },
                true,
            ),
            !has_link(old(self).links_view(), osaddr.link_index) ==> final(self).links_view()
                == old(self).links_view(),
            final(self).routes() == old(self).routes(),
            final(self).callback_table() == old(self).callback_table(),
    {
        self.addr_event(osaddr, true);
    }

    /// Removes an address from the link that owns it; an address of an unknown link is dropped.
    pub fn addr_del(&mut self, osaddr: OsAddr)
        requires
            old(self).wf(),
            osaddr.addr.valid(),
        ensures
            final(self).wf(),
            addr_applied(
                old(self).links_view(),
                final(self).links_view(),
                LinkAddr { addr: osaddr.addr, link_index: osaddr.link_index },
                false,
            ),
            !has_link(old(self).links_view(), osaddr.link_index) ==> final(self).links_view()
                == old(self).links_view(),
            final(self).routes() == old(self).routes(),
            final(self).callback_table() == old(self).callback_table(),
    {
        self.addr_event(osaddr, false);
    }

    /// Installs an IPv4 route under its network prefix, replacing what was there; other routes
    /// are ignored.
    pub fn route_add(&mut self, osroute: OsRoute)
        requires
            old(self).wf(),
        ensures
            final(self).wf(),
            route_added(old(self).routes(), final(self).routes(), osroute),
            !osroute.route.spec_is_v4() ==> final(self).routes() == old(self).routes(),
            final(self).links_view() == old(self).links_view(),
            final(self).callback_table() == old(self).callback_table(),
    {
        if let IpPrefix::V4(addr, len) = osroute.route {
            if len <= 32 {
                let k: RouteKey = (ipv4_network(addr, len), len);
                let mut entry = RibEntry::new();
                entry.gateway = osroute.gateway;
                trie_insert(&mut self.rib, k, entry);
                proof {
                    let t = self.routes();
                    assert forall|q: RouteKey| #[trigger] t.contains_key(q) implies key_wf(q) by {
                        if q != k {
                            assert(old(self).routes().contains_key(q));
                        }
                    }
                }
            }
        }
    }

    /// Withdraws the route under the prefix of an IPv4 route; other routes are ignored.
    pub fn route_del(&mut self, osroute: OsRoute)
        requires
            old(self).wf(),
        ensures
            final(self).wf(),
            route_removed(old(self).routes(), final(self).routes(), osroute),
            final(self).links_view() == old(self).links_view(),
            final(self).callback_table() == old(self).callback_table(),
    {
        if let IpPrefix::V4(addr, len) = osroute.route {
            if len <= 32 {
                let k: RouteKey = (ipv4_network(addr, len), len);
                trie_remove(&mut self.rib, k);
            }
        }
    }

    /// The number of IPv4 routes installed.
    pub fn route_count(&self) -> (r: usize)
        ensures
            r == self.routes().len(),
    {
        trie_len(&self.rib)
    }

    /// Applies one event of the operating system to the tables.
    pub fn process_os_message(&mut self, msg: OsMessage)
        requires
            old(self).wf(),
            msg_wf(msg),
        ensures
            final(self).wf(),
            os_applied(*old(self), *final(self), msg),
            final(self).callback_table() == old(self).callback_table(),
    {
        match msg {
            OsMessage::NewLink(link) => {
                self.link_add(link);
            },
            OsMessage::DelLink(link) => {
                self.link_delete(link);
            },
            OsMessage::NewAddr(addr) => {
                self.addr_add(addr);
            },
            OsMessage::DelAddr(addr) => {
                self.addr_del(addr);
            },
            OsMessage::NewRoute(route) => {
                self.route_add(route);
            },
            OsMessage::DelRoute(route) => {
                self.route_del(route);
            },
        }
    }

    /// An empty base whose dispatch table holds the two display commands.
    pub fn new() -> (r: Rib)
        ensures
            r.wf(),
            r.links_view().len() == 0,
            r.routes().dom().len() == 0,
            table_lookup(r.callback_table(), PATH_INTERFACES@) == Some(Command::ShowInterfaces),
            table_lookup(r.callback_table(), PATH_IP_ROUTE@) == Some(Command::ShowIpRoute),
            forall|p: Seq<char>|
                p != PATH_INTERFACES@ && p != PATH_IP_ROUTE@ ==> table_lookup(
                    r.callback_table(),
                    p,
                ) is None,
    {
        let mut rib = Rib { links: Vec::new(), rib: trie_new(), callbacks: Vec::new() };
        rib.callback_build();
        proof {
            assert(forall|p: Seq<char>| table_lookup(Seq::empty(), p) is None);
        }
        rib
    }

    /// Registers `cb` under `path`; a later registration of a path replaces the earlier one.
    pub fn callback_add(&mut self, path: &str, cb: Command)
        ensures
            final(self).callback_table() == old(self).callback_table().push(
                (final(self).callback_table().last().0, cb),
            ),
            final(self).callback_table().last().0@ == path@,
            forall|p: Seq<char>| #[trigger]
                table_lookup(final(self).callback_table(), p) == if p == path@ {
                    Some(cb)
                } else {
                    table_lookup(old(self).callback_table(), p)
                },
            final(self).links_view() == old(self).links_view(),
            final(self).routes() == old(self).routes(),
    {
        let key = String::from_str(path);
        self.callbacks.push((key, cb));
        proof {
            assert(self.callbacks@.drop_last() == old(self).callbacks@);
        }
    }

    /// Registers the display commands of the base.
    pub fn callback_build(&mut self)
        ensures
            table_lookup(final(self).callback_table(), PATH_INTERFACES@) == Some(
                Command::ShowInterfaces,
            ),
            table_lookup(final(self).callback_table(), PATH_IP_ROUTE@) == Some(
                Command::ShowIpRoute,
            ),
            forall|p: Seq<char>|
                p != PATH_INTERFACES@ && p != PATH_IP_ROUTE@ ==> table_lookup(
                    final(self).callback_table(),
                    p,
                ) == table_lookup(old(self).callback_table(), p),
            final(self).links_view() == old(self).links_view(),
            final(self).routes() == old(self).routes(),
    {
        self.callback_add(PATH_INTERFACES, Command::ShowInterfaces);
        self.callback_add(PATH_IP_ROUTE, Command::ShowIpRoute);
        proof {
            reveal_strlit("/show/interfaces");
            reveal_strlit("/show/ip/route");
            assert(PATH_INTERFACES@.len() != PATH_IP_ROUTE@.len());
        }
    }

    /// The command registered under `path`, the latest registration first.
    pub fn callback_get(&self, path: &String) -> (r: Option<Command>)
        ensures
            r == table_lookup(self.callback_table(), path@),
    {
        let mut i: usize = self.callbacks.len();
        assert(self.callbacks@.subrange(0, i as int) == self.callbacks@);
        while i > 0
            invariant
                i <= self.callbacks@.len(),
                table_lookup(self.callbacks@, path@) == table_lookup(
                    self.callbacks@.subrange(0, i as int),
                    path@,
                ),
            decreases i,
        {
            let ghost pre = self.callbacks@.subrange(0, i as int);
            assert(pre.drop_last() == self.callbacks@.subrange(0, i - 1));
            if self.callbacks[i - 1].0 == *path {
                return Some(self.callbacks[i - 1].1);
            }
            i = i - 1;
        }
        assert(self.callbacks@.subrange(0, 0).len() == 0);
        None
    }

    /// The link of the given name, the one of lowest index where several share it.
    pub fn link_by_name(&self, link_name: &str) -> (r: Option<&Link>)
        ensures
            r is None <==> forall|i: int|
                0 <= i < self.links_view().len() ==> self.links_view()[i].name@ != link_name@,
            r is Some ==> exists|i: int|
                0 <= i < self.links_view().len() && r->0 == self.links_view()[i]
                    && self.links_view()[i].name@ == link_name@ && forall|j: int|
                    0 <= j < i ==> self.links_view()[j].name@ != link_name@,
    {
        let name = String::from_str(link_name);
        let mut i: usize = 0;
        while i < self.links.len()
            invariant
                i <= self.links@.len(),
                name@ == link_name@,
                forall|j: int| 0 <= j < i ==> self.links@[j].name@ != link_name@,
            decreases self.links@.len() - i,
        {
            if self.links[i].name == name {
                assert(self.links@[i as int].name@ == link_name@);
                assert(self.links_view()[i as int].name@ == link_name@);
                let r = Some(&self.links[i]);
                assert(r->0 == self.links_view()[i as int]);
                return r;
            }
            i = i + 1;
        }
        None
    }

    /// The names of the links, in index order.
    pub fn link_comps(&self) -> (r: Vec<String>)
        ensures
            r@.len() == self.links_view().len(),
            forall|i: int| 0 <= i < r@.len() ==> r@[i]@ == self.links_view()[i].name@,
    {
        let mut names: Vec<String> = Vec::new();
        let mut i: usize = 0;
        while i < self.links.len()
            invariant
                i <= self.links@.len(),
                names@.len() == i,
                forall|j: int| 0 <= j < i ==> names@[j]@ == self.links@[j].name@,
            decreases self.links@.len() - i,
        {
            names.push(self.links[i].name.clone());
            i = i + 1;
        }
        names
    }

    /// The answer to a configuration request: the link names for a completion, nothing for any
    /// other operation.
    pub fn process_cm_message(&self, op: ConfigOp) -> (r: Option<Vec<String>>)
        ensures
            r is Some <==> op == ConfigOp::Completion,
            r is Some ==> r->0@.len() == self.links_view().len() && forall|i: int|
                0 <= i < self.links_view().len() ==> r->0@[i]@ == self.links_view()[i].name@,
    {
        if op == ConfigOp::Completion {
            Some(self.link_comps())
        } else {
            None
        }
    }
}

/// After a link announcement the table holds exactly one link of that index.
proof fn lemma_announced_link_unique(s: Seq<Link>, t: Seq<Link>, os: OsLink)
    requires
        link_added(s, t, os),
        links_sorted(t),
    ensures
        one_link(t, os.index),
{
    let i = if has_link(s, os.index) {
        choose|i: int| 0 <= i < s.len() && s[i].index == os.index
    } else {
        choose|p: int| 0 <= p <= s.len() && is_new_link(t[p], os) && t == s.insert(p, t[p])
    };
    assert(t[i].index == os.index);
    assert forall|j: int| 0 <= j < t.len() && t[j].index == os.index implies j == i by {
        if j < i {
            assert(t[j].index < t[i].index);
        } else if j > i {
            assert(t[i].index < t[j].index);
        }
    }
}

/// Announcing the same link twice leaves the table as the first announcement made it, with
/// exactly one link of that index.
pub proof fn lemma_new_link_idempotent(q0: Rib, q1: Rib, q2: Rib, os: OsLink)
    requires
        q0.wf(),
        q1.wf(),
        q2.wf(),
        link_added(q0.links_view(), q1.links_view(), os),
        link_added(q1.links_view(), q2.links_view(), os),
    ensures
        q2.links_view() == q1.links_view(),
        one_link(q2.links_view(), os.index),
{
    lemma_announced_link_unique(q0.links_view(), q1.links_view(), os);
    assert(has_link(q1.links_view(), os.index));
}

/// A link announced, withdrawn and announced again is present exactly once.
pub proof fn lemma_link_readded(q0: Rib, q1: Rib, q2: Rib, q3: Rib, os: OsLink)
    requires
        q0.wf(),
        q1.wf(),
        q2.wf(),
        q3.wf(),
        link_added(q0.links_view(), q1.links_view(), os),
        link_removed(q1.links_view(), q2.links_view(), os.index),
        link_added(q2.links_view(), q3.links_view(), os),
    ensures
        one_link(q3.links_view(), os.index),
{
    lemma_announced_link_unique(q2.links_view(), q3.links_view(), os);
}

} // verus!
