use crate::net::IpPrefix;
use vstd::prelude::*;

verus! {

/// One address assigned to a link, with the index of the link that owns it.
#[derive(Clone, Copy, Debug, PartialEq, Eq, Structural)]
pub struct LinkAddr {
    pub addr: IpPrefix,
    pub link_index: u32,
}

/// An address as the operating system announces it.
#[derive(Clone, Copy, Debug, PartialEq, Eq, Structural)]
pub struct OsAddr {
    pub addr: IpPrefix,
    pub link_index: u32,
}

/// A network interface as the operating system announces it.
#[derive(Clone, Debug)]
pub struct OsLink {
    pub index: u32,
    pub name: String,
    pub flags: u32,
}

/// A network interface and the addresses assigned to it, by family.
#[derive(Debug)]
pub struct Link {
    pub index: u32,
    pub name: String,
    pub flags: u32,
    pub addr4: Vec<LinkAddr>,
    pub addr6: Vec<LinkAddr>,
}

impl LinkAddr {
    pub open spec fn spec_is_v4(self) -> bool {
        self.addr.spec_is_v4()
    }

    pub fn is_v4(&self) -> (r: bool)
        ensures
            r == self.spec_is_v4(),
    {
        self.addr.is_v4()
    }

    pub fn from_os(a: OsAddr) -> (r: LinkAddr)
        ensures
            r.addr == a.addr,
            r.link_index == a.link_index,
    {
        LinkAddr { addr: a.addr, link_index: a.link_index }
    }
}

/// Some entry of `s` holds the address `a`.
pub open spec fn holds_addr(s: Seq<LinkAddr>, a: IpPrefix) -> bool {
    exists|j: int| 0 <= j < s.len() && s[j].addr == a
}

/// No two entries of `s` hold the same address, and all are valid and of one family.
pub open spec fn addr_list_wf(s: Seq<LinkAddr>, v4: bool) -> bool {
    &&& forall|j: int| 0 <= j < s.len() ==> s[j].spec_is_v4() == v4 && s[j].addr.valid()
    &&& forall|j: int, k: int| 0 <= j < k < s.len() ==> s[j].addr != s[k].addr
}

/// `s` after an insertion of `a`: unchanged if the address is already present, else `a` at the end.
pub open spec fn addr_list_added(s: Seq<LinkAddr>, a: LinkAddr) -> Seq<LinkAddr> {
    if holds_addr(s, a.addr) {
        s
    } else {
        s.push(a)
    }
}

/// `t` is `s` after a deletion of the address `a`: the first entry that holds it is removed;
/// without one, nothing changes.
pub open spec fn addr_list_removed(s: Seq<LinkAddr>, t: Seq<LinkAddr>, a: IpPrefix) -> bool {
    if holds_addr(s, a) {
        exists|j: int|
            0 <= j < s.len() && s[j].addr == a && (forall|k: int| 0 <= k < j ==> s[k].addr != a)
                && t == s.remove(j)
    } else {
        t == s
    }
}

/// Both address lists of a link are free of duplicates and hold their own family.
pub open spec fn link_wf(l: Link) -> bool {
    addr_list_wf(l.addr4@, true) && addr_list_wf(l.addr6@, false)
}

/// `l` and `m` are the same link but perhaps for their addresses.
pub open spec fn same_identity(l: Link, m: Link) -> bool {
    l.index == m.index && l.name@ == m.name@ && l.flags == m.flags
}

/// `m` is `l` after `link_addr_update` with `a`.
pub open spec fn link_addr_added(l: Link, m: Link, a: LinkAddr) -> bool {
    &&& same_identity(l, m)
    &&& if a.spec_is_v4() {
        m.addr4@ == addr_list_added(l.addr4@, a) && m.addr6@ == l.addr6@
    } else {
        m.addr6@ == addr_list_added(l.addr6@, a) && m.addr4@ == l.addr4@
    }
}

/// `m` is `l` after `link_addr_del` with `a`.
pub open spec fn link_addr_removed(l: Link, m: Link, a: LinkAddr) -> bool {
    &&& same_identity(l, m)
    &&& if a.spec_is_v4() {
        addr_list_removed(l.addr4@, m.addr4@, a.addr) && m.addr6@ == l.addr6@
    } else {
        addr_list_removed(l.addr6@, m.addr6@, a.addr) && m.addr4@ == l.addr4@
    }
}

impl Link {
    /// A link with no addresses, from its announcement.
    pub fn from_os(os: OsLink) -> (r: Link)
        ensures
            r.index == os.index,
            r.name@ == os.name@,
            r.flags == os.flags,
            r.addr4@ == Seq::<LinkAddr>::empty(),
            r.addr6@ == Seq::<LinkAddr>::empty(),
            link_wf(r),
    {
        Link { index: os.index, name: os.name, flags: os.flags, addr4: Vec::new(), addr6: Vec::new() }
    }
}

fn addr_position(s: &Vec<LinkAddr>, a: IpPrefix) -> (r: usize)
    ensures
        r <= s@.len(),
        forall|k: int| 0 <= k < r ==> s@[k].addr != a,
        r < s@.len() ==> s@[r as int].addr == a,
        holds_addr(s@, a) <==> r < s@.len(),
{
    let mut i: usize = 0;
    while i < s.len()
        invariant
            i <= s@.len(),
            forall|k: int| 0 <= k < i ==> s@[k].addr != a,
        decreases s@.len() - i,
    {
        if s[i].addr == a {
            return i;
        }
        i = i + 1;
    }
    i
}

fn addr_list_insert(s: &mut Vec<LinkAddr>, a: LinkAddr, v4: bool)
    requires
        addr_list_wf(old(s)@, v4),
        a.spec_is_v4() == v4,
        a.addr.valid(),
    ensures
        final(s)@ == addr_list_added(old(s)@, a),
        addr_list_wf(final(s)@, v4),
{
    let p = addr_position(s, a.addr);
    if p == s.len() {
        s.push(a);
    }
}

fn addr_list_delete(s: &mut Vec<LinkAddr>, a: IpPrefix, v4: bool)
    requires
        addr_list_wf(old(s)@, v4),
    ensures
        addr_list_removed(old(s)@, final(s)@, a),
        addr_list_wf(final(s)@, v4),
{
    let p = addr_position(s, a);
    if p < s.len() {
        s.remove(p);
        assert(final(s)@ == old(s)@.remove(p as int));
    }
}

/// Adds `addr` to the address list of its family on `link`; an address already present is
/// left as it is.
pub fn link_addr_update(link: &mut Link, addr: LinkAddr)
    requires
        link_wf(*old(link)),
        addr.addr.valid(),
    ensures
        link_addr_added(*old(link), *final(link), addr),
        link_wf(*final(link)),
{
    if addr.is_v4() {
        addr_list_insert(&mut link.addr4, addr, true);
    } else {
        addr_list_insert(&mut link.addr6, addr, false);
    }
}

/// Removes `addr` from the address list of its family on `link`; an absent address changes
/// nothing.
pub fn link_addr_del(link: &mut Link, addr: LinkAddr)
    requires
        link_wf(*old(link)),
    ensures
        link_addr_removed(*old(link), *final(link), addr),
        link_wf(*final(link)),
{
    if addr.is_v4() {
        addr_list_delete(&mut link.addr4, addr.addr, true);
    } else {
        addr_list_delete(&mut link.addr6, addr.addr, false);
    }
}

/// Adding an address that a link does not hold yet and then deleting it gives the link back its
/// address lists as they were.
pub proof fn lemma_addr_round_trip(l: Link, m: Link, n: Link, a: LinkAddr)
    requires
        link_wf(l),
        !holds_addr(l.addr4@, a.addr),
        !holds_addr(l.addr6@, a.addr),
        link_addr_added(l, m, a),
        link_addr_removed(m, n, a),
    ensures
        same_identity(l, n),
        n.addr4@ == l.addr4@,
        n.addr6@ == l.addr6@,
{
    let s = if a.spec_is_v4() { l.addr4@ } else { l.addr6@ };
    let t = s.push(a);
    assert(t[s.len() as int].addr == a.addr);
    assert(holds_addr(t, a.addr));
    let u = if a.spec_is_v4() { n.addr4@ } else { n.addr6@ };
    let j = choose|j: int|
        0 <= j < t.len() && t[j].addr == a.addr && (forall|k: int| 0 <= k < j ==> t[k].addr != a.addr)
            && u == t.remove(j);
    if j < s.len() {
        assert(t[j] == s[j]);
        assert(holds_addr(s, a.addr));
    }
    assert(u =~= s);
}

} // verus!
