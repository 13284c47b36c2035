use crate::link::{link_wf, Link, LinkAddr};
use crate::net::{IpAddress, IpPrefix};
use crate::rib::{links_wf, table_lookup, Command, Rib};
use crate::route::{trie_entries, trie_get, trie_keys, RibEntry, RouteKey};
use vstd::prelude::*;
use vstd::string::*;

verus! {

/// The legend of route source codes that heads the route listing.
pub const ROUTE_LEGEND: &'static str = "Codes: K - kernel, C - connected, S - static, R - RIP, B - BGP
       O - OSPF, IA - OSPF inter area
       N1 - OSPF NSSA external type 1, N2 - OSPF NSSA external type 2
       E1 - OSPF external type 1, E2 - OSPF external type 2
       i - IS-IS, L1 - IS-IS level-1, L2 - IS-IS level-2, ia - IS-IS inter area
";

/// The text of an IPv4 network, as ipnet writes it.
pub uninterp spec fn ipv4_net_text(addr: u32, len: u8) -> Seq<char>;

/// The text of an IPv6 network, as ipnet writes it.
pub uninterp spec fn ipv6_net_text(addr: u128, len: u8) -> Seq<char>;

/// The text of an IPv4 address.
pub uninterp spec fn ipv4_addr_text(addr: u32) -> Seq<char>;

/// The text of an IPv6 address.
pub uninterp spec fn ipv6_addr_text(addr: u128) -> Seq<char>;

/// Relies on ipnet::Ipv4Net::new, which accepts a length up to 32, and on the Debug format of
/// ipnet::Ipv4Net, which depends on the address and length alone.
#[verifier::external_body]
fn ipv4_net_string(addr: u32, len: u8) -> (r: String)
    requires
        len <= 32,
    ensures
        r@ == ipv4_net_text(addr, len),
{
    format!("{:?}", ipnet::Ipv4Net::new(addr.into(), len).unwrap())
}

/// Relies on ipnet::Ipv6Net::new, which accepts a length up to 128, and on the Debug format of
/// ipnet::Ipv6Net, which depends on the address and length alone.
#[verifier::external_body]
fn ipv6_net_string(addr: u128, len: u8) -> (r: String)
    requires
        len <= 128,
    ensures
        r@ == ipv6_net_text(addr, len),
{
    format!("{:?}", ipnet::Ipv6Net::new(addr.into(), len).unwrap())
}

/// Relies on ipnet::Ipv4Net::addr, which hands back the address that the network was made
/// with, and on the Debug format of that address, which depends on its value alone.
#[verifier::external_body]
fn ipv4_addr_string(addr: u32) -> (r: String)
    ensures
        r@ == ipv4_addr_text(addr),
{
    format!("{:?}", ipnet::Ipv4Net::new(addr.into(), 32).unwrap().addr())
}

/// Relies on ipnet::Ipv6Net::addr, which hands back the address that the network was made
/// with, and on the Debug format of that address, which depends on its value alone.
#[verifier::external_body]
fn ipv6_addr_string(addr: u128) -> (r: String)
    ensures
        r@ == ipv6_addr_text(addr),
{
    format!("{:?}", ipnet::Ipv6Net::new(addr.into(), 128).unwrap().addr())
}

pub open spec fn gateway_text(g: IpAddress) -> Seq<char> {
    match g {
        IpAddress::V4(a) => ipv4_addr_text(a),
        IpAddress::V6(a) => ipv6_addr_text(a),
    }
}

/// One line of the route listing: source code, prefix and gateway.
pub open spec fn route_line(k: RouteKey, e: RibEntry) -> Seq<char> {
    "K  "@ + ipv4_net_text(k.0, k.1) + "     "@ + gateway_text(e.gateway) + "\n"@
}

/// The lines of the routes of `m` under the prefixes `ks`, in that order.
pub open spec fn route_lines(m: Map<RouteKey, RibEntry>, ks: Seq<RouteKey>) -> Seq<char>
    decreases ks.len(),
{
    if ks.len() == 0 {
        Seq::empty()
    } else {
        route_lines(m, ks.drop_last()) + route_line(ks.last(), m[ks.last()])
    }
}

/// `out` is the legend followed by one line for each installed route, each route once.
pub open spec fn is_route_listing(rib: Rib, out: Seq<char>) -> bool {
    exists|ks: Seq<RouteKey>|
        ks.no_duplicates() && ks.to_set() == rib.routes().dom() && out == ROUTE_LEGEND@
            + route_lines(rib.routes(), ks)
}

fn gateway_string(g: IpAddress) -> (r: String)
    ensures
        r@ == gateway_text(g),
{
    match g {
        IpAddress::V4(a) => ipv4_addr_string(a),
        IpAddress::V6(a) => ipv6_addr_string(a),
    }
}

/// The route listing: the legend, then one line for each installed IPv4 route.
pub fn rib_show(rib: &Rib, _args: Vec<String>) -> (r: String)
    requires
        rib.wf(),
    ensures
        is_route_listing(*rib, r@),
{
    let table = rib.route_table();
    let keys = trie_keys(table);
    let ghost m = rib.routes();
    let mut buf = String::from_str(ROUTE_LEGEND);
    let mut i: usize = 0;
    assert(keys@.subrange(0, 0).len() == 0);
    while i < keys.len()
        invariant
            i <= keys@.len(),
            m == rib.routes(),
            trie_entries(*table) == m,
            rib.wf(),
            keys@.to_set() == m.dom(),
            buf@ == ROUTE_LEGEND@ + route_lines(m, keys@.subrange(0, i as int)),
        decreases keys@.len() - i,
    {
        let k = keys[i];
        assert(keys@.to_set().contains(keys@[i as int]));
        let ghost before = buf@;
        if let Some(e) = trie_get(table, k) {
            buf.append("K  ");
            let p = ipv4_net_string(k.0, k.1);
            buf.append(p.as_str());
            buf.append("     ");
            let g = gateway_string(e.gateway);
            buf.append(g.as_str());
            buf.append("\n");
            assert(*e == m[k]);
            assert(buf@ =~= before + route_line(k, m[k]));
        }
        assert(keys@.subrange(0, i + 1).drop_last() == keys@.subrange(0, i as int));
        i = i + 1;
    }
    assert(keys@.subrange(0, keys@.len() as int) == keys@);
    buf
}

pub open spec fn addr_text(a: IpPrefix) -> Seq<char> {
    match a {
        IpPrefix::V4(x, len) => ipv4_net_text(x, len),
        IpPrefix::V6(x, len) => ipv6_net_text(x, len),
    }
}

/// One line for each address of `s`, in order, each marked with `tag`.
pub open spec fn addr_lines(s: Seq<LinkAddr>, tag: Seq<char>) -> Seq<char>
    decreases s.len(),
{
    if s.len() == 0 {
        Seq::empty()
    } else {
        addr_lines(s.drop_last(), tag) + "  "@ + tag + " "@ + addr_text(s.last().addr) + "\n"@
    }
}

/// The summary of one link: its name, then its IPv4 and its IPv6 addresses.
pub open spec fn link_block(l: Link) -> Seq<char> {
    "Interface "@ + l.name@ + "\n"@ + addr_lines(l.addr4@, "inet"@) + addr_lines(l.addr6@, "inet6"@)
}

/// The summaries of the links of `s`, in order; with a filter, only of the links so named.
pub open spec fn links_text(s: Seq<Link>, filter: Option<Seq<char>>) -> Seq<char>
    decreases s.len(),
{
    if s.len() == 0 {
        Seq::empty()
    } else {
        links_text(s.drop_last(), filter) + if filter is None || filter->0 == s.last().name@ {
            link_block(s.last())
        } else {
            Seq::empty()
        }
    }
}

/// The name filter that the arguments of the interface summary give: the first one, if any.
pub open spec fn name_filter(args: Seq<Seq<char>>) -> Option<Seq<char>> {
    if args.len() > 0 {
        Some(args[0])
    } else {
        None
    }
}

/// The text of each string of `s`.
pub open spec fn token_views(s: Seq<String>) -> Seq<Seq<char>> {
    s.map_values(|t: String| t@)
}

fn addr_string(a: IpPrefix) -> (r: String)
    requires
        a.valid(),
    ensures
        r@ == addr_text(a),
{
    match a {
        IpPrefix::V4(x, len) => ipv4_net_string(x, len),
        IpPrefix::V6(x, len) => ipv6_net_string(x, len),
    }
}

fn push_addr_lines(buf: &mut String, s: &Vec<LinkAddr>, tag: &str, v4: bool)
    requires
        crate::link::addr_list_wf(s@, v4),
    ensures
        final(buf)@ == old(buf)@ + addr_lines(s@, tag@),
{
    let ghost start = buf@;
    let mut i: usize = 0;
    assert(s@.subrange(0, 0).len() == 0);
    while i < s.len()
        invariant
            i <= s@.len(),
            crate::link::addr_list_wf(s@, v4),
            buf@ == start + addr_lines(s@.subrange(0, i as int), tag@),
        decreases s@.len() - i,
    {
        let ghost before = buf@;
        buf.append("  ");
        buf.append(tag);
        buf.append(" ");
        let t = addr_string(s[i].addr);
        buf.append(t.as_str());
        buf.append("\n");
        assert(s@.subrange(0, i + 1).drop_last() == s@.subrange(0, i as int));
        assert(buf@ =~= start + addr_lines(s@.subrange(0, i + 1), tag@));
        i = i + 1;
    }
    assert(s@.subrange(0, s@.len() as int) == s@);
}

/// The interface summary: for each link, its name and its addresses; a first argument keeps
/// only the links of that name.
pub fn link_show(rib: &Rib, args: Vec<String>) -> (r: String)
    requires
        rib.wf(),
    ensures
        r@ == links_text(rib.links_view(), name_filter(token_views(args@))),
{
    let links = rib.links();
    let ghost filter = name_filter(token_views(args@));
    let mut buf = String::new();
    let mut i: usize = 0;
    assert(links@.subrange(0, 0).len() == 0);
    while i < links.len()
        invariant
            i <= links@.len(),
            links@ == rib.links_view(),
            links_wf(links@),
            filter == name_filter(token_views(args@)),
            buf@ == links_text(links@.subrange(0, i as int), filter),
        decreases links@.len() - i,
    {
        let link = &links[i];
        let ghost before = buf@;
        assert(link_wf(links@[i as int]));
        let shown = if args.len() > 0 {
            args[0] == link.name
        } else {
            true
        };
        if shown {
            buf.append("Interface ");
            buf.append(link.name.as_str());
            buf.append("\n");
            push_addr_lines(&mut buf, &link.addr4, "inet", true);
            push_addr_lines(&mut buf, &link.addr6, "inet6", false);
        }
        assert(links@.subrange(0, i + 1).drop_last() == links@.subrange(0, i as int));
        assert(buf@ =~= links_text(links@.subrange(0, i + 1), filter));
        i = i + 1;
    }
    assert(links@.subrange(0, links@.len() as int) == links@);
    buf
}

/// The display path of the tokens `ps`: each preceded by a slash.
pub open spec fn path_key(ps: Seq<Seq<char>>) -> Seq<char>
    decreases ps.len(),
{
    if ps.len() == 0 {
        Seq::empty()
    } else {
        path_key(ps.drop_last()) + "/"@ + ps.last()
    }
}

/// The first `k` tokens form a path under which a command is registered.
pub open spec fn resolves_at(rib: Rib, toks: Seq<Seq<char>>, k: int) -> bool {
    table_lookup(rib.callback_table(), path_key(toks.subrange(0, k))) is Some
}

/// `out` is what the command `c` renders of `rib` with the arguments `args`.
pub open spec fn command_output(rib: Rib, c: Command, args: Seq<Seq<char>>, out: Seq<char>) -> bool {
    match c {
        Command::ShowInterfaces => out == links_text(rib.links_view(), name_filter(args)),
        Command::ShowIpRoute => is_route_listing(rib, out),
    }
}

fn path_string(paths: &Vec<String>, k: usize) -> (r: String)
    requires
        k <= paths@.len(),
    ensures
        r@ == path_key(token_views(paths@).subrange(0, k as int)),
{
    let ghost toks = token_views(paths@);
    let mut buf = String::new();
    let mut j: usize = 0;
    assert(toks.subrange(0, 0).len() == 0);
    while j < k
        invariant
            j <= k <= paths@.len(),
            toks == token_views(paths@),
            buf@ == path_key(toks.subrange(0, j as int)),
        decreases k - j,
    {
        let ghost before = buf@;
        buf.append("/");
        buf.append(paths[j].as_str());
        assert(toks.subrange(0, j + 1).drop_last() == toks.subrange(0, j as int));
        assert(toks.subrange(0, j + 1).last() == paths@[j as int]@);
        assert(buf@ =~= path_key(toks.subrange(0, j + 1)));
        j = j + 1;
    }
    buf
}

fn tail_args(paths: &Vec<String>, k: usize) -> (r: Vec<String>)
    requires
        k <= paths@.len(),
    ensures
        token_views(r@) == token_views(paths@).subrange(k as int, paths@.len() as int),
{
    let mut args: Vec<String> = Vec::new();
    let mut j: usize = k;
    while j < paths.len()
        invariant
            k <= j <= paths@.len(),
            args@.len() == j - k,
            forall|i: int| 0 <= i < args@.len() ==> args@[i]@ == paths@[k + i]@,
        decreases paths@.len() - j,
    {
        args.push(paths[j].clone());
        j = j + 1;
    }
    assert(token_views(args@) =~= token_views(paths@).subrange(k as int, paths@.len() as int));
    args
}

impl Rib {
    /// Renders the command `c` with the arguments `args`.
    pub fn render(&self, c: Command, args: Vec<String>) -> (r: String)
        requires
            self.wf(),
        ensures
            command_output(*self, c, token_views(args@), r@),
    {
        match c {
            Command::ShowInterfaces => link_show(self, args),
            Command::ShowIpRoute => rib_show(self, args),
        }
    }

    /// Answers a display request. The longest leading run of tokens that forms a registered
    /// path picks the command, and the tokens after it are its arguments; where no run does,
    /// there is no answer.
    pub fn process_show_message(&self, paths: &Vec<String>) -> (r: Option<String>)
        requires
            self.wf(),
        ensures
            r is None <==> forall|k: int|
                1 <= k <= paths@.len() ==> !resolves_at(*self, token_views(paths@), k),
            r is Some ==> exists|k: int|
                1 <= k <= paths@.len() && resolves_at(*self, token_views(paths@), k) && (forall|
                    j: int,
                | k < j <= paths@.len() ==> !resolves_at(*self, token_views(paths@), j))
                    && command_output(
                    *self,
                    table_lookup(
                        self.callback_table(),
                        path_key(token_views(paths@).subrange(0, k)),
                    )->0,
                    token_views(paths@).subrange(k, paths@.len() as int),
                    r->0@,
                ),
    {
        let ghost toks = token_views(paths@);
        let mut k: usize = paths.len();
        while k > 0
            invariant
                k <= paths@.len(),
                toks == token_views(paths@),
                self.wf(),
                forall|j: int| k < j <= paths@.len() ==> !resolves_at(*self, toks, j),
            decreases k,
        {
            let key = path_string(paths, k);
            match self.callback_get(&key) {
                Some(c) => {
                    let args = tail_args(paths, k);
                    let out = self.render(c, args);
                    assert(resolves_at(*self, toks, k as int));
                    return Some(out);
                },
                None => {
                    assert(!resolves_at(*self, toks, k as int));
                },
            }
            k = k - 1;
        }
        None
    }
}

} // verus!
