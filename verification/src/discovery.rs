//! Service discovery: which address to use of those that are known.
use crate::error::{BridgeError, BridgeResult};
use crate::net::{IpAddress, SocketAddress};
use crate::text::{decimal, format_u64};
use crate::transport::{is_link_local_v4, is_thunderbolt_connection, DEFAULT_CONTROL_PORT};
use crate::types::ServerInfo;
use vstd::prelude::*;
use vstd::string::StringExecFns;

verus! {

/// Service discovery events.
#[derive(Debug, Clone)]
pub enum DiscoveryEvent {
    /// A new server was discovered.
    ServerFound(ServerInfo),
    /// A server was removed.
    ServerLost(String),
}

/// Check if an address is likely a Thunderbolt interface.
pub fn is_thunderbolt_interface(addr: &IpAddress) -> (b: bool)
    ensures
        b == is_link_local_v4(*addr),
{
    match *addr {
        IpAddress::V4(a, b, _, _) => a == 169 && b == 254,
        IpAddress::V6(..) => false,
    }
}

/// Whether an address is one of the machine itself.
pub open spec fn is_loopback(ip: IpAddress) -> bool {
    match ip {
        IpAddress::V4(a, _, _, _) => a == 127,
        IpAddress::V6(a, b, c, d, e, f, g, h) => a == 0 && b == 0 && c == 0 && d == 0 && e == 0
            && f == 0 && g == 0 && h == 1,
    }
}

/// Whether a version 4 address is the one that stands for none.
pub open spec fn is_unspecified_v4(ip: IpAddress) -> bool {
    ip == IpAddress::V4(0, 0, 0, 0)
}

/// How well an address serves a connection, the best first: Thunderbolt, then
/// other version 4 addresses, then global version 6 addresses, then the rest.
pub open spec fn preference(ip: IpAddress) -> int {
    match ip {
        IpAddress::V4(..) => if is_link_local_v4(ip) {
            0
        } else if !is_loopback(ip) && !is_unspecified_v4(ip) {
            1
        } else {
            3
        },
        IpAddress::V6(a, ..) => if a != 0xfe80 && !is_loopback(ip) {
            2
        } else {
            3
        },
    }
}

fn preference_of(ip: IpAddress) -> (p: u8)
    ensures
        p == preference(ip),
{
    match ip {
        IpAddress::V4(a, b, c, d) => if a == 169 && b == 254 {
            0
        } else if a != 127 && !(a == 0 && b == 0 && c == 0 && d == 0) {
            1
        } else {
            3
        },
        IpAddress::V6(a, b, c, d, e, f, g, h) => if a != 0xfe80 && !(a == 0 && b == 0 && c == 0 && d
            == 0 && e == 0 && f == 0 && g == 0 && h == 1) {
            2
        } else {
            3
        },
    }
}

/// Whether `k` is the place of the first of the best addresses.
pub open spec fn is_best(addrs: Seq<SocketAddress>, k: int) -> bool {
    &&& 0 <= k < addrs.len()
    &&& forall|j: int|
        0 <= j < addrs.len() ==> preference(addrs[k].ip) <= preference((#[trigger] addrs[j]).ip)
    &&& forall|j: int|
        0 <= j < k ==> preference(addrs[k].ip) < preference((#[trigger] addrs[j]).ip)
}

/// The name to look up for a host.
pub fn lookup_query(hostname: &str) -> (s: String)
    ensures
        s@ == hostname@ + ":0"@,
{
    let mut s = String::from_str(hostname);
    s.append(":0");
    s
}

/// Resolve a hostname to an IP address, given the addresses that were found for
/// it: the first of the best.
pub fn resolve_hostname(hostname: &str, addrs: &[SocketAddress]) -> (r: BridgeResult<IpAddress>)
    ensures
        match r {
            Ok(ip) => exists|k: int| is_best(addrs@, k) && ip == (#[trigger] addrs@[k]).ip,
            Err(e) => addrs@.len() == 0 && (e matches BridgeError::Transport(m) && m@
                == "No addresses found for '"@ + hostname@ + "'"@),
        },
{
    if addrs.len() == 0 {
        let mut m = String::from_str("No addresses found for '");
        m.append(hostname);
        m.append("'");
        return Err(BridgeError::Transport(m));
    }
    let mut best: usize = 0;
    let mut i: usize = 1;
    while i < addrs.len()
        invariant
            1 <= i <= addrs@.len(),
            best < i,
            forall|j: int|
                0 <= j < i ==> preference(addrs@[best as int].ip) <= preference(
                    (#[trigger] addrs@[j]).ip,
                ),
            forall|j: int|
                0 <= j < best ==> preference(addrs@[best as int].ip) < preference(
                    (#[trigger] addrs@[j]).ip,
                ),
        decreases addrs@.len() - i,
    {
        if preference_of(addrs[i].ip) < preference_of(addrs[best].ip) {
            best = i;
        }
        i += 1;
    }
    assert(is_best(addrs@, best as int));
    Ok(addrs[best].ip)
}

/// The first of the best addresses is one address: resolving is a function of
/// the addresses found.
pub proof fn law_best_address_is_unique(addrs: Seq<SocketAddress>, j: int, k: int)
    requires
        is_best(addrs, j),
        is_best(addrs, k),
    ensures
        j == k,
{
    if j < k {
        assert(preference(addrs[k].ip) < preference(addrs[j].ip));
        assert(preference(addrs[j].ip) <= preference(addrs[k].ip));
    }
    if k < j {
        assert(preference(addrs[j].ip) < preference(addrs[k].ip));
        assert(preference(addrs[k].ip) <= preference(addrs[j].ip));
    }
}

/// A host without a port is taken to listen on the default control port.
pub fn with_default_port(server: &str) -> (s: String)
    ensures
        s@ == server@ + ":"@ + decimal(DEFAULT_CONTROL_PORT as nat),
{
    let mut s = String::from_str(server);
    s.append(":");
    let port = format_u64(DEFAULT_CONTROL_PORT as u64);
    s.append(port.as_str());
    s
}

/// An address of a network interface of this machine.
#[derive(Debug, Clone, Copy, PartialEq, Eq, Structural)]
pub struct InterfaceAddress {
    /// Whether the interface is up.
    pub is_up: bool,
    /// Whether the interface is running.
    pub is_running: bool,
    /// Whether the interface is the machine's own.
    pub is_loopback: bool,
    /// Its address.
    pub ip: IpAddress,
}

/// Whether an interface address can be reached from elsewhere. Version 6
/// addresses are not offered.
pub open spec fn is_usable(a: InterfaceAddress) -> bool {
    a.is_up && a.is_running && !a.is_loopback && a.ip is V4 && !is_loopback(a.ip)
        && !is_unspecified_v4(a.ip)
}

/// The usable addresses in order, each once.
pub open spec fn usable_addresses(s: Seq<InterfaceAddress>) -> Seq<IpAddress>
    decreases s.len(),
{
    if s.len() == 0 {
        Seq::empty()
    } else {
        let before = usable_addresses(s.drop_last());
        if is_usable(s.last()) && !before.contains(s.last().ip) {
            before.push(s.last().ip)
        } else {
            before
        }
    }
}

/// The addresses that a machine with these interfaces offers: the usable ones, or
/// its own where there is none.
pub open spec fn local_addresses(s: Seq<InterfaceAddress>) -> Seq<IpAddress> {
    if usable_addresses(s).len() == 0 {
        seq![IpAddress::V4(127, 0, 0, 1)]
    } else {
        usable_addresses(s)
    }
}

fn contains_ip(list: &Vec<IpAddress>, ip: IpAddress) -> (b: bool)
    ensures
        b == list@.contains(ip),
{
    let mut i: usize = 0;
    while i < list.len()
        invariant
            i <= list@.len(),
            forall|j: int| 0 <= j < i ==> #[trigger] list@[j] != ip,
        decreases list@.len() - i,
    {
        if list[i] == ip {
            return true;
        }
        i += 1;
    }
    false
}

/// Get all local IP addresses, given those of the interfaces; the machine's own
/// where there is no other.
pub fn get_local_addresses(interfaces: &[InterfaceAddress]) -> (v: Vec<IpAddress>)
    ensures
        v@ == local_addresses(interfaces@),
{
    let mut addresses: Vec<IpAddress> = Vec::new();
    let mut i: usize = 0;
    while i < interfaces.len()
        invariant
            i <= interfaces@.len(),
            addresses@ == usable_addresses(interfaces@.take(i as int)),
        decreases interfaces@.len() - i,
    {
        let a = interfaces[i];
        let usable = match a.ip {
            IpAddress::V4(p, q, r, s) => a.is_up && a.is_running && !a.is_loopback && p != 127 && !(p
                == 0 && q == 0 && r == 0 && s == 0),
            IpAddress::V6(..) => false,
        };
        assert(interfaces@.take(i + 1).drop_last() =~= interfaces@.take(i as int));
        if usable && !contains_ip(&addresses, a.ip) {
            addresses.push(a.ip);
        }
        i += 1;
    }
    assert(interfaces@.take(i as int) =~= interfaces@);
    if addresses.len() == 0 {
        addresses.push(IpAddress::V4(127, 0, 0, 1));
    }
    addresses
}

/// The local addresses where the interfaces cannot be listed: the one that a
/// probe found, if any, and the machine's own.
pub fn fallback_addresses(probe: Option<IpAddress>) -> (v: Vec<IpAddress>)
    ensures
        v@ == (match probe {
            Some(ip) => seq![ip, IpAddress::V4(127, 0, 0, 1)],
            None => seq![IpAddress::V4(127, 0, 0, 1)],
        }),
{
    let mut v: Vec<IpAddress> = Vec::new();
    match probe {
        Some(ip) => v.push(ip),
        None => {},
    }
    v.push(IpAddress::V4(127, 0, 0, 1));
    assert(v@ =~= (match probe {
        Some(ip) => seq![ip, IpAddress::V4(127, 0, 0, 1)],
        None => seq![IpAddress::V4(127, 0, 0, 1)],
    }));
    v
}

/// The local addresses that are offered are never empty, never the address that
/// stands for none, and none is offered twice.
pub proof fn law_local_addresses_are_distinct(s: Seq<InterfaceAddress>)
    ensures
        local_addresses(s).len() > 0,
        local_addresses(s).no_duplicates(),
        forall|i: int|
            0 <= i < local_addresses(s).len() ==> !is_unspecified_v4(
                #[trigger] local_addresses(s)[i],
            ),
{
    lemma_usable_addresses(s);
}

proof fn lemma_usable_addresses(s: Seq<InterfaceAddress>)
    ensures
        usable_addresses(s).no_duplicates(),
        forall|i: int|
            0 <= i < usable_addresses(s).len() ==> !is_unspecified_v4(
                #[trigger] usable_addresses(s)[i],
            ),
    decreases s.len(),
{
    if s.len() > 0 {
        lemma_usable_addresses(s.drop_last());
        let before = usable_addresses(s.drop_last());
        if is_usable(s.last()) && !before.contains(s.last().ip) {
            let after = before.push(s.last().ip);
            assert forall|i: int, j: int|
                0 <= i < after.len() && 0 <= j < after.len() && i != j implies after[i]
                != after[j] by {
                if i < before.len() {
                    assert(before[i] == after[i]);
                }
                if j < before.len() {
                    assert(before[j] == after[j]);
                }
            }
        }
    }
}

/// Whether `k` is the place of the server to use: the first over Thunderbolt, or
/// the first of all where there is none.
pub open spec fn is_chosen_server(addresses: Seq<SocketAddress>, k: int) -> bool {
    &&& 0 <= k < addresses.len()
    &&& if is_link_local_v4(addresses[k].ip) {
        forall|j: int| 0 <= j < k ==> !is_link_local_v4((#[trigger] addresses[j]).ip)
    } else {
        k == 0 && forall|j: int|
            0 <= j < addresses.len() ==> !is_link_local_v4((#[trigger] addresses[j]).ip)
    }
}

/// The addresses of servers.
pub open spec fn server_addresses(servers: Seq<ServerInfo>) -> Seq<SocketAddress> {
    servers.map_values(|s: ServerInfo| s.address)
}

/// The server to connect to of those discovered, where there is one.
pub fn choose_server(servers: &Vec<ServerInfo>) -> (r: Option<SocketAddress>)
    ensures
        match r {
            Some(a) => exists|k: int|
                is_chosen_server(server_addresses(servers@), k) && a == (
                #[trigger] servers@[k]).address,
            None => servers@.len() == 0,
        },
{
    let ghost all = server_addresses(servers@);
    let mut i: usize = 0;
    while i < servers.len()
        invariant
            i <= servers@.len(),
            all == server_addresses(servers@),
            forall|j: int| 0 <= j < i ==> !is_link_local_v4((#[trigger] all[j]).ip),
        decreases servers@.len() - i,
    {
        assert(all[i as int] == servers@[i as int].address);
        if is_thunderbolt_connection(&servers[i].address) {
            assert(is_chosen_server(all, i as int));
            return Some(servers[i].address);
        }
        i += 1;
    }
    if servers.len() == 0 {
        None
    } else {
        assert(all[0] == servers@[0].address);
        assert(is_chosen_server(all, 0));
        Some(servers[0].address)
    }
}

/// Announces a server. Clients connect by address.
#[derive(Debug, Clone)]
pub struct ServiceAdvertiser {
    pub name: String,
    pub port: u16,
}

impl ServiceAdvertiser {
    /// An advertiser for a server of this name and port.
    pub fn new(name: &str, port: u16) -> (r: BridgeResult<ServiceAdvertiser>)
        ensures
            r matches Ok(a) && a.name@ == name@ && a.port == port,
    {
        Ok(ServiceAdvertiser { name: String::from_str(name), port })
    }
}

/// Looks for servers. Without multicast discovery it finds none.
#[derive(Debug, Clone, Copy)]
pub struct ServiceBrowser {}

impl ServiceBrowser {
    /// A browser.
    pub fn new() -> (r: BridgeResult<ServiceBrowser>)
        ensures
            r is Ok,
    {
        Ok(ServiceBrowser {  })
    }

    /// The servers that were found.
    pub fn discover(&self) -> (r: BridgeResult<Vec<ServerInfo>>)
        ensures
            r matches Ok(v) && v@.len() == 0,
    {
        Ok(Vec::new())
    }
}

/// Of the addresses that were found for a host, one of a Thunderbolt link is taken
/// wherever there is one; else another of version 4 that is not the machine's own
/// and not the one that stands for none; else one of version 6 that is neither the
/// machine's own nor local to the link. The first of its kind is taken.
pub proof fn law_better_addresses_win(addrs: Seq<SocketAddress>, k: int, j: int)
    requires
        is_best(addrs, k),
        0 <= j < addrs.len(),
    ensures
        0 <= k < addrs.len(),
        ({
            let thunderbolt = |ip: IpAddress|
                ip matches IpAddress::V4(a, b, _, _) && a == 169 && b == 254;
            let v4 = |ip: IpAddress|
                ip matches IpAddress::V4(a, b, c, d) && a != 127 && !(a == 0 && b == 0 && c == 0 && d
                    == 0);
            let v6 = |ip: IpAddress|
                ip matches IpAddress::V6(a, b, c, d, e, f, g, h) && a != 0xfe80 && !(a == 0 && b == 0
                    && c == 0 && d == 0 && e == 0 && f == 0 && g == 0 && h == 1);
            let best = addrs[k].ip;
            let other = addrs[j].ip;
            &&& thunderbolt(other) ==> thunderbolt(best) && k <= j
            &&& v4(other) ==> v4(best) && (k <= j || (thunderbolt(best) && !thunderbolt(other)))
            &&& v6(other) ==> v4(best) || (v6(best) && k <= j)
            &&& k > j ==> v4(best) || v6(best)
        }),
{
    if j < k {
        assert(preference(addrs[k].ip) < preference(addrs[j].ip));
    }
    assert(preference(addrs[k].ip) <= preference(addrs[j].ip));
}

/// An address is offered exactly if an interface that is up and running, and not the
/// machine's own, has it, and it is one of version 4 that can be reached. Where
/// there is none, the machine's own address is offered.
pub proof fn law_reachable_addresses_are_offered(s: Seq<InterfaceAddress>, ip: IpAddress)
    ensures
        ({
            let reachable = |a: InterfaceAddress|
                a.is_up && a.is_running && !a.is_loopback && (a.ip matches IpAddress::V4(p, q, r, t)
                    && p != 127 && !(p == 0 && q == 0 && r == 0 && t == 0));
            let has = exists|i: int| 0 <= i < s.len() && reachable(#[trigger] s[i]) && s[i].ip == ip;
            let any = exists|i: int| 0 <= i < s.len() && reachable(#[trigger] s[i]);
            &&& any ==> (local_addresses(s).contains(ip) <==> has)
            &&& !any ==> local_addresses(s) == seq![IpAddress::V4(127, 0, 0, 1)]
        }),
{
    let reachable = |a: InterfaceAddress|
        a.is_up && a.is_running && !a.is_loopback && (a.ip matches IpAddress::V4(p, q, r, t) && p
            != 127 && !(p == 0 && q == 0 && r == 0 && t == 0));
    lemma_usable_are_reachable(s, ip);
    let u = usable_addresses(s);
    if exists|i: int| 0 <= i < s.len() && reachable(#[trigger] s[i]) {
        let i = choose|i: int| 0 <= i < s.len() && reachable(#[trigger] s[i]);
        lemma_usable_are_reachable(s, s[i].ip);
        assert(is_usable(s[i]));
        assert(u.contains(s[i].ip));
        assert(u.len() > 0);
    } else if u.len() > 0 {
        lemma_usable_are_reachable(s, u[0]);
        assert(u.contains(u[0]));
        let i = choose|i: int| 0 <= i < s.len() && is_usable(#[trigger] s[i]) && s[i].ip == u[0];
        assert(reachable(s[i]));
    }
    if exists|i: int| 0 <= i < s.len() && reachable(#[trigger] s[i]) && s[i].ip == ip {
        let i = choose|i: int| 0 <= i < s.len() && reachable(#[trigger] s[i]) && s[i].ip == ip;
        assert(is_usable(s[i]));
    }
    if u.contains(ip) {
        let i = choose|i: int| 0 <= i < s.len() && is_usable(#[trigger] s[i]) && s[i].ip == ip;
        assert(reachable(s[i]));
    }
}

proof fn lemma_usable_are_reachable(s: Seq<InterfaceAddress>, ip: IpAddress)
    ensures
        usable_addresses(s).contains(ip) <==> exists|i: int|
            0 <= i < s.len() && is_usable(#[trigger] s[i]) && s[i].ip == ip,
    decreases s.len(),
{
    if s.len() > 0 {
        let t = s.drop_last();
        let before = usable_addresses(t);
        lemma_usable_are_reachable(t, ip);
        if before.contains(ip) {
            let i = choose|i: int| 0 <= i < t.len() && is_usable(#[trigger] t[i]) && t[i].ip == ip;
            assert(s[i] == t[i]);
            let k = choose|k: int| 0 <= k < before.len() && before[k] == ip;
            assert(usable_addresses(s)[k] == ip);
        }
        if exists|i: int| 0 <= i < s.len() && is_usable(#[trigger] s[i]) && s[i].ip == ip {
            let i = choose|i: int| 0 <= i < s.len() && is_usable(#[trigger] s[i]) && s[i].ip == ip;
            if i < t.len() {
                assert(t[i] == s[i]);
            } else if !before.contains(ip) {
                assert(usable_addresses(s)[before.len() as int] == ip);
            }
        }
        if usable_addresses(s).contains(ip) && !before.contains(ip) {
            let k = choose|k: int| 0 <= k < usable_addresses(s).len() && usable_addresses(s)[k] == ip;
            if k < before.len() {
                assert(before[k] == ip);
            }
            assert(s[s.len() - 1].ip == ip);
        }
    } else {
        assert(usable_addresses(s) =~= Seq::empty());
    }
}

/// Addresses are offered in the order in which their interfaces come: those of some
/// first interfaces stay in front when more interfaces follow.
pub proof fn law_offered_addresses_keep_their_order(
    a: Seq<InterfaceAddress>,
    b: Seq<InterfaceAddress>,
)
    ensures
        usable_addresses(a).is_prefix_of(usable_addresses(a + b)),
    decreases b.len(),
{
    if b.len() == 0 {
        assert(a + b =~= a);
    } else {
        law_offered_addresses_keep_their_order(a, b.drop_last());
        assert((a + b).drop_last() =~= a + b.drop_last());
    }
}

/// Of the servers that were found, the first over Thunderbolt is chosen, and the
/// first of all where there is none over Thunderbolt.
pub proof fn law_thunderbolt_servers_come_first(addresses: Seq<SocketAddress>, k: int, j: int)
    requires
        is_chosen_server(addresses, k),
        0 <= j < addresses.len(),
    ensures
        ({
            let thunderbolt = |ip: IpAddress|
                ip matches IpAddress::V4(a, b, _, _) && a == 169 && b == 254;
            &&& 0 <= k < addresses.len()
            &&& thunderbolt(addresses[j].ip) ==> thunderbolt(addresses[k].ip) && k <= j
            &&& !thunderbolt(addresses[k].ip) ==> k == 0
        }),
{
}

/// The addresses of servers are listed in the order of the servers.
pub proof fn law_addresses_are_those_of_the_servers(servers: Seq<ServerInfo>, i: int)
    requires
        0 <= i < servers.len(),
    ensures
        server_addresses(servers).len() == servers.len(),
        server_addresses(servers)[i] == servers[i].address,
{
}

} // verus!
