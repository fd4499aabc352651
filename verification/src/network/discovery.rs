//! LAN discovery without the sockets: where to broadcast, which answers to
//! keep, and what a host answers. IPv4 addresses are `u32` values in network
//! order (`u32::from(Ipv4Addr)`).

use vstd::prelude::*;
use vstd::string::*;
use crate::models::HostInfo;
use crate::network::protocol::{DiscoveryResponse, PROTOCOL_VERSION};
use crate::network::WS_PORT;
use crate::text::same_text;

verus! {

pub const BROADCAST: u32 = 0xFFFF_FFFF;

/// The directed broadcast address of a subnet: the host bits all set.
pub fn directed_broadcast(ip: u32, netmask: u32) -> (r: u32)
    ensures
        r == ip | !netmask,
{
    ip | !netmask
}

pub open spec fn first_octet(a: u32) -> u32 {
    a >> 24u32
}

pub open spec fn second_octet(a: u32) -> u32 {
    (a >> 16u32) & 0xFFu32
}

/// Not loopback (127/8), not unspecified (0.0.0.0), not multicast (224/4),
/// not link-local (169.254/16).
pub open spec fn usable_ipv4(a: u32) -> bool {
    &&& first_octet(a) != 127
    &&& a != 0
    &&& !(224 <= first_octet(a) <= 239)
    &&& !(first_octet(a) == 169 && second_octet(a) == 254)
}

/// Which addresses are used for discovery, read on the octets of the address
/// (most significant first): every address is usable except 127.x.x.x,
/// 0.0.0.0, 224.x.x.x to 239.x.x.x and 169.254.x.x. So private LAN addresses
/// (10/8, 172.16/12, 192.168/16) and public ones are all usable.
pub proof fn lemma_usable_addresses(a: u32)
    ensures
        usable_ipv4(a) <==> {
            &&& a / 0x100_0000 != 127
            &&& a != 0
            &&& !(224 <= a / 0x100_0000 <= 239)
            &&& !(a / 0x100_0000 == 169 && (a / 0x1_0000) % 256 == 254)
        },
{
    assert(a >> 24u32 == a / 0x100_0000) by (bit_vector);
    assert((a >> 16u32) & 0xFFu32 == (a / 0x1_0000) % 256) by (bit_vector);
}

pub fn is_usable_ipv4(address: u32) -> (r: bool)
    ensures
        r == usable_ipv4(address),
{
    let first = address >> 24u32;
    let second = (address >> 16u32) & 0xFFu32;
    first != 127 && address != 0 && !(224 <= first && first <= 239) && !(first == 169 && second
        == 254)
}

/// An IPv4 interface address as the interface list reports it.
#[derive(Debug, Clone, Copy)]
pub struct InterfaceV4 {
    pub ip: u32,
    pub netmask: u32,
    pub broadcast: Option<u32>,
}

/// Where an interface broadcasts: its own broadcast address, or the directed
/// one of its subnet.
pub open spec fn interface_target(i: InterfaceV4) -> u32 {
    match i.broadcast {
        Some(b) => b,
        None => i.ip | !i.netmask,
    }
}

/// The limited broadcast address and the target of every usable interface.
pub open spec fn is_target(ifaces: Seq<InterfaceV4>, a: u32) -> bool {
    a == BROADCAST || exists|k: int|
        0 <= k < ifaces.len() && usable_ipv4(#[trigger] ifaces[k].ip) && interface_target(
            ifaces[k],
        ) == a
}

pub open spec fn strictly_increasing(s: Seq<u32>) -> bool {
    forall|i: int, j: int| 0 <= i < j < s.len() ==> s[i] < s[j]
}

proof fn lemma_insert_contains(before: Seq<u32>, j: int, x: u32)
    requires
        0 <= j <= before.len(),
    ensures
        forall|a: u32| #[trigger] before.insert(j, x).contains(a) <==> (before.contains(a) || a == x),
{
    let after = before.insert(j, x);
    assert forall|a: u32| #[trigger] after.contains(a) <==> (before.contains(a) || a == x) by {
        if after.contains(a) {
            let i = choose|i: int| 0 <= i < after.len() && after[i] == a;
            if i < j {
                assert(before[i] == a);
            } else if i > j {
                assert(before[i - 1] == a);
            }
        }
        if before.contains(a) {
            let i = choose|i: int| 0 <= i < before.len() && before[i] == a;
            if i < j {
                assert(after[i] == a);
            } else {
                assert(after[i + 1] == a);
            }
        }
        if a == x {
            assert(after[j] == x);
        }
    }
}

/// Inserts `x` into a strictly increasing vector unless it is there.
fn insert_sorted(v: &mut Vec<u32>, x: u32)
    requires
        strictly_increasing(old(v)@),
    ensures
        strictly_increasing(final(v)@),
        forall|a: u32| final(v)@.contains(a) <==> (old(v)@.contains(a) || a == x),
{
    let mut j: usize = 0;
    while j < v.len() && v[j] < x
        invariant
            j <= v.len(),
            v@ == old(v)@,
            strictly_increasing(v@),
            forall|i: int| 0 <= i < j ==> v@[i] < x,
        decreases v.len() - j,
    {
        j = j + 1;
    }
    if j < v.len() && v[j] == x {
        assert(v@[j as int] == x);
        assert(old(v)@.contains(x));
        return;
    }
    let ghost before = v@;
    v.insert(j, x);
    proof {
        lemma_insert_contains(before, j as int, x);
    }
}

/// The addresses discovery broadcasts to, in ascending order and each once:
/// 255.255.255.255 and, for every usable interface, its broadcast address.
pub fn broadcast_targets(interfaces: &Vec<InterfaceV4>) -> (r: Vec<u32>)
    ensures
        strictly_increasing(r@),
        forall|a: u32| r@.contains(a) <==> is_target(interfaces@, a),
{
    let mut targets: Vec<u32> = Vec::new();
    targets.push(BROADCAST);
    let mut k: usize = 0;
    assert forall|a: u32| targets@.contains(a) <==> is_target(interfaces@.take(0), a) by {
        if a == BROADCAST {
            assert(targets@[0] == a);
        }
    }
    while k < interfaces.len()
        invariant
            k <= interfaces.len(),
            strictly_increasing(targets@),
            forall|a: u32| targets@.contains(a) <==> is_target(interfaces@.take(k as int), a),
        decreases interfaces.len() - k,
    {
        let iface = interfaces[k];
        let ghost prefix = interfaces@.take(k as int);
        let ghost next = interfaces@.take(k + 1);
        if is_usable_ipv4(iface.ip) {
            let target = match iface.broadcast {
                Some(b) => b,
                None => directed_broadcast(iface.ip, iface.netmask),
            };
            insert_sorted(&mut targets, target);
            assert forall|a: u32| targets@.contains(a) <==> is_target(next, a) by {
                if is_target(prefix, a) && a != BROADCAST {
                    let i = choose|i: int|
                        0 <= i < prefix.len() && usable_ipv4(#[trigger] prefix[i].ip)
                            && interface_target(prefix[i]) == a;
                    assert(next[i] == prefix[i]);
                }
                if is_target(next, a) && a != BROADCAST && a != target {
                    let i = choose|i: int|
                        0 <= i < next.len() && usable_ipv4(#[trigger] next[i].ip)
                            && interface_target(next[i]) == a;
                    assert(i != k);
                    assert(prefix[i] == next[i]);
                }
                if a == target {
                    assert(next[k as int] == iface);
                }
            }
        } else {
            assert forall|a: u32| targets@.contains(a) <==> is_target(next, a) by {
                if is_target(prefix, a) && a != BROADCAST {
                    let i = choose|i: int|
                        0 <= i < prefix.len() && usable_ipv4(#[trigger] prefix[i].ip)
                            && interface_target(prefix[i]) == a;
                    assert(next[i] == prefix[i]);
                }
                if is_target(next, a) && a != BROADCAST {
                    let i = choose|i: int|
                        0 <= i < next.len() && usable_ipv4(#[trigger] next[i].ip)
                            && interface_target(next[i]) == a;
                    assert(i != k);
                    assert(prefix[i] == next[i]);
                }
            }
        }
        k = k + 1;
    }
    assert(interfaces@.take(interfaces.len() as int) =~= interfaces@);
    targets
}

/// No two hosts share an id.
pub open spec fn unique_host_ids(s: Seq<HostInfo>) -> bool {
    forall|i: int, j: int| 0 <= i < j < s.len() ==> (#[trigger] s[i]).id@ != (#[trigger] s[j]).id@
}

/// Keeps a discovered host unless one with the same id was found already; so
/// a list of discovered hosts never holds an id twice.
pub fn add_discovered_host(hosts: &mut Vec<HostInfo>, host: HostInfo)
    ensures
        unique_host_ids(old(hosts)@) ==> unique_host_ids(final(hosts)@),
        if exists|i: int| 0 <= i < old(hosts)@.len() && (#[trigger] old(hosts)@[i]).id@ == host.id@ {
            final(hosts)@ == old(hosts)@
        } else {
            final(hosts)@ == old(hosts)@.push(host)
        },
{
    let mut i: usize = 0;
    while i < hosts.len()
        invariant
            i <= hosts.len(),
            forall|j: int| 0 <= j < i ==> (#[trigger] hosts@[j]).id@ != host.id@,
        decreases hosts.len() - i,
    {
        if same_text(hosts[i].id.as_str(), host.id.as_str()) {
            return;
        }
        i = i + 1;
    }
    let ghost before = hosts@;
    hosts.push(host);
    proof {
        if unique_host_ids(before) {
            assert forall|a: int, b: int| 0 <= a < b < hosts@.len() implies (#[trigger] hosts@[a]).id@
                != (#[trigger] hosts@[b]).id@ by {
                if b == before.len() {
                    assert(before[a] == hosts@[a]);
                } else {
                    assert(before[a] == hosts@[a]);
                    assert(before[b] == hosts@[b]);
                }
            }
        }
    }
}

pub open spec fn all_sends_failed_text() -> Seq<char> {
    "所有局域网广播发送均失败"@
}

/// The error of a discovery round in which no broadcast could be sent, with
/// the last send error when there is one.
pub fn all_sends_failed_message(last_send_error: Option<String>) -> (r: String)
    ensures
        r@ == match last_send_error {
            Some(e) => all_sends_failed_text() + ": "@ + e@,
            None => all_sends_failed_text(),
        },
{
    let mut message = String::from_str("所有局域网广播发送均失败");
    match last_send_error {
        Some(e) => {
            message.append(": ");
            message.append(e.as_str());
        },
        None => {},
    }
    message
}

/// What a host answers a discovery request: its id and name, the address the
/// client reaches it at, and the sync port.
pub fn discovery_response(host_id: String, server_name: String, address: String) -> (r:
    DiscoveryResponse)
    ensures
        r.protocol_version == PROTOCOL_VERSION,
        r.host == (HostInfo {
            id: host_id,
            name: server_name,
            address,
            port: WS_PORT,
            latency_ms: None,
        }),
{
    DiscoveryResponse {
        protocol_version: PROTOCOL_VERSION,
        host: HostInfo { id: host_id, name: server_name, address, port: WS_PORT, latency_ms: None },
    }
}

// ---------------------------------------------------------------------------
// One discovery round, as the client collects it
// ---------------------------------------------------------------------------

/// What a discovery round has gathered: the hosts that answered, in the order
/// of their first answer, whether any broadcast went out, and the last error
/// of a broadcast that did not.
pub struct DiscoveryRound {
    pub hosts: Vec<HostInfo>,
    pub any_packet_sent: bool,
    pub last_send_error: Option<String>,
}

/// The hosts a round keeps: no id twice, each with its answer time.
pub open spec fn round_hosts_ok(s: Seq<HostInfo>) -> bool {
    &&& unique_host_ids(s)
    &&& forall|i: int| 0 <= i < s.len() ==> (#[trigger] s[i]).latency_ms is Some
}

/// The answer a round keeps of a response received `latency_ms` after it
/// began: the host, with that answer time.
pub open spec fn answered_host(response: DiscoveryResponse, latency_ms: u64) -> HostInfo {
    HostInfo { latency_ms: Some(latency_ms), ..response.host }
}

impl DiscoveryRound {
    pub fn new() -> (r: Self)
        ensures
            r.hosts@.len() == 0,
            !r.any_packet_sent,
            r.last_send_error is None,
            round_hosts_ok(r.hosts@),
    {
        DiscoveryRound { hosts: Vec::new(), any_packet_sent: false, last_send_error: None }
    }

    /// A broadcast went out.
    pub fn broadcast_sent(&mut self)
        ensures
            *final(self) == (DiscoveryRound { any_packet_sent: true, ..*old(self) }),
    {
        self.any_packet_sent = true;
    }

    /// A broadcast could not be sent; `error` says to where and why.
    pub fn broadcast_failed(&mut self, error: String)
        ensures
            *final(self) == (DiscoveryRound { last_send_error: Some(error), ..*old(self) }),
    {
        self.last_send_error = Some(error);
    }

    /// A response arrived `latency_ms` after the round began. A response of
    /// another protocol version is ignored, and so is a host that answered
    /// before; any other host is kept with its answer time.
    pub fn response_received(&mut self, response: DiscoveryResponse, latency_ms: u64)
        requires
            round_hosts_ok(old(self).hosts@),
        ensures
            round_hosts_ok(final(self).hosts@),
            final(self).any_packet_sent == old(self).any_packet_sent,
            final(self).last_send_error == old(self).last_send_error,
            final(self).hosts@ == if response.protocol_version != PROTOCOL_VERSION {
                old(self).hosts@
            } else if exists|i: int|
                0 <= i < old(self).hosts@.len() && (#[trigger] old(self).hosts@[i]).id@
                    == response.host.id@ {
                old(self).hosts@
            } else {
                old(self).hosts@.push(answered_host(response, latency_ms))
            },
    {
        if !response.is_compatible() {
            return;
        }
        let mut host = response.host;
        host.latency_ms = Some(latency_ms);
        let ghost before = self.hosts@;
        add_discovered_host(&mut self.hosts, host);
        proof {
            if self.hosts@ != before {
                assert(self.hosts@ == before.push(host));
                assert forall|i: int| 0 <= i < self.hosts@.len() implies (#[trigger] self.hosts@[i]).latency_ms is Some by {
                    if i < before.len() {
                        assert(self.hosts@[i] == before[i]);
                    }
                }
            }
        }
    }

    /// The outcome of the round: the hosts that answered, or, when no
    /// broadcast could be sent at all, the failure with the last send error.
    pub fn finish(self) -> (r: Result<Vec<HostInfo>, String>)
        ensures
            self.any_packet_sent ==> r == Ok::<Vec<HostInfo>, String>(self.hosts),
            !self.any_packet_sent ==> (r matches Err(e) && e@ == match self.last_send_error {
                Some(e) => all_sends_failed_text() + ": "@ + e@,
                None => all_sends_failed_text(),
            }),
    {
        if self.any_packet_sent {
            Ok(self.hosts)
        } else {
            Err(all_sends_failed_message(self.last_send_error))
        }
    }
}

} // verus!
