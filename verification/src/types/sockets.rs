use vstd::prelude::*;

use crate::types::ip_version::{ip_version_of, IpVersion};

verus! {

/// An IP address: four octets for IPv4 or sixteen for IPv6, in network
/// order.
#[derive(Debug, Clone, Copy, PartialEq, Eq)]
pub enum IpAddress {
    V4([u8; 4]),
    V6([u8; 16]),
}

/// A socket address: an IP address and a port.
#[derive(Debug, Clone, Copy, PartialEq, Eq)]
pub struct SocketAddress {
    pub ip: IpAddress,
    pub port: u16,
}

/// A list of socket addresses.
pub struct Sockets(Vec<SocketAddress>);

impl SocketAddress {
    /// Whether the address is an IPv4 address.
    pub fn is_ipv4(&self) -> (r: bool)
        ensures
            r == self.ip is V4,
    {
        matches!(self.ip, IpAddress::V4(_))
    }

    /// Whether the address is an IPv6 address.
    pub fn is_ipv6(&self) -> (r: bool)
        ensures
            r == self.ip is V6,
    {
        matches!(self.ip, IpAddress::V6(_))
    }
}

/// The socket addresses of one IP version, in order: IPv4 ones if `v4`,
/// else IPv6 ones.
pub open spec fn of_version(s: Seq<SocketAddress>, v4: bool) -> Seq<SocketAddress>
    decreases s.len(),
{
    if s.len() == 0 {
        Seq::empty()
    } else {
        let rest = of_version(s.drop_last(), v4);
        if (s.last().ip is V4) == v4 {
            rest.push(s.last())
        } else {
            rest
        }
    }
}

/// The socket addresses that the IP version selects: all of them, or those
/// of one version.
pub open spec fn of_ip_version(s: Seq<SocketAddress>, v: IpVersion) -> Seq<SocketAddress> {
    match v {
        IpVersion::Both => s,
        IpVersion::V4 => of_version(s, true),
        IpVersion::V6 => of_version(s, false),
    }
}

/// What can be turned into socket addresses.
pub trait IntoSockets: Sized {
    /// The socket addresses that the value stands for.
    spec fn addresses(&self) -> Seq<SocketAddress>;

    /// All the socket addresses.
    fn into_sockets(self) -> (r: Vec<SocketAddress>)
        ensures
            r@ == self.addresses(),
    ;

    /// The IPv4 socket addresses.
    fn into_ipv4_sockets(self) -> (r: Vec<SocketAddress>)
        ensures
            r@ == of_version(self.addresses(), true),
    ;

    /// The IPv6 socket addresses.
    fn into_ipv6_sockets(self) -> (r: Vec<SocketAddress>)
        ensures
            r@ == of_version(self.addresses(), false),
    ;

    /// The socket addresses of the IP versions chosen by the flags (use
    /// IPv4, use IPv6): neither flag means all, only the IPv6 flag means the
    /// IPv6 ones, and otherwise the IPv4 ones.
    fn into_filtered_sockets(self, use_ipv4: bool, use_ipv6: bool) -> (r: Vec<SocketAddress>)
        ensures
            r@ == of_ip_version(self.addresses(), ip_version_of((use_ipv4, use_ipv6))),
    {
        if !use_ipv4 && !use_ipv6 {
            return IntoSockets::into_sockets(self);
        } else if !use_ipv4 && use_ipv6 {
            return IntoSockets::into_ipv6_sockets(self);
        } else {
            return IntoSockets::into_ipv4_sockets(self);
        }
    }
}

/// The socket addresses of the IP addresses, each with the port.
pub open spec fn with_port(ips: Seq<IpAddress>, port: u16) -> Seq<SocketAddress> {
    ips.map_values(|ip: IpAddress| SocketAddress { ip, port })
}

/// The IP addresses of one IP version, in order: IPv4 ones if `v4`, else
/// IPv6 ones.
pub open spec fn ips_of_version(ips: Seq<IpAddress>, v4: bool) -> Seq<IpAddress>
    decreases ips.len(),
{
    if ips.len() == 0 {
        Seq::empty()
    } else {
        let rest = ips_of_version(ips.drop_last(), v4);
        if (ips.last() is V4) == v4 {
            rest.push(ips.last())
        } else {
            rest
        }
    }
}

/// Choosing by version before or after adding the port gives the same.
proof fn lemma_with_port_of_version(ips: Seq<IpAddress>, port: u16, v4: bool)
    ensures
        with_port(ips_of_version(ips, v4), port) == of_version(with_port(ips, port), v4),
    decreases ips.len(),
{
    if ips.len() > 0 {
        lemma_with_port_of_version(ips.drop_last(), port, v4);
        assert(with_port(ips, port).drop_last() =~= with_port(ips.drop_last(), port));
        let kept = ips_of_version(ips.drop_last(), v4);
        assert(with_port(kept.push(ips.last()), port) =~= with_port(kept, port).push(
            SocketAddress { ip: ips.last(), port },
        ));
    } else {
        assert(with_port(ips, port) =~= Seq::<SocketAddress>::empty());
        assert(with_port(Seq::<IpAddress>::empty(), port) =~= Seq::<SocketAddress>::empty());
    }
}

/// One socket address is kept when it is of the version.
proof fn lemma_of_version_single(a: SocketAddress, v4: bool)
    ensures
        of_version(seq![a], v4) == (if (a.ip is V4) == v4 {
            seq![a]
        } else {
            Seq::<SocketAddress>::empty()
        }),
{
    assert(seq![a].drop_last() =~= Seq::<SocketAddress>::empty());
    assert(seq![a].last() == a);
    assert(of_version(Seq::<SocketAddress>::empty(), v4) == Seq::<SocketAddress>::empty());
    assert(Seq::<SocketAddress>::empty().push(a) =~= seq![a]);
}

/// The IP addresses of one version, in order.
fn filter_ips(ips: &Vec<IpAddress>, v4: bool) -> (r: Vec<IpAddress>)
    ensures
        r@ == ips_of_version(ips@, v4),
{
    let mut out: Vec<IpAddress> = Vec::new();
    let mut i: usize = 0;
    while i < ips.len()
        invariant
            i <= ips@.len(),
            out@ == ips_of_version(ips@.take(i as int), v4),
        decreases ips@.len() - i,
    {
        let ip = ips[i];
        let is_v4 = matches!(ip, IpAddress::V4(_));
        if is_v4 == v4 {
            out.push(ip);
        }
        proof {
            assert(ips@.take(i + 1).drop_last() =~= ips@.take(i as int));
            assert(ips@.take(i + 1).last() == ips@[i as int]);
        }
        i = i + 1;
    }
    assert(ips@.take(i as int) =~= ips@);
    out
}

impl IntoSockets for (Vec<IpAddress>, u16) {
    open spec fn addresses(&self) -> Seq<SocketAddress> {
        with_port(self.0@, self.1)
    }

    fn into_sockets(self) -> (r: Vec<SocketAddress>) {
        let (ips, port) = self;
        let mut addrs: Vec<SocketAddress> = Vec::new();
        let mut i: usize = 0;
        while i < ips.len()
            invariant
                i <= ips@.len(),
                addrs@ == with_port(ips@.take(i as int), port),
            decreases ips@.len() - i,
        {
            addrs.push(SocketAddress { ip: ips[i], port });
            assert(with_port(ips@.take(i + 1), port) =~= with_port(ips@.take(i as int), port).push(
                SocketAddress { ip: ips@[i as int], port },
            ));
            i = i + 1;
        }
        assert(ips@.take(i as int) =~= ips@);
        addrs
    }

    fn into_ipv4_sockets(self) -> (r: Vec<SocketAddress>) {
        let ips = filter_ips(&self.0, true);
        proof {
            lemma_with_port_of_version(self.0@, self.1, true);
        }
        IntoSockets::into_sockets((ips, self.1))
    }

    fn into_ipv6_sockets(self) -> (r: Vec<SocketAddress>) {
        let ips = filter_ips(&self.0, false);
        proof {
            lemma_with_port_of_version(self.0@, self.1, false);
        }
        IntoSockets::into_sockets((ips, self.1))
    }
}

impl IntoSockets for SocketAddress {
    open spec fn addresses(&self) -> Seq<SocketAddress> {
        seq![*self]
    }

    fn into_sockets(self) -> (r: Vec<SocketAddress>) {
        let r = vec![self];
        assert(r@ =~= seq![self]);
        r
    }

    fn into_ipv4_sockets(self) -> (r: Vec<SocketAddress>) {
        proof {
            lemma_of_version_single(self, true);
        }
        if self.is_ipv4() {
            let r = vec![self];
            assert(r@ =~= seq![self]);
            return r;
        }
        let r: Vec<SocketAddress> = Vec::new();
        assert(r@ =~= Seq::<SocketAddress>::empty());
        r
    }

    fn into_ipv6_sockets(self) -> (r: Vec<SocketAddress>) {
        proof {
            lemma_of_version_single(self, false);
        }
        if self.is_ipv6() {
            let r = vec![self];
            assert(r@ =~= seq![self]);
            return r;
        }
        let r: Vec<SocketAddress> = Vec::new();
        assert(r@ =~= Seq::<SocketAddress>::empty());
        r
    }
}

} // verus!
