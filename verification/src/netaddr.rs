//! Choosing the local addresses a receiver advertises and the address a
//! sender targets: loopback, unspecified, link-local and typical virtual
//! switch addresses are left out. The interface list comes from the application.

use vstd::prelude::*;

verus! {

/// An IP address as plain values.
#[derive(Debug, Clone, Copy, PartialEq, Eq, Structural)]
pub enum IpValue {
    V4(u8, u8, u8, u8),
    V6(u16, u16, u16, u16, u16, u16, u16, u16),
}

/// An IPv4 address worth advertising: not loopback (127/8), unspecified,
/// link-local (169.254/16), nor in 172.16/12 (Docker and Hyper-V switches).
pub open spec fn usable_v4(a: u8, b: u8, c: u8, d: u8) -> bool {
    &&& a != 127
    &&& !(a == 0 && b == 0 && c == 0 && d == 0)
    &&& !(a == 169 && b == 254)
    &&& !(a == 172 && 16 <= b && b <= 31)
}

/// An IPv4 address worth advertising.
pub fn is_usable_v4(a: u8, b: u8, c: u8, d: u8) -> (r: bool)
    ensures
        r == usable_v4(a, b, c, d),
{
    if a == 127 || (a == 0 && b == 0 && c == 0 && d == 0) || (a == 169 && b == 254) {
        return false;
    }
    !(a == 172 && 16 <= b && b <= 31)
}

/// An IPv6 address worth advertising: not loopback (::1), unspecified (::),
/// nor unicast link-local (fe80::/10).
pub open spec fn usable_v6(s: (u16, u16, u16, u16, u16, u16, u16, u16)) -> bool {
    let zero_head = s.0 == 0 && s.1 == 0 && s.2 == 0 && s.3 == 0 && s.4 == 0 && s.5 == 0 && s.6 == 0;
    &&& !(zero_head && s.7 == 1)
    &&& !(zero_head && s.7 == 0)
    &&& !(0xfe80 <= s.0 && s.0 <= 0xfebf)
}

/// An IPv6 address worth advertising.
pub fn is_usable_v6(s0: u16, s1: u16, s2: u16, s3: u16, s4: u16, s5: u16, s6: u16, s7: u16) -> (r: bool)
    ensures
        r == usable_v6((s0, s1, s2, s3, s4, s5, s6, s7)),
{
    let zero_head = s0 == 0 && s1 == 0 && s2 == 0 && s3 == 0 && s4 == 0 && s5 == 0 && s6 == 0;
    !(zero_head && s7 == 1) && !(zero_head && s7 == 0) && !(0xfe80 <= s0 && s0 <= 0xfebf)
}

/// An address worth advertising.
pub open spec fn usable(ip: IpValue) -> bool {
    match ip {
        IpValue::V4(a, b, c, d) => usable_v4(a, b, c, d),
        IpValue::V6(s0, s1, s2, s3, s4, s5, s6, s7) => usable_v6((s0, s1, s2, s3, s4, s5, s6, s7)),
    }
}

fn is_usable(ip: IpValue) -> (r: bool)
    ensures
        r == usable(ip),
{
    match ip {
        IpValue::V4(a, b, c, d) => is_usable_v4(a, b, c, d),
        IpValue::V6(s0, s1, s2, s3, s4, s5, s6, s7) => is_usable_v6(s0, s1, s2, s3, s4, s5, s6, s7),
    }
}

/// The IPv4 loopback address.
pub open spec fn localhost_v4() -> IpValue {
    IpValue::V4(127, 0, 0, 1)
}

/// Interfaces kept: not a loopback interface and a usable address.
pub open spec fn kept_addrs(ifaces: Seq<(bool, IpValue)>) -> Seq<IpValue>
    decreases ifaces.len(),
{
    if ifaces.len() == 0 {
        Seq::empty()
    } else {
        let rest = kept_addrs(ifaces.drop_last());
        let (loopback, ip) = ifaces.last();
        if !loopback && usable(ip) { rest.push(ip) } else { rest }
    }
}

/// Addresses to advertise from the interface list (loopback flag, address):
/// the usable ones of non-loopback interfaces in order, then 127.0.0.1.
pub fn local_ip_addrs(ifaces: &Vec<(bool, IpValue)>) -> (r: Vec<IpValue>)
    ensures
        r@ == kept_addrs(ifaces@).push(localhost_v4()),
{
    let mut out: Vec<IpValue> = Vec::new();
    let mut i: usize = 0;
    while i < ifaces.len()
        invariant
            i <= ifaces@.len(),
            out@ == kept_addrs(ifaces@.take(i as int)),
        decreases ifaces@.len() - i,
    {
        let (loopback, ip) = ifaces[i];
        assert(ifaces@.take(i + 1).drop_last() =~= ifaces@.take(i as int));
        assert(ifaces@.take(i + 1).last() == ifaces@[i as int]);
        if !loopback && is_usable(ip) {
            out.push(ip);
        }
        i += 1;
    }
    assert(ifaces@.take(ifaces@.len() as int) =~= ifaces@);
    out.push(IpValue::V4(127, 0, 0, 1));
    out
}

/// The first usable IPv4 address of the list, else 127.0.0.1.
pub open spec fn primary_v4_of(addrs: Seq<IpValue>) -> IpValue
    decreases addrs.len(),
{
    if addrs.len() == 0 {
        localhost_v4()
    } else {
        match addrs[0] {
            IpValue::V4(a, b, c, d) => if usable_v4(a, b, c, d) { addrs[0] } else { primary_v4_of(addrs.drop_first()) },
            IpValue::V6(..) => primary_v4_of(addrs.drop_first()),
        }
    }
}

/// Best IPv4 target for RTP among this machine's addresses.
pub fn primary_ipv4(addrs: &Vec<IpValue>) -> (r: IpValue)
    ensures
        r == primary_v4_of(addrs@),
{
    let mut i: usize = 0;
    assert(addrs@.skip(0) =~= addrs@);
    while i < addrs.len()
        invariant
            i <= addrs@.len(),
            primary_v4_of(addrs@) == primary_v4_of(addrs@.skip(i as int)),
        decreases addrs@.len() - i,
    {
        assert(addrs@.skip(i as int)[0] == addrs@[i as int]);
        assert(addrs@.skip(i as int).drop_first() =~= addrs@.skip(i + 1));
        match addrs[i] {
            IpValue::V4(a, b, c, d) => {
                if is_usable_v4(a, b, c, d) {
                    return addrs[i];
                }
            },
            IpValue::V6(..) => {},
        }
        i += 1;
    }
    assert(addrs@.skip(i as int) =~= Seq::<IpValue>::empty());
    IpValue::V4(127, 0, 0, 1)
}

} // verus!
