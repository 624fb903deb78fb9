use vstd::prelude::*;

verus! {

/// An address that a lookup resolved to, as its octets or 16-bit segments.
#[derive(Clone, Copy, Debug, PartialEq, Eq, Structural)]
pub enum IpAddress {
    V4(u8, u8, u8, u8),
    V6(u16, u16, u16, u16, u16, u16, u16, u16),
}

/// Private, loopback or link-local IPv4 ranges:
/// 10.0.0.0/8, 172.16.0.0/12, 192.168.0.0/16, 127.0.0.0/8 and 169.254.0.0/16.
pub open spec fn v4_is_private(a: u8, b: u8) -> bool {
    ||| a == 10
    ||| (a == 172 && 16 <= b && b < 32)
    ||| (a == 192 && b == 168)
    ||| a == 127
    ||| (a == 169 && b == 254)
}

/// Whether an address counts as internal. IPv6 addresses are never
/// classified as internal: only IPv4 ranges are recognised.
pub open spec fn spec_is_private(addr: IpAddress) -> bool {
    match addr {
        IpAddress::V4(a, b, _, _) => v4_is_private(a, b),
        IpAddress::V6(..) => false,
    }
}

/// Classifies a resolved address as private (internal) or public.
pub fn is_private(addr: &IpAddress) -> (r: bool)
    ensures
        r == spec_is_private(*addr),
{
    match addr {
        IpAddress::V4(a, b, _, _) => {
            *a == 10 || (*a == 172 && 16 <= *b && *b < 32) || (*a == 192 && *b == 168) || *a == 127
                || (*a == 169 && *b == 254)
        },
        IpAddress::V6(..) => false,
    }
}

} // verus!
