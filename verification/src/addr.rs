use vstd::prelude::*;

verus! {

broadcast use vstd::array::group_array_axioms;

/// An IP address held as plain bytes in network order.
#[derive(Debug, Clone, Copy, PartialEq, Eq)]
pub enum IpAddress {
    V4([u8; 4]),
    V6([u8; 16]),
}

/// A transport endpoint: an IP address and a UDP port.
#[derive(Debug, Clone, Copy, PartialEq, Eq)]
pub struct Endpoint {
    pub ip: IpAddress,
    pub port: u16,
}

impl Endpoint {
    /// Builds an IPv4 endpoint.
    pub fn v4(a: u8, b: u8, c: u8, d: u8, port: u16) -> (res: Endpoint)
        ensures
            res.ip == IpAddress::V4([a, b, c, d]),
            res.port == port,
    {
        Endpoint { ip: IpAddress::V4([a, b, c, d]), port }
    }

    /// Whether two endpoints have the same address and port.
    pub fn same_as(&self, other: &Endpoint) -> (res: bool)
        ensures
            res == (*self == *other),
    {
        if self.port != other.port {
            return false;
        }
        match (self.ip, other.ip) {
            (IpAddress::V4(a), IpAddress::V4(b)) => {
                let r = a[0] == b[0] && a[1] == b[1] && a[2] == b[2] && a[3] == b[3];
                proof {
                    if r {
                        assert(a =~= b);
                    }
                }
                r
            },
            (IpAddress::V6(a), IpAddress::V6(b)) => {
                let mut i: usize = 0;
                let mut same = true;
                while i < 16
                    invariant
                        0 <= i <= 16,
                        same == (forall|j: int| 0 <= j < i ==> a@[j] == b@[j]),
                    decreases 16 - i,
                {
                    if a[i] != b[i] {
                        same = false;
                    }
                    i = i + 1;
                }
                proof {
                    if same {
                        assert(a =~= b);
                    }
                }
                same
            },
            _ => false,
        }
    }

    /// Whether the address is an IPv4 address.
    pub fn is_ipv4(&self) -> (res: bool)
        ensures
            res == (self.ip is V4),
    {
        match self.ip {
            IpAddress::V4(_) => true,
            IpAddress::V6(_) => false,
        }
    }

    /// Whether the address is the loopback address (127.0.0.0/8 or ::1).
    pub fn is_loopback(&self) -> (res: bool)
        ensures
            res == spec_is_loopback(self.ip),
    {
        match self.ip {
            IpAddress::V4(b) => b[0] == 127,
            IpAddress::V6(b) => {
                let mut i: usize = 0;
                let mut zero = true;
                while i < 15
                    invariant
                        0 <= i <= 15,
                        zero == (forall|j: int| 0 <= j < i ==> b@[j] == 0u8),
                    decreases 15 - i,
                {
                    if b[i] != 0 {
                        zero = false;
                    }
                    i = i + 1;
                }
                zero && b[15] == 1
            },
        }
    }
}

/// Loopback addresses: 127.0.0.0/8 for IPv4, `::1` for IPv6.
pub open spec fn spec_is_loopback(ip: IpAddress) -> bool {
    match ip {
        IpAddress::V4(b) => b@[0] == 127u8,
        IpAddress::V6(b) => (forall|j: int| 0 <= j < 15 ==> b@[j] == 0u8) && b@[15] == 1u8,
    }
}

} // verus!
