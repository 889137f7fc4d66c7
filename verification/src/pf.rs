//! Value-level model of the firewall-table records: a network address as
//! plain octets, its packed wire form (sixteen address bytes, an address
//! family tag and a network-prefix width), and a length-bounded table name.
//! The ioctl calls that carry these records to the kernel live outside the
//! library; everything here is pure data and is verified.

use vstd::prelude::*;
use vstd::string::StringSliceAdditionalSpecFns;

verus! {

/// Address family number for IPv4, as the BSD socket layer defines it.
pub const AF_INET: u8 = 2;

/// Address family number for IPv6, as the BSD socket layer defines it.
pub const AF_INET6: u8 = 30;

/// A network address as plain values: four octets, or eight sixteen-bit
/// segments.
#[derive(Clone, Copy, Debug, PartialEq, Eq, Structural)]
pub enum IpAddr {
    V4(u8, u8, u8, u8),
    V6(u16, u16, u16, u16, u16, u16, u16, u16),
}

/// Whether an address is globally routable.  For IPv4: no private,
/// loopback, link-local, broadcast or documentation range.  For IPv6: a
/// multicast address is global exactly in global scope; any other address
/// is global unless it is unspecified, loopback, link-local, site-local,
/// unique-local or documentation.
pub open spec fn spec_is_global(a: IpAddr) -> bool {
    match a {
        IpAddr::V4(o1, o2, o3, o4) => !(o1 == 10 || (o1 == 172 && 16 <= o2 && o2 < 32) || (o1
            == 192 && o2 == 168) || o1 == 127 || (o1 == 169 && o2 == 254) || (o1 == 255 && o2
            == 255 && o3 == 255 && o4 == 255) || (o1 == 192 && o2 == 0 && o3 == 2) || (o1 == 198
            && o2 == 51 && o3 == 100) || (o1 == 203 && o2 == 0 && o3 == 113)),
        IpAddr::V6(s0, s1, s2, s3, s4, s5, s6, s7) => if s0 & 0xff00 == 0xff00 {
            s0 & 0x000f == 14
        } else {
            !((s0 == 0 && s1 == 0 && s2 == 0 && s3 == 0 && s4 == 0 && s5 == 0 && s6 == 0 && (s7
                == 0 || s7 == 1)) || (s0 & 0xffc0 == 0xfe80) || (s0 & 0xffc0 == 0xfec0) || (s0
                & 0xfe00 == 0xfc00) || (s0 == 0x2001 && s1 == 0xdb8))
        },
    }
}

/// Decides whether an address is globally routable, by the ranges that
/// `spec_is_global` lists.
pub fn is_global(a: &IpAddr) -> (r: bool)
    ensures
        r == spec_is_global(*a),
{
    match *a {
        IpAddr::V4(o1, o2, o3, o4) => !(o1 == 10 || (o1 == 172 && 16 <= o2 && o2 < 32) || (o1
            == 192 && o2 == 168) || o1 == 127 || (o1 == 169 && o2 == 254) || (o1 == 255 && o2
            == 255 && o3 == 255 && o4 == 255) || (o1 == 192 && o2 == 0 && o3 == 2) || (o1 == 198
            && o2 == 51 && o3 == 100) || (o1 == 203 && o2 == 0 && o3 == 113)),
        IpAddr::V6(s0, s1, s2, s3, s4, s5, s6, s7) => if s0 & 0xff00 == 0xff00 {
            s0 & 0x000f == 14
        } else {
            !((s0 == 0 && s1 == 0 && s2 == 0 && s3 == 0 && s4 == 0 && s5 == 0 && s6 == 0 && (s7
                == 0 || s7 == 1)) || (s0 & 0xffc0 == 0xfe80) || (s0 & 0xffc0 == 0xfec0) || (s0
                & 0xfe00 == 0xfc00) || (s0 == 0x2001 && s1 == 0xdb8))
        },
    }
}

/// One packed firewall-table address record: sixteen raw address bytes in
/// network byte order (the first four used for IPv4), the address family
/// tag and the network-prefix width.
#[derive(Clone, Copy, Debug)]
pub struct Addr {
    pub addr: [u8; 16],
    pub af: u8,
    pub net: u8,
}

impl Addr {
    /// Packs an address into its wire record: a full-width host prefix,
    /// the matching family tag, and the octets (IPv6 segments split
    /// high-byte first) in the leading bytes.
    pub fn new(ip: &IpAddr) -> (a: Addr)
        ensures
            match *ip {
                IpAddr::V4(o1, o2, o3, o4) => {
                    &&& a.af == AF_INET
                    &&& a.net == 32
                    &&& a.addr@ =~= seq![o1, o2, o3, o4, 0u8, 0u8, 0u8, 0u8, 0u8, 0u8, 0u8, 0u8, 0u8, 0u8, 0u8, 0u8]
                },
                IpAddr::V6(s0, s1, s2, s3, s4, s5, s6, s7) => {
                    &&& a.af == AF_INET6
                    &&& a.net == 128
                    &&& a.addr@ =~= seq![
                        (s0 >> 8) as u8,
                        (s0 & 0xff) as u8,
                        (s1 >> 8) as u8,
                        (s1 & 0xff) as u8,
                        (s2 >> 8) as u8,
                        (s2 & 0xff) as u8,
                        (s3 >> 8) as u8,
                        (s3 & 0xff) as u8,
                        (s4 >> 8) as u8,
                        (s4 & 0xff) as u8,
                        (s5 >> 8) as u8,
                        (s5 & 0xff) as u8,
                        (s6 >> 8) as u8,
                        (s6 & 0xff) as u8,
                        (s7 >> 8) as u8,
                        (s7 & 0xff) as u8,
                    ]
                },
            },
    {
        match *ip {
            IpAddr::V4(o1, o2, o3, o4) => Addr {
                addr: [o1, o2, o3, o4, 0, 0, 0, 0, 0, 0, 0, 0, 0, 0, 0, 0],
                af: AF_INET,
                net: 32,
            },
            IpAddr::V6(s0, s1, s2, s3, s4, s5, s6, s7) => Addr {
                addr: [
                    (s0 >> 8) as u8,
                    (s0 & 0xff) as u8,
                    (s1 >> 8) as u8,
                    (s1 & 0xff) as u8,
                    (s2 >> 8) as u8,
                    (s2 & 0xff) as u8,
                    (s3 >> 8) as u8,
                    (s3 & 0xff) as u8,
                    (s4 >> 8) as u8,
                    (s4 & 0xff) as u8,
                    (s5 >> 8) as u8,
                    (s5 & 0xff) as u8,
                    (s6 >> 8) as u8,
                    (s6 & 0xff) as u8,
                    (s7 >> 8) as u8,
                    (s7 & 0xff) as u8,
                ],
                af: AF_INET6,
                net: 128,
            },
        }
    }

    /// Reads a wire record back into an address.  The record must carry one
    /// of the two known family tags.
    pub fn as_ip_addr(&self) -> (ip: IpAddr)
        requires
            self.af == AF_INET || self.af == AF_INET6,
        ensures
            self.af == AF_INET ==> ip == IpAddr::V4(
                self.addr@[0],
                self.addr@[1],
                self.addr@[2],
                self.addr@[3],
            ),
            self.af == AF_INET6 ==> ip == IpAddr::V6(
                ((self.addr@[0] as u16) << 8) | (self.addr@[1] as u16),
                ((self.addr@[2] as u16) << 8) | (self.addr@[3] as u16),
                ((self.addr@[4] as u16) << 8) | (self.addr@[5] as u16),
                ((self.addr@[6] as u16) << 8) | (self.addr@[7] as u16),
                ((self.addr@[8] as u16) << 8) | (self.addr@[9] as u16),
                ((self.addr@[10] as u16) << 8) | (self.addr@[11] as u16),
                ((self.addr@[12] as u16) << 8) | (self.addr@[13] as u16),
                ((self.addr@[14] as u16) << 8) | (self.addr@[15] as u16),
            ),
    {
        if self.af == AF_INET {
            IpAddr::V4(self.addr[0], self.addr[1], self.addr[2], self.addr[3])
        } else {
            IpAddr::V6(
                ((self.addr[0] as u16) << 8) | (self.addr[1] as u16),
                ((self.addr[2] as u16) << 8) | (self.addr[3] as u16),
                ((self.addr[4] as u16) << 8) | (self.addr[5] as u16),
                ((self.addr[6] as u16) << 8) | (self.addr[7] as u16),
                ((self.addr[8] as u16) << 8) | (self.addr[9] as u16),
                ((self.addr[10] as u16) << 8) | (self.addr[11] as u16),
                ((self.addr[12] as u16) << 8) | (self.addr[13] as u16),
                ((self.addr[14] as u16) << 8) | (self.addr[15] as u16),
            )
        }
    }
}

/// Law: packing an address and reading the record back yields the address
/// unchanged.
pub proof fn lemma_addr_roundtrip(ip: IpAddr, a: Addr)
    requires
        match ip {
            IpAddr::V4(o1, o2, o3, o4) => a.af == AF_INET && a.addr@[0] == o1 && a.addr@[1] == o2
                && a.addr@[2] == o3 && a.addr@[3] == o4,
            IpAddr::V6(s0, s1, s2, s3, s4, s5, s6, s7) => a.af == AF_INET6 && a.addr@ =~= seq![
                (s0 >> 8) as u8,
                (s0 & 0xff) as u8,
                (s1 >> 8) as u8,
                (s1 & 0xff) as u8,
                (s2 >> 8) as u8,
                (s2 & 0xff) as u8,
                (s3 >> 8) as u8,
                (s3 & 0xff) as u8,
                (s4 >> 8) as u8,
                (s4 & 0xff) as u8,
                (s5 >> 8) as u8,
                (s5 & 0xff) as u8,
                (s6 >> 8) as u8,
                (s6 & 0xff) as u8,
                (s7 >> 8) as u8,
                (s7 & 0xff) as u8,
            ],
        },
    ensures
        match ip {
            IpAddr::V4(o1, o2, o3, o4) => IpAddr::V4(
                a.addr@[0],
                a.addr@[1],
                a.addr@[2],
                a.addr@[3],
            ) == ip,
            IpAddr::V6(s0, s1, s2, s3, s4, s5, s6, s7) => IpAddr::V6(
                ((a.addr@[0] as u16) << 8) | (a.addr@[1] as u16),
                ((a.addr@[2] as u16) << 8) | (a.addr@[3] as u16),
                ((a.addr@[4] as u16) << 8) | (a.addr@[5] as u16),
                ((a.addr@[6] as u16) << 8) | (a.addr@[7] as u16),
                ((a.addr@[8] as u16) << 8) | (a.addr@[9] as u16),
                ((a.addr@[10] as u16) << 8) | (a.addr@[11] as u16),
                ((a.addr@[12] as u16) << 8) | (a.addr@[13] as u16),
                ((a.addr@[14] as u16) << 8) | (a.addr@[15] as u16),
            ) == ip,
        },
{
    match ip {
        IpAddr::V4(o1, o2, o3, o4) => {
        },
        IpAddr::V6(s0, s1, s2, s3, s4, s5, s6, s7) => {
            assert forall|s: u16| ((((s >> 8) as u8) as u16) << 8) | (((s & 0xff) as u8) as u16)
                == s by {
                assert(((((s >> 8) as u8) as u16) << 8) | (((s & 0xff) as u8) as u16) == s)
                    by (bit_vector);
            }
        },
    }
}

/// Maximum length of a stored table name; longer names are truncated on
/// construction, as the fixed-width kernel record demands.
pub const TABLE_NAME_MAX: usize = 31;

/// A firewall table name: owned text bytes, bounded in length.
#[derive(Clone, Debug)]
pub struct Table {
    pub name: Vec<u8>,
}

impl Table {
    pub open spec fn wf(self) -> bool {
        self.name@.len() <= TABLE_NAME_MAX
    }

    /// Builds a table name from text, keeping at most the first
    /// `TABLE_NAME_MAX` bytes.
    pub fn new(name: &str) -> (t: Table)
        ensures
            t.wf(),
            t.name@ == name.spec_bytes().take(
                if name.spec_bytes().len() <= TABLE_NAME_MAX {
                    name.spec_bytes().len() as int
                } else {
                    TABLE_NAME_MAX as int
                },
            ),
    {
        let bytes = name.as_bytes();
        let keep = if bytes.len() <= TABLE_NAME_MAX {
            bytes.len()
        } else {
            TABLE_NAME_MAX
        };
        let mut stored: Vec<u8> = Vec::new();
        let mut i: usize = 0;
        while i < keep
            invariant
                i <= keep <= bytes@.len(),
                stored@ =~= bytes@.take(i as int),
            decreases keep - i,
        {
            let b = bytes[i];
            stored.push(b);
            proof {
                assert(bytes@.take(i + 1) =~= bytes@.take(i as int).push(bytes@[i as int]));
            }
            i = i + 1;
        }
        proof {
            assert(stored@ =~= bytes@.take(keep as int));
        }
        Table { name: stored }
    }

    /// The stored name bytes.
    pub fn name(&self) -> (r: &Vec<u8>)
        ensures
            r@ == self.name@,
    {
        &self.name
    }
}

} // verus!