//! Network-facing data types: the services bitfield and socket addresses.
//! An IPv4 address travels inside its IPv4-mapped IPv6 form and is
//! normalized back to IPv4 on decode; the port is the protocol's only
//! big-endian field.

use vstd::prelude::*;

use crate::codec::BitcoinType;
use crate::scanner::DecodeError;
use crate::scanner::Scanner;

verus! {

broadcast use vstd::seq_lib::group_seq_properties, vstd::array::group_array_axioms;

/// The advertised service flags, one boolean per defined bit position.
#[derive(Debug, Clone, Copy, PartialEq, Eq, Structural)]
pub struct Services {
    pub network: bool,
    pub getutxo: bool,
    pub bloom: bool,
    pub witness: bool,
    pub xthin: bool,
    pub compact_filters: bool,
    pub network_limited: bool,
}

impl Default for Services {
    /// No services advertised.
    fn default() -> (r: Services)
        ensures
            r == Services::none(),
    {
        Services {
            network: false,
            getutxo: false,
            bloom: false,
            witness: false,
            xthin: false,
            compact_filters: false,
            network_limited: false,
        }
    }
}

impl Services {
    /// The all-false bitfield.
    pub open spec fn none() -> Services {
        Services {
            network: false,
            getutxo: false,
            bloom: false,
            witness: false,
            xthin: false,
            compact_filters: false,
            network_limited: false,
        }
    }
}

/// The bitfield packing of the service flags: `network` at bit 1, `getutxo`
/// at 2, `bloom` at 3, `witness` at 4, `xthin` at 5, `compact_filters` at 7,
/// `network_limited` at 10. Every other bit is zero.
pub open spec fn services_bits(m: Services) -> u64 {
    (if m.network {
        0x2u64
    } else {
        0u64
    }) | (if m.getutxo {
        0x4u64
    } else {
        0u64
    }) | (if m.bloom {
        0x8u64
    } else {
        0u64
    }) | (if m.witness {
        0x10u64
    } else {
        0u64
    }) | (if m.xthin {
        0x20u64
    } else {
        0u64
    }) | (if m.compact_filters {
        0x80u64
    } else {
        0u64
    }) | (if m.network_limited {
        0x400u64
    } else {
        0u64
    })
}

/// The flags a received bitfield carries; unknown bits are ignored.
pub open spec fn services_from_bits(b: u64) -> Services {
    Services {
        network: (b >> 1) & 1 == 1,
        getutxo: (b >> 2) & 1 == 1,
        bloom: (b >> 3) & 1 == 1,
        witness: (b >> 4) & 1 == 1,
        xthin: (b >> 5) & 1 == 1,
        compact_filters: (b >> 7) & 1 == 1,
        network_limited: (b >> 10) & 1 == 1,
    }
}

/// Unpacking the packed flags gives the flags back.
pub proof fn lemma_services_bits_round_trip(m: Services)
    ensures
        services_from_bits(services_bits(m)) == m,
{
    let n1: u64 = if m.network {
        0x2u64
    } else {
        0u64
    };
    let n2: u64 = if m.getutxo {
        0x4u64
    } else {
        0u64
    };
    let n3: u64 = if m.bloom {
        0x8u64
    } else {
        0u64
    };
    let n4: u64 = if m.witness {
        0x10u64
    } else {
        0u64
    };
    let n5: u64 = if m.xthin {
        0x20u64
    } else {
        0u64
    };
    let n6: u64 = if m.compact_filters {
        0x80u64
    } else {
        0u64
    };
    let n7: u64 = if m.network_limited {
        0x400u64
    } else {
        0u64
    };
    let b = n1 | n2 | n3 | n4 | n5 | n6 | n7;
    assert({
        &&& (b >> 1) & 1 == (if n1 == 0x2u64 {
            1u64
        } else {
            0u64
        })
        &&& (b >> 2) & 1 == (if n2 == 0x4u64 {
            1u64
        } else {
            0u64
        })
        &&& (b >> 3) & 1 == (if n3 == 0x8u64 {
            1u64
        } else {
            0u64
        })
        &&& (b >> 4) & 1 == (if n4 == 0x10u64 {
            1u64
        } else {
            0u64
        })
        &&& (b >> 5) & 1 == (if n5 == 0x20u64 {
            1u64
        } else {
            0u64
        })
        &&& (b >> 7) & 1 == (if n6 == 0x80u64 {
            1u64
        } else {
            0u64
        })
        &&& (b >> 10) & 1 == (if n7 == 0x400u64 {
            1u64
        } else {
            0u64
        })
    }) by (bit_vector)
        requires
            b == n1 | n2 | n3 | n4 | n5 | n6 | n7,
            n1 == 0 || n1 == 0x2u64,
            n2 == 0 || n2 == 0x4u64,
            n3 == 0 || n3 == 0x8u64,
            n4 == 0 || n4 == 0x10u64,
            n5 == 0 || n5 == 0x20u64,
            n6 == 0 || n6 == 0x80u64,
            n7 == 0 || n7 == 0x400u64,
    ;
}

/// Services travel as the 64-bit bitfield, little-endian.
impl BitcoinType for Services {
    type Model = Services;

    open spec fn model(&self) -> Services {
        *self
    }

    open spec fn m_wf(m: Services) -> bool {
        true
    }

    open spec fn m_enc(m: Services) -> Seq<u8> {
        vstd::bytes::spec_u64_to_le_bytes(services_bits(m))
    }

    open spec fn dec(s: Seq<u8>) -> Result<(Services, int), DecodeError> {
        match <u64 as BitcoinType>::dec(s) {
            Ok((b, n)) => Ok((services_from_bits(b), n)),
            Err(e) => Err(e),
        }
    }

    proof fn lemma_round_trip(m: Services, rest: Seq<u8>) {
        <u64 as BitcoinType>::lemma_round_trip(services_bits(m), rest);
        lemma_services_bits_round_trip(m);
    }

    fn to_blob(&self) -> (r: Vec<u8>) {
        let bits: u64 = (if self.network {
            0x2u64
        } else {
            0u64
        }) | (if self.getutxo {
            0x4u64
        } else {
            0u64
        }) | (if self.bloom {
            0x8u64
        } else {
            0u64
        }) | (if self.witness {
            0x10u64
        } else {
            0u64
        }) | (if self.xthin {
            0x20u64
        } else {
            0u64
        }) | (if self.compact_filters {
            0x80u64
        } else {
            0u64
        }) | (if self.network_limited {
            0x400u64
        } else {
            0u64
        });
        vstd::bytes::u64_to_le_bytes(bits)
    }

    fn from_blob(blob: &mut Scanner) -> (r: Result<Self, DecodeError>) {
        let b = u64::from_blob(blob)?;
        Ok(
            Services {
                network: (b >> 1u64) & 1 == 1,
                getutxo: (b >> 2u64) & 1 == 1,
                bloom: (b >> 3u64) & 1 == 1,
                witness: (b >> 4u64) & 1 == 1,
                xthin: (b >> 5u64) & 1 == 1,
                compact_filters: (b >> 7u64) & 1 == 1,
                network_limited: (b >> 10u64) & 1 == 1,
            },
        )
    }
}

/// An IP address: a native IPv4 or a native IPv6 one.
#[derive(Debug, Clone, Copy, PartialEq, Eq)]
pub enum Ip {
    V4([u8; 4]),
    V6([u8; 16]),
}

/// A socket address: an IP address and a port.
#[derive(Debug, Clone, Copy, PartialEq, Eq)]
pub struct SockAddr {
    pub ip: Ip,
    pub port: u16,
}

/// The twelve bytes that prefix an IPv4-mapped IPv6 address
/// (`::ffff:a.b.c.d`).
pub open spec fn mapped_prefix() -> Seq<u8> {
    seq![0u8, 0u8, 0u8, 0u8, 0u8, 0u8, 0u8, 0u8, 0u8, 0u8, 0xffu8, 0xffu8]
}

/// Whether sixteen address bytes are an IPv4-mapped IPv6 address.
pub open spec fn is_mapped(s: Seq<u8>) -> bool {
    s.len() == 16 && s.take(12) == mapped_prefix()
}

/// The sixteen on-wire bytes of an address: IPv4 in its mapped form.
pub open spec fn ip16(ip: Ip) -> Seq<u8> {
    match ip {
        Ip::V4(o) => mapped_prefix() + o@,
        Ip::V6(o) => o@,
    }
}

/// The array of `N` bytes whose view is `s` (meaningful when `s` has
/// length `N`).
pub open spec fn seq_to_array<const N: usize>(s: Seq<u8>) -> [u8; N] {
    choose|a: [u8; N]| a@ == s
}

/// Any array is recovered from its own view.
pub proof fn lemma_seq_to_array<const N: usize>(a: [u8; N])
    ensures
        seq_to_array::<N>(a@) == a,
{
    let c = choose|x: [u8; N]| x@ == a@;
    assert(a@ == a@);
    assert(c@ == a@);
    assert(c =~= a);
}

/// The copy of `v[off .. off + N]` as an array.
pub fn vec_segment_to_array<const N: usize>(v: &Vec<u8>, off: usize) -> (r: [u8; N])
    requires
        off + N <= v@.len(),
    ensures
        r@ == v@.subrange(off as int, off + N),
{
    let total = v.len();
    let mut a: [u8; N] = vstd::array::array_fill_for_copy_types(0u8);
    let mut i: usize = 0;
    while i < N
        invariant
            off + N <= v@.len(),
            v@.len() == total,
            0 <= i <= N,
            forall|j: int| 0 <= j < i ==> a@[j] == v@[off + j],
        decreases N - i,
    {
        a[i] = v[off + i];
        i = i + 1;
    }
    proof {
        assert(a@ =~= v@.subrange(off as int, off + N));
    }
    a
}

/// Whether the first twelve of sixteen address bytes are the IPv4-mapped
/// prefix.
pub(crate) fn ipv4_mapped(ipb: &Vec<u8>) -> (r: bool)
    requires
        ipb@.len() == 16,
    ensures
        r == is_mapped(ipb@),
{
    let mut i: usize = 0;
    while i < 12
        invariant
            ipb@.len() == 16,
            0 <= i <= 12,
            forall|j: int| 0 <= j < i ==> ipb@[j] == mapped_prefix()[j],
        decreases 12 - i,
    {
        let expected: u8 = if i < 10 {
            0
        } else {
            0xff
        };
        if ipb[i] != expected {
            proof {
                assert(ipb@.take(12)[i as int] == ipb@[i as int]);
                assert(ipb@[i as int] != mapped_prefix()[i as int]);
            }
            return false;
        }
        i = i + 1;
    }
    proof {
        assert(ipb@.take(12) =~= mapped_prefix());
    }
    true
}

/// A socket address travels as sixteen IPv6 bytes (IPv4 in its mapped form)
/// followed by the port as big-endian u16. Decoding normalizes a mapped
/// address back to IPv4, so a well-formed native IPv6 address is one not in
/// mapped form.
impl BitcoinType for SockAddr {
    type Model = SockAddr;

    open spec fn model(&self) -> SockAddr {
        *self
    }

    open spec fn m_wf(m: SockAddr) -> bool {
        match m.ip {
            Ip::V4(_) => true,
            Ip::V6(o) => !is_mapped(o@),
        }
    }

    open spec fn m_enc(m: SockAddr) -> Seq<u8> {
        ip16(m.ip) + seq![(m.port >> 8u16) as u8, (m.port & 0xff) as u8]
    }

    open spec fn dec(s: Seq<u8>) -> Result<(SockAddr, int), DecodeError> {
        if s.len() < 18 {
            Err(DecodeError::Overrun)
        } else {
            let ipb = s.take(16);
            let ip = if is_mapped(ipb) {
                Ip::V4(seq_to_array::<4>(ipb.subrange(12, 16)))
            } else {
                Ip::V6(seq_to_array::<16>(ipb))
            };
            let port = ((s[16] as u16) << 8u16) | (s[17] as u16);
            Ok((SockAddr { ip, port }, 18))
        }
    }

    proof fn lemma_round_trip(m: SockAddr, rest: Seq<u8>) {
        let e = Self::m_enc(m);
        let s = e + rest;
        assert(ip16(m.ip).len() == 16);
        assert(s.take(16) =~= ip16(m.ip));
        let p = m.port;
        let hi = (p >> 8u16) as u8;
        let lo = (p & 0xff) as u8;
        assert(s[16] == hi && s[17] == lo);
        assert(((hi as u16) << 8u16) | (lo as u16) == p) by (bit_vector)
            requires
                hi == (p >> 8u16) as u8,
                lo == (p & 0xff) as u8,
        ;
        match m.ip {
            Ip::V4(o) => {
                assert(s.take(16).take(12) =~= mapped_prefix());
                assert(is_mapped(s.take(16)));
                assert(s.take(16).subrange(12, 16) =~= o@);
                lemma_seq_to_array::<4>(o);
            },
            Ip::V6(o) => {
                assert(!is_mapped(s.take(16)));
                lemma_seq_to_array::<16>(o);
            },
        }
    }

    fn to_blob(&self) -> (r: Vec<u8>) {
        let mut r: Vec<u8> = Vec::new();
        match &self.ip {
            Ip::V4(o) => {
                let mut i: usize = 0;
                while i < 10
                    invariant
                        0 <= i <= 10,
                        r@ =~= mapped_prefix().take(i as int),
                    decreases 10 - i,
                {
                    r.push(0);
                    proof {
                        assert(r@ =~= mapped_prefix().take(i + 1));
                    }
                    i = i + 1;
                }
                r.push(0xff);
                r.push(0xff);
                proof {
                    assert(r@ =~= mapped_prefix());
                }
                let mut tail = vstd::slice::slice_to_vec(o.as_slice());
                r.append(&mut tail);
                proof {
                    assert(r@ =~= ip16(self.ip));
                }
            },
            Ip::V6(o) => {
                let mut tail = vstd::slice::slice_to_vec(o.as_slice());
                r.append(&mut tail);
                proof {
                    assert(r@ =~= ip16(self.ip));
                }
            },
        }
        r.push((self.port >> 8u16) as u8);
        r.push((self.port & 0xff) as u8);
        proof {
            assert(r@ =~= Self::m_enc(self.model()));
        }
        r
    }

    fn from_blob(blob: &mut Scanner) -> (r: Result<Self, DecodeError>) {
        let ghost s = old(blob).remaining();
        let ipb = blob.take(16)?;
        let port_bytes = blob.take(2)?;
        proof {
            assert(s.skip(16)[0] == s[16] && s.skip(16)[1] == s[17]);
            assert(port_bytes@[0] == s[16] && port_bytes@[1] == s[17]);
        }
        let ip = if ipv4_mapped(&ipb) {
            let quad: [u8; 4] = vec_segment_to_array::<4>(&ipb, 12);
            proof {
                lemma_seq_to_array::<4>(quad);
                assert(quad@ =~= ipb@.subrange(12, 16));
            }
            Ip::V4(quad)
        } else {
            let full: [u8; 16] = vec_segment_to_array::<16>(&ipb, 0);
            proof {
                lemma_seq_to_array::<16>(full);
                assert(full@ =~= ipb@);
            }
            Ip::V6(full)
        };
        let port = ((port_bytes[0] as u16) << 8u16) | (port_bytes[1] as u16);
        Ok(SockAddr { ip, port })
    }
}

/// Address normalization: an IPv4 address travels in its mapped IPv6 form
/// and decodes back to the IPv4 address itself, never to the mapped form; a
/// native IPv6 address — one not in mapped form — round-trips unchanged.
pub proof fn lemma_addr_normalization(a: SockAddr, rest: Seq<u8>)
    requires
        <SockAddr as BitcoinType>::m_wf(a),
    ensures
        <SockAddr as BitcoinType>::dec(<SockAddr as BitcoinType>::m_enc(a) + rest) == Ok::<
            (SockAddr, int),
            DecodeError,
        >((a, 18)),
{
    <SockAddr as BitcoinType>::lemma_round_trip(a, rest);
    match a.ip {
        Ip::V4(_) => assert(<SockAddr as BitcoinType>::m_enc(a).len() == 18),
        Ip::V6(_) => assert(<SockAddr as BitcoinType>::m_enc(a).len() == 18),
    }
}

/// A network endpoint as announced on the wire: its services, then its
/// socket address.
#[derive(Debug, Clone, Copy, PartialEq, Eq)]
pub struct NetAddr {
    pub services: Services,
    pub addr: SockAddr,
}

impl BitcoinType for NetAddr {
    type Model = NetAddr;

    open spec fn model(&self) -> NetAddr {
        *self
    }

    open spec fn m_wf(m: NetAddr) -> bool {
        <SockAddr as BitcoinType>::m_wf(m.addr)
    }

    open spec fn m_enc(m: NetAddr) -> Seq<u8> {
        <Services as BitcoinType>::m_enc(m.services) + <SockAddr as BitcoinType>::m_enc(m.addr)
    }

    open spec fn dec(s: Seq<u8>) -> Result<(NetAddr, int), DecodeError> {
        match <Services as BitcoinType>::dec(s) {
            Ok((services, n1)) => match <SockAddr as BitcoinType>::dec(s.skip(n1)) {
                Ok((addr, n2)) => Ok((NetAddr { services, addr }, n1 + n2)),
                Err(e) => Err(e),
            },
            Err(e) => Err(e),
        }
    }

    proof fn lemma_round_trip(m: NetAddr, rest: Seq<u8>) {
        let e1 = <Services as BitcoinType>::m_enc(m.services);
        let e2 = <SockAddr as BitcoinType>::m_enc(m.addr);
        <Services as BitcoinType>::lemma_round_trip(m.services, e2 + rest);
        assert(Self::m_enc(m) + rest =~= e1 + (e2 + rest));
        vstd::seq_lib::lemma_seq_append_take_skip(e1, e2 + rest, e1.len() as int);
        <SockAddr as BitcoinType>::lemma_round_trip(m.addr, rest);
    }

    fn to_blob(&self) -> (r: Vec<u8>) {
        let mut r = self.services.to_blob();
        let mut tail = self.addr.to_blob();
        r.append(&mut tail);
        r
    }

    fn from_blob(blob: &mut Scanner) -> (r: Result<Self, DecodeError>) {
        let services = Services::from_blob(blob)?;
        proof {
            vstd::seq_lib::lemma_seq_skip_of_skip(
                old(blob).data(),
                old(blob).pos(),
                blob.pos() - old(blob).pos(),
            );
        }
        let addr = SockAddr::from_blob(blob)?;
        Ok(NetAddr { services, addr })
    }
}

} // verus!
