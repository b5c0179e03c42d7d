//! The message model: the typed payload compounds, the 24-byte header, and
//! the framed envelope with its command table and checksum.

use vstd::prelude::*;

use crate::checksum::checksum_of;
use crate::checksum::get_check_sum;
use crate::codec::lemma_remaining_skip;
use crate::codec::BitcoinType;
use crate::scanner::DecodeError;
use crate::scanner::Scanner;

verus! {

/// What an inventory entry announces.
#[derive(Debug, Clone, Copy, PartialEq, Eq, Structural)]
pub enum InventoryKind {
    Error,
    Tx,
    Block,
    FilteredBlock,
    CmpctBlock,
    WitnessTx,
    WitnessBlock,
    FilteredWitnessBlock,
}

/// The wire code of an inventory kind.
pub open spec fn inventory_code(k: InventoryKind) -> u32 {
    match k {
        InventoryKind::Error => 0x0,
        InventoryKind::Tx => 0x1,
        InventoryKind::Block => 0x2,
        InventoryKind::FilteredBlock => 0x3,
        InventoryKind::CmpctBlock => 0x4,
        InventoryKind::WitnessTx => 0x40000001,
        InventoryKind::WitnessBlock => 0x40000002,
        InventoryKind::FilteredWitnessBlock => 0x40000003,
    }
}

/// The inventory kind a wire code names, if any.
pub open spec fn inventory_kind_of(c: u32) -> Option<InventoryKind> {
    if c == 0x0 {
        Some(InventoryKind::Error)
    } else if c == 0x1 {
        Some(InventoryKind::Tx)
    } else if c == 0x2 {
        Some(InventoryKind::Block)
    } else if c == 0x3 {
        Some(InventoryKind::FilteredBlock)
    } else if c == 0x4 {
        Some(InventoryKind::CmpctBlock)
    } else if c == 0x40000001 {
        Some(InventoryKind::WitnessTx)
    } else if c == 0x40000002 {
        Some(InventoryKind::WitnessBlock)
    } else if c == 0x40000003 {
        Some(InventoryKind::FilteredWitnessBlock)
    } else {
        None
    }
}

/// One announced object: its kind and its 32-byte hash in wire order.
#[derive(Debug, Clone, Copy, PartialEq, Eq)]
pub struct InventoryElement {
    pub kind: InventoryKind,
    pub hash: [u8; 32],
}

/// The model of an inventory element: the hash as a byte sequence.
pub struct InventoryElementV {
    pub kind: InventoryKind,
    pub hash: Seq<u8>,
}

/// An inventory element travels as the kind's u32 code, then the hash bytes.
/// A code outside the known set is a decode failure.
impl BitcoinType for InventoryElement {
    type Model = InventoryElementV;

    open spec fn model(&self) -> InventoryElementV {
        InventoryElementV { kind: self.kind, hash: self.hash@ }
    }

    open spec fn m_wf(m: InventoryElementV) -> bool {
        m.hash.len() == 32
    }

    open spec fn m_enc(m: InventoryElementV) -> Seq<u8> {
        vstd::bytes::spec_u32_to_le_bytes(inventory_code(m.kind)) + m.hash
    }

    open spec fn dec(s: Seq<u8>) -> Result<(InventoryElementV, int), DecodeError> {
        match <u32 as BitcoinType>::dec(s) {
            Ok((c, n1)) => match inventory_kind_of(c) {
                Some(kind) => match <[u8; 32] as BitcoinType>::dec(s.skip(n1)) {
                    Ok((hash, n2)) => Ok((InventoryElementV { kind, hash }, n1 + n2)),
                    Err(e) => Err(e),
                },
                None => Err(DecodeError::UnknownInventoryKind),
            },
            Err(e) => Err(e),
        }
    }

    proof fn lemma_round_trip(m: InventoryElementV, rest: Seq<u8>) {
        let e1 = vstd::bytes::spec_u32_to_le_bytes(inventory_code(m.kind));
        <u32 as BitcoinType>::lemma_round_trip(inventory_code(m.kind), m.hash + rest);
        assert(Self::m_enc(m) + rest =~= e1 + (m.hash + rest));
        vstd::seq_lib::lemma_seq_append_take_skip(e1, m.hash + rest, e1.len() as int);
        <[u8; 32] as BitcoinType>::lemma_round_trip(m.hash, rest);
    }

    fn to_blob(&self) -> (r: Vec<u8>) {
        let code: u32 = match self.kind {
            InventoryKind::Error => 0x0,
            InventoryKind::Tx => 0x1,
            InventoryKind::Block => 0x2,
            InventoryKind::FilteredBlock => 0x3,
            InventoryKind::CmpctBlock => 0x4,
            InventoryKind::WitnessTx => 0x40000001,
            InventoryKind::WitnessBlock => 0x40000002,
            InventoryKind::FilteredWitnessBlock => 0x40000003,
        };
        let mut r = code.to_blob();
        let mut tail = vstd::slice::slice_to_vec(self.hash.as_slice());
        r.append(&mut tail);
        r
    }

    fn from_blob(blob: &mut Scanner) -> (r: Result<Self, DecodeError>) {
        let ghost pre = *old(blob);
        let code = u32::from_blob(blob)?;
        let kind = match code {
            0x0 => InventoryKind::Error,
            0x1 => InventoryKind::Tx,
            0x2 => InventoryKind::Block,
            0x3 => InventoryKind::FilteredBlock,
            0x4 => InventoryKind::CmpctBlock,
            0x40000001 => InventoryKind::WitnessTx,
            0x40000002 => InventoryKind::WitnessBlock,
            0x40000003 => InventoryKind::FilteredWitnessBlock,
            _ => {
                return Err(DecodeError::UnknownInventoryKind);
            },
        };
        proof {
            lemma_remaining_skip(pre, *blob);
        }
        let hash = <[u8; 32]>::from_blob(blob)?;
        Ok(InventoryElement { kind, hash })
    }
}

/// The compact-block negotiation payload.
#[derive(Debug, Clone, Copy, PartialEq, Eq, Structural)]
pub struct SendCmpct {
    pub flag: bool,
    pub integer: u64,
}

impl BitcoinType for SendCmpct {
    type Model = SendCmpct;

    open spec fn model(&self) -> SendCmpct {
        *self
    }

    open spec fn m_wf(m: SendCmpct) -> bool {
        true
    }

    open spec fn m_enc(m: SendCmpct) -> Seq<u8> {
        <bool as BitcoinType>::m_enc(m.flag) + <u64 as BitcoinType>::m_enc(m.integer)
    }

    open spec fn dec(s: Seq<u8>) -> Result<(SendCmpct, int), DecodeError> {
        match <bool as BitcoinType>::dec(s) {
            Ok((flag, n1)) => match <u64 as BitcoinType>::dec(s.skip(n1)) {
                Ok((integer, n2)) => Ok((SendCmpct { flag, integer }, n1 + n2)),
                Err(e) => Err(e),
            },
            Err(e) => Err(e),
        }
    }

    proof fn lemma_round_trip(m: SendCmpct, rest: Seq<u8>) {
        let e1 = <bool as BitcoinType>::m_enc(m.flag);
        let e2 = <u64 as BitcoinType>::m_enc(m.integer);
        <bool as BitcoinType>::lemma_round_trip(m.flag, e2 + rest);
        assert(Self::m_enc(m) + rest =~= e1 + (e2 + rest));
        vstd::seq_lib::lemma_seq_append_take_skip(e1, e2 + rest, e1.len() as int);
        <u64 as BitcoinType>::lemma_round_trip(m.integer, rest);
    }

    fn to_blob(&self) -> (r: Vec<u8>) {
        let mut r = self.flag.to_blob();
        let mut tail = self.integer.to_blob();
        r.append(&mut tail);
        r
    }

    fn from_blob(blob: &mut Scanner) -> (r: Result<Self, DecodeError>) {
        let ghost pre = *old(blob);
        let flag = bool::from_blob(blob)?;
        proof {
            lemma_remaining_skip(pre, *blob);
        }
        let integer = u64::from_blob(blob)?;
        Ok(SendCmpct { flag, integer })
    }
}

/// The minimum-feerate announcement payload.
#[derive(Debug, Clone, Copy, PartialEq, Eq, Structural)]
pub struct FeeFilter {
    pub feerate: u64,
}

impl BitcoinType for FeeFilter {
    type Model = FeeFilter;

    open spec fn model(&self) -> FeeFilter {
        *self
    }

    open spec fn m_wf(m: FeeFilter) -> bool {
        true
    }

    open spec fn m_enc(m: FeeFilter) -> Seq<u8> {
        <u64 as BitcoinType>::m_enc(m.feerate)
    }

    open spec fn dec(s: Seq<u8>) -> Result<(FeeFilter, int), DecodeError> {
        match <u64 as BitcoinType>::dec(s) {
            Ok((feerate, n)) => Ok((FeeFilter { feerate }, n)),
            Err(e) => Err(e),
        }
    }

    proof fn lemma_round_trip(m: FeeFilter, rest: Seq<u8>) {
        <u64 as BitcoinType>::lemma_round_trip(m.feerate, rest);
    }

    fn to_blob(&self) -> (r: Vec<u8>) {
        self.feerate.to_blob()
    }

    fn from_blob(blob: &mut Scanner) -> (r: Result<Self, DecodeError>) {
        let feerate = u64::from_blob(blob)?;
        Ok(FeeFilter { feerate })
    }
}

/// One known peer in an address announcement: when it was last seen, and
/// where it is.
#[derive(Debug, Clone, Copy, PartialEq, Eq)]
pub struct AddrElement {
    pub timestamp: u32,
    pub addr: crate::net::NetAddr,
}

impl BitcoinType for AddrElement {
    type Model = AddrElement;

    open spec fn model(&self) -> AddrElement {
        *self
    }

    open spec fn m_wf(m: AddrElement) -> bool {
        <crate::net::NetAddr as BitcoinType>::m_wf(m.addr)
    }

    open spec fn m_enc(m: AddrElement) -> Seq<u8> {
        <u32 as BitcoinType>::m_enc(m.timestamp) + <crate::net::NetAddr as BitcoinType>::m_enc(
            m.addr,
        )
    }

    open spec fn dec(s: Seq<u8>) -> Result<(AddrElement, int), DecodeError> {
        match <u32 as BitcoinType>::dec(s) {
            Ok((timestamp, n1)) => match <crate::net::NetAddr as BitcoinType>::dec(s.skip(n1)) {
                Ok((addr, n2)) => Ok((AddrElement { timestamp, addr }, n1 + n2)),
                Err(e) => Err(e),
            },
            Err(e) => Err(e),
        }
    }

    proof fn lemma_round_trip(m: AddrElement, rest: Seq<u8>) {
        let e1 = <u32 as BitcoinType>::m_enc(m.timestamp);
        let e2 = <crate::net::NetAddr as BitcoinType>::m_enc(m.addr);
        <u32 as BitcoinType>::lemma_round_trip(m.timestamp, e2 + rest);
        assert(Self::m_enc(m) + rest =~= e1 + (e2 + rest));
        vstd::seq_lib::lemma_seq_append_take_skip(e1, e2 + rest, e1.len() as int);
        <crate::net::NetAddr as BitcoinType>::lemma_round_trip(m.addr, rest);
    }

    fn to_blob(&self) -> (r: Vec<u8>) {
        let mut r = self.timestamp.to_blob();
        let mut tail = self.addr.to_blob();
        r.append(&mut tail);
        r
    }

    fn from_blob(blob: &mut Scanner) -> (r: Result<Self, DecodeError>) {
        let ghost pre = *old(blob);
        let timestamp = u32::from_blob(blob)?;
        proof {
            lemma_remaining_skip(pre, *blob);
        }
        let addr = crate::net::NetAddr::from_blob(blob)?;
        Ok(AddrElement { timestamp, addr })
    }
}

/// The handshake payload: what a peer announces about itself. The time
/// travels as u64 seconds since the Unix epoch; the user agent is a
/// length-prefixed byte string.
#[derive(Debug, Clone, PartialEq, Eq)]
pub struct Version {
    pub proto_ver: u32,
    pub services: crate::net::Services,
    pub time: u64,
    pub remote: crate::net::NetAddr,
    pub local: crate::net::NetAddr,
    pub nonce: u64,
    pub user_agent: Vec<u8>,
    pub last_block: u32,
    pub relay: bool,
}

/// The model of a version payload: the user agent as a byte sequence.
pub struct VersionV {
    pub proto_ver: u32,
    pub services: crate::net::Services,
    pub time: u64,
    pub remote: crate::net::NetAddr,
    pub local: crate::net::NetAddr,
    pub nonce: u64,
    pub user_agent: Seq<u8>,
    pub last_block: u32,
    pub relay: bool,
}

impl BitcoinType for Version {
    type Model = VersionV;

    open spec fn model(&self) -> VersionV {
        VersionV {
            proto_ver: self.proto_ver,
            services: self.services,
            time: self.time,
            remote: self.remote,
            local: self.local,
            nonce: self.nonce,
            user_agent: self.user_agent@,
            last_block: self.last_block,
            relay: self.relay,
        }
    }

    open spec fn m_wf(m: VersionV) -> bool {
        &&& <crate::net::NetAddr as BitcoinType>::m_wf(m.remote)
        &&& <crate::net::NetAddr as BitcoinType>::m_wf(m.local)
        &&& m.user_agent.len() <= usize::MAX
    }

    open spec fn m_enc(m: VersionV) -> Seq<u8> {
        <u32 as BitcoinType>::m_enc(m.proto_ver) + <crate::net::Services as BitcoinType>::m_enc(
            m.services,
        ) + <u64 as BitcoinType>::m_enc(m.time) + <crate::net::NetAddr as BitcoinType>::m_enc(
            m.remote,
        ) + <crate::net::NetAddr as BitcoinType>::m_enc(m.local) + <u64 as BitcoinType>::m_enc(
            m.nonce,
        ) + <Vec<u8> as BitcoinType>::m_enc(m.user_agent) + <u32 as BitcoinType>::m_enc(
            m.last_block,
        ) + <bool as BitcoinType>::m_enc(m.relay)
    }

    open spec fn dec(s: Seq<u8>) -> Result<(VersionV, int), DecodeError> {
        match <u32 as BitcoinType>::dec(s) {
            Err(e) => Err(e),
            Ok((proto_ver, n1)) => {
                let s1 = s.skip(n1);
                match <crate::net::Services as BitcoinType>::dec(s1) {
                    Err(e) => Err(e),
                    Ok((services, n2)) => {
                        let s2 = s1.skip(n2);
                        match <u64 as BitcoinType>::dec(s2) {
                            Err(e) => Err(e),
                            Ok((time, n3)) => {
                                let s3 = s2.skip(n3);
                                match <crate::net::NetAddr as BitcoinType>::dec(s3) {
                                    Err(e) => Err(e),
                                    Ok((remote, n4)) => {
                                        let s4 = s3.skip(n4);
                                        match <crate::net::NetAddr as BitcoinType>::dec(s4) {
                                            Err(e) => Err(e),
                                            Ok((local, n5)) => {
                                                let s5 = s4.skip(n5);
                                                match <u64 as BitcoinType>::dec(s5) {
                                                    Err(e) => Err(e),
                                                    Ok((nonce, n6)) => {
                                                        let s6 = s5.skip(n6);
                                                        match <Vec<u8> as BitcoinType>::dec(s6) {
                                                            Err(e) => Err(e),
                                                            Ok((user_agent, n7)) => {
                                                                let s7 = s6.skip(n7);
                                                                match <u32 as BitcoinType>::dec(
                                                                    s7,
                                                                ) {
                                                                    Err(e) => Err(e),
                                                                    Ok((last_block, n8)) => {
                                                                        let s8 = s7.skip(n8);
                                                                        match <bool as BitcoinType>::dec(
                                                                            s8,
                                                                        ) {
                                                                            Err(e) => Err(e),
                                                                            Ok((relay, n9)) => Ok(
                                                                                (
                                                                                    VersionV {
                                                                                        proto_ver,
                                                                                        services,
                                                                                        time,
                                                                                        remote,
                                                                                        local,
                                                                                        nonce,
                                                                                        user_agent,
                                                                                        last_block,
                                                                                        relay,
                                                                                    },
                                                                                    n1 + n2 + n3
                                                                                        + n4 + n5
                                                                                        + n6 + n7
                                                                                        + n8 + n9,
                                                                                ),
                                                                            ),
                                                                        }
                                                                    },
                                                                }
                                                            },
                                                        }
                                                    },
                                                }
                                            },
                                        }
                                    },
                                }
                            },
                        }
                    },
                }
            },
        }
    }

    #[verifier::rlimit(100)]
    #[verifier::spinoff_prover]
    proof fn lemma_round_trip(m: VersionV, rest: Seq<u8>) {
        let e1 = <u32 as BitcoinType>::m_enc(m.proto_ver);
        let e2 = <crate::net::Services as BitcoinType>::m_enc(m.services);
        let e3 = <u64 as BitcoinType>::m_enc(m.time);
        let e4 = <crate::net::NetAddr as BitcoinType>::m_enc(m.remote);
        let e5 = <crate::net::NetAddr as BitcoinType>::m_enc(m.local);
        let e6 = <u64 as BitcoinType>::m_enc(m.nonce);
        let e7 = <Vec<u8> as BitcoinType>::m_enc(m.user_agent);
        let e8 = <u32 as BitcoinType>::m_enc(m.last_block);
        let e9 = <bool as BitcoinType>::m_enc(m.relay);
        let t9 = e9 + rest;
        let t8 = e8 + t9;
        let t7 = e7 + t8;
        let t6 = e6 + t7;
        let t5 = e5 + t6;
        let t4 = e4 + t5;
        let t3 = e3 + t4;
        let t2 = e2 + t3;
        let t1 = e1 + t2;
        assert(Self::m_enc(m) + rest =~= t1);
        <u32 as BitcoinType>::lemma_round_trip(m.proto_ver, t2);
        vstd::seq_lib::lemma_seq_append_take_skip(e1, t2, e1.len() as int);
        <crate::net::Services as BitcoinType>::lemma_round_trip(m.services, t3);
        vstd::seq_lib::lemma_seq_append_take_skip(e2, t3, e2.len() as int);
        <u64 as BitcoinType>::lemma_round_trip(m.time, t4);
        vstd::seq_lib::lemma_seq_append_take_skip(e3, t4, e3.len() as int);
        <crate::net::NetAddr as BitcoinType>::lemma_round_trip(m.remote, t5);
        vstd::seq_lib::lemma_seq_append_take_skip(e4, t5, e4.len() as int);
        <crate::net::NetAddr as BitcoinType>::lemma_round_trip(m.local, t6);
        vstd::seq_lib::lemma_seq_append_take_skip(e5, t6, e5.len() as int);
        <u64 as BitcoinType>::lemma_round_trip(m.nonce, t7);
        vstd::seq_lib::lemma_seq_append_take_skip(e6, t7, e6.len() as int);
        <Vec<u8> as BitcoinType>::lemma_round_trip(m.user_agent, t8);
        vstd::seq_lib::lemma_seq_append_take_skip(e7, t8, e7.len() as int);
        <u32 as BitcoinType>::lemma_round_trip(m.last_block, t9);
        vstd::seq_lib::lemma_seq_append_take_skip(e8, t9, e8.len() as int);
        <bool as BitcoinType>::lemma_round_trip(m.relay, rest);
        vstd::seq_lib::lemma_seq_append_take_skip(e9, rest, e9.len() as int);
        assert(Self::m_enc(m).len() == e1.len() + e2.len() + e3.len() + e4.len() + e5.len()
            + e6.len() + e7.len() + e8.len() + e9.len());
    }

    fn to_blob(&self) -> (r: Vec<u8>) {
        let mut r = self.proto_ver.to_blob();
        let mut part = self.services.to_blob();
        r.append(&mut part);
        let mut part = self.time.to_blob();
        r.append(&mut part);
        let mut part = self.remote.to_blob();
        r.append(&mut part);
        let mut part = self.local.to_blob();
        r.append(&mut part);
        let mut part = self.nonce.to_blob();
        r.append(&mut part);
        proof {
            crate::codec::lemma_models_of::<u8>(self.user_agent@);
            assert(self.user_agent.model() =~= self.user_agent@);
        }
        let mut part = self.user_agent.to_blob();
        r.append(&mut part);
        let mut part = self.last_block.to_blob();
        r.append(&mut part);
        let mut part = self.relay.to_blob();
        r.append(&mut part);
        r
    }

    #[verifier::rlimit(80)]
    fn from_blob(blob: &mut Scanner) -> (r: Result<Self, DecodeError>) {
        let ghost pre = *old(blob);
        let proto_ver = u32::from_blob(blob)?;
        proof {
            lemma_remaining_skip(pre, *blob);
        }
        let ghost pre2 = *blob;
        let services = crate::net::Services::from_blob(blob)?;
        proof {
            lemma_remaining_skip(pre2, *blob);
        }
        let ghost pre3 = *blob;
        let time = u64::from_blob(blob)?;
        proof {
            lemma_remaining_skip(pre3, *blob);
        }
        let ghost pre4 = *blob;
        let remote = crate::net::NetAddr::from_blob(blob)?;
        proof {
            lemma_remaining_skip(pre4, *blob);
        }
        let ghost pre5 = *blob;
        let local = crate::net::NetAddr::from_blob(blob)?;
        proof {
            lemma_remaining_skip(pre5, *blob);
        }
        let ghost pre6 = *blob;
        let nonce = u64::from_blob(blob)?;
        proof {
            lemma_remaining_skip(pre6, *blob);
        }
        let ghost pre7 = *blob;
        let user_agent = Vec::<u8>::from_blob(blob)?;
        proof {
            lemma_remaining_skip(pre7, *blob);
            crate::codec::lemma_models_of::<u8>(user_agent@);
            assert(user_agent.model() =~= user_agent@);
        }
        let ghost pre8 = *blob;
        let last_block = u32::from_blob(blob)?;
        proof {
            lemma_remaining_skip(pre8, *blob);
        }
        let relay = bool::from_blob(blob)?;
        Ok(
            Version {
                proto_ver,
                services,
                time,
                remote,
                local,
                nonce,
                user_agent,
                last_block,
                relay,
            },
        )
    }
}

/// The inventory announcement payload: a vector of announced objects.
#[derive(Debug, Clone, PartialEq, Eq)]
pub struct Inv {
    pub inventory: Vec<InventoryElement>,
}

impl BitcoinType for Inv {
    type Model = Seq<InventoryElementV>;

    open spec fn model(&self) -> Seq<InventoryElementV> {
        self.inventory.model()
    }

    open spec fn m_wf(m: Seq<InventoryElementV>) -> bool {
        <Vec<InventoryElement> as BitcoinType>::m_wf(m)
    }

    open spec fn m_enc(m: Seq<InventoryElementV>) -> Seq<u8> {
        <Vec<InventoryElement> as BitcoinType>::m_enc(m)
    }

    open spec fn dec(s: Seq<u8>) -> Result<(Seq<InventoryElementV>, int), DecodeError> {
        <Vec<InventoryElement> as BitcoinType>::dec(s)
    }

    proof fn lemma_round_trip(m: Seq<InventoryElementV>, rest: Seq<u8>) {
        <Vec<InventoryElement> as BitcoinType>::lemma_round_trip(m, rest);
    }

    fn to_blob(&self) -> (r: Vec<u8>) {
        self.inventory.to_blob()
    }

    fn from_blob(blob: &mut Scanner) -> (r: Result<Self, DecodeError>) {
        let inventory = Vec::<InventoryElement>::from_blob(blob)?;
        Ok(Inv { inventory })
    }
}

/// The peer-address announcement payload: a vector of known peers.
#[derive(Debug, Clone, PartialEq, Eq)]
pub struct Addr {
    pub addr_list: Vec<AddrElement>,
}

impl BitcoinType for Addr {
    type Model = Seq<AddrElement>;

    open spec fn model(&self) -> Seq<AddrElement> {
        self.addr_list.model()
    }

    open spec fn m_wf(m: Seq<AddrElement>) -> bool {
        <Vec<AddrElement> as BitcoinType>::m_wf(m)
    }

    open spec fn m_enc(m: Seq<AddrElement>) -> Seq<u8> {
        <Vec<AddrElement> as BitcoinType>::m_enc(m)
    }

    open spec fn dec(s: Seq<u8>) -> Result<(Seq<AddrElement>, int), DecodeError> {
        <Vec<AddrElement> as BitcoinType>::dec(s)
    }

    proof fn lemma_round_trip(m: Seq<AddrElement>, rest: Seq<u8>) {
        <Vec<AddrElement> as BitcoinType>::lemma_round_trip(m, rest);
    }

    fn to_blob(&self) -> (r: Vec<u8>) {
        self.addr_list.to_blob()
    }

    fn from_blob(blob: &mut Scanner) -> (r: Result<Self, DecodeError>) {
        let addr_list = Vec::<AddrElement>::from_blob(blob)?;
        Ok(Addr { addr_list })
    }
}

/// The fixed 24-byte envelope header.
#[derive(Debug, Clone, Copy, PartialEq, Eq)]
pub struct BitcoinHeader {
    pub magic: [u8; 4],
    pub command: [u8; 12],
    pub size: u32,
    pub check_sum: [u8; 4],
}

/// The model of a header: its byte fields as sequences.
pub struct HeaderV {
    pub magic: Seq<u8>,
    pub command: Seq<u8>,
    pub size: u32,
    pub check_sum: Seq<u8>,
}

impl BitcoinType for BitcoinHeader {
    type Model = HeaderV;

    open spec fn model(&self) -> HeaderV {
        HeaderV {
            magic: self.magic@,
            command: self.command@,
            size: self.size,
            check_sum: self.check_sum@,
        }
    }

    open spec fn m_wf(m: HeaderV) -> bool {
        m.magic.len() == 4 && m.command.len() == 12 && m.check_sum.len() == 4
    }

    open spec fn m_enc(m: HeaderV) -> Seq<u8> {
        m.magic + m.command + vstd::bytes::spec_u32_to_le_bytes(m.size) + m.check_sum
    }

    open spec fn dec(s: Seq<u8>) -> Result<(HeaderV, int), DecodeError> {
        if s.len() < 24 {
            Err(DecodeError::Overrun)
        } else {
            Ok(
                (
                    HeaderV {
                        magic: s.take(4),
                        command: s.subrange(4, 16),
                        size: vstd::bytes::spec_u32_from_le_bytes(s.subrange(16, 20)),
                        check_sum: s.subrange(20, 24),
                    },
                    24,
                ),
            )
        }
    }

    proof fn lemma_round_trip(m: HeaderV, rest: Seq<u8>) {
        vstd::bytes::lemma_auto_spec_u32_to_from_le_bytes();
        let s = Self::m_enc(m) + rest;
        assert(s.take(4) =~= m.magic);
        assert(s.subrange(4, 16) =~= m.command);
        assert(s.subrange(16, 20) =~= vstd::bytes::spec_u32_to_le_bytes(m.size));
        assert(s.subrange(20, 24) =~= m.check_sum);
    }

    fn to_blob(&self) -> (r: Vec<u8>) {
        let mut r = vstd::slice::slice_to_vec(self.magic.as_slice());
        let mut command = vstd::slice::slice_to_vec(self.command.as_slice());
        r.append(&mut command);
        let mut size = vstd::bytes::u32_to_le_bytes(self.size);
        r.append(&mut size);
        let mut check_sum = vstd::slice::slice_to_vec(self.check_sum.as_slice());
        r.append(&mut check_sum);
        r
    }

    fn from_blob(blob: &mut Scanner) -> (r: Result<Self, DecodeError>) {
        let ghost s = old(blob).remaining();
        if blob.remaining_len() < 24 {
            return Err(DecodeError::Overrun);
        }
        let piece = blob.take(24)?;
        let magic: [u8; 4] = crate::net::vec_segment_to_array::<4>(&piece, 0);
        let command: [u8; 12] = crate::net::vec_segment_to_array::<12>(&piece, 4);
        let size_bytes: [u8; 4] = crate::net::vec_segment_to_array::<4>(&piece, 16);
        let size = vstd::bytes::u32_from_le_bytes(size_bytes.as_slice());
        let check_sum: [u8; 4] = crate::net::vec_segment_to_array::<4>(&piece, 20);
        proof {
            assert(magic@ =~= s.take(4));
            assert(command@ =~= s.subrange(4, 16));
            assert(size_bytes@ =~= s.subrange(16, 20));
            assert(check_sum@ =~= s.subrange(20, 24));
        }
        Ok(BitcoinHeader { magic, command, size, check_sum })
    }
}

/// The network magic: the four bytes that open every envelope.
pub open spec fn magic_seq() -> Seq<u8> {
    seq![0xf9u8, 0xbeu8, 0xb4u8, 0xd9u8]
}

/// The command field content for `"version"`.
pub open spec fn name_version() -> Seq<u8> {
    seq![118u8, 101u8, 114u8, 115u8, 105u8, 111u8, 110u8]
}

/// The command field content for `"verack"`.
pub open spec fn name_verack() -> Seq<u8> {
    seq![118u8, 101u8, 114u8, 97u8, 99u8, 107u8]
}

/// The command field content for `"sendheaders"`.
pub open spec fn name_sendheaders() -> Seq<u8> {
    seq![115u8, 101u8, 110u8, 100u8, 104u8, 101u8, 97u8, 100u8, 101u8, 114u8, 115u8]
}

/// The command field content for `"sendcmpct"`.
pub open spec fn name_sendcmpct() -> Seq<u8> {
    seq![115u8, 101u8, 110u8, 100u8, 99u8, 109u8, 112u8, 99u8, 116u8]
}

/// The command field content for `"ping"`.
pub open spec fn name_ping() -> Seq<u8> {
    seq![112u8, 105u8, 110u8, 103u8]
}

/// The command field content for `"pong"`.
pub open spec fn name_pong() -> Seq<u8> {
    seq![112u8, 111u8, 110u8, 103u8]
}

/// The command field content for `"feefilter"`.
pub open spec fn name_feefilter() -> Seq<u8> {
    seq![102u8, 101u8, 101u8, 102u8, 105u8, 108u8, 116u8, 101u8, 114u8]
}

/// The command field content for `"inv"`.
pub open spec fn name_inv() -> Seq<u8> {
    seq![105u8, 110u8, 118u8]
}

/// The command field content for `"getaddr"`.
pub open spec fn name_getaddr() -> Seq<u8> {
    seq![103u8, 101u8, 116u8, 97u8, 100u8, 100u8, 114u8]
}

/// The command field content for `"addr"`.
pub open spec fn name_addr() -> Seq<u8> {
    seq![97u8, 100u8, 100u8, 114u8]
}

/// A command name padded with NUL on the right to the header's twelve bytes.
pub open spec fn pad12(s: Seq<u8>) -> Seq<u8> {
    s + Seq::new((12 - s.len()) as nat, |i: int| 0u8)
}

/// The ASCII prefix of a command field, up to its first NUL byte.
pub open spec fn cmd_prefix(c: Seq<u8>) -> Seq<u8>
    decreases c.len(),
{
    if c.len() == 0 {
        Seq::empty()
    } else if c[0] == 0 {
        Seq::empty()
    } else {
        seq![c[0]] + cmd_prefix(c.skip(1))
    }
}

/// When the first `i` bytes are nonzero and byte `i` (if any) is NUL, the
/// prefix up to the first NUL is exactly those `i` bytes.
pub proof fn lemma_cmd_prefix_take(c: Seq<u8>, i: int)
    requires
        0 <= i <= c.len(),
        forall|j: int| 0 <= j < i ==> c[j] != 0,
        i < c.len() ==> c[i] == 0,
    ensures
        cmd_prefix(c) == c.take(i),
    decreases i,
{
    if i == 0 {
        assert(cmd_prefix(c) =~= c.take(0));
    } else {
        assert(c[0] != 0);
        lemma_cmd_prefix_take(c.skip(1), i - 1);
        assert(seq![c[0]] + c.skip(1).take(i - 1) =~= c.take(i));
    }
}

/// A NUL-free name of at most twelve bytes survives padding: the prefix of
/// its padded form is the name itself.
pub proof fn lemma_cmd_prefix_pad(s: Seq<u8>)
    requires
        s.len() <= 12,
        forall|j: int| 0 <= j < s.len() ==> s[j] != 0,
    ensures
        cmd_prefix(pad12(s)) == s,
{
    lemma_cmd_prefix_take(pad12(s), s.len() as int);
    assert(pad12(s).take(s.len() as int) =~= s);
}

/// One of the ten typed message payloads. Three of them (`VerAck`,
/// `SendHeaders`, `GetAddr`) carry no bytes.
#[derive(Debug, Clone, PartialEq, Eq)]
pub enum BitcoinPayload {
    Version(Version),
    VerAck,
    SendHeaders,
    SendCmpct(SendCmpct),
    Ping(u64),
    Pong(u64),
    FeeFilter(FeeFilter),
    Inv(Inv),
    GetAddr,
    Addr(Addr),
}

/// The model of a payload.
pub enum BitcoinPayloadV {
    Version(VersionV),
    VerAck,
    SendHeaders,
    SendCmpct(SendCmpct),
    Ping(u64),
    Pong(u64),
    FeeFilter(FeeFilter),
    Inv(Seq<InventoryElementV>),
    GetAddr,
    Addr(Seq<AddrElement>),
}

/// The model of a payload value.
pub open spec fn payload_model(p: BitcoinPayload) -> BitcoinPayloadV {
    match p {
        BitcoinPayload::Version(v) => BitcoinPayloadV::Version(v.model()),
        BitcoinPayload::VerAck => BitcoinPayloadV::VerAck,
        BitcoinPayload::SendHeaders => BitcoinPayloadV::SendHeaders,
        BitcoinPayload::SendCmpct(c) => BitcoinPayloadV::SendCmpct(c),
        BitcoinPayload::Ping(x) => BitcoinPayloadV::Ping(x),
        BitcoinPayload::Pong(x) => BitcoinPayloadV::Pong(x),
        BitcoinPayload::FeeFilter(f) => BitcoinPayloadV::FeeFilter(f),
        BitcoinPayload::Inv(i) => BitcoinPayloadV::Inv(i.model()),
        BitcoinPayload::GetAddr => BitcoinPayloadV::GetAddr,
        BitcoinPayload::Addr(a) => BitcoinPayloadV::Addr(a.model()),
    }
}

/// The wire command string of a payload variant.
pub open spec fn cmd_name(m: BitcoinPayloadV) -> Seq<u8> {
    match m {
        BitcoinPayloadV::Version(_) => name_version(),
        BitcoinPayloadV::VerAck => name_verack(),
        BitcoinPayloadV::SendHeaders => name_sendheaders(),
        BitcoinPayloadV::SendCmpct(_) => name_sendcmpct(),
        BitcoinPayloadV::Ping(_) => name_ping(),
        BitcoinPayloadV::Pong(_) => name_pong(),
        BitcoinPayloadV::FeeFilter(_) => name_feefilter(),
        BitcoinPayloadV::Inv(_) => name_inv(),
        BitcoinPayloadV::GetAddr => name_getaddr(),
        BitcoinPayloadV::Addr(_) => name_addr(),
    }
}

/// The payload bytes of a payload variant (empty for the no-payload ones).
pub open spec fn payload_enc(m: BitcoinPayloadV) -> Seq<u8> {
    match m {
        BitcoinPayloadV::Version(v) => <Version as BitcoinType>::m_enc(v),
        BitcoinPayloadV::VerAck => Seq::empty(),
        BitcoinPayloadV::SendHeaders => Seq::empty(),
        BitcoinPayloadV::SendCmpct(c) => <SendCmpct as BitcoinType>::m_enc(c),
        BitcoinPayloadV::Ping(x) => <u64 as BitcoinType>::m_enc(x),
        BitcoinPayloadV::Pong(x) => <u64 as BitcoinType>::m_enc(x),
        BitcoinPayloadV::FeeFilter(f) => <FeeFilter as BitcoinType>::m_enc(f),
        BitcoinPayloadV::Inv(i) => <Inv as BitcoinType>::m_enc(i),
        BitcoinPayloadV::GetAddr => Seq::empty(),
        BitcoinPayloadV::Addr(a) => <Addr as BitcoinType>::m_enc(a),
    }
}

/// Whether a payload variant's content is itself encodable.
pub open spec fn payload_wf(m: BitcoinPayloadV) -> bool {
    match m {
        BitcoinPayloadV::Version(v) => <Version as BitcoinType>::m_wf(v),
        BitcoinPayloadV::VerAck => true,
        BitcoinPayloadV::SendHeaders => true,
        BitcoinPayloadV::SendCmpct(c) => <SendCmpct as BitcoinType>::m_wf(c),
        BitcoinPayloadV::Ping(_) => true,
        BitcoinPayloadV::Pong(_) => true,
        BitcoinPayloadV::FeeFilter(f) => <FeeFilter as BitcoinType>::m_wf(f),
        BitcoinPayloadV::Inv(i) => <Inv as BitcoinType>::m_wf(i),
        BitcoinPayloadV::GetAddr => true,
        BitcoinPayloadV::Addr(a) => <Addr as BitcoinType>::m_wf(a),
    }
}

/// The dispatch table: which payload a command string selects, decoded from
/// the payload bytes. A command outside the ten known ones is refused.
pub open spec fn payload_dec(cmd: Seq<u8>, p: Seq<u8>) -> Result<BitcoinPayloadV, DecodeError> {
    if cmd == name_version() {
        match <Version as BitcoinType>::dec(p) {
            Ok((v, _)) => Ok(BitcoinPayloadV::Version(v)),
            Err(e) => Err(e),
        }
    } else if cmd == name_verack() {
        Ok(BitcoinPayloadV::VerAck)
    } else if cmd == name_sendheaders() {
        Ok(BitcoinPayloadV::SendHeaders)
    } else if cmd == name_sendcmpct() {
        match <SendCmpct as BitcoinType>::dec(p) {
            Ok((c, _)) => Ok(BitcoinPayloadV::SendCmpct(c)),
            Err(e) => Err(e),
        }
    } else if cmd == name_ping() {
        match <u64 as BitcoinType>::dec(p) {
            Ok((x, _)) => Ok(BitcoinPayloadV::Ping(x)),
            Err(e) => Err(e),
        }
    } else if cmd == name_pong() {
        match <u64 as BitcoinType>::dec(p) {
            Ok((x, _)) => Ok(BitcoinPayloadV::Pong(x)),
            Err(e) => Err(e),
        }
    } else if cmd == name_feefilter() {
        match <FeeFilter as BitcoinType>::dec(p) {
            Ok((f, _)) => Ok(BitcoinPayloadV::FeeFilter(f)),
            Err(e) => Err(e),
        }
    } else if cmd == name_inv() {
        match <Inv as BitcoinType>::dec(p) {
            Ok((i, _)) => Ok(BitcoinPayloadV::Inv(i)),
            Err(e) => Err(e),
        }
    } else if cmd == name_getaddr() {
        Ok(BitcoinPayloadV::GetAddr)
    } else if cmd == name_addr() {
        match <Addr as BitcoinType>::dec(p) {
            Ok((a, _)) => Ok(BitcoinPayloadV::Addr(a)),
            Err(e) => Err(e),
        }
    } else {
        Err(DecodeError::UnsupportedCommand)
    }
}

/// The header a payload is framed with: the magic, the padded command, the
/// payload length, and the payload's checksum.
pub open spec fn header_of(m: BitcoinPayloadV) -> HeaderV {
    HeaderV {
        magic: magic_seq(),
        command: pad12(cmd_name(m)),
        size: payload_enc(m).len() as u32,
        check_sum: checksum_of(payload_enc(m)),
    }
}

/// A framed message: one of the ten payloads, sharing its wire form
/// `header || payload bytes`.
#[derive(Debug, Clone, PartialEq, Eq)]
pub struct BitcoinMsg {
    pub payload: BitcoinPayload,
}

impl BitcoinType for BitcoinMsg {
    type Model = BitcoinPayloadV;

    open spec fn model(&self) -> BitcoinPayloadV {
        payload_model(self.payload)
    }

    open spec fn m_wf(m: BitcoinPayloadV) -> bool {
        payload_wf(m) && payload_enc(m).len() <= u32::MAX
    }

    open spec fn m_enc(m: BitcoinPayloadV) -> Seq<u8> {
        <BitcoinHeader as BitcoinType>::m_enc(header_of(m)) + payload_enc(m)
    }

    open spec fn dec(s: Seq<u8>) -> Result<(BitcoinPayloadV, int), DecodeError> {
        match <BitcoinHeader as BitcoinType>::dec(s) {
            Err(e) => Err(e),
            Ok((h, n1)) => {
                if h.magic != magic_seq() {
                    Err(DecodeError::BadMagic)
                } else {
                    let s1 = s.skip(n1);
                    if s1.len() < h.size {
                        Err(DecodeError::Overrun)
                    } else {
                        let pbytes = s1.take(h.size as int);
                        if h.check_sum != checksum_of(pbytes) {
                            Err(DecodeError::ChecksumMismatch)
                        } else {
                            match payload_dec(cmd_prefix(h.command), pbytes) {
                                Ok(p) => Ok((p, n1 + h.size)),
                                Err(e) => Err(e),
                            }
                        }
                    }
                }
            },
        }
    }

    #[verifier::rlimit(100)]
    #[verifier::spinoff_prover]
    proof fn lemma_round_trip(m: BitcoinPayloadV, rest: Seq<u8>) {
        let p = payload_enc(m);
        let hv = header_of(m);
        let hbytes = <BitcoinHeader as BitcoinType>::m_enc(hv);
        <BitcoinHeader as BitcoinType>::lemma_round_trip(hv, p + rest);
        assert(Self::m_enc(m) + rest =~= hbytes + (p + rest));
        vstd::seq_lib::lemma_seq_append_take_skip(hbytes, p + rest, hbytes.len() as int);
        vstd::seq_lib::lemma_seq_append_take_skip(p, rest, p.len() as int);
        let name = cmd_name(m);
        assert(forall|j: int| 0 <= j < name.len() ==> name[j] != 0) by {
            reveal_with_fuel(cmd_prefix, 1);
        }
        lemma_cmd_prefix_pad(name);
        match m {
            BitcoinPayloadV::Version(v) => {
                <Version as BitcoinType>::lemma_round_trip(v, Seq::empty());
                assert(<Version as BitcoinType>::m_enc(v) + Seq::empty() =~= p);
            },
            BitcoinPayloadV::VerAck => {},
            BitcoinPayloadV::SendHeaders => {},
            BitcoinPayloadV::SendCmpct(c) => {
                <SendCmpct as BitcoinType>::lemma_round_trip(c, Seq::empty());
                assert(<SendCmpct as BitcoinType>::m_enc(c) + Seq::empty() =~= p);
            },
            BitcoinPayloadV::Ping(x) => {
                <u64 as BitcoinType>::lemma_round_trip(x, Seq::empty());
                assert(<u64 as BitcoinType>::m_enc(x) + Seq::empty() =~= p);
            },
            BitcoinPayloadV::Pong(x) => {
                <u64 as BitcoinType>::lemma_round_trip(x, Seq::empty());
                assert(<u64 as BitcoinType>::m_enc(x) + Seq::empty() =~= p);
            },
            BitcoinPayloadV::FeeFilter(f) => {
                <FeeFilter as BitcoinType>::lemma_round_trip(f, Seq::empty());
                assert(<FeeFilter as BitcoinType>::m_enc(f) + Seq::empty() =~= p);
            },
            BitcoinPayloadV::Inv(i) => {
                <Inv as BitcoinType>::lemma_round_trip(i, Seq::empty());
                assert(<Inv as BitcoinType>::m_enc(i) + Seq::empty() =~= p);
            },
            BitcoinPayloadV::GetAddr => {},
            BitcoinPayloadV::Addr(a) => {
                <Addr as BitcoinType>::lemma_round_trip(a, Seq::empty());
                assert(<Addr as BitcoinType>::m_enc(a) + Seq::empty() =~= p);
            },
        }
    }

    fn to_blob(&self) -> (r: Vec<u8>) {
        let payload: Vec<u8> = match &self.payload {
            BitcoinPayload::Version(v) => v.to_blob(),
            BitcoinPayload::VerAck => Vec::new(),
            BitcoinPayload::SendHeaders => Vec::new(),
            BitcoinPayload::SendCmpct(c) => c.to_blob(),
            BitcoinPayload::Ping(x) => x.to_blob(),
            BitcoinPayload::Pong(x) => x.to_blob(),
            BitcoinPayload::FeeFilter(f) => f.to_blob(),
            BitcoinPayload::Inv(i) => i.to_blob(),
            BitcoinPayload::GetAddr => Vec::new(),
            BitcoinPayload::Addr(a) => a.to_blob(),
        };
        proof {
            assert(payload@ =~= payload_enc(self.model()));
        }
        let mut r: Vec<u8> = Vec::new();
        r.push(0xf9);
        r.push(0xbe);
        r.push(0xb4);
        r.push(0xd9);
        proof {
            assert(r@ =~= magic_seq());
        }
        let mut command = command_padded(&self.payload);
        r.append(&mut command);
        let size = payload.len() as u32;
        let mut size_bytes = vstd::bytes::u32_to_le_bytes(size);
        r.append(&mut size_bytes);
        let mut check_sum = get_check_sum(payload.as_slice());
        r.append(&mut check_sum);
        let mut payload = payload;
        r.append(&mut payload);
        proof {
            assert(r@ =~= Self::m_enc(self.model()));
        }
        r
    }

    fn from_blob(blob: &mut Scanner) -> (r: Result<Self, DecodeError>) {
        let ghost pre = *old(blob);
        let header = BitcoinHeader::from_blob(blob)?;
        if !(header.magic[0] == 0xf9 && header.magic[1] == 0xbe && header.magic[2] == 0xb4
            && header.magic[3] == 0xd9) {
            proof {
                assert(header.magic@ != magic_seq());
            }
            return Err(DecodeError::BadMagic);
        }
        proof {
            assert(header.magic@ =~= magic_seq());
            lemma_remaining_skip(pre, *blob);
        }
        let payload = blob.take(header.size as usize)?;
        let check = get_check_sum(payload.as_slice());
        if !bytes_eq(check.as_slice(), header.check_sum.as_slice()) {
            return Err(DecodeError::ChecksumMismatch);
        }
        let cmd = command_prefix(&header.command);
        let mut sub = Scanner::new(payload);
        proof {
            assert(sub.remaining() =~= sub.data());
        }
        if bytes_eq(cmd.as_slice(), version_name().as_slice()) {
            let v = Version::from_blob(&mut sub)?;
            Ok(BitcoinMsg { payload: BitcoinPayload::Version(v) })
        } else if bytes_eq(cmd.as_slice(), verack_name().as_slice()) {
            Ok(BitcoinMsg { payload: BitcoinPayload::VerAck })
        } else if bytes_eq(cmd.as_slice(), sendheaders_name().as_slice()) {
            Ok(BitcoinMsg { payload: BitcoinPayload::SendHeaders })
        } else if bytes_eq(cmd.as_slice(), sendcmpct_name().as_slice()) {
            let c = SendCmpct::from_blob(&mut sub)?;
            Ok(BitcoinMsg { payload: BitcoinPayload::SendCmpct(c) })
        } else if bytes_eq(cmd.as_slice(), ping_name().as_slice()) {
            let x = u64::from_blob(&mut sub)?;
            Ok(BitcoinMsg { payload: BitcoinPayload::Ping(x) })
        } else if bytes_eq(cmd.as_slice(), pong_name().as_slice()) {
            let x = u64::from_blob(&mut sub)?;
            Ok(BitcoinMsg { payload: BitcoinPayload::Pong(x) })
        } else if bytes_eq(cmd.as_slice(), feefilter_name().as_slice()) {
            let f = FeeFilter::from_blob(&mut sub)?;
            Ok(BitcoinMsg { payload: BitcoinPayload::FeeFilter(f) })
        } else if bytes_eq(cmd.as_slice(), inv_name().as_slice()) {
            let i = Inv::from_blob(&mut sub)?;
            Ok(BitcoinMsg { payload: BitcoinPayload::Inv(i) })
        } else if bytes_eq(cmd.as_slice(), getaddr_name().as_slice()) {
            Ok(BitcoinMsg { payload: BitcoinPayload::GetAddr })
        } else if bytes_eq(cmd.as_slice(), addr_name().as_slice()) {
            let a = Addr::from_blob(&mut sub)?;
            Ok(BitcoinMsg { payload: BitcoinPayload::Addr(a) })
        } else {
            Err(DecodeError::UnsupportedCommand)
        }
    }
}

/// Whether two byte slices hold the same bytes.
pub fn bytes_eq(a: &[u8], b: &[u8]) -> (r: bool)
    ensures
        r == (a@ == b@),
{
    if a.len() != b.len() {
        return false;
    }
    let mut i: usize = 0;
    while i < a.len()
        invariant
            a@.len() == b@.len(),
            0 <= i <= a@.len(),
            forall|j: int| 0 <= j < i ==> a@[j] == b@[j],
        decreases a@.len() - i,
    {
        if a[i] != b[i] {
            return false;
        }
        i = i + 1;
    }
    proof {
        assert(a@ =~= b@);
    }
    true
}

/// The command name `"version"` as bytes.
pub fn version_name() -> (r: Vec<u8>)
    ensures
        r@ == name_version(),
{
    let mut r: Vec<u8> = Vec::new();
    r.push(118);
    r.push(101);
    r.push(114);
    r.push(115);
    r.push(105);
    r.push(111);
    r.push(110);
    proof {
        assert(r@ =~= name_version());
    }
    r
}

/// The command name `"verack"` as bytes.
pub fn verack_name() -> (r: Vec<u8>)
    ensures
        r@ == name_verack(),
{
    let mut r: Vec<u8> = Vec::new();
    r.push(118);
    r.push(101);
    r.push(114);
    r.push(97);
    r.push(99);
    r.push(107);
    proof {
        assert(r@ =~= name_verack());
    }
    r
}

/// The command name `"sendheaders"` as bytes.
pub fn sendheaders_name() -> (r: Vec<u8>)
    ensures
        r@ == name_sendheaders(),
{
    let mut r: Vec<u8> = Vec::new();
    r.push(115);
    r.push(101);
    r.push(110);
    r.push(100);
    r.push(104);
    r.push(101);
    r.push(97);
    r.push(100);
    r.push(101);
    r.push(114);
    r.push(115);
    proof {
        assert(r@ =~= name_sendheaders());
    }
    r
}

/// The command name `"sendcmpct"` as bytes.
pub fn sendcmpct_name() -> (r: Vec<u8>)
    ensures
        r@ == name_sendcmpct(),
{
    let mut r: Vec<u8> = Vec::new();
    r.push(115);
    r.push(101);
    r.push(110);
    r.push(100);
    r.push(99);
    r.push(109);
    r.push(112);
    r.push(99);
    r.push(116);
    proof {
        assert(r@ =~= name_sendcmpct());
    }
    r
}

/// The command name `"ping"` as bytes.
pub fn ping_name() -> (r: Vec<u8>)
    ensures
        r@ == name_ping(),
{
    let mut r: Vec<u8> = Vec::new();
    r.push(112);
    r.push(105);
    r.push(110);
    r.push(103);
    proof {
        assert(r@ =~= name_ping());
    }
    r
}

/// The command name `"pong"` as bytes.
pub fn pong_name() -> (r: Vec<u8>)
    ensures
        r@ == name_pong(),
{
    let mut r: Vec<u8> = Vec::new();
    r.push(112);
    r.push(111);
    r.push(110);
    r.push(103);
    proof {
        assert(r@ =~= name_pong());
    }
    r
}

/// The command name `"feefilter"` as bytes.
pub fn feefilter_name() -> (r: Vec<u8>)
    ensures
        r@ == name_feefilter(),
{
    let mut r: Vec<u8> = Vec::new();
    r.push(102);
    r.push(101);
    r.push(101);
    r.push(102);
    r.push(105);
    r.push(108);
    r.push(116);
    r.push(101);
    r.push(114);
    proof {
        assert(r@ =~= name_feefilter());
    }
    r
}

/// The command name `"inv"` as bytes.
pub fn inv_name() -> (r: Vec<u8>)
    ensures
        r@ == name_inv(),
{
    let mut r: Vec<u8> = Vec::new();
    r.push(105);
    r.push(110);
    r.push(118);
    proof {
        assert(r@ =~= name_inv());
    }
    r
}

/// The command name `"getaddr"` as bytes.
pub fn getaddr_name() -> (r: Vec<u8>)
    ensures
        r@ == name_getaddr(),
{
    let mut r: Vec<u8> = Vec::new();
    r.push(103);
    r.push(101);
    r.push(116);
    r.push(97);
    r.push(100);
    r.push(100);
    r.push(114);
    proof {
        assert(r@ =~= name_getaddr());
    }
    r
}

/// The command name `"addr"` as bytes.
pub fn addr_name() -> (r: Vec<u8>)
    ensures
        r@ == name_addr(),
{
    let mut r: Vec<u8> = Vec::new();
    r.push(97);
    r.push(100);
    r.push(100);
    r.push(114);
    proof {
        assert(r@ =~= name_addr());
    }
    r
}

/// The command field of a payload: its name, NUL-padded to twelve bytes.
pub fn command_padded(p: &BitcoinPayload) -> (r: Vec<u8>)
    ensures
        r@ == pad12(cmd_name(payload_model(*p))),
{
    let ghost m = payload_model(*p);
    let mut r: Vec<u8> = match p {
        BitcoinPayload::Version(_) => version_name(),
        BitcoinPayload::VerAck => verack_name(),
        BitcoinPayload::SendHeaders => sendheaders_name(),
        BitcoinPayload::SendCmpct(_) => sendcmpct_name(),
        BitcoinPayload::Ping(_) => ping_name(),
        BitcoinPayload::Pong(_) => pong_name(),
        BitcoinPayload::FeeFilter(_) => feefilter_name(),
        BitcoinPayload::Inv(_) => inv_name(),
        BitcoinPayload::GetAddr => getaddr_name(),
        BitcoinPayload::Addr(_) => addr_name(),
    };
    proof {
        assert(r@ == cmd_name(m));
    }
    while r.len() < 12
        invariant
            cmd_name(m).len() <= r@.len() <= 12,
            r@ =~= cmd_name(m) + Seq::new((r@.len() - cmd_name(m).len()) as nat, |i: int| 0u8),
        decreases 12 - r@.len(),
    {
        r.push(0);
        proof {
            assert(r@ =~= cmd_name(m) + Seq::new(
                (r@.len() - cmd_name(m).len()) as nat,
                |i: int| 0u8,
            ));
        }
    }
    proof {
        assert(r@ =~= pad12(cmd_name(m)));
    }
    r
}

/// The protocol version this client advertises.
pub const PROTOCOL_VERSION: u32 = 70014;

/// Relies on std::time::SystemTime::now, for the wall clock in the version
/// handshake. Nothing can be promised of the clock; a clock before the Unix
/// epoch reads as zero.
#[verifier::external_body]
fn now_secs() -> u64 {
    std::time::SystemTime::now()
        .duration_since(std::time::SystemTime::UNIX_EPOCH)
        .map(|d| d.as_secs())
        .unwrap_or(0)
}

/// The version payload a client introduces itself with: the advertised
/// protocol version, its own services, the clock, and the given fields.
pub open spec fn version_model(
    local: crate::net::NetAddr,
    remote: crate::net::NetAddr,
    user_agent: Seq<u8>,
    nonce: u64,
    last_block: u32,
    relay: bool,
    time: u64,
) -> BitcoinPayloadV {
    BitcoinPayloadV::Version(
        VersionV {
            proto_ver: PROTOCOL_VERSION,
            services: local.services,
            time,
            remote,
            local,
            nonce,
            user_agent,
            last_block,
            relay,
        },
    )
}

impl BitcoinMsg {
    pub fn getaddr() -> (r: BitcoinMsg)
        ensures
            r.model() == BitcoinPayloadV::GetAddr,
    {
        BitcoinMsg { payload: BitcoinPayload::GetAddr }
    }

    pub fn ping(nonce: u64) -> (r: BitcoinMsg)
        ensures
            r.model() == BitcoinPayloadV::Ping(nonce),
    {
        BitcoinMsg { payload: BitcoinPayload::Ping(nonce) }
    }

    pub fn pong(nonce: u64) -> (r: BitcoinMsg)
        ensures
            r.model() == BitcoinPayloadV::Pong(nonce),
    {
        BitcoinMsg { payload: BitcoinPayload::Pong(nonce) }
    }

    pub fn verack() -> (r: BitcoinMsg)
        ensures
            r.model() == BitcoinPayloadV::VerAck,
    {
        BitcoinMsg { payload: BitcoinPayload::VerAck }
    }

    /// The version message with an explicit clock reading.
    pub fn version_at(
        local: crate::net::NetAddr,
        remote: crate::net::NetAddr,
        user_agent: Vec<u8>,
        nonce: u64,
        last_block: u32,
        relay: bool,
        time: u64,
    ) -> (r: BitcoinMsg)
        ensures
            r.model() == version_model(local, remote, user_agent@, nonce, last_block, relay, time),
    {
        let services = local.services;
        let r = BitcoinMsg {
            payload: BitcoinPayload::Version(
                Version {
                    proto_ver: PROTOCOL_VERSION,
                    services,
                    time,
                    remote,
                    local,
                    nonce,
                    user_agent,
                    last_block,
                    relay,
                },
            ),
        };
        r
    }

    /// The version message stamped with the wall clock; everything but the
    /// clock reading is pinned.
    pub fn version(
        local: crate::net::NetAddr,
        remote: crate::net::NetAddr,
        user_agent: Vec<u8>,
        nonce: u64,
        last_block: u32,
        relay: bool,
    ) -> (r: BitcoinMsg)
        ensures
            exists|t: u64|
                r.model() == version_model(
                    local,
                    remote,
                    user_agent@,
                    nonce,
                    last_block,
                    relay,
                    t,
                ),
    {
        let time = now_secs();
        let r = BitcoinMsg::version_at(local, remote, user_agent, nonce, last_block, relay, time);
        proof {
            assert(r.model() == version_model(
                local,
                remote,
                user_agent@,
                nonce,
                last_block,
                relay,
                time,
            ));
        }
        r
    }
}

impl BitcoinPayload {
    /// A fresh payload with the same model: every field copied.
    pub fn duplicate(&self) -> (r: BitcoinPayload)
        ensures
            payload_model(r) == payload_model(*self),
    {
        match self {
            BitcoinPayload::Version(v) => {
                let user_agent = vstd::slice::slice_to_vec(v.user_agent.as_slice());
                let r = BitcoinPayload::Version(
                    Version {
                        proto_ver: v.proto_ver,
                        services: v.services,
                        time: v.time,
                        remote: v.remote,
                        local: v.local,
                        nonce: v.nonce,
                        user_agent,
                        last_block: v.last_block,
                        relay: v.relay,
                    },
                );
                proof {
                    assert(payload_model(r) == payload_model(*self));
                }
                r
            },
            BitcoinPayload::VerAck => BitcoinPayload::VerAck,
            BitcoinPayload::SendHeaders => BitcoinPayload::SendHeaders,
            BitcoinPayload::SendCmpct(c) => BitcoinPayload::SendCmpct(*c),
            BitcoinPayload::Ping(x) => BitcoinPayload::Ping(*x),
            BitcoinPayload::Pong(x) => BitcoinPayload::Pong(*x),
            BitcoinPayload::FeeFilter(f) => BitcoinPayload::FeeFilter(*f),
            BitcoinPayload::Inv(i) => {
                let r = BitcoinPayload::Inv(
                    Inv { inventory: vstd::slice::slice_to_vec(i.inventory.as_slice()) },
                );
                proof {
                    assert(payload_model(r) == payload_model(*self));
                }
                r
            },
            BitcoinPayload::GetAddr => BitcoinPayload::GetAddr,
            BitcoinPayload::Addr(a) => {
                let r = BitcoinPayload::Addr(
                    Addr { addr_list: vstd::slice::slice_to_vec(a.addr_list.as_slice()) },
                );
                proof {
                    assert(payload_model(r) == payload_model(*self));
                }
                r
            },
        }
    }
}

/// Whether a socket address can be framed: an IPv6 address in IPv4-mapped
/// form cannot (it would decode as IPv4).
fn sockaddr_ok(a: &crate::net::SockAddr) -> (r: bool)
    ensures
        r == <crate::net::SockAddr as BitcoinType>::m_wf(*a),
{
    match &a.ip {
        crate::net::Ip::V4(_) => true,
        crate::net::Ip::V6(o) => {
            let bytes = vstd::slice::slice_to_vec(o.as_slice());
            !crate::net::ipv4_mapped(&bytes)
        },
    }
}

/// Whether every address in a list of announced peers can be framed.
fn addr_list_ok(list: &Vec<AddrElement>) -> (r: bool)
    ensures
        r == <Addr as BitcoinType>::m_wf(crate::codec::models_of::<AddrElement>(list@)),
{
    let ghost ms = crate::codec::models_of::<AddrElement>(list@);
    proof {
        crate::codec::lemma_models_of::<AddrElement>(list@);
        vstd::std_specs::vec::axiom_spec_len(list);
    }
    let mut i: usize = 0;
    while i < list.len()
        invariant
            0 <= i <= list@.len(),
            list@.len() <= usize::MAX,
            ms == crate::codec::models_of::<AddrElement>(list@),
            ms.len() == list@.len(),
            forall|j: int| 0 <= j < list@.len() ==> ms[j] == list@[j],
            forall|j: int| 0 <= j < i ==> <AddrElement as BitcoinType>::m_wf(#[trigger] ms[j]),
        decreases list@.len() - i,
    {
        if !sockaddr_ok(&list[i].addr.addr) {
            proof {
                assert(!<AddrElement as BitcoinType>::m_wf(ms[i as int]));
            }
            return false;
        }
        i = i + 1;
    }
    proof {
        vstd::std_specs::vec::axiom_spec_len(list);
        assert(<Addr as BitcoinType>::m_wf(ms));
    }
    true
}

/// Every inventory payload can be framed: each hash is 32 bytes by type.
proof fn lemma_inv_model_wf(inv: Inv)
    ensures
        <Inv as BitcoinType>::m_wf(inv.model()),
{
    broadcast use vstd::array::group_array_axioms;

    crate::codec::lemma_models_of::<InventoryElement>(inv.inventory@);
    vstd::std_specs::vec::axiom_spec_len(&inv.inventory);
    assert forall|j: int|
        0 <= j < inv.model().len() implies <InventoryElement as BitcoinType>::m_wf(
        #[trigger] inv.model()[j],
    ) by {
        assert(inv.model()[j] == inv.inventory@[j].model());
    }
}

/// Whether a payload's content can be framed.
fn payload_ok(p: &BitcoinPayload) -> (r: bool)
    ensures
        r == payload_wf(payload_model(*p)),
{
    match p {
        BitcoinPayload::Version(v) => {
            proof {
                vstd::std_specs::vec::axiom_spec_len(&v.user_agent);
            }
            sockaddr_ok(&v.remote.addr) && sockaddr_ok(&v.local.addr)
        },
        BitcoinPayload::VerAck => true,
        BitcoinPayload::SendHeaders => true,
        BitcoinPayload::SendCmpct(_) => true,
        BitcoinPayload::Ping(_) => true,
        BitcoinPayload::Pong(_) => true,
        BitcoinPayload::FeeFilter(_) => true,
        BitcoinPayload::Inv(i) => {
            proof {
                lemma_inv_model_wf(*i);
            }
            true
        },
        BitcoinPayload::GetAddr => true,
        BitcoinPayload::Addr(a) => addr_list_ok(&a.addr_list),
    }
}

impl BitcoinMsg {
    /// The wire bytes of this message, checked first: `None` where it cannot
    /// be framed, because an address stands in IPv4-mapped IPv6 form, or the
    /// payload outgrows the header's u32 size field.
    pub fn encode(&self) -> (r: Option<Vec<u8>>)
        ensures
            match r {
                Some(v) => <BitcoinMsg as BitcoinType>::m_wf(self.model()) && v@
                    == <BitcoinMsg as BitcoinType>::m_enc(self.model()),
                None => !<BitcoinMsg as BitcoinType>::m_wf(self.model()),
            },
    {
        if !payload_ok(&self.payload) {
            return None;
        }
        let payload: Vec<u8> = match &self.payload {
            BitcoinPayload::Version(v) => v.to_blob(),
            BitcoinPayload::VerAck => Vec::new(),
            BitcoinPayload::SendHeaders => Vec::new(),
            BitcoinPayload::SendCmpct(c) => c.to_blob(),
            BitcoinPayload::Ping(x) => x.to_blob(),
            BitcoinPayload::Pong(x) => x.to_blob(),
            BitcoinPayload::FeeFilter(f) => f.to_blob(),
            BitcoinPayload::Inv(i) => i.to_blob(),
            BitcoinPayload::GetAddr => Vec::new(),
            BitcoinPayload::Addr(a) => a.to_blob(),
        };
        proof {
            assert(payload@ =~= payload_enc(self.model()));
        }
        if payload.len() > u32::MAX as usize {
            return None;
        }
        Some(self.to_blob())
    }
}

/// Decoding what was encoded gives the message back, and a re-encoding of
/// the decoded message is byte-identical to the original encoding.
pub proof fn lemma_msg_round_trip(m: BitcoinPayloadV)
    requires
        <BitcoinMsg as BitcoinType>::m_wf(m),
    ensures
        <BitcoinMsg as BitcoinType>::dec(<BitcoinMsg as BitcoinType>::m_enc(m)) == Ok::<
            (BitcoinPayloadV, int),
            DecodeError,
        >((m, <BitcoinMsg as BitcoinType>::m_enc(m).len() as int)),
{
    <BitcoinMsg as BitcoinType>::lemma_round_trip(m, Seq::empty());
    assert(<BitcoinMsg as BitcoinType>::m_enc(m) + Seq::empty() =~= <BitcoinMsg as BitcoinType>::m_enc(
        m,
    ));
}

/// Checksum validity over the produced bytes: in every produced envelope,
/// bytes 20 to 24 are the checksum of the payload bytes that follow the
/// 24-byte header.
pub proof fn lemma_envelope_checksum(m: BitcoinPayloadV)
    requires
        <BitcoinMsg as BitcoinType>::m_wf(m),
    ensures
        ({
            let e = <BitcoinMsg as BitcoinType>::m_enc(m);
            e.subrange(20, 24) == checksum_of(e.skip(24))
        }),
{
    let e = <BitcoinMsg as BitcoinType>::m_enc(m);
    let p = payload_enc(m);
    vstd::bytes::lemma_auto_spec_u32_to_from_le_bytes();
    lemma_cmd_name_len(m);
    assert(pad12(cmd_name(m)).len() == 12);
    assert(e.subrange(20, 24) =~= checksum_of(p));
    assert(e.skip(24) =~= p);
}

/// Every command name fits the twelve-byte command field.
pub proof fn lemma_cmd_name_len(m: BitcoinPayloadV)
    ensures
        0 < cmd_name(m).len() <= 12,
{
    match m {
        BitcoinPayloadV::Version(_) => assert(cmd_name(m).len() == 7),
        BitcoinPayloadV::VerAck => assert(cmd_name(m).len() == 6),
        BitcoinPayloadV::SendHeaders => assert(cmd_name(m).len() == 11),
        BitcoinPayloadV::SendCmpct(_) => assert(cmd_name(m).len() == 9),
        BitcoinPayloadV::Ping(_) => assert(cmd_name(m).len() == 4),
        BitcoinPayloadV::Pong(_) => assert(cmd_name(m).len() == 4),
        BitcoinPayloadV::FeeFilter(_) => assert(cmd_name(m).len() == 9),
        BitcoinPayloadV::Inv(_) => assert(cmd_name(m).len() == 3),
        BitcoinPayloadV::GetAddr => assert(cmd_name(m).len() == 7),
        BitcoinPayloadV::Addr(_) => assert(cmd_name(m).len() == 4),
    }
}

/// Scanner discipline: a successful message decode consumes exactly 24 bytes
/// of header plus the payload length the header announces.
pub proof fn lemma_scanner_discipline(s: Seq<u8>)
    ensures
        <BitcoinMsg as BitcoinType>::dec(s) matches Ok((m, n)) ==> n == 24
            + vstd::bytes::spec_u32_from_le_bytes(s.subrange(16, 20)),
{
}

/// The prefix of a header's command field, up to the first NUL byte.
pub fn command_prefix(cmd: &[u8; 12]) -> (r: Vec<u8>)
    ensures
        r@ == cmd_prefix(cmd@),
{
    let mut n: usize = 0;
    while n < 12 && cmd[n] != 0
        invariant
            0 <= n <= 12,
            forall|j: int| 0 <= j < n ==> cmd@[j] != 0,
        decreases 12 - n,
    {
        n = n + 1;
    }
    proof {
        lemma_cmd_prefix_take(cmd@, n as int);
    }
    let r = vstd::slice::slice_to_vec(vstd::slice::slice_subrange(cmd.as_slice(), 0, n));
    proof {
        assert(r@ =~= cmd@.take(n as int));
    }
    r
}

} // verus!
