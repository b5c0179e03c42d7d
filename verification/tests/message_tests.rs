use btc_lib::Addr;
use btc_lib::AddrElement;
use btc_lib::BitcoinMsg;
use btc_lib::BitcoinPayload;
use btc_lib::BitcoinType;
use btc_lib::DecodeError;
use btc_lib::FeeFilter;
use btc_lib::Inv;
use btc_lib::InventoryElement;
use btc_lib::InventoryKind;
use btc_lib::Ip;
use btc_lib::NetAddr;
use btc_lib::Scanner;
use btc_lib::SendCmpct;
use btc_lib::Services;
use btc_lib::SockAddr;
use btc_lib::Version;

use sha2::Digest;
use sha2::Sha256;

fn localhost() -> NetAddr {
    NetAddr {
        services: Services::default(),
        addr: SockAddr {
            ip: Ip::V4([127, 0, 0, 1]),
            port: 8333,
        },
    }
}

fn fixture_version_msg() -> BitcoinMsg {
    BitcoinMsg::version_at(localhost(), localhost(), b"x".to_vec(), 0, 0, false, 0)
}

fn sample_inventory() -> Vec<InventoryElement> {
    let mut hash1 = [0u8; 32];
    for (i, b) in hash1.iter_mut().enumerate() {
        *b = (i + 1) as u8;
    }
    let mut hash2 = [0u8; 32];
    for (i, b) in hash2.iter_mut().enumerate() {
        *b = (0x40 + i) as u8;
    }
    vec![
        InventoryElement {
            kind: InventoryKind::Tx,
            hash: hash1,
        },
        InventoryElement {
            kind: InventoryKind::Block,
            hash: hash2,
        },
    ]
}

fn all_ten_messages() -> Vec<BitcoinMsg> {
    vec![
        fixture_version_msg(),
        BitcoinMsg::verack(),
        BitcoinMsg {
            payload: BitcoinPayload::SendHeaders,
        },
        BitcoinMsg {
            payload: BitcoinPayload::SendCmpct(SendCmpct {
                flag: true,
                integer: 1,
            }),
        },
        BitcoinMsg::ping(42),
        BitcoinMsg::pong(43),
        BitcoinMsg {
            payload: BitcoinPayload::FeeFilter(FeeFilter { feerate: 1000 }),
        },
        BitcoinMsg {
            payload: BitcoinPayload::Inv(Inv {
                inventory: sample_inventory(),
            }),
        },
        BitcoinMsg::getaddr(),
        BitcoinMsg {
            payload: BitcoinPayload::Addr(Addr {
                addr_list: vec![AddrElement {
                    timestamp: 1700000000,
                    addr: NetAddr {
                        services: Services {
                            network: true,
                            getutxo: false,
                            bloom: false,
                            witness: true,
                            xthin: false,
                            compact_filters: false,
                            network_limited: false,
                        },
                        addr: SockAddr {
                            ip: Ip::V6([0x20, 1, 0, 0, 0, 0, 0, 0, 0, 0, 0, 0, 0, 0, 0, 7]),
                            port: 8333,
                        },
                    },
                }],
            }),
        },
    ]
}

#[test]
fn verack_is_24_bytes_with_canonical_empty_checksum() {
    let bytes = BitcoinMsg::verack().to_blob();
    assert_eq!(bytes.len(), 24);
    assert_eq!(bytes[..4], [0xf9, 0xbe, 0xb4, 0xd9]);
    assert_eq!(&bytes[4..10], b"verack");
    assert_eq!(bytes[10..16], [0, 0, 0, 0, 0, 0]);
    assert_eq!(bytes[16..20], [0, 0, 0, 0]);
    assert_eq!(bytes[20..24], [0x5d, 0xf6, 0xe0, 0xe2]);
}

#[test]
fn no_payload_variants_share_the_canonical_empty_checksum() {
    for msg in [
        BitcoinMsg::verack(),
        BitcoinMsg {
            payload: BitcoinPayload::SendHeaders,
        },
        BitcoinMsg::getaddr(),
    ] {
        let bytes = msg.to_blob();
        assert_eq!(bytes.len(), 24);
        assert_eq!(bytes[20..24], [0x5d, 0xf6, 0xe0, 0xe2]);
    }
}

#[test]
fn version_fixture_layout() {
    let bytes = fixture_version_msg().to_blob();
    assert_eq!(
        bytes[..16],
        [
            0xf9, 0xbe, 0xb4, 0xd9, 0x76, 0x65, 0x72, 0x73, 0x69, 0x6f, 0x6e, 0x00, 0x00, 0x00,
            0x00, 0x00
        ]
    );
    let size = u32::from_le_bytes(bytes[16..20].try_into().unwrap()) as usize;
    assert_eq!(bytes.len(), 24 + size);
    let payload = &bytes[24..];
    let digest = Sha256::digest(Sha256::digest(payload));
    assert_eq!(bytes[20..24], digest[..4]);
    // the advertised protocol version opens the payload, little-endian
    assert_eq!(payload[..4], 70014u32.to_le_bytes());
}

#[test]
fn envelope_round_trips_for_all_ten_variants() {
    for msg in all_ten_messages() {
        let bytes = msg.to_blob();
        let mut sc = Scanner::new(bytes.clone());
        let back = BitcoinMsg::from_blob(&mut sc).expect("decode failed");
        assert_eq!(back, msg);
        assert_eq!(back.to_blob(), bytes);
    }
}

#[test]
fn envelope_checksums_match_double_sha256_of_payload() {
    for msg in all_ten_messages() {
        let bytes = msg.to_blob();
        let digest = Sha256::digest(Sha256::digest(&bytes[24..]));
        assert_eq!(bytes[20..24], digest[..4]);
    }
}

#[test]
fn scanner_advances_by_exactly_header_plus_size() {
    for msg in all_ten_messages() {
        let bytes = msg.to_blob();
        let mut trailing = bytes.clone();
        trailing.extend([0xaa, 0xbb, 0xcc]);
        let size = u32::from_le_bytes(bytes[16..20].try_into().unwrap()) as usize;
        let mut sc = Scanner::new(trailing);
        BitcoinMsg::from_blob(&mut sc).expect("decode failed");
        assert_eq!(sc.position(), 24 + size);
    }
}

#[test]
fn corrupted_payload_is_a_checksum_mismatch() {
    let mut bytes = BitcoinMsg::ping(42).to_blob();
    let last = bytes.len() - 1;
    bytes[last] ^= 0x01;
    let mut sc = Scanner::new(bytes);
    assert_eq!(
        BitcoinMsg::from_blob(&mut sc),
        Err(DecodeError::ChecksumMismatch)
    );
}

#[test]
fn wrong_magic_is_refused() {
    let mut bytes = BitcoinMsg::ping(42).to_blob();
    bytes[0] = 0xf8;
    let mut sc = Scanner::new(bytes);
    assert_eq!(BitcoinMsg::from_blob(&mut sc), Err(DecodeError::BadMagic));
}

#[test]
fn unknown_command_is_refused_as_unsupported() {
    let mut bytes = BitcoinMsg::verack().to_blob();
    // rewrite the command field to a name outside the vocabulary
    let mut command = [0u8; 12];
    command[..5].copy_from_slice(b"bogus");
    bytes[4..16].copy_from_slice(&command);
    let mut sc = Scanner::new(bytes);
    assert_eq!(
        BitcoinMsg::from_blob(&mut sc),
        Err(DecodeError::UnsupportedCommand)
    );
}

#[test]
fn truncated_message_is_an_overrun() {
    let bytes = BitcoinMsg::ping(42).to_blob();
    let mut sc = Scanner::new(bytes[..20].to_vec());
    assert_eq!(BitcoinMsg::from_blob(&mut sc), Err(DecodeError::Overrun));
    let mut sc = Scanner::new(bytes[..28].to_vec());
    assert_eq!(BitcoinMsg::from_blob(&mut sc), Err(DecodeError::Overrun));
}

#[test]
fn all_inventory_kinds_round_trip() {
    let kinds = [
        InventoryKind::Error,
        InventoryKind::Tx,
        InventoryKind::Block,
        InventoryKind::FilteredBlock,
        InventoryKind::CmpctBlock,
        InventoryKind::WitnessTx,
        InventoryKind::WitnessBlock,
        InventoryKind::FilteredWitnessBlock,
    ];
    for kind in kinds {
        let e = InventoryElement {
            kind,
            hash: [0x11; 32],
        };
        let mut sc = Scanner::new(e.to_blob());
        let back = InventoryElement::from_blob(&mut sc).expect("decode failed");
        assert_eq!(back, e);
    }
}

#[test]
fn unknown_inventory_kind_is_refused() {
    let mut bytes = 5u32.to_blob();
    bytes.extend([0u8; 32]);
    let mut sc = Scanner::new(bytes);
    assert_eq!(
        InventoryElement::from_blob(&mut sc),
        Err(DecodeError::UnknownInventoryKind)
    );
}

#[test]
fn version_constructor_stamps_the_clock_and_pins_the_rest() {
    let m = BitcoinMsg::version(localhost(), localhost(), b"x".to_vec(), 1, 2, true);
    match &m.payload {
        BitcoinPayload::Version(v) => {
            assert_eq!(v.proto_ver, 70014);
            assert_eq!(v.nonce, 1);
            assert_eq!(v.last_block, 2);
            assert!(v.relay);
            assert_eq!(v.user_agent, b"x".to_vec());
        }
        other => panic!("expected a version payload, got {other:?}"),
    }
}

#[test]
fn encode_checks_before_framing() {
    // a clean message frames to exactly its wire bytes
    assert_eq!(
        BitcoinMsg::ping(1).encode().unwrap(),
        BitcoinMsg::ping(1).to_blob()
    );
    // an IPv6 address in IPv4-mapped form cannot be framed: it would decode
    // as the IPv4 address instead
    let mapped = SockAddr {
        ip: Ip::V6([0, 0, 0, 0, 0, 0, 0, 0, 0, 0, 0xff, 0xff, 1, 2, 3, 4]),
        port: 1,
    };
    let msg = BitcoinMsg::version_at(
        NetAddr {
            services: Services::default(),
            addr: mapped,
        },
        localhost(),
        Vec::new(),
        0,
        0,
        false,
        0,
    );
    assert!(msg.encode().is_none());
}

#[test]
fn version_payload_round_trips_alone() {
    let v = Version {
        proto_ver: 70014,
        services: Services::default(),
        time: 1700000000,
        remote: localhost(),
        local: localhost(),
        nonce: 69,
        user_agent: b"my bitcoin client".to_vec(),
        last_block: 812345,
        relay: true,
    };
    let mut sc = Scanner::new(v.to_blob());
    let back = Version::from_blob(&mut sc).expect("decode failed");
    assert_eq!(back, v);
}
