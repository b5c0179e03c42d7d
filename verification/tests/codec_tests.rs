use btc_lib::BitcoinType;
use btc_lib::DecodeError;
use btc_lib::Ip;
use btc_lib::Scanner;
use btc_lib::Services;
use btc_lib::SockAddr;

fn decode<T: BitcoinType>(bytes: Vec<u8>) -> T {
    let mut sc = Scanner::new(bytes);
    T::from_blob(&mut sc).expect("decode failed")
}

#[test]
fn scanner_take_advances_and_peek_does_not() {
    let mut sc = Scanner::new(vec![1, 2, 3, 4]);
    assert_eq!(sc.peek(2).unwrap(), vec![1, 2]);
    assert_eq!(sc.position(), 0);
    assert_eq!(sc.take(2).unwrap(), vec![1, 2]);
    assert_eq!(sc.position(), 2);
    assert_eq!(sc.take(2).unwrap(), vec![3, 4]);
    assert_eq!(sc.position(), 4);
}

#[test]
fn scanner_overrun_is_refused_and_cursor_stays() {
    let mut sc = Scanner::new(vec![1, 2, 3]);
    assert_eq!(sc.take(2).unwrap(), vec![1, 2]);
    assert_eq!(sc.take(2), Err(DecodeError::Overrun));
    assert_eq!(sc.position(), 2);
    assert_eq!(sc.peek(2), Err(DecodeError::Overrun));
}

#[test]
fn primitive_round_trips() {
    assert_eq!(0xabu8.to_blob(), vec![0xab]);
    assert_eq!(decode::<u8>(vec![0xab]), 0xab);
    assert_eq!(0x1234u16.to_blob(), vec![0x34, 0x12]);
    assert_eq!(decode::<u16>(vec![0x34, 0x12]), 0x1234);
    assert_eq!(0x12345678u32.to_blob(), vec![0x78, 0x56, 0x34, 0x12]);
    assert_eq!(decode::<u32>(vec![0x78, 0x56, 0x34, 0x12]), 0x12345678);
    let v: u64 = 0x0102030405060708;
    assert_eq!(v.to_blob(), vec![8, 7, 6, 5, 4, 3, 2, 1]);
    assert_eq!(decode::<u64>(v.to_blob()), v);
    assert_eq!(true.to_blob(), vec![1]);
    assert_eq!(false.to_blob(), vec![0]);
    assert_eq!(decode::<bool>(vec![0]), false);
    assert_eq!(decode::<bool>(vec![1]), true);
    // a nonzero byte other than one also reads as true
    assert_eq!(decode::<bool>(vec![7]), true);
}

#[test]
fn varint_boundary_encodings() {
    assert_eq!(0xfcusize.to_blob(), vec![0xfc]);
    assert_eq!(0xfdusize.to_blob(), vec![0xfd, 0xfd, 0x00]);
    assert_eq!(0x10000usize.to_blob(), vec![0xfe, 0x00, 0x00, 0x01, 0x00]);
    assert_eq!(0xffffusize.to_blob(), vec![0xfd, 0xff, 0xff]);
    assert_eq!(
        0xffff_ffffusize.to_blob(),
        vec![0xfe, 0xff, 0xff, 0xff, 0xff]
    );
    assert_eq!(
        0x1_0000_0000usize.to_blob(),
        vec![0xff, 0, 0, 0, 0, 1, 0, 0, 0]
    );
}

#[test]
fn varint_boundary_round_trips() {
    let cases: Vec<usize> = vec![
        0,
        0xfc,
        0xfd,
        0xffff,
        0x10000,
        0xffff_ffff,
        0x1_0000_0000,
        usize::MAX,
    ];
    for v in cases {
        assert_eq!(decode::<usize>(v.to_blob()), v);
    }
}

#[test]
fn varint_accepts_non_minimal_encodings() {
    // 0x10 wrapped in the 0xFD form is accepted, as the reference network does
    assert_eq!(decode::<usize>(vec![0xfd, 0x10, 0x00]), 0x10);
}

#[test]
fn services_bitfield_layout() {
    let mut s = Services::default();
    s.network = true;
    assert_eq!(s.to_blob(), vec![0x02, 0, 0, 0, 0, 0, 0, 0]);
    s.network_limited = true;
    assert_eq!(s.to_blob(), vec![0x02, 0x04, 0, 0, 0, 0, 0, 0]);
    let t: Services = decode(s.to_blob());
    assert_eq!(t, s);
}

#[test]
fn services_ignores_unknown_bits() {
    // bit 0 and bit 63 are unknown: the named flags all read false
    let t: Services = decode(vec![0x01, 0, 0, 0, 0, 0, 0, 0x80]);
    assert_eq!(t, Services::default());
}

#[test]
fn services_all_flags_round_trip() {
    let s = Services {
        network: true,
        getutxo: false,
        bloom: true,
        witness: true,
        xthin: false,
        compact_filters: true,
        network_limited: true,
    };
    let t: Services = decode(s.to_blob());
    assert_eq!(t, s);
}

#[test]
fn v4_address_travels_in_mapped_form() {
    let a = SockAddr {
        ip: Ip::V4([127, 0, 0, 1]),
        port: 8333,
    };
    let bytes = a.to_blob();
    assert_eq!(bytes.len(), 18);
    assert_eq!(
        bytes[..12],
        [0, 0, 0, 0, 0, 0, 0, 0, 0, 0, 0xff, 0xff]
    );
    assert_eq!(bytes[12..16], [127, 0, 0, 1]);
    // the port is the protocol's only big-endian field: 8333 = 0x208D
    assert_eq!(bytes[16..], [0x20, 0x8d]);
}

#[test]
fn v4_address_normalizes_back_to_v4() {
    let a = SockAddr {
        ip: Ip::V4([10, 1, 2, 3]),
        port: 8333,
    };
    let t: SockAddr = decode(a.to_blob());
    assert!(matches!(t.ip, Ip::V4(_)));
    assert_eq!(t, a);
}

#[test]
fn v6_address_round_trips_unchanged() {
    let octets: [u8; 16] = [0x20, 1, 0xd, 0xb8, 0, 0, 0, 0, 0, 0, 0, 0, 0, 0, 0, 0x44];
    let a = SockAddr {
        ip: Ip::V6(octets),
        port: 18333,
    };
    let t: SockAddr = decode(a.to_blob());
    assert_eq!(t, a);
}
