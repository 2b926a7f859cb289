use std::mem::size_of;
use clock_server::error::Error;
use clock_server::ntp::{NTPHeader, NTPTimestamp};

fn sample_datagram() -> Vec<u8> {
    let mut bytes = Vec::new();
    // leap 3, version 4, mode 4
    bytes.push(0b11_100_100);
    bytes.push(2);
    bytes.push(6);
    bytes.push(0xEC);
    for i in 0..44u32 {
        bytes.push((i * 7 + 1) as u8);
    }
    bytes
}

#[test]
fn ntp_header_size() {
    let size = size_of::<NTPHeader>();
    assert_eq!(52, size);
}

#[test]
fn new_header_is_a_version_3_client_request() {
    let h = NTPHeader::new();
    assert_eq!((h.leap(), h.version(), h.mode()), (0, 3, 3));
    assert_eq!((h.stratum, h.poll(), h.precision()), (0, 0, 0));
    assert_eq!((h.root_delay(), h.root_dispersion(), h.reference_id()), (0, 0, 0));
    assert_eq!(h.transmit_timestamp.seconds(), 0);
    assert_eq!(h.transmit_timestamp.fraction(), 0);
}

#[test]
fn encode_new_header() {
    let bytes = NTPHeader::new().encode().unwrap();
    let mut expected = vec![0u8; 48];
    expected[0] = 0x1B;
    assert_eq!(bytes, expected);
}

#[test]
fn encode_writes_words_most_significant_first() {
    let mut bytes = vec![0u8; 48];
    bytes[4..8].copy_from_slice(&[1, 2, 3, 4]);
    let mut h = NTPHeader::decode(48, &bytes).unwrap();
    h.stratum = 9;
    h.origin_timestamp = NTPTimestamp::from_unix(0, 0xA0B0_C0D0);
    let bytes = h.encode().unwrap();
    assert_eq!(bytes.len(), 48);
    assert_eq!(bytes[1], 9);
    assert_eq!(&bytes[4..8], &[1, 2, 3, 4]);
    // 2_208_988_800 == 0x83AA_7E80
    assert_eq!(&bytes[24..28], &[0x83, 0xAA, 0x7E, 0x80]);
    assert_eq!(&bytes[28..32], &[0xA0, 0xB0, 0xC0, 0xD0]);
}

#[test]
fn decode_reads_every_field() {
    let bytes = sample_datagram();
    let h = NTPHeader::decode(48, &bytes).unwrap();
    assert_eq!((h.leap(), h.version(), h.mode()), (3, 4, 4));
    assert_eq!((h.stratum, h.poll(), h.precision()), (2, 6, 0xEC));
    assert_eq!(h.root_delay(), u32::from_be_bytes([1, 8, 15, 22]));
    assert_eq!(h.root_dispersion(), u32::from_be_bytes([29, 36, 43, 50]));
    assert_eq!(h.reference_id(), u32::from_be_bytes([57, 64, 71, 78]));
    assert_eq!(h.transmit_timestamp.seconds(), u32::from_be_bytes([253, 4, 11, 18]));
    assert_eq!(h.transmit_timestamp.fraction(), u32::from_be_bytes([25, 32, 39, 46]));
}

#[test]
fn decode_then_encode_gives_the_datagram_back() {
    let mut bytes = sample_datagram();
    bytes.extend_from_slice(&[9, 9, 9, 9]);
    let h = NTPHeader::decode(bytes.len(), &bytes).unwrap();
    assert_eq!(h.encode().unwrap(), bytes[..48].to_vec());
}

#[test]
fn encode_then_decode_gives_the_header_back() {
    let mut bytes = vec![0u8; 48];
    bytes[0] = 0b10_100_101; // leap 2, version 4, mode 5
    bytes[3] = 0xE9;
    bytes[12..16].copy_from_slice(&[0x47, 0x50, 0x53, 0x00]);
    let mut h = NTPHeader::decode(48, &bytes).unwrap();
    h.stratum = 1;
    h.receive_timestamp = NTPTimestamp::from_unix(1_700_000_000, 123_456_789);
    let encoded = h.encode().unwrap();
    let back = NTPHeader::decode(encoded.len(), &encoded).unwrap();
    assert_eq!((back.leap(), back.version(), back.mode()), (2, 4, 5));
    assert_eq!((back.stratum, back.precision(), back.reference_id()), (1, 0xE9, 0x4750_5300));
    assert_eq!(back.receive_timestamp.unix_seconds(), 1_700_000_000);
    assert_eq!(back.receive_timestamp.fraction(), 123_456_789);
}

#[test]
fn decode_refuses_a_short_datagram() {
    let bytes = sample_datagram();
    match NTPHeader::decode(47, &bytes) {
        Err(Error::UnexpectedSize(expected, actual)) => assert_eq!((expected, actual), (48, 47)),
        other => panic!("unexpected {:?}", other),
    }
}

#[test]
fn decode_fails_on_a_short_buffer() {
    let bytes = sample_datagram();
    match NTPHeader::decode(48, &bytes[..30]) {
        Err(Error::Io(e)) => assert_eq!(e.kind(), std::io::ErrorKind::UnexpectedEof),
        other => panic!("unexpected {:?}", other),
    }
}

#[test]
fn io_error_converts_into_error() {
    let e: Error = std::io::Error::from(std::io::ErrorKind::Other).into();
    assert!(matches!(e, Error::Io(_)));
}

#[test]
fn timestamp_from_unix_time() {
    let ts = NTPTimestamp::from_unix(0, 7);
    assert_eq!(ts.seconds(), 2_208_988_800);
    assert_eq!(ts.fraction(), 7);
    assert_eq!(ts.unix_seconds(), 0);
    let ts = NTPTimestamp::from_unix(1_000_000_000, u32::MAX / 2);
    assert_eq!(ts.seconds(), 3_208_988_800);
    assert_eq!(ts.unix_seconds(), 1_000_000_000);
    assert_eq!(ts.fraction(), u32::MAX / 2);
}

#[test]
fn timestamp_from_unix_time_takes_seconds_modulo_2_32() {
    let ts = NTPTimestamp::from_unix((1i64 << 32) + 5, 0);
    assert_eq!(ts.seconds(), 2_208_988_805);
    let ts = NTPTimestamp::from_unix(5 - (1i64 << 32), 0);
    assert_eq!(ts.seconds(), 2_208_988_805);
    assert_eq!(ts.unix_seconds(), 5);
}
