use clock_server::error::Error;
use clock_server::ntp::{NTPHeader, NTPTimestamp};
use clock_server::server;

fn request() -> Vec<u8> {
    let mut h = NTPHeader::new();
    h.origin_timestamp = NTPTimestamp::from_unix(1_700_000_000, 0x1234_5678);
    let mut bytes = h.encode().unwrap();
    bytes[2] = 6; // poll
    bytes
}

#[test]
fn udp_answer_stamps_the_request() {
    let req = request();
    let mut buf = req.clone();
    buf.resize(52, 0);
    let (h, bytes) = server::answer_udp(
        48,
        &buf,
        NTPTimestamp::from_unix(1_700_000_001, 1),
        NTPTimestamp::from_unix(1_700_000_001, 2),
    )
    .unwrap();
    assert_eq!(h.stratum, 8);
    assert_eq!(h.poll(), 6);
    assert_eq!(h.origin_timestamp.fraction(), 0x1234_5678);
    assert_eq!(h.receive_timestamp.unix_seconds(), 1_700_000_001);
    assert_eq!(h.transmit_timestamp.fraction(), 2);
    assert_eq!(bytes, h.encode().unwrap());
    assert_eq!(bytes[0], req[0]);
    assert_eq!(bytes[1], 8);
    assert_eq!(&bytes[2..32], &req[2..32]);
    assert_eq!(&bytes[36..40], &[0, 0, 0, 1]);
    assert_eq!(&bytes[44..48], &[0, 0, 0, 2]);
}

#[test]
fn tcp_answer_stamps_the_transmit_time() {
    let req = request();
    let bytes = server::answer_tcp(48, &req, NTPTimestamp::from_unix(0, 0xFFFF_FFFF)).unwrap();
    assert_eq!(&bytes[..40], &req[..40]);
    assert_eq!(&bytes[40..48], &[0x83, 0xAA, 0x7E, 0x80, 0xFF, 0xFF, 0xFF, 0xFF]);
}

#[test]
fn answers_refuse_short_requests() {
    let req = request();
    let r = server::answer_udp(20, &req, NTPTimestamp::from_unix(0, 0), NTPTimestamp::from_unix(0, 0));
    assert!(matches!(r, Err(Error::UnexpectedSize(48, 20))));
    let r = server::answer_tcp(48, &req[..47], NTPTimestamp::from_unix(0, 0));
    assert!(matches!(r, Err(Error::Io(_))));
}
