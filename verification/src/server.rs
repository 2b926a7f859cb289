//! How the server answers a request: it reads the request's header, stamps it, and
//! writes it back.

use crate::error::Error;
use crate::ntp::{lemma_encode_decode, NTPHeader, NTPTimestamp, NTP_HEADER_SIZE};
use vstd::prelude::*;

verus! {

/// The stratum that the server announces in its answers.
pub const SERVER_STRATUM: u8 = 8;

/// The header that the UDP server sends back for a request header: the request with the
/// server's stratum and its receive and transmit timestamps.
pub closed spec fn spec_udp_answer(
    request: NTPHeader,
    receive_timestamp: NTPTimestamp,
    transmit_timestamp: NTPTimestamp,
) -> NTPHeader {
    NTPHeader { stratum: SERVER_STRATUM, receive_timestamp, transmit_timestamp, ..request }
}

/// The header that the TCP server sends back for a request header: the request with the
/// server's transmit timestamp.
pub closed spec fn spec_tcp_answer(request: NTPHeader, transmit_timestamp: NTPTimestamp) -> NTPHeader {
    NTPHeader { transmit_timestamp, ..request }
}

/// The UDP server's answer to a datagram of `size` bytes held in `buf`: the answer's header
/// and its bytes. A datagram that is not a header is refused as `NTPHeader::decode` refuses
/// it.
pub fn answer_udp(
    size: usize,
    buf: &[u8],
    receive_timestamp: NTPTimestamp,
    transmit_timestamp: NTPTimestamp,
) -> (r: Result<(NTPHeader, Vec<u8>), Error>)
    ensures
        size < NTP_HEADER_SIZE ==> (r matches Err(Error::UnexpectedSize(expected, actual))
            && expected == NTP_HEADER_SIZE && actual == size),
        size >= NTP_HEADER_SIZE && buf@.len() >= NTP_HEADER_SIZE ==> (r matches Ok((h, bytes))
            && h == spec_udp_answer(
            NTPHeader::spec_decode(buf@),
            receive_timestamp,
            transmit_timestamp,
        ) && bytes@ == h.spec_encode()),
        size >= NTP_HEADER_SIZE && buf@.len() < NTP_HEADER_SIZE ==> r matches Err(
            Error::Io(_),
        ),
{
    let mut packet = NTPHeader::decode(size, buf)?;
    packet.receive_timestamp = receive_timestamp;
    packet.transmit_timestamp = transmit_timestamp;
    packet.stratum = SERVER_STRATUM;
    let msg = packet.encode()?;
    Ok((packet, msg))
}

/// The TCP server's answer to a message of `size` bytes held in `buf`: the bytes of the
/// request's header with the server's transmit timestamp. A message that is not a header
/// is refused as `NTPHeader::decode` refuses it.
pub fn answer_tcp(size: usize, buf: &[u8], transmit_timestamp: NTPTimestamp) -> (r: Result<
    Vec<u8>,
    Error,
>)
    ensures
        size < NTP_HEADER_SIZE ==> (r matches Err(Error::UnexpectedSize(expected, actual))
            && expected == NTP_HEADER_SIZE && actual == size),
        size >= NTP_HEADER_SIZE && buf@.len() >= NTP_HEADER_SIZE ==> (r matches Ok(bytes)
            && bytes@ == spec_tcp_answer(
            NTPHeader::spec_decode(buf@),
            transmit_timestamp,
        ).spec_encode()),
        size >= NTP_HEADER_SIZE && buf@.len() < NTP_HEADER_SIZE ==> r matches Err(
            Error::Io(_),
        ),
{
    let mut input = NTPHeader::decode(size, buf)?;
    input.transmit_timestamp = transmit_timestamp;
    input.encode()
}

/// On the wire, the UDP server's answer is the request's first 48 bytes with the stratum
/// byte set to the server's stratum and the last 16 bytes set to the receive and transmit
/// timestamps: nothing else of the request changes.
pub proof fn lemma_udp_answer_bytes(
    request: Seq<u8>,
    receive_timestamp: NTPTimestamp,
    transmit_timestamp: NTPTimestamp,
)
    requires
        request.len() >= NTP_HEADER_SIZE,
    ensures
        spec_udp_answer(
            NTPHeader::spec_decode(request),
            receive_timestamp,
            transmit_timestamp,
        ).spec_encode() == request.subrange(0, 1) + seq![SERVER_STRATUM] + request.subrange(2, 32)
            + receive_timestamp.spec_bytes() + transmit_timestamp.spec_bytes(),
{
    let d = NTPHeader::spec_decode(request);
    lemma_encode_decode(request);
    let a = spec_udp_answer(d, receive_timestamp, transmit_timestamp);
    d.lemma_accessors();
    a.lemma_accessors();
    d.lemma_reveal_encode();
    a.lemma_reveal_encode();
    assert(a.spec_encode() =~= d.spec_encode().subrange(0, 1) + seq![SERVER_STRATUM]
        + d.spec_encode().subrange(2, 32) + receive_timestamp.spec_bytes()
        + transmit_timestamp.spec_bytes());
    assert(d.spec_encode().subrange(0, 1) =~= request.subrange(0, 1));
    assert(d.spec_encode().subrange(2, 32) =~= request.subrange(2, 32));
}

/// On the wire, the TCP server's answer is the request's first 48 bytes with the last 8
/// bytes set to the transmit timestamp: nothing else of the request changes.
pub proof fn lemma_tcp_answer_bytes(request: Seq<u8>, transmit_timestamp: NTPTimestamp)
    requires
        request.len() >= NTP_HEADER_SIZE,
    ensures
        spec_tcp_answer(NTPHeader::spec_decode(request), transmit_timestamp).spec_encode()
            == request.subrange(0, 40) + transmit_timestamp.spec_bytes(),
{
    let d = NTPHeader::spec_decode(request);
    lemma_encode_decode(request);
    let a = spec_tcp_answer(d, transmit_timestamp);
    d.lemma_accessors();
    a.lemma_accessors();
    d.lemma_reveal_encode();
    a.lemma_reveal_encode();
    assert(a.spec_encode() =~= d.spec_encode().subrange(0, 40) + transmit_timestamp.spec_bytes());
    assert(d.spec_encode().subrange(0, 40) =~= request.subrange(0, 40));
}

} // verus!
