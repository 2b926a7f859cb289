//! The NTP header: its fields, its 48-byte wire format, and NTP timestamps.

use crate::error::Error;
use byteorder::{BigEndian, ByteOrder, ReadBytesExt};
use vstd::prelude::*;

verus! {

/// Mode number of an NTP client.
pub const NTP_CLIENT: u8 = 3;

/// Size in bytes of an NTP header on the wire (12 words).
pub const NTP_HEADER_SIZE: usize = 48;

/// Seconds from the NTP era start (1900-01-01) to the Unix epoch (1970-01-01).
pub const NTP_TO_UNIX_EPOCH: i64 = 2_208_988_800;

/// Position of the two leap-indicator bits in the first byte.
pub const LEAP_SHIFT: u32 = 6;

/// Position of the three version bits in the first byte.
pub const VERSION_SHIFT: u32 = 3;

/// The four bytes of `n`, most significant first.
pub open spec fn be_bytes(n: u32) -> Seq<u8> {
    seq![(n >> 24u32) as u8, (n >> 16u32) as u8, (n >> 8u32) as u8, n as u8]
}

/// The 32-bit number whose bytes, most significant first, are `s[i..i + 4]`.
pub open spec fn be_u32(s: Seq<u8>, i: int) -> u32 {
    ((s[i] as u32) << 24u32) | ((s[i + 1] as u32) << 16u32) | ((s[i + 2] as u32) << 8u32) | (s[
        i + 3
    ] as u32)
}

/// An NTP timestamp: whole seconds since 1900-01-01 and a binary fraction of a second.
#[derive(Debug)]
pub struct NTPTimestamp {
    seconds: u32,
    fraction: u32,
}

impl NTPTimestamp {
    /// Whole seconds since the start of the NTP era.
    pub closed spec fn spec_seconds(self) -> u32 {
        self.seconds
    }

    /// Fraction of a second, in units of 2^-32 s.
    pub closed spec fn spec_fraction(self) -> u32 {
        self.fraction
    }

    /// The timestamp made of these two words.
    pub closed spec fn from_words(seconds: u32, fraction: u32) -> NTPTimestamp {
        NTPTimestamp { seconds, fraction }
    }

    /// A timestamp is its two words.
    pub proof fn lemma_words(self)
        ensures
            NTPTimestamp::from_words(self.spec_seconds(), self.spec_fraction()) == self,
    {
    }

    /// The words of a timestamp made of two words are those words.
    pub proof fn lemma_from_words(seconds: u32, fraction: u32)
        ensures
            NTPTimestamp::from_words(seconds, fraction).spec_seconds() == seconds,
            NTPTimestamp::from_words(seconds, fraction).spec_fraction() == fraction,
    {
    }

    /// The eight bytes of the timestamp on the wire.
    pub open spec fn spec_bytes(self) -> Seq<u8> {
        be_bytes(self.spec_seconds()) + be_bytes(self.spec_fraction())
    }

    /// The timestamp of the Unix time `unix_seconds` (taken modulo 2^32) and the given
    /// fraction of a second: the seconds move from the Unix epoch to the NTP era.
    pub fn from_unix(unix_seconds: i64, fraction: u32) -> (r: NTPTimestamp)
        requires
            (unix_seconds as u32) + NTP_TO_UNIX_EPOCH <= u32::MAX,
        ensures
            r.spec_seconds() == (unix_seconds as u32) + NTP_TO_UNIX_EPOCH,
            r.spec_fraction() == fraction,
    {
        let s = unix_seconds as u32;
        NTPTimestamp { seconds: s + (NTP_TO_UNIX_EPOCH as u32), fraction }
    }

    /// Whole seconds since the Unix epoch (negative before 1970).
    pub fn unix_seconds(&self) -> (r: i64)
        ensures
            r == self.spec_seconds() - NTP_TO_UNIX_EPOCH,
    {
        self.seconds as i64 - NTP_TO_UNIX_EPOCH
    }

    /// Whole seconds since the start of the NTP era.
    pub fn seconds(&self) -> (r: u32)
        ensures
            r == self.spec_seconds(),
    {
        self.seconds
    }

    /// Fraction of a second, in units of 2^-32 s.
    pub fn fraction(&self) -> (r: u32)
        ensures
            r == self.spec_fraction(),
    {
        self.fraction
    }
}

/// An NTP header (RFC 5905, section 7.3) without extension fields. Outside this crate, only
/// the stratum and the timestamps can be set; the other fields come from `new` or `decode`,
/// which keep them within their bit widths.
#[derive(Debug)]
pub struct NTPHeader {
    pub(crate) leap: u8,
    pub(crate) version: u8,
    pub(crate) mode: u8,
    pub stratum: u8,
    pub(crate) poll: u8,
    pub(crate) precision: u8,
    pub(crate) root_delay: u32,
    pub(crate) root_dispersion: u32,
    pub(crate) reference_id: u32,
    pub reference_timestamp: NTPTimestamp,
    pub origin_timestamp: NTPTimestamp,
    pub receive_timestamp: NTPTimestamp,
    pub transmit_timestamp: NTPTimestamp,
}

/// byteorder's `BigEndian::write_u32`, into a buffer of four bytes: it stores the bytes of
/// `n` most significant first (`n.to_be_bytes()`).
#[verifier::external_body]
fn u32_be_bytes(n: u32) -> (r: [u8; 4])
    ensures
        r@ == be_bytes(n),
{
    let mut buf = [0u8; 4];
    BigEndian::write_u32(&mut buf, n);
    buf
}

/// byteorder's `ReadBytesExt::read_u8` on a cursor over `buf[pos..]`: the byte at `pos`,
/// or an error (end of file) where there is none.
#[verifier::external_body]
fn read_u8_at(buf: &[u8], pos: usize) -> (r: Result<u8, std::io::Error>)
    requires
        pos <= buf@.len(),
    ensures
        r is Ok <==> pos < buf@.len(),
        r matches Ok(b) ==> b == buf@[pos as int],
{
    std::io::Cursor::new(&buf[pos..]).read_u8()
}

/// byteorder's `ReadBytesExt::read_u32::<BigEndian>` on a cursor over `buf[pos..]`: the
/// number whose bytes, most significant first, are `buf[pos..pos + 4]`, or an error (end
/// of file) where fewer than four bytes are left.
#[verifier::external_body]
fn read_u32_be_at(buf: &[u8], pos: usize) -> (r: Result<u32, std::io::Error>)
    requires
        pos <= buf@.len(),
    ensures
        r is Ok <==> pos + 4 <= buf@.len(),
        r matches Ok(n) ==> n == be_u32(buf@, pos as int),
{
    std::io::Cursor::new(&buf[pos..]).read_u32::<BigEndian>()
}

/// Appends the four bytes of `n`, most significant first.
fn push_u32_be(vec: &mut Vec<u8>, n: u32)
    ensures
        final(vec)@ == old(vec)@ + be_bytes(n),
{
    let bytes = u32_be_bytes(n);
    vec.push(bytes[0]);
    vec.push(bytes[1]);
    vec.push(bytes[2]);
    vec.push(bytes[3]);
    assert(final(vec)@ =~= old(vec)@ + be_bytes(n));
}

impl NTPHeader {
    /// Leap indicator (two bits).
    pub closed spec fn spec_leap(self) -> u8 {
        self.leap
    }

    /// Protocol version (three bits).
    pub closed spec fn spec_version(self) -> u8 {
        self.version
    }

    /// Association mode (three bits).
    pub closed spec fn spec_mode(self) -> u8 {
        self.mode
    }

    /// Poll interval, as a power of two in seconds.
    pub closed spec fn spec_poll(self) -> u8 {
        self.poll
    }

    /// Clock precision, as a power of two in seconds.
    pub closed spec fn spec_precision(self) -> u8 {
        self.precision
    }

    /// Round-trip delay to the reference clock.
    pub closed spec fn spec_root_delay(self) -> u32 {
        self.root_delay
    }

    /// Dispersion to the reference clock.
    pub closed spec fn spec_root_dispersion(self) -> u32 {
        self.root_dispersion
    }

    /// Identifier of the reference clock.
    pub closed spec fn spec_reference_id(self) -> u32 {
        self.reference_id
    }

    /// Stratum of the server's clock.
    pub closed spec fn spec_stratum(self) -> u8 {
        self.stratum
    }

    /// When the server's clock was last set.
    pub closed spec fn spec_reference_timestamp(self) -> NTPTimestamp {
        self.reference_timestamp
    }

    /// When the request left the client.
    pub closed spec fn spec_origin_timestamp(self) -> NTPTimestamp {
        self.origin_timestamp
    }

    /// When the request reached the server.
    pub closed spec fn spec_receive_timestamp(self) -> NTPTimestamp {
        self.receive_timestamp
    }

    /// When the answer left the server.
    pub closed spec fn spec_transmit_timestamp(self) -> NTPTimestamp {
        self.transmit_timestamp
    }

    /// Within this crate, the spec accessors are the fields.
    pub(crate) proof fn lemma_accessors(self)
        ensures
            self.spec_leap() == self.leap,
            self.spec_version() == self.version,
            self.spec_mode() == self.mode,
            self.spec_poll() == self.poll,
            self.spec_precision() == self.precision,
            self.spec_root_delay() == self.root_delay,
            self.spec_root_dispersion() == self.root_dispersion,
            self.spec_reference_id() == self.reference_id,
            self.spec_stratum() == self.stratum,
            self.spec_reference_timestamp() == self.reference_timestamp,
            self.spec_origin_timestamp() == self.origin_timestamp,
            self.spec_receive_timestamp() == self.receive_timestamp,
            self.spec_transmit_timestamp() == self.transmit_timestamp,
    {
    }

    /// Within this crate, the bytes of a header on the wire are those of its fields.
    pub(crate) proof fn lemma_reveal_encode(self)
        ensures
            self.spec_encode() == seq![self.first_byte(), self.stratum, self.poll, self.precision]
                + be_bytes(self.root_delay) + be_bytes(self.root_dispersion) + be_bytes(
                self.reference_id,
            ) + self.reference_timestamp.spec_bytes() + self.origin_timestamp.spec_bytes()
                + self.receive_timestamp.spec_bytes() + self.transmit_timestamp.spec_bytes(),
    {
    }

    /// The fields fit their bit widths on the wire: two bits of leap indicator, three of
    /// version and three of mode.
    pub open spec fn wf(self) -> bool {
        self.spec_leap() < 4 && self.spec_version() < 8 && self.spec_mode() < 8
    }

    /// The first byte on the wire: leap indicator, version and mode.
    pub open spec fn first_byte(self) -> u8 {
        (self.spec_leap() << LEAP_SHIFT) | (self.spec_version() << VERSION_SHIFT)
            | self.spec_mode()
    }

    /// The 48 bytes of the header on the wire.
    pub closed spec fn spec_encode(self) -> Seq<u8> {
        seq![self.first_byte(), self.stratum, self.spec_poll(), self.spec_precision()]
            + be_bytes(self.spec_root_delay()) + be_bytes(self.spec_root_dispersion()) + be_bytes(
            self.spec_reference_id(),
        )
            + self.reference_timestamp.spec_bytes() + self.origin_timestamp.spec_bytes()
            + self.receive_timestamp.spec_bytes() + self.transmit_timestamp.spec_bytes()
    }

    /// The header that the first 48 bytes of `s` hold.
    pub closed spec fn spec_decode(s: Seq<u8>) -> NTPHeader {
        NTPHeader {
            leap: (s[0] >> LEAP_SHIFT) & 0b11,
            version: (s[0] >> VERSION_SHIFT) & 0b111,
            mode: s[0] & 0b111,
            stratum: s[1],
            poll: s[2],
            precision: s[3],
            root_delay: be_u32(s, 4),
            root_dispersion: be_u32(s, 8),
            reference_id: be_u32(s, 12),
            reference_timestamp: NTPTimestamp::from_words(be_u32(s, 16), be_u32(s, 20)),
            origin_timestamp: NTPTimestamp::from_words(be_u32(s, 24), be_u32(s, 28)),
            receive_timestamp: NTPTimestamp::from_words(be_u32(s, 32), be_u32(s, 36)),
            transmit_timestamp: NTPTimestamp::from_words(be_u32(s, 40), be_u32(s, 44)),
        }
    }

    /// Leap indicator (two bits).
    pub fn leap(&self) -> (r: u8)
        ensures
            r == self.spec_leap(),
    {
        self.leap
    }

    /// Protocol version (three bits).
    pub fn version(&self) -> (r: u8)
        ensures
            r == self.spec_version(),
    {
        self.version
    }

    /// Association mode (three bits).
    pub fn mode(&self) -> (r: u8)
        ensures
            r == self.spec_mode(),
    {
        self.mode
    }

    /// Poll interval, as a power of two in seconds.
    pub fn poll(&self) -> (r: u8)
        ensures
            r == self.spec_poll(),
    {
        self.poll
    }

    /// Clock precision, as a power of two in seconds.
    pub fn precision(&self) -> (r: u8)
        ensures
            r == self.spec_precision(),
    {
        self.precision
    }

    /// Round-trip delay to the reference clock.
    pub fn root_delay(&self) -> (r: u32)
        ensures
            r == self.spec_root_delay(),
    {
        self.root_delay
    }

    /// Dispersion to the reference clock.
    pub fn root_dispersion(&self) -> (r: u32)
        ensures
            r == self.spec_root_dispersion(),
    {
        self.root_dispersion
    }

    /// Identifier of the reference clock.
    pub fn reference_id(&self) -> (r: u32)
        ensures
            r == self.spec_reference_id(),
    {
        self.reference_id
    }

    /// The header of a version-3 client request: every other field is zero.
    pub fn new() -> (r: NTPHeader)
        ensures
            r.spec_leap() == 0 && r.spec_version() == 3 && r.spec_mode() == NTP_CLIENT,
            r.spec_stratum() == 0 && r.spec_poll() == 0 && r.spec_precision() == 0,
            r.spec_root_delay() == 0 && r.spec_root_dispersion() == 0 && r.spec_reference_id()
                == 0,
            r.spec_reference_timestamp() == NTPTimestamp::from_words(0, 0),
            r.spec_origin_timestamp() == NTPTimestamp::from_words(0, 0),
            r.spec_receive_timestamp() == NTPTimestamp::from_words(0, 0),
            r.spec_transmit_timestamp() == NTPTimestamp::from_words(0, 0),
            r.wf(),
    {
        NTPHeader {
            leap: 0,
            version: 3,
            mode: NTP_CLIENT,
            stratum: 0,
            poll: 0,
            precision: 0,
            root_delay: 0,
            root_dispersion: 0,
            reference_id: 0,
            reference_timestamp: NTPTimestamp { seconds: 0, fraction: 0 },
            origin_timestamp: NTPTimestamp { seconds: 0, fraction: 0 },
            receive_timestamp: NTPTimestamp { seconds: 0, fraction: 0 },
            transmit_timestamp: NTPTimestamp { seconds: 0, fraction: 0 },
        }
    }

    /// The header on the wire. Writing to memory does not fail: the result is always `Ok`.
    pub fn encode(&self) -> (r: Result<Vec<u8>, Error>)
        ensures
            r matches Ok(v) && v@ == self.spec_encode(),
    {
        let mut vec = Vec::<u8>::new();
        vec.push((self.leap << LEAP_SHIFT) | (self.version << VERSION_SHIFT) | self.mode);
        vec.push(self.stratum);
        vec.push(self.poll);
        vec.push(self.precision);
        push_u32_be(&mut vec, self.root_delay);
        push_u32_be(&mut vec, self.root_dispersion);
        push_u32_be(&mut vec, self.reference_id);
        push_u32_be(&mut vec, self.reference_timestamp.seconds);
        push_u32_be(&mut vec, self.reference_timestamp.fraction);
        push_u32_be(&mut vec, self.origin_timestamp.seconds);
        push_u32_be(&mut vec, self.origin_timestamp.fraction);
        push_u32_be(&mut vec, self.receive_timestamp.seconds);
        push_u32_be(&mut vec, self.receive_timestamp.fraction);
        push_u32_be(&mut vec, self.transmit_timestamp.seconds);
        push_u32_be(&mut vec, self.transmit_timestamp.fraction);
        assert(vec@ =~= self.spec_encode());
        Ok(vec)
    }

    /// Reads the header of a datagram of `size` bytes received into `buf`: a datagram of
    /// fewer than 48 bytes is refused; otherwise the header is read from the first 48 bytes
    /// of `buf`, and reading fails where `buf` holds fewer.
    pub fn decode(size: usize, buf: &[u8]) -> (r: Result<NTPHeader, Error>)
        ensures
            size < NTP_HEADER_SIZE ==> (r matches Err(Error::UnexpectedSize(expected, actual))
                && expected == NTP_HEADER_SIZE && actual == size),
            size >= NTP_HEADER_SIZE && buf@.len() >= NTP_HEADER_SIZE ==> (r matches Ok(h) && h
                == NTPHeader::spec_decode(buf@)),
            r matches Ok(h) ==> h.wf(),
            size >= NTP_HEADER_SIZE && buf@.len() < NTP_HEADER_SIZE ==> r matches Err(
                Error::Io(_),
            ),
    {
        if size < NTP_HEADER_SIZE {
            return Err(Error::UnexpectedSize(NTP_HEADER_SIZE, size));
        }
        proof {
            if buf@.len() >= NTP_HEADER_SIZE {
                lemma_decode_wf(buf@);
            }
        }
        let leap_version_mode = match read_u8_at(buf, 0) {
            Ok(b) => b,
            Err(e) => return Err(Error::Io(e)),
        };
        let stratum = match read_u8_at(buf, 1) {
            Ok(b) => b,
            Err(e) => return Err(Error::Io(e)),
        };
        let poll = match read_u8_at(buf, 2) {
            Ok(b) => b,
            Err(e) => return Err(Error::Io(e)),
        };
        let precision = match read_u8_at(buf, 3) {
            Ok(b) => b,
            Err(e) => return Err(Error::Io(e)),
        };
        let root_delay = match read_u32_be_at(buf, 4) {
            Ok(n) => n,
            Err(e) => return Err(Error::Io(e)),
        };
        let root_dispersion = match read_u32_be_at(buf, 8) {
            Ok(n) => n,
            Err(e) => return Err(Error::Io(e)),
        };
        let reference_id = match read_u32_be_at(buf, 12) {
            Ok(n) => n,
            Err(e) => return Err(Error::Io(e)),
        };
        let rs = match read_u32_be_at(buf, 16) {
            Ok(n) => n,
            Err(e) => return Err(Error::Io(e)),
        };
        let rf = match read_u32_be_at(buf, 20) {
            Ok(n) => n,
            Err(e) => return Err(Error::Io(e)),
        };
        let os = match read_u32_be_at(buf, 24) {
            Ok(n) => n,
            Err(e) => return Err(Error::Io(e)),
        };
        let of = match read_u32_be_at(buf, 28) {
            Ok(n) => n,
            Err(e) => return Err(Error::Io(e)),
        };
        let vs = match read_u32_be_at(buf, 32) {
            Ok(n) => n,
            Err(e) => return Err(Error::Io(e)),
        };
        let vf = match read_u32_be_at(buf, 36) {
            Ok(n) => n,
            Err(e) => return Err(Error::Io(e)),
        };
        let ts = match read_u32_be_at(buf, 40) {
            Ok(n) => n,
            Err(e) => return Err(Error::Io(e)),
        };
        let tf = match read_u32_be_at(buf, 44) {
            Ok(n) => n,
            Err(e) => return Err(Error::Io(e)),
        };
        Ok(NTPHeader {
            leap: (leap_version_mode >> LEAP_SHIFT) & 0b11,
            version: (leap_version_mode >> VERSION_SHIFT) & 0b111,
            mode: leap_version_mode & 0b111,
            stratum,
            poll,
            precision,
            root_delay,
            root_dispersion,
            reference_id,
            reference_timestamp: NTPTimestamp { seconds: rs, fraction: rf },
            origin_timestamp: NTPTimestamp { seconds: os, fraction: of },
            receive_timestamp: NTPTimestamp { seconds: vs, fraction: vf },
            transmit_timestamp: NTPTimestamp { seconds: ts, fraction: tf },
        })
    }
}

/// The bits of a number survive splitting it into four bytes and joining them again.
proof fn lemma_join_split(n: u32)
    ensures
        ((((n >> 24u32) as u8) as u32) << 24u32) | ((((n >> 16u32) as u8) as u32) << 16u32) | ((((n
            >> 8u32) as u8) as u32) << 8u32) | ((n as u8) as u32) == n,
{
    assert(((((n >> 24u32) as u8) as u32) << 24u32) | ((((n >> 16u32) as u8) as u32) << 16u32) | ((((
    n >> 8u32) as u8) as u32) << 8u32) | ((n as u8) as u32) == n) by (bit_vector);
}

/// Four bytes survive joining them into a number and splitting it again.
proof fn lemma_split_join(b0: u8, b1: u8, b2: u8, b3: u8)
    ensures
        ({
            let n = ((b0 as u32) << 24u32) | ((b1 as u32) << 16u32) | ((b2 as u32) << 8u32) | (
            b3 as u32);
            (n >> 24u32) as u8 == b0 && (n >> 16u32) as u8 == b1 && (n >> 8u32) as u8 == b2
                && n as u8 == b3
        }),
{
    assert({
        let n = ((b0 as u32) << 24u32) | ((b1 as u32) << 16u32) | ((b2 as u32) << 8u32) | (
        b3 as u32);
        (n >> 24u32) as u8 == b0 && (n >> 16u32) as u8 == b1 && (n >> 8u32) as u8 == b2 && n as u8
            == b3
    }) by (bit_vector);
}

/// Where `s[i..i + 4]` holds the bytes of `n`, reading them gives `n`.
pub proof fn lemma_be_u32_of_bytes(s: Seq<u8>, i: int, n: u32)
    requires
        0 <= i,
        i + 4 <= s.len(),
        s.subrange(i, i + 4) == be_bytes(n),
    ensures
        be_u32(s, i) == n,
{
    assert(s[i] == s.subrange(i, i + 4)[0]);
    assert(s[i + 1] == s.subrange(i, i + 4)[1]);
    assert(s[i + 2] == s.subrange(i, i + 4)[2]);
    assert(s[i + 3] == s.subrange(i, i + 4)[3]);
    lemma_join_split(n);
}

/// The bytes of the number read at `i` are the bytes at `i`.
pub proof fn lemma_bytes_of_be_u32(s: Seq<u8>, i: int)
    requires
        0 <= i,
        i + 4 <= s.len(),
    ensures
        be_bytes(be_u32(s, i)) == s.subrange(i, i + 4),
{
    lemma_split_join(s[i], s[i + 1], s[i + 2], s[i + 3]);
    assert(be_bytes(be_u32(s, i)) =~= s.subrange(i, i + 4));
}

/// The first byte of a well-formed header splits back into its three fields.
proof fn lemma_first_byte_split(leap: u8, version: u8, mode: u8)
    requires
        leap < 4,
        version < 8,
        mode < 8,
    ensures
        ({
            let b = (leap << LEAP_SHIFT) | (version << VERSION_SHIFT) | mode;
            (b >> LEAP_SHIFT) & 0b11 == leap && (b >> VERSION_SHIFT) & 0b111 == version && b
                & 0b111 == mode
        }),
{
    assert({
        let b = (leap << 6u32) | (version << 3u32) | mode;
        (b >> 6u32) & 0b11 == leap && (b >> 3u32) & 0b111 == version && b & 0b111 == mode
    }) by (bit_vector)
        requires
            leap < 4,
            version < 8,
            mode < 8,
    ;
}

/// Any byte is the first byte of the fields that it splits into, and they fit their widths.
proof fn lemma_first_byte_join(b: u8)
    ensures
        ({
            let leap = (b >> LEAP_SHIFT) & 0b11;
            let version = (b >> VERSION_SHIFT) & 0b111;
            let mode = b & 0b111;
            (leap << LEAP_SHIFT) | (version << VERSION_SHIFT) | mode == b && leap < 4 && version
                < 8 && mode < 8
        }),
{
    assert({
        let leap = (b >> 6u32) & 0b11;
        let version = (b >> 3u32) & 0b111;
        let mode = b & 0b111;
        (leap << 6u32) | (version << 3u32) | mode == b && leap < 4 && version < 8 && mode < 8
    }) by (bit_vector);
}

/// Every header read from the wire is well formed.
pub proof fn lemma_decode_wf(s: Seq<u8>)
    requires
        s.len() >= NTP_HEADER_SIZE,
    ensures
        NTPHeader::spec_decode(s).wf(),
{
    lemma_first_byte_join(s[0]);
}

/// An encoded header is 48 bytes long.
pub proof fn lemma_encode_len(h: NTPHeader)
    ensures
        h.spec_encode().len() == NTP_HEADER_SIZE,
{
}

/// Reading back an encoded well-formed header gives the header.
pub proof fn lemma_decode_encode(h: NTPHeader)
    requires
        h.wf(),
    ensures
        NTPHeader::spec_decode(h.spec_encode()) == h,
{
    let s = h.spec_encode();
    lemma_first_byte_split(h.leap, h.version, h.mode);
    assert(s.subrange(4, 8) =~= be_bytes(h.root_delay));
    assert(s.subrange(8, 12) =~= be_bytes(h.root_dispersion));
    assert(s.subrange(12, 16) =~= be_bytes(h.reference_id));
    assert(s.subrange(16, 20) =~= be_bytes(h.reference_timestamp.spec_seconds()));
    assert(s.subrange(20, 24) =~= be_bytes(h.reference_timestamp.spec_fraction()));
    assert(s.subrange(24, 28) =~= be_bytes(h.origin_timestamp.spec_seconds()));
    assert(s.subrange(28, 32) =~= be_bytes(h.origin_timestamp.spec_fraction()));
    assert(s.subrange(32, 36) =~= be_bytes(h.receive_timestamp.spec_seconds()));
    assert(s.subrange(36, 40) =~= be_bytes(h.receive_timestamp.spec_fraction()));
    assert(s.subrange(40, 44) =~= be_bytes(h.transmit_timestamp.spec_seconds()));
    assert(s.subrange(44, 48) =~= be_bytes(h.transmit_timestamp.spec_fraction()));
    lemma_be_u32_of_bytes(s, 4, h.root_delay);
    lemma_be_u32_of_bytes(s, 8, h.root_dispersion);
    lemma_be_u32_of_bytes(s, 12, h.reference_id);
    lemma_be_u32_of_bytes(s, 16, h.reference_timestamp.spec_seconds());
    lemma_be_u32_of_bytes(s, 20, h.reference_timestamp.spec_fraction());
    lemma_be_u32_of_bytes(s, 24, h.origin_timestamp.spec_seconds());
    lemma_be_u32_of_bytes(s, 28, h.origin_timestamp.spec_fraction());
    lemma_be_u32_of_bytes(s, 32, h.receive_timestamp.spec_seconds());
    lemma_be_u32_of_bytes(s, 36, h.receive_timestamp.spec_fraction());
    lemma_be_u32_of_bytes(s, 40, h.transmit_timestamp.spec_seconds());
    lemma_be_u32_of_bytes(s, 44, h.transmit_timestamp.spec_fraction());
    h.reference_timestamp.lemma_words();
    h.origin_timestamp.lemma_words();
    h.receive_timestamp.lemma_words();
    h.transmit_timestamp.lemma_words();
}

/// Encoding the header read from a datagram gives back the datagram's first 48 bytes.
pub proof fn lemma_encode_decode(s: Seq<u8>)
    requires
        s.len() >= NTP_HEADER_SIZE,
    ensures
        NTPHeader::spec_decode(s).spec_encode() == s.subrange(0, NTP_HEADER_SIZE as int),
{
    let h = NTPHeader::spec_decode(s);
    lemma_first_byte_join(s[0]);
    lemma_bytes_of_be_u32(s, 4);
    lemma_bytes_of_be_u32(s, 8);
    lemma_bytes_of_be_u32(s, 12);
    lemma_bytes_of_be_u32(s, 16);
    lemma_bytes_of_be_u32(s, 20);
    lemma_bytes_of_be_u32(s, 24);
    lemma_bytes_of_be_u32(s, 28);
    lemma_bytes_of_be_u32(s, 32);
    lemma_bytes_of_be_u32(s, 36);
    lemma_bytes_of_be_u32(s, 40);
    lemma_bytes_of_be_u32(s, 44);
    NTPTimestamp::lemma_from_words(be_u32(s, 16), be_u32(s, 20));
    NTPTimestamp::lemma_from_words(be_u32(s, 24), be_u32(s, 28));
    NTPTimestamp::lemma_from_words(be_u32(s, 32), be_u32(s, 36));
    NTPTimestamp::lemma_from_words(be_u32(s, 40), be_u32(s, 44));
    assert(h.spec_encode() =~= s.subrange(0, 48));
}

} // verus!
