//! The RMCP frame, outermost layer, which selects the inner protocol.
use vstd::prelude::*;
use crate::ipmi::{BytesDeserializable, BytesSerializable, BytesSerializationSized, Error};
use crate::ipmi::asf::{
    lemma_asf_bytes_round_trip, lemma_asf_round_trip, parse_asf, AsfMessage, SpecAsfMessage,
};
use crate::ipmi::ipmi::{
    lemma_ipmi15_bit_flip_rejected, lemma_ipmi15_bytes_round_trip, lemma_ipmi15_round_trip,
    parse_ipmi15, session_header_len, Ipmi15Packet, SpecIpmi15Packet,
};
use crate::ipmi::wire::{
    le4, le_u32, lemma_le_bytes_round_trip, lemma_le_round_trip, lemma_splice_adjacent, put_bytes,
    put_le_u32, put_u8, read_le_u32, splice,
};

verus! {

pub const MSG_CLASS_ASF: u8 = 0b00000110;
pub const MSG_CLASS_IPMI: u8 = 0b00000111;
pub const MSG_CLASS_OEM: u8 = 0b00001000;

/// The only RMCP version this codec speaks.
pub const RMCP_VERSION: u8 = 0x06;

/// Auth type byte that announces an RMCP+ session, which is not supported.
pub const AUTH_TYPE_RMCP_PLUS: u8 = 0x06;

#[derive(PartialEq, Eq, Debug)]
pub struct RmcpMessage<'a> {
    pub version: u8,
    pub reserved: u8,
    pub sequence_number: u8,
    pub message_class: u8,
    pub data: RmcpContent<'a>,
}

#[derive(PartialEq, Eq, Debug)]
pub enum RmcpContent<'a> {
    Ack,
    Asf(AsfMessage<'a>),
    Ipmi15(Ipmi15Packet<'a>),
    Oem { iana: u32, data: &'a [u8] },
    Other(&'a [u8]),
}

/// An RMCP frame as the protocol sees it.
pub struct SpecRmcpMessage {
    pub version: u8,
    pub reserved: u8,
    pub sequence_number: u8,
    pub message_class: u8,
    pub data: SpecRmcpContent,
}

/// The content of an RMCP frame.
pub enum SpecRmcpContent {
    Ack,
    Asf(SpecAsfMessage),
    Ipmi15(SpecIpmi15Packet),
    Oem { iana: u32, data: Seq<u8> },
    Other(Seq<u8>),
}

impl SpecRmcpContent {
    pub open spec fn bytes(self) -> Seq<u8> {
        match self {
            SpecRmcpContent::Ack => Seq::empty(),
            SpecRmcpContent::Asf(a) => a.wire(),
            SpecRmcpContent::Ipmi15(p) => p.wire(),
            SpecRmcpContent::Oem { iana, data } => le4(iana) + data,
            SpecRmcpContent::Other(d) => d,
        }
    }

    pub open spec fn size(self) -> nat {
        match self {
            SpecRmcpContent::Ack => 0,
            SpecRmcpContent::Asf(a) => a.size(),
            SpecRmcpContent::Ipmi15(p) => p.size(),
            SpecRmcpContent::Oem { iana, data } => 4 + data.len(),
            SpecRmcpContent::Other(d) => d.len(),
        }
    }
}

impl SpecRmcpMessage {
    pub open spec fn size(self) -> nat {
        4 + self.data.size()
    }

    pub open spec fn config_error(self, strict: bool) -> Option<Error> {
        match self.data {
            SpecRmcpContent::Asf(a) => a.config_error(strict),
            SpecRmcpContent::Ipmi15(p) => p.config_error(strict),
            _ => None,
        }
    }

    /// The class byte: an acknowledgement carries the top bit.
    pub open spec fn class_byte(self) -> u8 {
        if self.data is Ack {
            (self.message_class % 128 + 128) as u8
        } else {
            self.message_class
        }
    }

    pub open spec fn wire(self) -> Seq<u8> {
        seq![RMCP_VERSION, 0u8, self.sequence_number, self.class_byte()] + self.data.bytes()
    }

    pub open spec fn encode(self, strict: bool) -> Result<Seq<u8>, Error> {
        match self.config_error(strict) {
            Some(e) => Err(e),
            None => Ok(self.wire()),
        }
    }
}

/// Decoding of what follows the RMCP header, given the class byte.
pub open spec fn parse_rmcp_content(s: Seq<u8>, strict: bool) -> Result<SpecRmcpContent, Error> {
    let class = s[3] % 16;
    if s[3] >= 128 {
        Ok(SpecRmcpContent::Ack)
    } else if class == MSG_CLASS_OEM {
        if s.len() < 8 {
            Err(Error::PayloadTooSmall)
        } else {
            Ok(SpecRmcpContent::Oem { iana: le_u32(s.subrange(4, 8)), data: s.skip(8) })
        }
    } else if class == MSG_CLASS_ASF {
        match parse_asf(s.skip(4), strict) {
            Ok(a) => Ok(SpecRmcpContent::Asf(a)),
            Err(e) => Err(e),
        }
    } else if class == MSG_CLASS_IPMI {
        if s.len() < 5 {
            Err(Error::PayloadTooSmall)
        } else if s[4] == AUTH_TYPE_RMCP_PLUS {
            Err(Error::UnsupportedProtocol)
        } else {
            match parse_ipmi15(s.skip(4), strict) {
                Ok(p) => Ok(SpecRmcpContent::Ipmi15(p)),
                Err(e) => Err(e),
            }
        }
    } else if strict {
        Err(Error::UnsupportedProtocol)
    } else {
        Ok(SpecRmcpContent::Other(s.skip(4)))
    }
}

/// Decoding of an RMCP frame.
pub open spec fn parse_rmcp(s: Seq<u8>, strict: bool) -> Result<SpecRmcpMessage, Error> {
    if s.len() < 4 {
        Err(Error::PayloadTooSmall)
    } else if strict && s[0] != RMCP_VERSION {
        Err(Error::InvalidRmcpVersionNumber(s[0]))
    } else if strict && s[1] != 0 {
        Err(Error::InvalidRmcpReservedByte(s[1]))
    } else {
        match parse_rmcp_content(s, strict) {
            Err(e) => Err(e),
            Ok(c) => Ok(
                SpecRmcpMessage {
                    version: s[0],
                    reserved: s[1],
                    sequence_number: s[2],
                    message_class: s[3] % 16,
                    data: c,
                },
            ),
        }
    }
}

impl<'a> View for RmcpContent<'a> {
    type V = SpecRmcpContent;

    open spec fn view(&self) -> SpecRmcpContent {
        match self {
            RmcpContent::Ack => SpecRmcpContent::Ack,
            RmcpContent::Asf(a) => SpecRmcpContent::Asf(a@),
            RmcpContent::Ipmi15(p) => SpecRmcpContent::Ipmi15(p@),
            RmcpContent::Oem { iana, data } => SpecRmcpContent::Oem { iana: *iana, data: data@ },
            RmcpContent::Other(d) => SpecRmcpContent::Other(d@),
        }
    }
}

impl<'a> View for RmcpMessage<'a> {
    type V = SpecRmcpMessage;

    open spec fn view(&self) -> SpecRmcpMessage {
        SpecRmcpMessage {
            version: self.version,
            reserved: self.reserved,
            sequence_number: self.sequence_number,
            message_class: self.message_class,
            data: self.data@,
        }
    }
}

impl<'a> RmcpMessage<'a> {
    /// An acknowledgement of the frame with sequence number `seqnum`.
    pub fn from_ack(seqnum: u8) -> (r: RmcpMessage<'a>)
        ensures
            r@ == (SpecRmcpMessage {
                version: RMCP_VERSION,
                reserved: 0,
                sequence_number: seqnum,
                message_class: MSG_CLASS_ASF,
                data: SpecRmcpContent::Ack,
            }),
    {
        RmcpMessage {
            version: RMCP_VERSION,
            reserved: 0x00,
            sequence_number: seqnum,
            message_class: MSG_CLASS_ASF,
            data: RmcpContent::Ack,
        }
    }

    /// A frame carrying an ASF message, which asks for no acknowledgement.
    pub fn from_asf(msg: AsfMessage<'a>) -> (r: RmcpMessage<'a>)
        ensures
            r@ == (SpecRmcpMessage {
                version: RMCP_VERSION,
                reserved: 0,
                sequence_number: 0xff,
                message_class: MSG_CLASS_ASF,
                data: SpecRmcpContent::Asf(msg@),
            }),
    {
        RmcpMessage {
            version: RMCP_VERSION,
            reserved: 0x00,
            sequence_number: 0xff,
            message_class: MSG_CLASS_ASF,
            data: RmcpContent::Asf(msg),
        }
    }

    /// Whether the frame fits in `n` bytes.
    pub fn fits(&self, n: usize) -> (r: bool)
        ensures
            r == (self@.size() <= n),
    {
        if n < 4 {
            return false;
        }
        match &self.data {
            RmcpContent::Ack => true,
            RmcpContent::Asf(a) => a.fits(n - 4),
            RmcpContent::Ipmi15(p) => p.fits(n - 4),
            RmcpContent::Oem { iana: _, data } => n >= 8 && data.len() <= n - 8,
            RmcpContent::Other(d) => d.len() <= n - 4,
        }
    }

    /// The configuration check that encoding makes.
    pub fn check(&self, strict: bool) -> (r: Result<(), Error>)
        ensures
            match self@.config_error(strict) {
                Some(e) => r == Err::<(), Error>(e),
                None => r is Ok,
            },
    {
        match &self.data {
            RmcpContent::Asf(a) => a.check(strict),
            RmcpContent::Ipmi15(p) => p.check(strict),
            _ => Ok(()),
        }
    }

    /// Writes the frame at `at`.
    pub fn write_at(&self, out: &mut [u8], at: usize)
        requires
            at + self@.size() <= old(out)@.len(),
            self@.config_error(false) is None,
        ensures
            final(out)@ == splice(old(out)@, at as int, self@.wire()),
    {
        let _n = out.len();
        let ghost o = old(out)@;
        let class = match self.data {
            RmcpContent::Ack => self.message_class % 128 + 128,
            _ => self.message_class,
        };
        put_u8(out, at, RMCP_VERSION);
        put_u8(out, at + 1, 0);
        put_u8(out, at + 2, self.sequence_number);
        put_u8(out, at + 3, class);
        let ghost h = seq![RMCP_VERSION, 0u8, self.sequence_number, class];
        proof {
            lemma_splice_adjacent(o, at as int, seq![RMCP_VERSION], seq![0u8]);
            lemma_splice_adjacent(o, at as int, seq![RMCP_VERSION] + seq![0u8], seq![self.sequence_number]);
            lemma_splice_adjacent(
                o,
                at as int,
                seq![RMCP_VERSION] + seq![0u8] + seq![self.sequence_number],
                seq![class],
            );
            assert(seq![RMCP_VERSION] + seq![0u8] + seq![self.sequence_number] + seq![class] =~= h);
        }
        match &self.data {
            RmcpContent::Ack => {
                assert(h + Seq::<u8>::empty() =~= h);
            },
            RmcpContent::Asf(a) => {
                a.write_at(out, at + 4);
                proof {
                    lemma_splice_adjacent(o, at as int, h, a@.wire());
                }
            },
            RmcpContent::Ipmi15(p) => {
                p.write_at(out, at + 4);
                proof {
                    lemma_splice_adjacent(o, at as int, h, p@.wire());
                }
            },
            RmcpContent::Oem { iana, data } => {
                put_le_u32(out, at + 4, *iana);
                put_bytes(out, at + 8, data);
                proof {
                    lemma_splice_adjacent(o, at as int, h, le4(*iana));
                    lemma_splice_adjacent(o, at as int, h + le4(*iana), data@);
                    assert(h + le4(*iana) + data@ =~= h + (le4(*iana) + data@));
                }
            },
            RmcpContent::Other(d) => {
                put_bytes(out, at + 4, d);
                proof {
                    lemma_splice_adjacent(o, at as int, h, d@);
                }
            },
        }
    }
}

impl<'a> BytesSerializationSized for RmcpMessage<'a> {
    open spec fn spec_size(&self) -> nat {
        self@.size()
    }

    fn size(&self) -> (r: usize) {
        match &self.data {
            RmcpContent::Ack => 4,
            RmcpContent::Asf(asf) => 4 + asf.size(),
            RmcpContent::Oem { iana: _, data } => 4 + 4 + data.len(),
            RmcpContent::Ipmi15(packet) => 4 + packet.size(),
            RmcpContent::Other(bytes) => 4 + bytes.len(),
        }
    }
}

impl<'a> BytesSerializable for RmcpMessage<'a> {
    open spec fn spec_encode(&self, strict: bool) -> Result<Seq<u8>, Error> {
        self@.encode(strict)
    }

    fn write_to_slice(&self, out: &mut [u8], strict: bool) -> (r: Result<(), Error>) {
        if !self.fits(out.len()) {
            return Err(Error::OutBufferTooSmall);
        }
        match self.check(strict) {
            Err(e) => Err(e),
            Ok(()) => {
                self.write_at(out, 0);
                Ok(())
            },
        }
    }
}

impl<'a> BytesDeserializable<'a> for RmcpMessage<'a> {
    open spec fn decodes_to(bytes: Seq<u8>, strict: bool, r: Result<Self, Error>) -> bool {
        match r {
            Ok(m) => parse_rmcp(bytes, strict) == Ok::<SpecRmcpMessage, Error>(m@),
            Err(e) => parse_rmcp(bytes, strict) == Err::<SpecRmcpMessage, Error>(e),
        }
    }

    fn from_bytes(bytes: &'a [u8], strict: bool) -> (r: Result<RmcpMessage<'a>, Error>) {
        let n = bytes.len();
        if n < 4 {
            return Err(Error::PayloadTooSmall);
        }
        let version = bytes[0];
        let reserved = bytes[1];
        if strict && version != RMCP_VERSION {
            return Err(Error::InvalidRmcpVersionNumber(version));
        }
        if strict && reserved != 0x00 {
            return Err(Error::InvalidRmcpReservedByte(reserved));
        }
        let sequence_number = bytes[2];
        let message_class = bytes[3] % 16;
        let data = if bytes[3] >= 128 {
            RmcpContent::Ack
        } else if message_class == MSG_CLASS_OEM {
            if n < 8 {
                return Err(Error::PayloadTooSmall);
            }
            let iana = read_le_u32(bytes, 4);
            let rest = vstd::slice::slice_subrange(bytes, 8, n);
            assert(rest@ =~= bytes@.skip(8));
            RmcpContent::Oem { iana, data: rest }
        } else if message_class == MSG_CLASS_ASF {
            let rest = vstd::slice::slice_subrange(bytes, 4, n);
            assert(rest@ =~= bytes@.skip(4));
            match AsfMessage::from_bytes(rest, strict) {
                Ok(a) => RmcpContent::Asf(a),
                Err(e) => return Err(e),
            }
        } else if message_class == MSG_CLASS_IPMI {
            if n < 5 {
                return Err(Error::PayloadTooSmall);
            }
            if bytes[4] == AUTH_TYPE_RMCP_PLUS {
                return Err(Error::UnsupportedProtocol);
            }
            let rest = vstd::slice::slice_subrange(bytes, 4, n);
            assert(rest@ =~= bytes@.skip(4));
            match Ipmi15Packet::from_bytes(rest, strict) {
                Ok(p) => RmcpContent::Ipmi15(p),
                Err(e) => return Err(e),
            }
        } else if strict {
            return Err(Error::UnsupportedProtocol);
        } else {
            let rest = vstd::slice::slice_subrange(bytes, 4, n);
            assert(rest@ =~= bytes@.skip(4));
            RmcpContent::Other(rest)
        };
        Ok(RmcpMessage { version, reserved, sequence_number, message_class, data })
    }
}

impl SpecRmcpMessage {
    /// Standard version and reserved byte, a four-bit class that names the content,
    /// and well-formed content; strict decoding refuses unknown classes.
    pub open spec fn well_formed(self) -> bool {
        &&& self.version == RMCP_VERSION
        &&& self.reserved == 0
        &&& self.message_class < 16
        &&& match self.data {
            SpecRmcpContent::Ack => true,
            SpecRmcpContent::Asf(a) => self.message_class == MSG_CLASS_ASF && a.well_formed(),
            SpecRmcpContent::Ipmi15(p) => self.message_class == MSG_CLASS_IPMI && p.well_formed(),
            SpecRmcpContent::Oem { .. } => self.message_class == MSG_CLASS_OEM,
            SpecRmcpContent::Other(_) => false,
        }
    }
}

/// Bytes that strict decoding reads in full and that encoding writes back as
/// they were: a class byte with no stray bits, an acknowledgement with nothing
/// after its header, and a zero reserved byte in an ASF message.
pub open spec fn canonical_rmcp(s: Seq<u8>) -> bool {
    &&& s.len() >= 4
    &&& (s[3] < 16 || (128 <= s[3] < 144 && s.len() == 4))
    &&& (s[3] == MSG_CLASS_ASF ==> s.len() > 10 && s[10] == 0)
}

/// Strictly encoding a well-formed RMCP frame and decoding the bytes gives the
/// frame back.
#[verifier::rlimit(60)]
pub proof fn lemma_rmcp_round_trip(r: SpecRmcpMessage)
    requires
        r.well_formed(),
    ensures
        r.encode(true) == Ok::<Seq<u8>, Error>(r.wire()),
        r.wire().len() == r.size(),
        parse_rmcp(r.wire(), true) == Ok::<SpecRmcpMessage, Error>(r),
{
    let s = r.wire();
    lemma_rmcp_content_round_trip(r);
    assert(s[3] % 16 == r.message_class);
}

#[verifier::rlimit(60)]
proof fn lemma_rmcp_content_round_trip(r: SpecRmcpMessage)
    requires
        r.well_formed(),
    ensures
        r.encode(true) == Ok::<Seq<u8>, Error>(r.wire()),
        r.wire().len() == r.size(),
        parse_rmcp_content(r.wire(), true) == Ok::<SpecRmcpContent, Error>(r.data),
{
    let s = r.wire();
    match r.data {
        SpecRmcpContent::Ack => {},
        SpecRmcpContent::Asf(a) => {
            lemma_asf_round_trip(a);
            assert(s.skip(4) =~= a.wire());
        },
        SpecRmcpContent::Ipmi15(p) => {
            lemma_ipmi15_round_trip(p);
            assert(s.skip(4) =~= p.wire());
        },
        SpecRmcpContent::Oem { iana, data } => {
            lemma_le_round_trip(iana);
            assert(s.subrange(4, 8) =~= le4(iana));
            assert(s.skip(8) =~= data);
        },
        SpecRmcpContent::Other(_) => {},
    }
}

/// Decoding canonical bytes strictly as an RMCP frame and encoding the result
/// strictly gives the same bytes.
#[verifier::rlimit(60)]
pub proof fn lemma_rmcp_bytes_round_trip(s: Seq<u8>)
    requires
        parse_rmcp(s, true) is Ok,
        canonical_rmcp(s),
    ensures
        parse_rmcp(s, true)->Ok_0.well_formed(),
        parse_rmcp(s, true)->Ok_0.encode(true) == Ok::<Seq<u8>, Error>(s),
{
    let r = parse_rmcp(s, true)->Ok_0;
    let c = parse_rmcp_content(s, true)->Ok_0;
    assert(r.data == c);
    lemma_rmcp_content_bytes_round_trip(s);
    assert(r.wire() =~= seq![s[0], s[1], s[2], s[3]] + c.bytes());
    assert(r.wire() =~= s);
}

#[verifier::rlimit(60)]
proof fn lemma_rmcp_content_bytes_round_trip(s: Seq<u8>)
    requires
        s.len() >= 4,
        parse_rmcp_content(s, true) is Ok,
        canonical_rmcp(s),
    ensures
        s[3] >= 128 ==> parse_rmcp_content(s, true)->Ok_0 is Ack && s.len() == 4,
        s[3] < 128 ==> s[3] < 16 && s.skip(4) == parse_rmcp_content(s, true)->Ok_0.bytes(),
        match parse_rmcp_content(s, true)->Ok_0 {
            SpecRmcpContent::Ack => true,
            SpecRmcpContent::Asf(a) => s[3] == MSG_CLASS_ASF && a.well_formed() && a.config_error(true) is None,
            SpecRmcpContent::Ipmi15(p) => s[3] == MSG_CLASS_IPMI && p.well_formed() && p.config_error(true) is None,
            SpecRmcpContent::Oem { .. } => s[3] == MSG_CLASS_OEM,
            SpecRmcpContent::Other(_) => false,
        },
{
    if s[3] < 128 && s[3] == MSG_CLASS_ASF {
        lemma_rmcp_asf_bytes(s);
    } else if s[3] < 128 && s[3] == MSG_CLASS_IPMI {
        lemma_rmcp_ipmi15_bytes(s);
    } else if s[3] < 128 && s[3] == MSG_CLASS_OEM {
        let c = parse_rmcp_content(s, true)->Ok_0;
        lemma_le_bytes_round_trip(s.subrange(4, 8));
        assert(s.skip(4) =~= le4(c->iana) + c->data);
    }
}

proof fn lemma_rmcp_asf_bytes(s: Seq<u8>)
    requires
        s.len() > 10,
        s[10] == 0,
        parse_asf(s.skip(4), true) is Ok,
    ensures
        parse_asf(s.skip(4), true)->Ok_0.well_formed(),
        parse_asf(s.skip(4), true)->Ok_0.config_error(true) is None,
        s.skip(4) == parse_asf(s.skip(4), true)->Ok_0.wire(),
{
    assert(s.skip(4)[6] == s[10]);
    lemma_asf_bytes_round_trip(s.skip(4));
}

proof fn lemma_rmcp_ipmi15_bytes(s: Seq<u8>)
    requires
        s.len() > 4,
        parse_ipmi15(s.skip(4), true) is Ok,
    ensures
        parse_ipmi15(s.skip(4), true)->Ok_0.well_formed(),
        parse_ipmi15(s.skip(4), true)->Ok_0.config_error(true) is None,
        s.skip(4) == parse_ipmi15(s.skip(4), true)->Ok_0.wire(),
{
    lemma_ipmi15_bytes_round_trip(s.skip(4));
}

/// Flipping any one bit of the IPMI message inside a decodable RMCP frame makes
/// decoding fail on a checksum, in either mode.
#[verifier::rlimit(60)]
pub proof fn lemma_rmcp_bit_flip_rejected(s: Seq<u8>, strict: bool, i: int, k: u8)
    requires
        parse_rmcp(s, strict) is Ok,
        s[3] < 128,
        s[3] % 16 == MSG_CLASS_IPMI,
        4 + session_header_len(s[4]) + 1 <= i < s.len(),
        k < 8,
    ensures
        parse_rmcp(s.update(i, s[i] ^ (1u8 << k)), strict) == Err::<SpecRmcpMessage, Error>(
            Error::InvalidChecksum,
        ),
{
    let u = s.skip(4);
    let t = s.update(i, s[i] ^ (1u8 << k));
    assert(u[0] == s[4]);
    lemma_ipmi15_bit_flip_rejected(u, strict, i - 4, k);
    assert(t.skip(4) =~= u.update(i - 4, u[i - 4] ^ (1u8 << k)));
    assert(t[0] == s[0] && t[1] == s[1] && t[3] == s[3] && t[4] == s[4]);
    assert(parse_rmcp_content(t, strict) == Err::<SpecRmcpContent, Error>(Error::InvalidChecksum));
}

} // verus!
