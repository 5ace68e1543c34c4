//! ASF presence ping/pong messages.
use vstd::prelude::*;
use crate::ipmi::{BytesDeserializable, BytesSerializable, BytesSerializationSized, Error};
use crate::ipmi::wire::{
    be4, be_u32, lemma_be_bytes_round_trip, lemma_be_round_trip, lemma_splice_adjacent, put_be_u32,
    put_bytes, put_u8, read_be_u32, splice,
};

verus! {

pub const ASF_IANA: u32 = 4542;

pub const ENTITY_IPMI: u8 = 0b10000000;
pub const ENTITY_ASF1: u8 = 0b00000001;

pub const INTERACTION_RMCP_SEC_EXT: u8 = 0b10000000;
pub const INTERACTION_DMTF_DASH: u8 = 0b00100000;

pub const ASF_MSG_TYPE_PING: u8 = 0x80;
pub const ASF_MSG_TYPE_PONG: u8 = 0x40;

/// Length of the payload of a pong.
pub const ASF_PONG_LEN: u8 = 10;

#[derive(PartialEq, Eq, Debug)]
pub struct AsfMessage<'a> {
    pub iana: u32,
    pub msg_type: u8,
    pub msg_tag: u8,
    pub data_len: u8,
    pub data: AsfData<'a>,
}

#[derive(PartialEq, Eq, Debug)]
pub enum AsfData<'a> {
    Other(&'a [u8]),
    Ping,
    Pong { iana: u32, oem_defined: u32, entities: u8, interactions: u8 },
}

/// An ASF message as the protocol sees it.
pub struct SpecAsfMessage {
    pub iana: u32,
    pub msg_type: u8,
    pub msg_tag: u8,
    pub data_len: u8,
    pub data: SpecAsfData,
}

/// The payload of an ASF message.
pub enum SpecAsfData {
    Other(Seq<u8>),
    Ping,
    Pong { iana: u32, oem_defined: u32, entities: u8, interactions: u8 },
}

impl SpecAsfData {
    pub open spec fn bytes(self) -> Seq<u8> {
        match self {
            SpecAsfData::Other(d) => d,
            SpecAsfData::Ping => Seq::empty(),
            SpecAsfData::Pong { iana, oem_defined, entities, interactions } => be4(iana) + be4(
                oem_defined,
            ) + seq![entities, interactions],
        }
    }
}

impl SpecAsfMessage {
    pub open spec fn size(self) -> nat {
        8 + self.data.bytes().len()
    }

    pub open spec fn config_error(self, strict: bool) -> Option<Error> {
        if strict && self.data.bytes().len() != self.data_len {
            Some(Error::InvalidConfiguration)
        } else if strict && ((self.msg_type == ASF_MSG_TYPE_PING && self.data_len != 0) || (
        self.msg_type == ASF_MSG_TYPE_PONG && self.data_len != ASF_PONG_LEN)) {
            Some(Error::InvalidConfiguration)
        } else {
            None
        }
    }

    pub open spec fn wire(self) -> Seq<u8> {
        be4(self.iana) + seq![self.msg_type, self.msg_tag, 0u8, self.data_len] + self.data.bytes()
    }

    pub open spec fn encode(self, strict: bool) -> Result<Seq<u8>, Error> {
        match self.config_error(strict) {
            Some(e) => Err(e),
            None => Ok(self.wire()),
        }
    }
}

/// Decoding of an ASF message.
pub open spec fn parse_asf(s: Seq<u8>, strict: bool) -> Result<SpecAsfMessage, Error> {
    if s.len() < 8 {
        Err(Error::PayloadTooSmall)
    } else if strict && s[7] + 8 != s.len() {
        Err(Error::ExpectedSizeMismatch)
    } else {
        let data = if s[4] == ASF_MSG_TYPE_PING {
            if strict && s[7] != 0 {
                Err(Error::ExpectedSizeMismatch)
            } else {
                Ok(SpecAsfData::Ping)
            }
        } else if s[4] == ASF_MSG_TYPE_PONG {
            if s.len() < 18 {
                Err(Error::PayloadTooSmall)
            } else if strict && s[7] > ASF_PONG_LEN {
                Err(Error::PayloadTooLarge)
            } else {
                Ok(
                    SpecAsfData::Pong {
                        iana: be_u32(s.subrange(8, 12)),
                        oem_defined: be_u32(s.subrange(12, 16)),
                        entities: s[16],
                        interactions: s[17],
                    },
                )
            }
        } else {
            Ok(SpecAsfData::Other(s.skip(8)))
        };
        match data {
            Err(e) => Err(e),
            Ok(d) => Ok(
                SpecAsfMessage {
                    iana: be_u32(s.take(4)),
                    msg_type: s[4],
                    msg_tag: s[5],
                    data_len: s[7],
                    data: d,
                },
            ),
        }
    }
}

impl<'a> View for AsfData<'a> {
    type V = SpecAsfData;

    open spec fn view(&self) -> SpecAsfData {
        match *self {
            AsfData::Other(d) => SpecAsfData::Other(d@),
            AsfData::Ping => SpecAsfData::Ping,
            AsfData::Pong { iana, oem_defined, entities, interactions } => SpecAsfData::Pong {
                iana,
                oem_defined,
                entities,
                interactions,
            },
        }
    }
}

impl<'a> View for AsfMessage<'a> {
    type V = SpecAsfMessage;

    open spec fn view(&self) -> SpecAsfMessage {
        SpecAsfMessage {
            iana: self.iana,
            msg_type: self.msg_type,
            msg_tag: self.msg_tag,
            data_len: self.data_len,
            data: self.data@,
        }
    }
}

impl<'a> AsfData<'a> {
    /// Whether the payload fits in `n` bytes.
    pub fn fits(&self, n: usize) -> (r: bool)
        ensures
            r == (self@.bytes().len() <= n),
    {
        match self {
            AsfData::Ping => true,
            AsfData::Pong { .. } => n >= 10,
            AsfData::Other(d) => d.len() <= n,
        }
    }

    /// Writes the payload at `at`.
    pub fn write_at(&self, out: &mut [u8], at: usize)
        requires
            at + self@.bytes().len() <= old(out)@.len(),
        ensures
            final(out)@ == splice(old(out)@, at as int, self@.bytes()),
    {
        let _n = out.len();
        let ghost o = old(out)@;
        match *self {
            AsfData::Ping => {
                assert(splice(o, at as int, Seq::empty()) =~= o);
            },
            AsfData::Pong { iana, oem_defined, entities, interactions } => {
                put_be_u32(out, at, iana);
                put_be_u32(out, at + 4, oem_defined);
                put_u8(out, at + 8, entities);
                put_u8(out, at + 9, interactions);
                proof {
                    lemma_splice_adjacent(o, at as int, be4(iana), be4(oem_defined));
                    lemma_splice_adjacent(o, at as int, be4(iana) + be4(oem_defined), seq![entities]);
                    lemma_splice_adjacent(
                        o,
                        at as int,
                        be4(iana) + be4(oem_defined) + seq![entities],
                        seq![interactions],
                    );
                    assert(be4(iana) + be4(oem_defined) + seq![entities] + seq![interactions]
                        =~= self@.bytes());
                }
            },
            AsfData::Other(d) => {
                put_bytes(out, at, d);
            },
        }
    }
}

impl<'a> BytesSerializationSized for AsfData<'a> {
    open spec fn spec_size(&self) -> nat {
        self@.bytes().len()
    }

    fn size(&self) -> (r: usize) {
        match self {
            AsfData::Ping => 0,
            AsfData::Pong { .. } => 10,
            AsfData::Other(bytes) => bytes.len(),
        }
    }
}

impl<'a> BytesSerializable for AsfData<'a> {
    open spec fn spec_encode(&self, strict: bool) -> Result<Seq<u8>, Error> {
        Ok(self@.bytes())
    }

    fn write_to_slice(&self, out: &mut [u8], _strict: bool) -> (r: Result<(), Error>) {
        if !self.fits(out.len()) {
            return Err(Error::OutBufferTooSmall);
        }
        self.write_at(out, 0);
        Ok(())
    }
}

impl<'a> AsfMessage<'a> {
    /// A presence ping.
    pub fn ping() -> (r: AsfMessage<'a>)
        ensures
            r@ == (SpecAsfMessage {
                iana: ASF_IANA,
                msg_type: ASF_MSG_TYPE_PING,
                msg_tag: 0,
                data_len: 0,
                data: SpecAsfData::Ping,
            }),
    {
        AsfMessage {
            iana: ASF_IANA,
            msg_type: ASF_MSG_TYPE_PING,
            msg_tag: 0,
            data_len: 0,
            data: AsfData::Ping,
        }
    }

    /// A presence pong carrying the given payload fields.
    pub fn pong(iana: u32, oem_defined: u32, entities: u8, interactions: u8) -> (r: AsfMessage<'a>)
        ensures
            r@ == (SpecAsfMessage {
                iana: ASF_IANA,
                msg_type: ASF_MSG_TYPE_PONG,
                msg_tag: 0,
                data_len: ASF_PONG_LEN,
                data: SpecAsfData::Pong { iana, oem_defined, entities, interactions },
            }),
    {
        AsfMessage {
            iana: ASF_IANA,
            msg_type: ASF_MSG_TYPE_PONG,
            msg_tag: 0,
            data_len: ASF_PONG_LEN,
            data: AsfData::Pong { iana, oem_defined, entities, interactions },
        }
    }

    pub fn is_ping(&self) -> (r: bool)
        ensures
            r == (self.data_len == 0 && self.msg_type == ASF_MSG_TYPE_PING),
    {
        self.data_len == 0 && self.msg_type == ASF_MSG_TYPE_PING
    }

    /// A pong declares the fixed pong payload length.
    pub fn is_pong(&self) -> (r: bool)
        ensures
            r == (self.data_len == ASF_PONG_LEN && self.msg_type == ASF_MSG_TYPE_PONG),
    {
        self.data_len == ASF_PONG_LEN && self.msg_type == ASF_MSG_TYPE_PONG
    }

    /// Whether the message fits in `n` bytes.
    pub fn fits(&self, n: usize) -> (r: bool)
        ensures
            r == (self@.size() <= n),
    {
        n >= 8 && self.data.fits(n - 8)
    }

    /// The configuration check that strict encoding makes.
    pub fn check(&self, strict: bool) -> (r: Result<(), Error>)
        ensures
            match self@.config_error(strict) {
                Some(e) => r == Err::<(), Error>(e),
                None => r is Ok,
            },
    {
        if strict && (!self.data.fits(255) || self.data.size() != self.data_len as usize) {
            Err(Error::InvalidConfiguration)
        } else if strict && ((self.msg_type == ASF_MSG_TYPE_PING && self.data_len != 0) || (
        self.msg_type == ASF_MSG_TYPE_PONG && self.data_len != ASF_PONG_LEN)) {
            Err(Error::InvalidConfiguration)
        } else {
            Ok(())
        }
    }

    /// Writes the message at `at`.
    pub fn write_at(&self, out: &mut [u8], at: usize)
        requires
            at + self@.size() <= old(out)@.len(),
        ensures
            final(out)@ == splice(old(out)@, at as int, self@.wire()),
    {
        let _n = out.len();
        let ghost o = old(out)@;
        put_be_u32(out, at, self.iana);
        put_u8(out, at + 4, self.msg_type);
        put_u8(out, at + 5, self.msg_tag);
        put_u8(out, at + 6, 0);
        put_u8(out, at + 7, self.data_len);
        let ghost h = be4(self.iana);
        proof {
            lemma_splice_adjacent(o, at as int, h, seq![self.msg_type]);
            lemma_splice_adjacent(o, at as int, h + seq![self.msg_type], seq![self.msg_tag]);
            lemma_splice_adjacent(o, at as int, h + seq![self.msg_type] + seq![self.msg_tag], seq![0u8]);
            lemma_splice_adjacent(
                o,
                at as int,
                h + seq![self.msg_type] + seq![self.msg_tag] + seq![0u8],
                seq![self.data_len],
            );
            assert(h + seq![self.msg_type] + seq![self.msg_tag] + seq![0u8] + seq![self.data_len]
                =~= h + seq![self.msg_type, self.msg_tag, 0u8, self.data_len]);
        }
        self.data.write_at(out, at + 8);
        proof {
            lemma_splice_adjacent(
                o,
                at as int,
                h + seq![self.msg_type, self.msg_tag, 0u8, self.data_len],
                self@.data.bytes(),
            );
        }
    }
}

impl<'a> BytesSerializationSized for AsfMessage<'a> {
    open spec fn spec_size(&self) -> nat {
        self@.size()
    }

    fn size(&self) -> (r: usize) {
        8 + self.data.size()
    }
}

impl<'a> BytesSerializable for AsfMessage<'a> {
    open spec fn spec_encode(&self, strict: bool) -> Result<Seq<u8>, Error> {
        self@.encode(strict)
    }

    fn write_to_slice(&self, out: &mut [u8], strict: bool) -> (r: Result<(), Error>) {
        if !self.fits(out.len()) {
            return Err(Error::OutBufferTooSmall);
        }
        match self.check(strict) {
            Err(e) => Err(e),
            Ok(()) => {
                self.write_at(out, 0);
                Ok(())
            },
        }
    }
}

impl<'a> BytesDeserializable<'a> for AsfMessage<'a> {
    open spec fn decodes_to(bytes: Seq<u8>, strict: bool, r: Result<Self, Error>) -> bool {
        match r {
            Ok(m) => parse_asf(bytes, strict) == Ok::<SpecAsfMessage, Error>(m@),
            Err(e) => parse_asf(bytes, strict) == Err::<SpecAsfMessage, Error>(e),
        }
    }

    fn from_bytes(bytes: &'a [u8], strict: bool) -> (r: Result<AsfMessage<'a>, Error>) {
        let n = bytes.len();
        if n < 8 {
            return Err(Error::PayloadTooSmall);
        }
        if strict && bytes[7] as usize + 8 != n {
            return Err(Error::ExpectedSizeMismatch);
        }
        let iana = read_be_u32(bytes, 0);
        assert(bytes@.subrange(0, 4) =~= bytes@.take(4));
        let msg_type = bytes[4];
        let msg_tag = bytes[5];
        let data_len = bytes[7];
        let data = if msg_type == ASF_MSG_TYPE_PING {
            if strict && data_len != 0 {
                return Err(Error::ExpectedSizeMismatch);
            }
            AsfData::Ping
        } else if msg_type == ASF_MSG_TYPE_PONG {
            if n < 18 {
                return Err(Error::PayloadTooSmall);
            }
            if strict && data_len > ASF_PONG_LEN {
                return Err(Error::PayloadTooLarge);
            }
            AsfData::Pong {
                iana: read_be_u32(bytes, 8),
                oem_defined: read_be_u32(bytes, 12),
                entities: bytes[16],
                interactions: bytes[17],
            }
        } else {
            let rest = vstd::slice::slice_subrange(bytes, 8, n);
            assert(rest@ =~= bytes@.skip(8));
            AsfData::Other(rest)
        };
        Ok(AsfMessage { iana, msg_type, msg_tag, data_len, data })
    }
}

impl SpecAsfMessage {
    /// The declared length matches the payload, and the payload kind matches the
    /// message type.
    pub open spec fn well_formed(self) -> bool {
        &&& self.data.bytes().len() == self.data_len
        &&& (self.msg_type == ASF_MSG_TYPE_PING <==> self.data is Ping)
        &&& (self.msg_type == ASF_MSG_TYPE_PONG <==> self.data is Pong)
    }
}

/// Strictly encoding a well-formed ASF message and decoding the bytes gives the
/// message back.
pub proof fn lemma_asf_round_trip(a: SpecAsfMessage)
    requires
        a.well_formed(),
    ensures
        a.encode(true) == Ok::<Seq<u8>, Error>(a.wire()),
        a.wire().len() == a.size(),
        parse_asf(a.wire(), true) == Ok::<SpecAsfMessage, Error>(a),
{
    let s = a.wire();
    lemma_be_round_trip(a.iana);
    assert(s.take(4) =~= be4(a.iana));
    match a.data {
        SpecAsfData::Pong { iana, oem_defined, entities, interactions } => {
            lemma_be_round_trip(iana);
            lemma_be_round_trip(oem_defined);
            assert(s.subrange(8, 12) =~= be4(iana));
            assert(s.subrange(12, 16) =~= be4(oem_defined));
        },
        SpecAsfData::Other(d) => {
            assert(s.skip(8) =~= d);
        },
        SpecAsfData::Ping => {},
    }
}

/// Decoding bytes strictly as an ASF message whose reserved byte is zero, and
/// encoding the result strictly, gives the same bytes.
pub proof fn lemma_asf_bytes_round_trip(s: Seq<u8>)
    requires
        parse_asf(s, true) is Ok,
        s[6] == 0,
    ensures
        parse_asf(s, true)->Ok_0.well_formed(),
        parse_asf(s, true)->Ok_0.size() == s.len(),
        parse_asf(s, true)->Ok_0.encode(true) == Ok::<Seq<u8>, Error>(s),
{
    let a = parse_asf(s, true)->Ok_0;
    lemma_be_bytes_round_trip(s.take(4));
    if s[4] == ASF_MSG_TYPE_PONG {
        lemma_be_bytes_round_trip(s.subrange(8, 12));
        lemma_be_bytes_round_trip(s.subrange(12, 16));
    }
    assert(a.wire() =~= s);
}

/// A length byte that disagrees with the bytes that follow it is refused in
/// strict mode; in lenient mode the message is accepted with its payload kept
/// byte for byte, and re-encodes to the same bytes when its reserved byte is zero.
pub proof fn lemma_asf_length_mismatch(s: Seq<u8>)
    requires
        s.len() >= 8,
        s[7] + 8 != s.len(),
        s[4] != ASF_MSG_TYPE_PING,
        s[4] != ASF_MSG_TYPE_PONG,
    ensures
        parse_asf(s, true) == Err::<SpecAsfMessage, Error>(Error::ExpectedSizeMismatch),
        parse_asf(s, false) is Ok,
        parse_asf(s, false)->Ok_0.data == SpecAsfData::Other(s.skip(8)),
        parse_asf(s, false)->Ok_0.data_len == s[7],
        s[6] == 0 ==> parse_asf(s, false)->Ok_0.encode(false) == Ok::<Seq<u8>, Error>(s),
{
    let a = parse_asf(s, false)->Ok_0;
    lemma_be_bytes_round_trip(s.take(4));
    assert(a.wire() =~= s.take(4) + seq![s[4], s[5], 0u8, s[7]] + s.skip(8));
    if s[6] == 0 {
        assert(a.wire() =~= s);
    }
}

} // verus!
