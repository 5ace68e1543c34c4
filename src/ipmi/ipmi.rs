//! The IPMI message frame and the IPMI 1.5 session wrapper around it.
use vstd::prelude::*;
use crate::ipmi::{BytesDeserializable, BytesSerializable, BytesSerializationSized, Error};
use crate::ipmi::wire::{
    checksum_holds, checksum_of, ipmi_cksum_verify, le4, le_u32, lemma_splice_adjacent,
    lemma_checksum_breaks, lemma_checksum_last, lemma_checksum_of_holds, lemma_le_bytes_round_trip,
    lemma_le_round_trip, lemma_seal_splice, put_bytes, put_le_u32, put_u8, read_le_u32, seal,
    splice,
};

verus! {

/// An IPMI message as the protocol sees it, with its payload as a byte sequence.
pub struct SpecIpmiMessage {
    pub peer_addr: u8,
    pub netfn: u8,
    pub peer_lun: u8,
    pub local_addr: u8,
    pub seqnum: u8,
    pub local_lun: u8,
    pub cmd: u8,
    pub data: SpecIpmiData,
}

/// The payload of an IPMI message.
pub enum SpecIpmiData {
    Request(Seq<u8>),
    Response(u8, Seq<u8>),
}

/// An IPMI 1.5 session packet as the protocol sees it.
pub struct SpecIpmi15Packet {
    pub auth_type: u8,
    pub seqnum: u32,
    pub session_id: u32,
    pub auth_code: Option<Seq<u8>>,
    pub payload_len: u8,
    pub data: SpecIpmiMessage,
}

#[derive(PartialEq, Eq, Debug)]
pub struct IpmiMessage<'a> {
    pub peer_addr: u8,
    pub netfn: u8,
    pub peer_lun: u8,
    pub local_addr: u8,
    pub seqnum: u8,
    pub local_lun: u8,
    pub cmd: u8,
    pub data: IpmiData<'a>,
}

#[derive(PartialEq, Eq, Debug)]
pub struct Ipmi15Packet<'a> {
    pub auth_type: u8,
    pub seqnum: u32,
    pub session_id: u32,
    pub auth_code: Option<&'a [u8]>,
    pub payload_len: u8,
    pub data: IpmiMessage<'a>,
}

#[derive(PartialEq, Eq, Debug)]
pub enum IpmiData<'a> {
    Request(&'a [u8]),
    Response(u8, &'a [u8]),
}

pub const IPMI_PRIV_LEVEL_CALLBACK: u8 = 1;
pub const IPMI_PRIV_LEVEL_USER: u8 = 2;
pub const IPMI_PRIV_LEVEL_OPERATOR: u8 = 3;
pub const IPMI_PRIV_LEVEL_ADMIN: u8 = 4;
pub const IPMI_PRIV_LEVEL_OEM: u8 = 5;

pub const IPMI_AUTH_TYPE_NONE: u8 = 0;
pub const IPMI_AUTH_TYPE_MD2: u8 = 1;
pub const IPMI_AUTH_TYPE_MD5: u8 = 2;
pub const IPMI_AUTH_TYPE_KEY: u8 = 3;
pub const IPMI_AUTH_TYPE_OEM: u8 = 4;

/// A six-bit field and a two-bit field packed into one byte.
pub open spec fn pack(hi: u8, lo: u8) -> u8 {
    ((hi % 64) * 4 + lo % 4) as u8
}

impl SpecIpmiData {
    pub open spec fn bytes(self) -> Seq<u8> {
        match self {
            SpecIpmiData::Request(d) => d,
            SpecIpmiData::Response(c, d) => seq![c] + d,
        }
    }
}

impl SpecIpmiMessage {
    pub open spec fn size(self) -> nat {
        self.data.bytes().len() + 7
    }

    pub open spec fn config_error(self, strict: bool) -> Option<Error> {
        if strict && (self.peer_lun > 3 || self.local_lun > 3 || self.seqnum > 63) {
            Some(Error::InvalidConfiguration)
        } else {
            None
        }
    }

    /// The block that the first checksum covers.
    pub open spec fn head(self) -> Seq<u8> {
        seq![self.peer_addr, pack(self.netfn, self.peer_lun)]
    }

    /// The block that the second checksum covers.
    pub open spec fn body(self) -> Seq<u8> {
        seq![self.local_addr, pack(self.seqnum, self.local_lun), self.cmd] + self.data.bytes()
    }

    pub open spec fn wire(self) -> Seq<u8> {
        self.head().push(checksum_of(self.head())) + self.body().push(checksum_of(self.body()))
    }

    pub open spec fn encode(self, strict: bool) -> Result<Seq<u8>, Error> {
        match self.config_error(strict) {
            Some(e) => Err(e),
            None => Ok(self.wire()),
        }
    }
}

/// Decoding of an IPMI message; the whole input is the frame.
pub open spec fn parse_ipmi_message(s: Seq<u8>) -> Result<SpecIpmiMessage, Error> {
    if s.len() < 7 {
        Err(Error::PayloadTooSmall)
    } else if !checksum_holds(s.take(3)) || !checksum_holds(s.skip(3)) {
        Err(Error::InvalidChecksum)
    } else if (s[1] / 4) % 2 == 1 && s.len() < 8 {
        Err(Error::PayloadTooSmall)
    } else {
        Ok(
            SpecIpmiMessage {
                peer_addr: s[0],
                netfn: s[1] / 4,
                peer_lun: s[1] % 4,
                local_addr: s[3],
                seqnum: s[4] / 4,
                local_lun: s[4] % 4,
                cmd: s[5],
                data: if (s[1] / 4) % 2 == 0 {
                    SpecIpmiData::Request(s.subrange(6, s.len() - 1))
                } else {
                    SpecIpmiData::Response(s[6], s.subrange(7, s.len() - 1))
                },
            },
        )
    }
}

impl SpecIpmi15Packet {
    pub open spec fn size(self) -> nat {
        (if self.auth_code is Some { 26nat } else { 10nat }) + self.data.size()
    }

    pub open spec fn config_error(self, strict: bool) -> Option<Error> {
        if self.auth_code is Some && self.auth_code->0.len() != 16 {
            Some(Error::InvalidConfiguration)
        } else if strict && (self.data.size() > 255 || self.data.size() != self.payload_len) {
            Some(Error::InvalidConfiguration)
        } else {
            self.data.config_error(strict)
        }
    }

    pub open spec fn wire(self) -> Seq<u8> {
        seq![self.auth_type] + le4(self.seqnum) + le4(self.session_id) + match self.auth_code {
            Some(c) => c,
            None => Seq::empty(),
        } + seq![self.payload_len] + self.data.wire()
    }

    pub open spec fn encode(self, strict: bool) -> Result<Seq<u8>, Error> {
        match self.config_error(strict) {
            Some(e) => Err(e),
            None => Ok(self.wire()),
        }
    }
}

/// Offset of the payload length byte for a given auth type.
pub open spec fn session_header_len(auth_type: u8) -> int {
    if auth_type != IPMI_AUTH_TYPE_NONE { 25 } else { 9 }
}

/// Decoding of an IPMI 1.5 session packet.
pub open spec fn parse_ipmi15(s: Seq<u8>, strict: bool) -> Result<SpecIpmi15Packet, Error> {
    if s.len() < 17 {
        Err(Error::PayloadTooSmall)
    } else if strict && s[0] > 5 {
        Err(Error::UndefinedAuthType(s[0]))
    } else if s[0] != IPMI_AUTH_TYPE_NONE && s.len() < 29 {
        Err(Error::PayloadTooSmall)
    } else {
        let h = session_header_len(s[0]);
        match parse_ipmi_message(s.skip(h + 1)) {
            Err(e) => Err(e),
            Ok(m) => if m.size() != s[h] as nat {
                Err(Error::ExpectedSizeMismatch)
            } else {
                Ok(
                    SpecIpmi15Packet {
                        auth_type: s[0],
                        seqnum: le_u32(s.subrange(1, 5)),
                        session_id: le_u32(s.subrange(5, 9)),
                        auth_code: if s[0] != IPMI_AUTH_TYPE_NONE {
                            Some(s.subrange(9, 25))
                        } else {
                            None
                        },
                        payload_len: s[h],
                        data: m,
                    },
                )
            },
        }
    }
}

impl<'a> View for IpmiData<'a> {
    type V = SpecIpmiData;

    open spec fn view(&self) -> SpecIpmiData {
        match *self {
            IpmiData::Request(d) => SpecIpmiData::Request(d@),
            IpmiData::Response(c, d) => SpecIpmiData::Response(c, d@),
        }
    }
}

impl<'a> View for IpmiMessage<'a> {
    type V = SpecIpmiMessage;

    open spec fn view(&self) -> SpecIpmiMessage {
        SpecIpmiMessage {
            peer_addr: self.peer_addr,
            netfn: self.netfn,
            peer_lun: self.peer_lun,
            local_addr: self.local_addr,
            seqnum: self.seqnum,
            local_lun: self.local_lun,
            cmd: self.cmd,
            data: self.data@,
        }
    }
}

impl<'a> View for Ipmi15Packet<'a> {
    type V = SpecIpmi15Packet;

    open spec fn view(&self) -> SpecIpmi15Packet {
        SpecIpmi15Packet {
            auth_type: self.auth_type,
            seqnum: self.seqnum,
            session_id: self.session_id,
            auth_code: match self.auth_code {
                Some(c) => Some(c@),
                None => None,
            },
            payload_len: self.payload_len,
            data: self.data@,
        }
    }
}

impl<'a> IpmiMessage<'a> {
    /// Address of the responder: the peer for a request, the local side for a response.
    pub fn rs_addr(&self) -> (r: u8)
        ensures
            r == if self.netfn % 2 == 0 { self.peer_addr } else { self.local_addr },
    {
        if self.netfn % 2 == 0 {
            self.peer_addr
        } else {
            self.local_addr
        }
    }

    /// Address of the requester: the local side for a request, the peer for a response.
    pub fn rq_addr(&self) -> (r: u8)
        ensures
            r == if self.netfn % 2 == 0 { self.local_addr } else { self.peer_addr },
    {
        if self.netfn % 2 == 0 {
            self.local_addr
        } else {
            self.peer_addr
        }
    }

    /// LUN of the responder.
    pub fn rs_lun(&self) -> (r: u8)
        ensures
            r == if self.netfn % 2 == 0 { self.peer_lun } else { self.local_lun },
    {
        if self.netfn % 2 == 0 {
            self.peer_lun
        } else {
            self.local_lun
        }
    }

    /// LUN of the requester.
    pub fn rq_lun(&self) -> (r: u8)
        ensures
            r == if self.netfn % 2 == 0 { self.local_lun } else { self.peer_lun },
    {
        if self.netfn % 2 == 0 {
            self.local_lun
        } else {
            self.peer_lun
        }
    }

    /// Whether the message fits in `n` bytes.
    pub fn fits(&self, n: usize) -> (r: bool)
        ensures
            r == (self@.size() <= n),
    {
        match self.data {
            IpmiData::Request(d) => n >= 7 && n - 7 >= d.len(),
            IpmiData::Response(_, d) => n >= 8 && n - 8 >= d.len(),
        }
    }

    /// The configuration check that strict encoding makes.
    pub fn check(&self, strict: bool) -> (r: Result<(), Error>)
        ensures
            match self@.config_error(strict) {
                Some(e) => r == Err::<(), Error>(e),
                None => r is Ok,
            },
    {
        if strict && (self.peer_lun > 3 || self.local_lun > 3 || self.seqnum > 63) {
            Err(Error::InvalidConfiguration)
        } else {
            Ok(())
        }
    }

    /// Writes the frame at `at`, both checksums included.
    pub fn write_at(&self, out: &mut [u8], at: usize)
        requires
            at + self@.size() <= old(out)@.len(),
        ensures
            final(out)@ == splice(old(out)@, at as int, self@.wire()),
    {
        let _n = out.len();
        let ghost o = old(out)@;
        let ghost m = self@;
        self.put_head(out, at);
        self.put_body(out, at + 3);
        proof {
            lemma_splice_adjacent(o, at as int, m.head().push(checksum_of(m.head())), m.body().push(checksum_of(m.body())));
        }
    }

    fn put_head(&self, out: &mut [u8], at: usize)
        requires
            at + self@.size() <= old(out)@.len(),
        ensures
            final(out)@ == splice(old(out)@, at as int, self@.head().push(checksum_of(self@.head()))),
    {
        let _n = out.len();
        let ghost o = old(out)@;
        let b1 = ((self.netfn % 64) * 4 + self.peer_lun % 4) as u8;
        put_u8(out, at, self.peer_addr);
        put_u8(out, at + 1, b1);
        proof {
            lemma_splice_adjacent(o, at as int, seq![self.peer_addr], seq![b1]);
            assert(seq![self.peer_addr] + seq![b1] =~= self@.head());
        }
        seal(out, at, 2);
        proof {
            lemma_seal_splice(o, at as int, self@.head());
        }
    }

    fn put_body(&self, out: &mut [u8], at: usize)
        requires
            at + self@.size() - 3 <= old(out)@.len(),
        ensures
            final(out)@ == splice(old(out)@, at as int, self@.body().push(checksum_of(self@.body()))),
    {
        let _n = out.len();
        let ghost o = old(out)@;
        let b4 = ((self.seqnum % 64) * 4 + self.local_lun % 4) as u8;
        put_u8(out, at, self.local_addr);
        put_u8(out, at + 1, b4);
        put_u8(out, at + 2, self.cmd);
        proof {
            lemma_splice_adjacent(o, at as int, seq![self.local_addr], seq![b4]);
            lemma_splice_adjacent(o, at as int, seq![self.local_addr] + seq![b4], seq![self.cmd]);
            assert(seq![self.local_addr] + seq![b4] + seq![self.cmd] =~= seq![self.local_addr, b4, self.cmd]);
        }
        let ghost p = seq![self.local_addr, b4, self.cmd];
        let n = match self.data {
            IpmiData::Request(d) => {
                put_bytes(out, at + 3, d);
                proof {
                    lemma_splice_adjacent(o, at as int, p, d@);
                }
                3 + d.len()
            },
            IpmiData::Response(c, d) => {
                put_u8(out, at + 3, c);
                put_bytes(out, at + 4, d);
                proof {
                    lemma_splice_adjacent(o, at as int, p, seq![c]);
                    lemma_splice_adjacent(o, at as int, p + seq![c], d@);
                    assert(p + seq![c] + d@ =~= p + (seq![c] + d@));
                }
                4 + d.len()
            },
        };
        seal(out, at, n);
        proof {
            lemma_seal_splice(o, at as int, self@.body());
        }
    }
}

impl<'a> BytesSerializationSized for IpmiMessage<'a> {
    open spec fn spec_size(&self) -> nat {
        self@.size()
    }

    fn size(&self) -> (r: usize) {
        match self.data {
            IpmiData::Request(d) => d.len() + 7,
            IpmiData::Response(_, d) => d.len() + 8,
        }
    }
}

impl<'a> BytesSerializable for IpmiMessage<'a> {
    open spec fn spec_encode(&self, strict: bool) -> Result<Seq<u8>, Error> {
        self@.encode(strict)
    }

    fn write_to_slice(&self, out: &mut [u8], strict: bool) -> (r: Result<(), Error>) {
        if !self.fits(out.len()) {
            return Err(Error::OutBufferTooSmall);
        }
        match self.check(strict) {
            Err(e) => Err(e),
            Ok(()) => {
                self.write_at(out, 0);
                Ok(())
            },
        }
    }
}

impl<'a> BytesDeserializable<'a> for IpmiMessage<'a> {
    open spec fn decodes_to(bytes: Seq<u8>, strict: bool, r: Result<Self, Error>) -> bool {
        match r {
            Ok(m) => parse_ipmi_message(bytes) == Ok::<SpecIpmiMessage, Error>(m@),
            Err(e) => parse_ipmi_message(bytes) == Err::<SpecIpmiMessage, Error>(e),
        }
    }

    fn from_bytes(bytes: &'a [u8], _strict: bool) -> (r: Result<IpmiMessage<'a>, Error>) {
        let n = bytes.len();
        if n < 7 {
            return Err(Error::PayloadTooSmall);
        }
        proof {
            assert(bytes@.subrange(0, 3) =~= bytes@.take(3));
            assert(bytes@.subrange(3, n as int) =~= bytes@.skip(3));
        }
        if !ipmi_cksum_verify(vstd::slice::slice_subrange(bytes, 0, 3)) || !ipmi_cksum_verify(
            vstd::slice::slice_subrange(bytes, 3, n),
        ) {
            return Err(Error::InvalidChecksum);
        }
        let netfn = bytes[1] / 4;
        if netfn % 2 == 1 && n < 8 {
            return Err(Error::PayloadTooSmall);
        }
        let data = if netfn % 2 == 0 {
            IpmiData::Request(vstd::slice::slice_subrange(bytes, 6, n - 1))
        } else {
            IpmiData::Response(bytes[6], vstd::slice::slice_subrange(bytes, 7, n - 1))
        };
        Ok(
            IpmiMessage {
                peer_addr: bytes[0],
                netfn,
                peer_lun: bytes[1] % 4,
                local_addr: bytes[3],
                seqnum: bytes[4] / 4,
                local_lun: bytes[4] % 4,
                cmd: bytes[5],
                data,
            },
        )
    }
}

impl<'a> Ipmi15Packet<'a> {
    /// Whether the packet fits in `n` bytes.
    pub fn fits(&self, n: usize) -> (r: bool)
        ensures
            r == (self@.size() <= n),
    {
        let h: usize = if self.auth_code.is_some() { 26 } else { 10 };
        n >= h && self.data.fits(n - h)
    }

    /// The configuration check that encoding makes.
    pub fn check(&self, strict: bool) -> (r: Result<(), Error>)
        ensures
            match self@.config_error(strict) {
                Some(e) => r == Err::<(), Error>(e),
                None => r is Ok,
            },
    {
        if let Some(c) = self.auth_code {
            if c.len() != 16 {
                return Err(Error::InvalidConfiguration);
            }
        }
        if strict {
            if !self.data.fits(255) {
                return Err(Error::InvalidConfiguration);
            }
            if self.data.size() != self.payload_len as usize {
                return Err(Error::InvalidConfiguration);
            }
        }
        self.data.check(strict)
    }

    /// Writes the packet at `at`.
    pub fn write_at(&self, out: &mut [u8], at: usize)
        requires
            at + self@.size() <= old(out)@.len(),
            self@.config_error(false) is None,
        ensures
            final(out)@ == splice(old(out)@, at as int, self@.wire()),
    {
        let _n = out.len();
        let ghost o = old(out)@;
        put_u8(out, at, self.auth_type);
        put_le_u32(out, at + 1, self.seqnum);
        put_le_u32(out, at + 5, self.session_id);
        proof {
            lemma_splice_adjacent(o, at as int, seq![self.auth_type], le4(self.seqnum));
            lemma_splice_adjacent(o, at as int, seq![self.auth_type] + le4(self.seqnum), le4(self.session_id));
        }
        let ghost p = seq![self.auth_type] + le4(self.seqnum) + le4(self.session_id);
        let next: usize = match self.auth_code {
            Some(c) => {
                put_bytes(out, at + 9, c);
                proof {
                    lemma_splice_adjacent(o, at as int, p, c@);
                }
                at + 25
            },
            None => {
                assert(p + Seq::<u8>::empty() =~= p);
                at + 9
            },
        };
        let ghost q = p + match self@.auth_code {
            Some(c) => c,
            None => Seq::<u8>::empty(),
        };
        put_u8(out, next, self.payload_len);
        proof {
            lemma_splice_adjacent(o, at as int, q, seq![self.payload_len]);
        }
        self.data.write_at(out, next + 1);
        proof {
            lemma_splice_adjacent(o, at as int, q + seq![self.payload_len], self@.data.wire());
        }
    }

    /// Decodes an IPMI 1.5 session packet, its embedded message included.
    pub fn from_bytes(bytes: &'a [u8], strict: bool) -> (r: Result<Ipmi15Packet<'a>, Error>)
        ensures
            match r {
                Ok(p) => parse_ipmi15(bytes@, strict) == Ok::<SpecIpmi15Packet, Error>(p@),
                Err(e) => parse_ipmi15(bytes@, strict) == Err::<SpecIpmi15Packet, Error>(e),
            },
    {
        let n = bytes.len();
        if n < 17 {
            return Err(Error::PayloadTooSmall);
        }
        if strict && bytes[0] > 5 {
            return Err(Error::UndefinedAuthType(bytes[0]));
        }
        let auth_type = bytes[0];
        let seqnum = read_le_u32(bytes, 1);
        let session_id = read_le_u32(bytes, 5);
        let mut auth_code: Option<&'a [u8]> = None;
        let mut h: usize = 9;
        if auth_type != IPMI_AUTH_TYPE_NONE {
            if n < 29 {
                return Err(Error::PayloadTooSmall);
            }
            auth_code = Some(vstd::slice::slice_subrange(bytes, 9, 25));
            h = 25;
        }
        let payload_len = bytes[h];
        let rest = vstd::slice::slice_subrange(bytes, h + 1, n);
        assert(rest@ =~= bytes@.skip(h + 1));
        let data = match IpmiMessage::from_bytes(rest, strict) {
            Ok(m) => m,
            Err(e) => return Err(e),
        };
        if !data.fits(payload_len as usize) || data.size() != payload_len as usize {
            return Err(Error::ExpectedSizeMismatch);
        }
        Ok(Ipmi15Packet { auth_type, seqnum, session_id, auth_code, payload_len, data })
    }
}

impl<'a> BytesSerializationSized for Ipmi15Packet<'a> {
    open spec fn spec_size(&self) -> nat {
        self@.size()
    }

    fn size(&self) -> (r: usize) {
        match self.auth_code {
            Some(_) => 26 + self.data.size(),
            None => 10 + self.data.size(),
        }
    }
}

impl<'a> BytesSerializable for Ipmi15Packet<'a> {
    open spec fn spec_encode(&self, strict: bool) -> Result<Seq<u8>, Error> {
        self@.encode(strict)
    }

    fn write_to_slice(&self, out: &mut [u8], strict: bool) -> (r: Result<(), Error>) {
        if !self.fits(out.len()) {
            return Err(Error::OutBufferTooSmall);
        }
        match self.check(strict) {
            Err(e) => Err(e),
            Ok(()) => {
                self.write_at(out, 0);
                Ok(())
            },
        }
    }
}

impl SpecIpmiMessage {
    /// Every field fits its packed width and the payload kind follows the net function.
    pub open spec fn well_formed(self) -> bool {
        &&& self.netfn < 64
        &&& self.peer_lun < 4
        &&& self.local_lun < 4
        &&& self.seqnum < 64
        &&& (self.data is Request <==> self.netfn % 2 == 0)
    }
}

impl SpecIpmi15Packet {
    /// A defined auth type, an auth code exactly when one is announced, and a
    /// payload length that matches the embedded message.
    pub open spec fn well_formed(self) -> bool {
        &&& self.auth_type <= 5
        &&& (self.auth_type == IPMI_AUTH_TYPE_NONE <==> self.auth_code is None)
        &&& (self.auth_code is Some ==> self.auth_code->0.len() == 16)
        &&& self.data.well_formed()
        &&& self.data.size() == self.payload_len
    }
}

proof fn lemma_pack(hi: u8, lo: u8)
    requires
        hi < 64,
        lo < 4,
    ensures
        pack(hi, lo) / 4 == hi,
        pack(hi, lo) % 4 == lo,
{
}

proof fn lemma_unpack(b: u8)
    ensures
        pack(b / 4, b % 4) == b,
        b / 4 < 64,
        b % 4 < 4,
{
}

/// Strictly encoding a well-formed IPMI message and decoding the bytes gives the
/// message back.
pub proof fn lemma_ipmi_message_round_trip(m: SpecIpmiMessage)
    requires
        m.well_formed(),
    ensures
        m.encode(true) == Ok::<Seq<u8>, Error>(m.wire()),
        m.wire().len() == m.size(),
        parse_ipmi_message(m.wire()) == Ok::<SpecIpmiMessage, Error>(m),
{
    let s = m.wire();
    let h = m.head();
    let b = m.body();
    lemma_checksum_of_holds(h);
    lemma_checksum_of_holds(b);
    assert(s.take(3) =~= h.push(checksum_of(h)));
    assert(s.skip(3) =~= b.push(checksum_of(b)));
    lemma_pack(m.netfn, m.peer_lun);
    lemma_pack(m.seqnum, m.local_lun);
    match m.data {
        SpecIpmiData::Request(d) => {
            assert(s.subrange(6, s.len() - 1) =~= d);
        },
        SpecIpmiData::Response(c, d) => {
            assert(s[6] == c);
            assert(s.subrange(7, s.len() - 1) =~= d);
        },
    }
}

/// Decoding bytes strictly as an IPMI message and encoding the result strictly
/// gives the same bytes.
pub proof fn lemma_ipmi_message_bytes_round_trip(s: Seq<u8>)
    requires
        parse_ipmi_message(s) is Ok,
    ensures
        parse_ipmi_message(s)->Ok_0.well_formed(),
        parse_ipmi_message(s)->Ok_0.size() == s.len(),
        parse_ipmi_message(s)->Ok_0.encode(true) == Ok::<Seq<u8>, Error>(s),
{
    let m = parse_ipmi_message(s)->Ok_0;
    lemma_unpack(s[1]);
    lemma_unpack(s[4]);
    lemma_checksum_last(s.take(3));
    lemma_checksum_last(s.skip(3));
    assert(s.take(3).drop_last() =~= m.head());
    assert(s.skip(3).drop_last() =~= m.body());
    assert(m.wire() =~= s);
}

/// Strictly encoding a well-formed IPMI 1.5 packet and decoding the bytes gives
/// the packet back.
pub proof fn lemma_ipmi15_round_trip(p: SpecIpmi15Packet)
    requires
        p.well_formed(),
    ensures
        p.encode(true) == Ok::<Seq<u8>, Error>(p.wire()),
        p.wire().len() == p.size(),
        parse_ipmi15(p.wire(), true) == Ok::<SpecIpmi15Packet, Error>(p),
{
    lemma_ipmi_message_round_trip(p.data);
    let s = p.wire();
    let h = session_header_len(p.auth_type);
    assert(s.skip(h + 1) =~= p.data.wire());
    lemma_le_round_trip(p.seqnum);
    lemma_le_round_trip(p.session_id);
    assert(s.subrange(1, 5) =~= le4(p.seqnum));
    assert(s.subrange(5, 9) =~= le4(p.session_id));
    if p.auth_code is Some {
        assert(s.subrange(9, 25) =~= p.auth_code->0);
    }
    assert(s[h] == p.payload_len);
}

/// Decoding bytes strictly as an IPMI 1.5 packet and encoding the result
/// strictly gives the same bytes.
pub proof fn lemma_ipmi15_bytes_round_trip(s: Seq<u8>)
    requires
        parse_ipmi15(s, true) is Ok,
    ensures
        parse_ipmi15(s, true)->Ok_0.well_formed(),
        parse_ipmi15(s, true)->Ok_0.size() == s.len(),
        parse_ipmi15(s, true)->Ok_0.encode(true) == Ok::<Seq<u8>, Error>(s),
{
    let p = parse_ipmi15(s, true)->Ok_0;
    let h = session_header_len(s[0]);
    lemma_ipmi_message_bytes_round_trip(s.skip(h + 1));
    lemma_le_bytes_round_trip(s.subrange(1, 5));
    lemma_le_bytes_round_trip(s.subrange(5, 9));
    assert(p.wire() =~= s);
}

/// Flipping any one bit of a decodable IPMI message makes decoding fail on a
/// checksum.
pub proof fn lemma_bit_flip_rejected(s: Seq<u8>, i: int, k: u8)
    requires
        parse_ipmi_message(s) is Ok,
        0 <= i < s.len(),
        k < 8,
    ensures
        parse_ipmi_message(s.update(i, s[i] ^ (1u8 << k))) == Err::<SpecIpmiMessage, Error>(
            Error::InvalidChecksum,
        ),
{
    let b = s[i];
    let v = b ^ (1u8 << k);
    assert(v != b) by (bit_vector)
        requires
            v == b ^ (1u8 << k),
            k < 8,
    ;
    let t = s.update(i, v);
    if i < 3 {
        assert(t.take(3) =~= s.take(3).update(i, v));
        lemma_checksum_breaks(s.take(3), i, v);
    } else {
        assert(t.skip(3) =~= s.skip(3).update(i - 3, v));
        lemma_checksum_breaks(s.skip(3), i - 3, v);
    }
}

/// Flipping any one bit of the embedded message of a decodable IPMI 1.5 packet
/// makes decoding fail on a checksum, in either mode.
pub proof fn lemma_ipmi15_bit_flip_rejected(s: Seq<u8>, strict: bool, i: int, k: u8)
    requires
        parse_ipmi15(s, strict) is Ok,
        session_header_len(s[0]) + 1 <= i < s.len(),
        k < 8,
    ensures
        parse_ipmi15(s.update(i, s[i] ^ (1u8 << k)), strict) == Err::<SpecIpmi15Packet, Error>(
            Error::InvalidChecksum,
        ),
{
    let h = session_header_len(s[0]);
    let t = s.update(i, s[i] ^ (1u8 << k));
    lemma_bit_flip_rejected(s.skip(h + 1), i - h - 1, k);
    assert(t.skip(h + 1) =~= s.skip(h + 1).update(i - h - 1, s.skip(h + 1)[i - h - 1] ^ (1u8
        << k)));
    assert(t[0] == s[0]);
}

} // verus!
