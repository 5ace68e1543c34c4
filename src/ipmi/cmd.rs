//! The catalog of session-management commands and their payloads.
use vstd::prelude::*;
use crate::ipmi::{BytesDeserializable, BytesSerializable, BytesSerializationSized, Error};
use crate::ipmi::ipmi::{IpmiData, IpmiMessage, SpecIpmiData, SpecIpmiMessage};
use crate::ipmi::wire::{
    le4, lemma_le_bytes_round_trip, lemma_le_round_trip, put_bytes, put_le_u32, put_u8,
    read_le_u32, splice,
};

verus! {

/// The application net function, shared by the session commands.
pub const NETFN_APP: u8 = 0x06;

pub const CMD_GET_CHANNEL_AUTH_CAP: u8 = 0x38;
pub const CMD_GET_SESSION_CHALLENGE: u8 = 0x39;
pub const CMD_ACTIVATE_SESSION: u8 = 0x3a;
pub const CMD_SET_SESSION_PRIV_LEVEL: u8 = 0x3b;

/// The request net function that a message's net function belongs to.
pub open spec fn request_netfn(netfn: u8) -> u8 {
    if netfn % 2 == 0 {
        netfn
    } else {
        (netfn - 1) as u8
    }
}

/// `r` is what recovering a command of type `C` from `m` gives.
pub open spec fn recovers<C: IpmiCommand>(m: SpecIpmiMessage, r: Option<C>) -> bool {
    &&& request_netfn(m.netfn) == C::spec_netfn() && m.cmd == C::spec_cmd() ==> C::recovered(
        m.data,
        r,
    )
    &&& !(request_netfn(m.netfn) == C::spec_netfn() && m.cmd == C::spec_cmd()) ==> r is None
}

/// A command is recovered only from a message with its command code and, for a
/// request, its net function, or for a response, the net function one above it.
pub proof fn lemma_netfn_parity<C: IpmiCommand>(m: SpecIpmiMessage, r: Option<C>)
    requires
        m.data is Request <==> m.netfn % 2 == 0,
        recovers(m, r),
        r is Some,
    ensures
        m.cmd == C::spec_cmd(),
        m.data is Request ==> C::spec_netfn() == m.netfn,
        m.data is Response ==> C::spec_netfn() == m.netfn - 1,
{
}

/// A command recovered from an IPMI message by its net function and command code.
pub trait IpmiCommand: core::marker::Sized {
    /// The request net function of the command.
    spec fn spec_netfn() -> u8;

    /// The command code.
    spec fn spec_cmd() -> u8;

    /// `r` is what the payload `data` gives, parsed strictly.
    spec fn recovered(data: SpecIpmiData, r: Option<Self>) -> bool;

    fn from_data(data: &IpmiData) -> (r: Option<Self>)
        ensures
            Self::recovered(data@, r),
    ;

    fn from_message(msg: &IpmiMessage) -> (r: Option<Self>)
        ensures
            request_netfn(msg.netfn) == Self::spec_netfn() && msg.cmd == Self::spec_cmd()
                ==> Self::recovered(msg.data@, r),
            !(request_netfn(msg.netfn) == Self::spec_netfn() && msg.cmd == Self::spec_cmd())
                ==> r is None,
    ;
}

#[derive(Debug, PartialEq, Eq)]
pub struct GetChannelAuthCapRequest {
    pub channel_number: u8,
    pub max_priv_level: u8,
}

impl GetChannelAuthCapRequest {
    /// The fields in declaration order, as they stand on the wire.
    pub open spec fn wire(&self) -> Seq<u8> {
        seq![self.channel_number] + seq![self.max_priv_level]
    }
}

impl BytesSerializationSized for GetChannelAuthCapRequest {
    open spec fn spec_size(&self) -> nat {
        2
    }

    fn size(&self) -> (r: usize) {
        2
    }
}

impl BytesSerializable for GetChannelAuthCapRequest {
    open spec fn spec_encode(&self, strict: bool) -> Result<Seq<u8>, Error> {
        Ok(self.wire())
    }

    fn write_to_slice(&self, out: &mut [u8], _strict: bool) -> (r: Result<(), Error>) {
        if out.len() < 2 {
            return Err(Error::OutBufferTooSmall);
        }
        let ghost o = out@;
        put_u8(out, 0, self.channel_number);
        put_u8(out, 1, self.max_priv_level);
        assert(out@ =~= splice(o, 0, self.wire()));
        Ok(())
    }
}

impl<'a> BytesDeserializable<'a> for GetChannelAuthCapRequest {
    open spec fn decodes_to(bytes: Seq<u8>, strict: bool, r: Result<Self, Error>) -> bool {
        match r {
            Ok(v) => 2 <= bytes.len() && v.wire() == bytes.take(2),
            Err(e) => bytes.len() < 2 && e == Error::PayloadTooSmall,
        }
    }

    fn from_bytes(bytes: &'a [u8], _strict: bool) -> (r: Result<GetChannelAuthCapRequest, Error>) {
        if bytes.len() < 2 {
            return Err(Error::PayloadTooSmall);
        }
        let channel_number = bytes[0];
        let max_priv_level = bytes[1];
        let v = GetChannelAuthCapRequest { channel_number, max_priv_level };
        proof {
            assert(v.wire() =~= bytes@.take(2));
        }
        Ok(v)
    }
}

#[derive(Debug, PartialEq, Eq)]
pub struct GetChannelAuthCapResponse {
    pub channel_number: u8,
    pub auth_types: u8,
    pub auth_caps: u8,
    pub ipmi2_ext: u8,
    pub oem_id: [u8; 3],
    pub oem_aux: u8,
}

impl GetChannelAuthCapResponse {
    /// The fields in declaration order, as they stand on the wire.
    pub open spec fn wire(&self) -> Seq<u8> {
        seq![self.channel_number] + seq![self.auth_types] + seq![self.auth_caps]
            + seq![self.ipmi2_ext] + self.oem_id@ + seq![self.oem_aux]
    }
}

impl BytesSerializationSized for GetChannelAuthCapResponse {
    open spec fn spec_size(&self) -> nat {
        8
    }

    fn size(&self) -> (r: usize) {
        8
    }
}

impl BytesSerializable for GetChannelAuthCapResponse {
    open spec fn spec_encode(&self, strict: bool) -> Result<Seq<u8>, Error> {
        Ok(self.wire())
    }

    fn write_to_slice(&self, out: &mut [u8], _strict: bool) -> (r: Result<(), Error>) {
        if out.len() < 8 {
            return Err(Error::OutBufferTooSmall);
        }
        let ghost o = out@;
        put_u8(out, 0, self.channel_number);
        put_u8(out, 1, self.auth_types);
        put_u8(out, 2, self.auth_caps);
        put_u8(out, 3, self.ipmi2_ext);
        put_bytes(out, 4, vstd::array::array_as_slice(&self.oem_id));
        put_u8(out, 7, self.oem_aux);
        assert(out@ =~= splice(o, 0, self.wire()));
        Ok(())
    }
}

impl<'a> BytesDeserializable<'a> for GetChannelAuthCapResponse {
    open spec fn decodes_to(bytes: Seq<u8>, strict: bool, r: Result<Self, Error>) -> bool {
        match r {
            Ok(v) => 8 <= bytes.len() && v.wire() == bytes.take(8),
            Err(e) => bytes.len() < 8 && e == Error::PayloadTooSmall,
        }
    }

    fn from_bytes(bytes: &'a [u8], _strict: bool) -> (r: Result<GetChannelAuthCapResponse, Error>) {
        if bytes.len() < 8 {
            return Err(Error::PayloadTooSmall);
        }
        let channel_number = bytes[0];
        let auth_types = bytes[1];
        let auth_caps = bytes[2];
        let ipmi2_ext = bytes[3];
        let oem_id = match <[u8; 3]>::from_bytes(vstd::slice::slice_subrange(bytes, 4, 7), true) {
            Ok(a) => a,
            Err(e) => return Err(e),
        };
        let oem_aux = bytes[7];
        let v = GetChannelAuthCapResponse { channel_number, auth_types, auth_caps, ipmi2_ext, oem_id, oem_aux };
        proof {
            assert(v.wire() =~= bytes@.take(8));
        }
        Ok(v)
    }
}

#[derive(Debug, PartialEq, Eq)]
pub struct GetSessionChallengeRequest {
    pub auth_type: u8,
    pub username: [u8; 16],
}

impl GetSessionChallengeRequest {
    /// The fields in declaration order, as they stand on the wire.
    pub open spec fn wire(&self) -> Seq<u8> {
        seq![self.auth_type] + self.username@
    }
}

impl BytesSerializationSized for GetSessionChallengeRequest {
    open spec fn spec_size(&self) -> nat {
        17
    }

    fn size(&self) -> (r: usize) {
        17
    }
}

impl BytesSerializable for GetSessionChallengeRequest {
    open spec fn spec_encode(&self, strict: bool) -> Result<Seq<u8>, Error> {
        Ok(self.wire())
    }

    fn write_to_slice(&self, out: &mut [u8], _strict: bool) -> (r: Result<(), Error>) {
        if out.len() < 17 {
            return Err(Error::OutBufferTooSmall);
        }
        let ghost o = out@;
        put_u8(out, 0, self.auth_type);
        put_bytes(out, 1, vstd::array::array_as_slice(&self.username));
        assert(out@ =~= splice(o, 0, self.wire()));
        Ok(())
    }
}

impl<'a> BytesDeserializable<'a> for GetSessionChallengeRequest {
    open spec fn decodes_to(bytes: Seq<u8>, strict: bool, r: Result<Self, Error>) -> bool {
        match r {
            Ok(v) => 17 <= bytes.len() && v.wire() == bytes.take(17),
            Err(e) => bytes.len() < 17 && e == Error::PayloadTooSmall,
        }
    }

    fn from_bytes(bytes: &'a [u8], _strict: bool) -> (r: Result<GetSessionChallengeRequest, Error>) {
        if bytes.len() < 17 {
            return Err(Error::PayloadTooSmall);
        }
        let auth_type = bytes[0];
        let username = match <[u8; 16]>::from_bytes(vstd::slice::slice_subrange(bytes, 1, 17), true) {
            Ok(a) => a,
            Err(e) => return Err(e),
        };
        let v = GetSessionChallengeRequest { auth_type, username };
        proof {
            assert(v.wire() =~= bytes@.take(17));
        }
        Ok(v)
    }
}

#[derive(Debug, PartialEq, Eq)]
pub struct GetSessionChallengeResponse {
    pub tmp_session_id: u32,
    pub challenge_dat: [u8; 16],
}

impl GetSessionChallengeResponse {
    /// The fields in declaration order, as they stand on the wire.
    pub open spec fn wire(&self) -> Seq<u8> {
        le4(self.tmp_session_id) + self.challenge_dat@
    }
}

impl BytesSerializationSized for GetSessionChallengeResponse {
    open spec fn spec_size(&self) -> nat {
        20
    }

    fn size(&self) -> (r: usize) {
        20
    }
}

impl BytesSerializable for GetSessionChallengeResponse {
    open spec fn spec_encode(&self, strict: bool) -> Result<Seq<u8>, Error> {
        Ok(self.wire())
    }

    fn write_to_slice(&self, out: &mut [u8], _strict: bool) -> (r: Result<(), Error>) {
        if out.len() < 20 {
            return Err(Error::OutBufferTooSmall);
        }
        let ghost o = out@;
        put_le_u32(out, 0, self.tmp_session_id);
        put_bytes(out, 4, vstd::array::array_as_slice(&self.challenge_dat));
        assert(out@ =~= splice(o, 0, self.wire()));
        Ok(())
    }
}

impl<'a> BytesDeserializable<'a> for GetSessionChallengeResponse {
    open spec fn decodes_to(bytes: Seq<u8>, strict: bool, r: Result<Self, Error>) -> bool {
        match r {
            Ok(v) => 20 <= bytes.len() && v.wire() == bytes.take(20),
            Err(e) => bytes.len() < 20 && e == Error::PayloadTooSmall,
        }
    }

    fn from_bytes(bytes: &'a [u8], _strict: bool) -> (r: Result<GetSessionChallengeResponse, Error>) {
        if bytes.len() < 20 {
            return Err(Error::PayloadTooSmall);
        }
        let tmp_session_id = read_le_u32(bytes, 0);
        let challenge_dat = match <[u8; 16]>::from_bytes(vstd::slice::slice_subrange(bytes, 4, 20), true) {
            Ok(a) => a,
            Err(e) => return Err(e),
        };
        let v = GetSessionChallengeResponse { tmp_session_id, challenge_dat };
        proof {
            lemma_le_bytes_round_trip(bytes@.subrange(0, 4));
            assert(v.wire() =~= bytes@.take(20));
        }
        Ok(v)
    }
}

#[derive(Debug, PartialEq, Eq)]
pub struct ActivateSessionRequest {
    pub auth_type: u8,
    pub max_priv_level: u8,
    pub challenge_string: [u8; 16],
    pub init_outbound_seq: u32,
}

impl ActivateSessionRequest {
    /// The fields in declaration order, as they stand on the wire.
    pub open spec fn wire(&self) -> Seq<u8> {
        seq![self.auth_type] + seq![self.max_priv_level] + self.challenge_string@
            + le4(self.init_outbound_seq)
    }
}

impl BytesSerializationSized for ActivateSessionRequest {
    open spec fn spec_size(&self) -> nat {
        22
    }

    fn size(&self) -> (r: usize) {
        22
    }
}

impl BytesSerializable for ActivateSessionRequest {
    open spec fn spec_encode(&self, strict: bool) -> Result<Seq<u8>, Error> {
        Ok(self.wire())
    }

    fn write_to_slice(&self, out: &mut [u8], _strict: bool) -> (r: Result<(), Error>) {
        if out.len() < 22 {
            return Err(Error::OutBufferTooSmall);
        }
        let ghost o = out@;
        put_u8(out, 0, self.auth_type);
        put_u8(out, 1, self.max_priv_level);
        put_bytes(out, 2, vstd::array::array_as_slice(&self.challenge_string));
        put_le_u32(out, 18, self.init_outbound_seq);
        assert(out@ =~= splice(o, 0, self.wire()));
        Ok(())
    }
}

impl<'a> BytesDeserializable<'a> for ActivateSessionRequest {
    open spec fn decodes_to(bytes: Seq<u8>, strict: bool, r: Result<Self, Error>) -> bool {
        match r {
            Ok(v) => 22 <= bytes.len() && v.wire() == bytes.take(22),
            Err(e) => bytes.len() < 22 && e == Error::PayloadTooSmall,
        }
    }

    fn from_bytes(bytes: &'a [u8], _strict: bool) -> (r: Result<ActivateSessionRequest, Error>) {
        if bytes.len() < 22 {
            return Err(Error::PayloadTooSmall);
        }
        let auth_type = bytes[0];
        let max_priv_level = bytes[1];
        let challenge_string = match <[u8; 16]>::from_bytes(vstd::slice::slice_subrange(bytes, 2, 18), true) {
            Ok(a) => a,
            Err(e) => return Err(e),
        };
        let init_outbound_seq = read_le_u32(bytes, 18);
        let v = ActivateSessionRequest { auth_type, max_priv_level, challenge_string, init_outbound_seq };
        proof {
            lemma_le_bytes_round_trip(bytes@.subrange(18, 22));
            assert(v.wire() =~= bytes@.take(22));
        }
        Ok(v)
    }
}

#[derive(Debug, PartialEq, Eq)]
pub struct ActivateSessionResponse {
    pub auth_type: u8,
    pub session_id: u32,
    pub init_inbound_seq: u32,
    pub max_priv_level: u8,
}

impl ActivateSessionResponse {
    /// The fields in declaration order, as they stand on the wire.
    pub open spec fn wire(&self) -> Seq<u8> {
        seq![self.auth_type] + le4(self.session_id) + le4(self.init_inbound_seq)
            + seq![self.max_priv_level]
    }
}

impl BytesSerializationSized for ActivateSessionResponse {
    open spec fn spec_size(&self) -> nat {
        10
    }

    fn size(&self) -> (r: usize) {
        10
    }
}

impl BytesSerializable for ActivateSessionResponse {
    open spec fn spec_encode(&self, strict: bool) -> Result<Seq<u8>, Error> {
        Ok(self.wire())
    }

    fn write_to_slice(&self, out: &mut [u8], _strict: bool) -> (r: Result<(), Error>) {
        if out.len() < 10 {
            return Err(Error::OutBufferTooSmall);
        }
        let ghost o = out@;
        put_u8(out, 0, self.auth_type);
        put_le_u32(out, 1, self.session_id);
        put_le_u32(out, 5, self.init_inbound_seq);
        put_u8(out, 9, self.max_priv_level);
        assert(out@ =~= splice(o, 0, self.wire()));
        Ok(())
    }
}

impl<'a> BytesDeserializable<'a> for ActivateSessionResponse {
    open spec fn decodes_to(bytes: Seq<u8>, strict: bool, r: Result<Self, Error>) -> bool {
        match r {
            Ok(v) => 10 <= bytes.len() && v.wire() == bytes.take(10),
            Err(e) => bytes.len() < 10 && e == Error::PayloadTooSmall,
        }
    }

    fn from_bytes(bytes: &'a [u8], _strict: bool) -> (r: Result<ActivateSessionResponse, Error>) {
        if bytes.len() < 10 {
            return Err(Error::PayloadTooSmall);
        }
        let auth_type = bytes[0];
        let session_id = read_le_u32(bytes, 1);
        let init_inbound_seq = read_le_u32(bytes, 5);
        let max_priv_level = bytes[9];
        let v = ActivateSessionResponse { auth_type, session_id, init_inbound_seq, max_priv_level };
        proof {
            lemma_le_bytes_round_trip(bytes@.subrange(1, 5));
            lemma_le_bytes_round_trip(bytes@.subrange(5, 9));
            assert(v.wire() =~= bytes@.take(10));
        }
        Ok(v)
    }
}

#[derive(Debug, PartialEq, Eq)]
pub struct SetSessionPrivLevelRequest {
    pub priv_level: u8,
}

impl SetSessionPrivLevelRequest {
    /// The fields in declaration order, as they stand on the wire.
    pub open spec fn wire(&self) -> Seq<u8> {
        seq![self.priv_level]
    }
}

impl BytesSerializationSized for SetSessionPrivLevelRequest {
    open spec fn spec_size(&self) -> nat {
        1
    }

    fn size(&self) -> (r: usize) {
        1
    }
}

impl BytesSerializable for SetSessionPrivLevelRequest {
    open spec fn spec_encode(&self, strict: bool) -> Result<Seq<u8>, Error> {
        Ok(self.wire())
    }

    fn write_to_slice(&self, out: &mut [u8], _strict: bool) -> (r: Result<(), Error>) {
        if out.len() < 1 {
            return Err(Error::OutBufferTooSmall);
        }
        let ghost o = out@;
        put_u8(out, 0, self.priv_level);
        assert(out@ =~= splice(o, 0, self.wire()));
        Ok(())
    }
}

impl<'a> BytesDeserializable<'a> for SetSessionPrivLevelRequest {
    open spec fn decodes_to(bytes: Seq<u8>, strict: bool, r: Result<Self, Error>) -> bool {
        match r {
            Ok(v) => 1 <= bytes.len() && v.wire() == bytes.take(1),
            Err(e) => bytes.len() < 1 && e == Error::PayloadTooSmall,
        }
    }

    fn from_bytes(bytes: &'a [u8], _strict: bool) -> (r: Result<SetSessionPrivLevelRequest, Error>) {
        if bytes.len() < 1 {
            return Err(Error::PayloadTooSmall);
        }
        let priv_level = bytes[0];
        let v = SetSessionPrivLevelRequest { priv_level };
        proof {
            assert(v.wire() =~= bytes@.take(1));
        }
        Ok(v)
    }
}

#[derive(Debug, PartialEq, Eq)]
pub struct SetSessionPrivLevelResponse {
    pub priv_level: u8,
}

impl SetSessionPrivLevelResponse {
    /// The fields in declaration order, as they stand on the wire.
    pub open spec fn wire(&self) -> Seq<u8> {
        seq![self.priv_level]
    }
}

impl BytesSerializationSized for SetSessionPrivLevelResponse {
    open spec fn spec_size(&self) -> nat {
        1
    }

    fn size(&self) -> (r: usize) {
        1
    }
}

impl BytesSerializable for SetSessionPrivLevelResponse {
    open spec fn spec_encode(&self, strict: bool) -> Result<Seq<u8>, Error> {
        Ok(self.wire())
    }

    fn write_to_slice(&self, out: &mut [u8], _strict: bool) -> (r: Result<(), Error>) {
        if out.len() < 1 {
            return Err(Error::OutBufferTooSmall);
        }
        let ghost o = out@;
        put_u8(out, 0, self.priv_level);
        assert(out@ =~= splice(o, 0, self.wire()));
        Ok(())
    }
}

impl<'a> BytesDeserializable<'a> for SetSessionPrivLevelResponse {
    open spec fn decodes_to(bytes: Seq<u8>, strict: bool, r: Result<Self, Error>) -> bool {
        match r {
            Ok(v) => 1 <= bytes.len() && v.wire() == bytes.take(1),
            Err(e) => bytes.len() < 1 && e == Error::PayloadTooSmall,
        }
    }

    fn from_bytes(bytes: &'a [u8], _strict: bool) -> (r: Result<SetSessionPrivLevelResponse, Error>) {
        if bytes.len() < 1 {
            return Err(Error::PayloadTooSmall);
        }
        let priv_level = bytes[0];
        let v = SetSessionPrivLevelResponse { priv_level };
        proof {
            assert(v.wire() =~= bytes@.take(1));
        }
        Ok(v)
    }
}

#[derive(Debug, PartialEq, Eq)]
pub enum GetChannelAuthCap {
    Request(GetChannelAuthCapRequest),
    Response(u8, GetChannelAuthCapResponse),
}

impl IpmiCommand for GetChannelAuthCap {
    open spec fn spec_netfn() -> u8 {
        NETFN_APP
    }

    open spec fn spec_cmd() -> u8 {
        CMD_GET_CHANNEL_AUTH_CAP
    }

    open spec fn recovered(data: SpecIpmiData, r: Option<Self>) -> bool {
        match data {
            SpecIpmiData::Request(d) => match r {
                Some(GetChannelAuthCap::Request(q)) => 2 <= d.len() && q.wire() == d.take(2),
                Some(_) => false,
                None => d.len() < 2,
            },
            SpecIpmiData::Response(c, d) => match r {
                Some(GetChannelAuthCap::Response(c2, q)) => c2 == c && 8 <= d.len() && q.wire() == d.take(8),
                Some(_) => false,
                None => d.len() < 8,
            },
        }
    }

    fn from_data(data: &IpmiData) -> (r: Option<Self>) {
        match data {
            IpmiData::Request(dat) => match GetChannelAuthCapRequest::from_bytes(dat, true) {
                Ok(req) => Some(GetChannelAuthCap::Request(req)),
                Err(_) => None,
            },
            IpmiData::Response(code, dat) => match GetChannelAuthCapResponse::from_bytes(dat, true) {
                Ok(res) => Some(GetChannelAuthCap::Response(*code, res)),
                Err(_) => None,
            },
        }
    }

    fn from_message(msg: &IpmiMessage) -> (r: Option<Self>) {
        let netfn = if msg.netfn % 2 == 0 {
            msg.netfn
        } else {
            msg.netfn - 1
        };
        if msg.cmd != CMD_GET_CHANNEL_AUTH_CAP || netfn != NETFN_APP {
            return None;
        }
        Self::from_data(&msg.data)
    }
}

#[derive(Debug, PartialEq, Eq)]
pub enum GetSessionChallenge {
    Request(GetSessionChallengeRequest),
    Response(u8, GetSessionChallengeResponse),
}

impl IpmiCommand for GetSessionChallenge {
    open spec fn spec_netfn() -> u8 {
        NETFN_APP
    }

    open spec fn spec_cmd() -> u8 {
        CMD_GET_SESSION_CHALLENGE
    }

    open spec fn recovered(data: SpecIpmiData, r: Option<Self>) -> bool {
        match data {
            SpecIpmiData::Request(d) => match r {
                Some(GetSessionChallenge::Request(q)) => 17 <= d.len() && q.wire() == d.take(17),
                Some(_) => false,
                None => d.len() < 17,
            },
            SpecIpmiData::Response(c, d) => match r {
                Some(GetSessionChallenge::Response(c2, q)) => c2 == c && 20 <= d.len() && q.wire() == d.take(20),
                Some(_) => false,
                None => d.len() < 20,
            },
        }
    }

    fn from_data(data: &IpmiData) -> (r: Option<Self>) {
        match data {
            IpmiData::Request(dat) => match GetSessionChallengeRequest::from_bytes(dat, true) {
                Ok(req) => Some(GetSessionChallenge::Request(req)),
                Err(_) => None,
            },
            IpmiData::Response(code, dat) => match GetSessionChallengeResponse::from_bytes(dat, true) {
                Ok(res) => Some(GetSessionChallenge::Response(*code, res)),
                Err(_) => None,
            },
        }
    }

    fn from_message(msg: &IpmiMessage) -> (r: Option<Self>) {
        let netfn = if msg.netfn % 2 == 0 {
            msg.netfn
        } else {
            msg.netfn - 1
        };
        if msg.cmd != CMD_GET_SESSION_CHALLENGE || netfn != NETFN_APP {
            return None;
        }
        Self::from_data(&msg.data)
    }
}

#[derive(Debug, PartialEq, Eq)]
pub enum ActivateSession {
    Request(ActivateSessionRequest),
    Response(u8, ActivateSessionResponse),
}

impl IpmiCommand for ActivateSession {
    open spec fn spec_netfn() -> u8 {
        NETFN_APP
    }

    open spec fn spec_cmd() -> u8 {
        CMD_ACTIVATE_SESSION
    }

    open spec fn recovered(data: SpecIpmiData, r: Option<Self>) -> bool {
        match data {
            SpecIpmiData::Request(d) => match r {
                Some(ActivateSession::Request(q)) => 22 <= d.len() && q.wire() == d.take(22),
                Some(_) => false,
                None => d.len() < 22,
            },
            SpecIpmiData::Response(c, d) => match r {
                Some(ActivateSession::Response(c2, q)) => c2 == c && 10 <= d.len() && q.wire() == d.take(10),
                Some(_) => false,
                None => d.len() < 10,
            },
        }
    }

    fn from_data(data: &IpmiData) -> (r: Option<Self>) {
        match data {
            IpmiData::Request(dat) => match ActivateSessionRequest::from_bytes(dat, true) {
                Ok(req) => Some(ActivateSession::Request(req)),
                Err(_) => None,
            },
            IpmiData::Response(code, dat) => match ActivateSessionResponse::from_bytes(dat, true) {
                Ok(res) => Some(ActivateSession::Response(*code, res)),
                Err(_) => None,
            },
        }
    }

    fn from_message(msg: &IpmiMessage) -> (r: Option<Self>) {
        let netfn = if msg.netfn % 2 == 0 {
            msg.netfn
        } else {
            msg.netfn - 1
        };
        if msg.cmd != CMD_ACTIVATE_SESSION || netfn != NETFN_APP {
            return None;
        }
        Self::from_data(&msg.data)
    }
}

#[derive(Debug, PartialEq, Eq)]
pub enum SetSessionPrivLevel {
    Request(SetSessionPrivLevelRequest),
    Response(u8, SetSessionPrivLevelResponse),
}

impl IpmiCommand for SetSessionPrivLevel {
    open spec fn spec_netfn() -> u8 {
        NETFN_APP
    }

    open spec fn spec_cmd() -> u8 {
        CMD_SET_SESSION_PRIV_LEVEL
    }

    open spec fn recovered(data: SpecIpmiData, r: Option<Self>) -> bool {
        match data {
            SpecIpmiData::Request(d) => match r {
                Some(SetSessionPrivLevel::Request(q)) => 1 <= d.len() && q.wire() == d.take(1),
                Some(_) => false,
                None => d.len() < 1,
            },
            SpecIpmiData::Response(c, d) => match r {
                Some(SetSessionPrivLevel::Response(c2, q)) => c2 == c && 1 <= d.len() && q.wire() == d.take(1),
                Some(_) => false,
                None => d.len() < 1,
            },
        }
    }

    fn from_data(data: &IpmiData) -> (r: Option<Self>) {
        match data {
            IpmiData::Request(dat) => match SetSessionPrivLevelRequest::from_bytes(dat, true) {
                Ok(req) => Some(SetSessionPrivLevel::Request(req)),
                Err(_) => None,
            },
            IpmiData::Response(code, dat) => match SetSessionPrivLevelResponse::from_bytes(dat, true) {
                Ok(res) => Some(SetSessionPrivLevel::Response(*code, res)),
                Err(_) => None,
            },
        }
    }

    fn from_message(msg: &IpmiMessage) -> (r: Option<Self>) {
        let netfn = if msg.netfn % 2 == 0 {
            msg.netfn
        } else {
            msg.netfn - 1
        };
        if msg.cmd != CMD_SET_SESSION_PRIV_LEVEL || netfn != NETFN_APP {
            return None;
        }
        Self::from_data(&msg.data)
    }
}

/// Decoding the encoding of a `GetChannelAuthCapRequest` gives it back.
pub proof fn lemma_get_channel_auth_cap_request_round_trip(x: GetChannelAuthCapRequest, y: GetChannelAuthCapRequest)
    requires
        <GetChannelAuthCapRequest as BytesDeserializable>::decodes_to(x.wire(), true, Ok(y)),
    ensures
        y == x,
{
    assert(x.wire().take(2) =~= x.wire());
    let (s, t) = (x.wire(), y.wire());
    assert(s[0] == x.channel_number && t[0] == y.channel_number);
    assert(s[1] == x.max_priv_level && t[1] == y.max_priv_level);
}

/// Decoding the encoding of a `GetChannelAuthCapResponse` gives it back.
pub proof fn lemma_get_channel_auth_cap_response_round_trip(x: GetChannelAuthCapResponse, y: GetChannelAuthCapResponse)
    requires
        <GetChannelAuthCapResponse as BytesDeserializable>::decodes_to(x.wire(), true, Ok(y)),
    ensures
        y == x,
{
    assert(x.wire().take(8) =~= x.wire());
    let (s, t) = (x.wire(), y.wire());
    assert(s[0] == x.channel_number && t[0] == y.channel_number);
    assert(s[1] == x.auth_types && t[1] == y.auth_types);
    assert(s[2] == x.auth_caps && t[2] == y.auth_caps);
    assert(s[3] == x.ipmi2_ext && t[3] == y.ipmi2_ext);
    assert(x.oem_id@ =~= s.subrange(4, 7) && y.oem_id@ =~= t.subrange(4, 7));
    assert(x.oem_id == y.oem_id);
    assert(s[7] == x.oem_aux && t[7] == y.oem_aux);
}

/// Decoding the encoding of a `GetSessionChallengeRequest` gives it back.
pub proof fn lemma_get_session_challenge_request_round_trip(x: GetSessionChallengeRequest, y: GetSessionChallengeRequest)
    requires
        <GetSessionChallengeRequest as BytesDeserializable>::decodes_to(x.wire(), true, Ok(y)),
    ensures
        y == x,
{
    assert(x.wire().take(17) =~= x.wire());
    let (s, t) = (x.wire(), y.wire());
    assert(s[0] == x.auth_type && t[0] == y.auth_type);
    assert(x.username@ =~= s.subrange(1, 17) && y.username@ =~= t.subrange(1, 17));
    assert(x.username == y.username);
}

/// Decoding the encoding of a `GetSessionChallengeResponse` gives it back.
pub proof fn lemma_get_session_challenge_response_round_trip(x: GetSessionChallengeResponse, y: GetSessionChallengeResponse)
    requires
        <GetSessionChallengeResponse as BytesDeserializable>::decodes_to(x.wire(), true, Ok(y)),
    ensures
        y == x,
{
    assert(x.wire().take(20) =~= x.wire());
    let (s, t) = (x.wire(), y.wire());
    assert(s.subrange(0, 4) =~= le4(x.tmp_session_id) && t.subrange(0, 4) =~= le4(y.tmp_session_id));
    lemma_le_round_trip(x.tmp_session_id);
    lemma_le_round_trip(y.tmp_session_id);
    assert(x.challenge_dat@ =~= s.subrange(4, 20) && y.challenge_dat@ =~= t.subrange(4, 20));
    assert(x.challenge_dat == y.challenge_dat);
}

/// Decoding the encoding of a `ActivateSessionRequest` gives it back.
pub proof fn lemma_activate_session_request_round_trip(x: ActivateSessionRequest, y: ActivateSessionRequest)
    requires
        <ActivateSessionRequest as BytesDeserializable>::decodes_to(x.wire(), true, Ok(y)),
    ensures
        y == x,
{
    assert(x.wire().take(22) =~= x.wire());
    let (s, t) = (x.wire(), y.wire());
    assert(s[0] == x.auth_type && t[0] == y.auth_type);
    assert(s[1] == x.max_priv_level && t[1] == y.max_priv_level);
    assert(x.challenge_string@ =~= s.subrange(2, 18) && y.challenge_string@ =~= t.subrange(2, 18));
    assert(x.challenge_string == y.challenge_string);
    assert(s.subrange(18, 22) =~= le4(x.init_outbound_seq) && t.subrange(18, 22) =~= le4(y.init_outbound_seq));
    lemma_le_round_trip(x.init_outbound_seq);
    lemma_le_round_trip(y.init_outbound_seq);
}

/// Decoding the encoding of a `ActivateSessionResponse` gives it back.
pub proof fn lemma_activate_session_response_round_trip(x: ActivateSessionResponse, y: ActivateSessionResponse)
    requires
        <ActivateSessionResponse as BytesDeserializable>::decodes_to(x.wire(), true, Ok(y)),
    ensures
        y == x,
{
    assert(x.wire().take(10) =~= x.wire());
    let (s, t) = (x.wire(), y.wire());
    assert(s[0] == x.auth_type && t[0] == y.auth_type);
    assert(s.subrange(1, 5) =~= le4(x.session_id) && t.subrange(1, 5) =~= le4(y.session_id));
    lemma_le_round_trip(x.session_id);
    lemma_le_round_trip(y.session_id);
    assert(s.subrange(5, 9) =~= le4(x.init_inbound_seq) && t.subrange(5, 9) =~= le4(y.init_inbound_seq));
    lemma_le_round_trip(x.init_inbound_seq);
    lemma_le_round_trip(y.init_inbound_seq);
    assert(s[9] == x.max_priv_level && t[9] == y.max_priv_level);
}

/// Decoding the encoding of a `SetSessionPrivLevelRequest` gives it back.
pub proof fn lemma_set_session_priv_level_request_round_trip(x: SetSessionPrivLevelRequest, y: SetSessionPrivLevelRequest)
    requires
        <SetSessionPrivLevelRequest as BytesDeserializable>::decodes_to(x.wire(), true, Ok(y)),
    ensures
        y == x,
{
    assert(x.wire().take(1) =~= x.wire());
    let (s, t) = (x.wire(), y.wire());
    assert(s[0] == x.priv_level && t[0] == y.priv_level);
}

/// Decoding the encoding of a `SetSessionPrivLevelResponse` gives it back.
pub proof fn lemma_set_session_priv_level_response_round_trip(x: SetSessionPrivLevelResponse, y: SetSessionPrivLevelResponse)
    requires
        <SetSessionPrivLevelResponse as BytesDeserializable>::decodes_to(x.wire(), true, Ok(y)),
    ensures
        y == x,
{
    assert(x.wire().take(1) =~= x.wire());
    let (s, t) = (x.wire(), y.wire());
    assert(s[0] == x.priv_level && t[0] == y.priv_level);
}

} // verus!
