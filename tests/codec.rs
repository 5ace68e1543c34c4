use mini_ipmi::ipmi::asf::{AsfData, AsfMessage, ASF_IANA, ASF_MSG_TYPE_PONG};
use mini_ipmi::ipmi::cmd::{
    ActivateSession, ActivateSessionRequest, ActivateSessionResponse, GetChannelAuthCap,
    GetChannelAuthCapRequest, GetChannelAuthCapResponse, GetSessionChallenge,
    GetSessionChallengeResponse, IpmiCommand, SetSessionPrivLevelRequest,
};
use mini_ipmi::ipmi::ipmi::{Ipmi15Packet, IpmiData, IpmiMessage};
use mini_ipmi::ipmi::rmcp::{RmcpContent, RmcpMessage, MSG_CLASS_ASF};
use mini_ipmi::ipmi::wire::{ipmi_cksum, ipmi_cksum_verify};
use mini_ipmi::ipmi::{
    summon_from_bytes, BytesDeserializable, BytesSerializable, BytesSerializationSized, Error,
};

const REQ: [u8; 23] = [
    0x06, 0x00, 0xff, 0x07, 0x00, 0x00, 0x00, 0x00, 0x00, 0x00, 0x00, 0x00, 0x00, 0x09, 0x20, 0x18,
    0xc8, 0x81, 0x04, 0x38, 0x0e, 0x04, 0x31,
];

const RES: [u8; 30] = [
    0x06, 0x00, 0xff, 0x07, 0x00, 0x00, 0x00, 0x00, 0x00, 0x00, 0x00, 0x00, 0x00, 0x10, 0x81, 0x1c,
    0x63, 0x20, 0x04, 0x38, 0x00, 0x01, 0x04, 0x14, 0x00, 0xd6, 0xc1, 0x00, 0x00, 0xf4,
];

fn round_trip(bytes: &[u8]) -> Vec<u8> {
    let m = RmcpMessage::from_bytes(bytes, true).unwrap();
    let mut out = vec![0u8; m.size()];
    m.write_to_slice(&mut out, true).unwrap();
    out
}

#[test]
fn checksum_values() {
    assert_eq!(ipmi_cksum(&[0x20, 0x18]), 0xc8);
    assert_eq!(ipmi_cksum(&[]), 0);
    assert_eq!(ipmi_cksum(&[0x81, 0x04, 0x38, 0x0e, 0x04]), 0x31);
    assert_eq!(ipmi_cksum(&[0x80, 0x80]), 0);
    assert!(ipmi_cksum_verify(&[0x20, 0x18, 0xc8]));
    assert!(ipmi_cksum_verify(&[]));
    assert!(!ipmi_cksum_verify(&[0x20, 0x18, 0xc9]));
}

#[test]
fn request_bytes_round_trip() {
    assert_eq!(round_trip(&REQ), REQ.to_vec());
    assert_eq!(round_trip(&RES), RES.to_vec());
}

#[test]
fn pong_round_trip() {
    let msg = RmcpMessage::from_asf(AsfMessage::pong(0x01020304, 0x0a0b0c0d, 0x81, 0x20));
    let mut out = [0u8; 22];
    msg.write_to_slice(&mut out, true).unwrap();
    assert_eq!(
        out,
        [
            0x06, 0x00, 0xff, 0x06, 0x00, 0x00, 0x11, 0xbe, 0x40, 0x00, 0x00, 0x0a, 0x01, 0x02,
            0x03, 0x04, 0x0a, 0x0b, 0x0c, 0x0d, 0x81, 0x20
        ]
    );
    let back = RmcpMessage::from_bytes(&out, true).unwrap();
    assert_eq!(back, msg);
    if let RmcpContent::Asf(a) = &back.data {
        assert!(a.is_pong());
        assert!(!a.is_ping());
        assert_eq!(a.iana, ASF_IANA);
        assert_eq!(a.msg_type, ASF_MSG_TYPE_PONG);
    } else {
        panic!("expected ASF content");
    }
}

#[test]
fn oem_round_trip_little_endian() {
    let bytes = [0x06, 0x00, 0x01, 0x08, 0x78, 0x56, 0x34, 0x12, 0xaa, 0xbb];
    let m = RmcpMessage::from_bytes(&bytes, true).unwrap();
    assert_eq!(m.data, RmcpContent::Oem { iana: 0x12345678, data: &[0xaa, 0xbb] });
    assert_eq!(round_trip(&bytes), bytes.to_vec());
}

#[test]
fn ack_round_trip() {
    let bytes = [0x06, 0x00, 0x07, 0x86];
    let m = RmcpMessage::from_bytes(&bytes, true).unwrap();
    assert_eq!(m, RmcpMessage::from_ack(7));
    assert_eq!(m.message_class, MSG_CLASS_ASF);
    assert_eq!(round_trip(&bytes), bytes.to_vec());
}

#[test]
fn unknown_class_strict_and_lenient() {
    let bytes = [0x06, 0x00, 0xff, 0x0b, 0x01, 0x02, 0x03];
    assert_eq!(RmcpMessage::from_bytes(&bytes, true), Err(Error::UnsupportedProtocol));
    let m = RmcpMessage::from_bytes(&bytes, false).unwrap();
    assert_eq!(m.data, RmcpContent::Other(&[0x01, 0x02, 0x03]));
    assert_eq!(m.message_class, 0x0b);
}

#[test]
fn rmcp_plus_is_unsupported() {
    let mut bytes = REQ;
    bytes[4] = 0x06;
    assert_eq!(RmcpMessage::from_bytes(&bytes, true), Err(Error::UnsupportedProtocol));
    assert_eq!(RmcpMessage::from_bytes(&bytes, false), Err(Error::UnsupportedProtocol));
}

#[test]
fn short_ipmi_message() {
    assert_eq!(IpmiMessage::from_bytes(&[0x20, 0x18, 0xc8], true), Err(Error::PayloadTooSmall));
}

#[test]
fn bit_flip_rejected() {
    for i in 0..9 {
        for k in 0..8 {
            let mut bytes = REQ;
            bytes[14 + i] ^= 1u8 << k;
            assert_eq!(RmcpMessage::from_bytes(&bytes, true), Err(Error::InvalidChecksum));
            assert_eq!(RmcpMessage::from_bytes(&bytes, false), Err(Error::InvalidChecksum));
        }
    }
}

#[test]
fn asf_length_mismatch() {
    let bytes = [0x00, 0x00, 0x11, 0xbe, 0x22, 0x05, 0x00, 0x05, 0x01, 0x02];
    assert_eq!(AsfMessage::from_bytes(&bytes, true), Err(Error::ExpectedSizeMismatch));
    let m = AsfMessage::from_bytes(&bytes, false).unwrap();
    assert_eq!(m.data, AsfData::Other(&[0x01, 0x02]));
    assert_eq!(m.data_len, 5);
    let mut out = [0u8; 10];
    m.write_to_slice(&mut out, false).unwrap();
    assert_eq!(out, bytes);
    assert_eq!(m.write_to_slice(&mut out, true), Err(Error::InvalidConfiguration));
}

#[test]
fn asf_pong_too_large() {
    let mut bytes = [0u8; 19];
    bytes[4] = 0x40;
    bytes[7] = 11;
    assert_eq!(AsfMessage::from_bytes(&bytes, true), Err(Error::PayloadTooLarge));
    assert!(AsfMessage::from_bytes(&bytes, false).is_ok());
    assert_eq!(AsfMessage::from_bytes(&bytes[..17], false), Err(Error::PayloadTooSmall));
}

#[test]
fn rmcp_header_errors() {
    let mut bytes = REQ;
    bytes[0] = 0x07;
    bytes[1] = 0x01;
    assert_eq!(RmcpMessage::from_bytes(&bytes, true), Err(Error::InvalidRmcpVersionNumber(0x07)));
    bytes[0] = 0x06;
    assert_eq!(RmcpMessage::from_bytes(&bytes, true), Err(Error::InvalidRmcpReservedByte(0x01)));
    assert!(RmcpMessage::from_bytes(&bytes, false).is_ok());
    assert_eq!(RmcpMessage::from_bytes(&bytes[..3], false), Err(Error::PayloadTooSmall));
}

#[test]
fn session_errors() {
    let mut bytes = REQ;
    bytes[4] = 0x07;
    assert_eq!(RmcpMessage::from_bytes(&bytes, true), Err(Error::UndefinedAuthType(0x07)));
    let mut bytes = REQ;
    bytes[13] = 0x0a;
    assert_eq!(RmcpMessage::from_bytes(&bytes, true), Err(Error::ExpectedSizeMismatch));
    assert_eq!(RmcpMessage::from_bytes(&bytes, false), Err(Error::ExpectedSizeMismatch));
    let mut bytes = REQ;
    bytes[4] = 0x02;
    assert_eq!(RmcpMessage::from_bytes(&bytes, true), Err(Error::PayloadTooSmall));
}

#[test]
fn session_with_auth_code_round_trip() {
    let msg_bytes = [0x20, 0x18, 0xc8, 0x81, 0x04, 0x38, 0x0e, 0x04, 0x31];
    let code = [0x5au8; 16];
    let packet = Ipmi15Packet {
        auth_type: 2,
        seqnum: 0x01020304,
        session_id: 0x0a0b0c0d,
        auth_code: Some(&code),
        payload_len: 9,
        data: IpmiMessage::from_bytes(&msg_bytes, true).unwrap(),
    };
    let mut out = [0u8; 35];
    packet.write_to_slice(&mut out, true).unwrap();
    assert_eq!(&out[..9], &[0x02, 0x04, 0x03, 0x02, 0x01, 0x0d, 0x0c, 0x0b, 0x0a]);
    assert_eq!(&out[9..25], &code);
    assert_eq!(out[25], 9);
    assert_eq!(&out[26..], &msg_bytes);
    assert_eq!(Ipmi15Packet::from_bytes(&out, true), Ok(packet));
}

#[test]
fn encode_configuration_errors() {
    let msg_bytes = [0x20, 0x18, 0xc8, 0x81, 0x04, 0x38, 0x0e, 0x04, 0x31];
    let short_code = [0u8; 4];
    let mut packet = Ipmi15Packet {
        auth_type: 2,
        seqnum: 0,
        session_id: 0,
        auth_code: Some(&short_code),
        payload_len: 9,
        data: IpmiMessage::from_bytes(&msg_bytes, true).unwrap(),
    };
    let mut out = [0u8; 64];
    assert_eq!(packet.write_to_slice(&mut out, false), Err(Error::InvalidConfiguration));
    packet.auth_code = None;
    packet.auth_type = 0;
    packet.payload_len = 8;
    assert_eq!(packet.write_to_slice(&mut out, true), Err(Error::InvalidConfiguration));
    assert!(packet.write_to_slice(&mut out, false).is_ok());
    packet.payload_len = 9;
    packet.data.peer_lun = 4;
    assert_eq!(packet.write_to_slice(&mut out, true), Err(Error::InvalidConfiguration));
    packet.data.peer_lun = 0;
    packet.data.seqnum = 64;
    assert_eq!(packet.data.write_to_slice(&mut out, true), Err(Error::InvalidConfiguration));
}

#[test]
fn out_buffer_too_small() {
    let m = RmcpMessage::from_bytes(&REQ, true).unwrap();
    let mut out = [0u8; 22];
    assert_eq!(m.write_to_slice(&mut out, true), Err(Error::OutBufferTooSmall));
    assert_eq!(out, [0u8; 22]);
    let mut big = [0xeeu8; 25];
    m.write_to_slice(&mut big, true).unwrap();
    assert_eq!(&big[..23], &REQ);
    assert_eq!(&big[23..], &[0xee, 0xee]);
}

#[test]
fn ipmi_message_encoding() {
    let payload = [0x0e, 0x04];
    let m = IpmiMessage {
        peer_addr: 0x20,
        netfn: 0x06,
        peer_lun: 0,
        local_addr: 0x81,
        seqnum: 1,
        local_lun: 0,
        cmd: 0x38,
        data: IpmiData::Request(&payload),
    };
    assert_eq!(m.size(), 9);
    let mut out = [0u8; 9];
    m.write_to_slice(&mut out, true).unwrap();
    assert_eq!(out, [0x20, 0x18, 0xc8, 0x81, 0x04, 0x38, 0x0e, 0x04, 0x31]);
    assert_eq!(m.rs_addr(), 0x20);
    assert_eq!(m.rq_addr(), 0x81);
    assert_eq!(m.rs_lun(), 0);
    assert_eq!(m.rq_lun(), 0);
}

#[test]
fn requester_and_responder_of_response() {
    let m = IpmiMessage::from_bytes(&RES[14..], true).unwrap();
    assert_eq!(m.netfn, 0x07);
    assert_eq!(m.rs_addr(), 0x20);
    assert_eq!(m.rq_addr(), 0x81);
    assert_eq!(m.peer_lun, 0);
    assert_eq!(m.local_lun, 0);
    assert_eq!(m.seqnum, 1);
    assert_eq!(m.data, IpmiData::Response(0x00, &RES[21..29]));
}

#[test]
fn response_needs_completion_code() {
    // An odd net function with no byte for the completion code.
    let bytes = [0x20, 0x1c, 0xc4, 0x81, 0x04, 0x38, 0x43];
    assert_eq!(IpmiMessage::from_bytes(&bytes, true), Err(Error::PayloadTooSmall));
}

#[test]
fn catalog_matches_by_netfn_parity() {
    let req = IpmiMessage::from_bytes(&REQ[14..], true).unwrap();
    assert_eq!(
        GetChannelAuthCap::from_message(&req),
        Some(GetChannelAuthCap::Request(GetChannelAuthCapRequest {
            channel_number: 14,
            max_priv_level: 4
        }))
    );
    assert_eq!(GetSessionChallenge::from_message(&req), None);
    let res = IpmiMessage::from_bytes(&RES[14..], true).unwrap();
    assert_eq!(
        GetChannelAuthCap::from_message(&res),
        Some(GetChannelAuthCap::Response(
            0,
            GetChannelAuthCapResponse {
                channel_number: 1,
                auth_types: 0x04,
                auth_caps: 0x14,
                ipmi2_ext: 0,
                oem_id: [0xd6, 0xc1, 0x00],
                oem_aux: 0
            }
        ))
    );
    let mut other = IpmiMessage::from_bytes(&REQ[14..], true).unwrap();
    other.netfn = 0x08;
    assert_eq!(GetChannelAuthCap::from_message(&other), None);
    other.netfn = 0x05;
    assert_eq!(GetChannelAuthCap::from_message(&other), None);
}

#[test]
fn catalog_rejects_short_payload() {
    let short = [0x0e];
    assert_eq!(GetChannelAuthCap::from_data(&IpmiData::Request(&short)), None);
    assert_eq!(ActivateSession::from_data(&IpmiData::Response(0, &short)), None);
}

#[test]
fn payload_little_endian_fields() {
    let r = ActivateSessionResponse {
        auth_type: 2,
        session_id: 0x11223344,
        init_inbound_seq: 0x01020304,
        max_priv_level: 4,
    };
    assert_eq!(r.size(), 10);
    let mut out = [0u8; 10];
    r.write_to_slice(&mut out, true).unwrap();
    assert_eq!(out, [0x02, 0x44, 0x33, 0x22, 0x11, 0x04, 0x03, 0x02, 0x01, 0x04]);
    assert_eq!(ActivateSessionResponse::from_bytes(&out, true), Ok(r));

    let q = ActivateSessionRequest {
        auth_type: 2,
        max_priv_level: 4,
        challenge_string: [7u8; 16],
        init_outbound_seq: 0xa1b2c3d4,
    };
    let mut out = [0u8; 22];
    q.write_to_slice(&mut out, true).unwrap();
    assert_eq!(&out[18..], &[0xd4, 0xc3, 0xb2, 0xa1]);
    assert_eq!(ActivateSessionRequest::from_bytes(&out, true), Ok(q));

    let mut challenge = [0u8; 20];
    challenge[0] = 0x78;
    challenge[3] = 0x12;
    challenge[4] = 0x99;
    let c = GetSessionChallengeResponse::from_bytes(&challenge, true).unwrap();
    assert_eq!(c.tmp_session_id, 0x12000078);
    assert_eq!(c.challenge_dat[0], 0x99);
    assert_eq!(GetSessionChallengeResponse::from_bytes(&challenge[..19], true), Err(Error::PayloadTooSmall));
}

#[test]
fn summon_decodes_any_type() {
    let p: SetSessionPrivLevelRequest = summon_from_bytes(&[0x04], true).unwrap();
    assert_eq!(p, SetSessionPrivLevelRequest { priv_level: 4 });
    let b: u8 = summon_from_bytes(&[0x09, 0x01], true).unwrap();
    assert_eq!(b, 9);
    let a: [u8; 2] = summon_from_bytes(&[0x01, 0x02, 0x03], false).unwrap();
    assert_eq!(a, [1, 2]);
    let r: Result<[u8; 4], Error> = summon_from_bytes(&[0x01], false);
    assert_eq!(r, Err(Error::PayloadTooSmall));
    let m: RmcpMessage = summon_from_bytes(&REQ, true).unwrap();
    assert_eq!(m.sequence_number, 0xff);
}

#[test]
fn asf_data_encoding() {
    let d = AsfData::Pong { iana: 4542, oem_defined: 0, entities: 0x81, interactions: 0 };
    assert_eq!(d.size(), 10);
    let mut out = [0u8; 10];
    d.write_to_slice(&mut out, true).unwrap();
    assert_eq!(out, [0x00, 0x00, 0x11, 0xbe, 0, 0, 0, 0, 0x81, 0]);
    let mut small = [0u8; 9];
    assert_eq!(d.write_to_slice(&mut small, true), Err(Error::OutBufferTooSmall));
    let mut one = [0u8; 1];
    assert_eq!(5u8.write_to_slice(&mut one, true), Ok(()));
    assert_eq!(one, [5]);
    assert_eq!(7u32.size(), 4);
    let mut two = [0u8; 2];
    assert_eq!([3u8, 4u8].write_to_slice(&mut two, true), Ok(()));
    assert_eq!(two, [3, 4]);
}
