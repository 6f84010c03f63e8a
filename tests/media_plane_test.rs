use rustrtc::demux::{classify, IceConn, IpAddress, PacketClass, Route, SocketAddress, ConnError};
use rustrtc::rtp::{parse_rtp, HeaderExtension, MediaSample, RtpError, RtpHeader, RtpPacket, RtpSender};
use rustrtc::stats::{LocalStreamStats, RemoteInboundStats, RemoteOutboundStats};
use rustrtc::sdp::RtpCodecParameters;
use rustrtc::signaling::{apply_local, apply_remote, check_create_answer, check_create_offer};
use rustrtc::transceiver::{Delivery, RtpReceiver};
use rustrtc::{RtcError, SdpType, SignalingState};
use std::collections::HashMap;

fn addr(port: u16) -> SocketAddress {
    SocketAddress { ip: IpAddress::V4(0x7f000001), port }
}

fn video_map() -> HashMap<u8, RtpCodecParameters> {
    let mut m = HashMap::new();
    m.insert(96, RtpCodecParameters { payload_type: 96, clock_rate: 90000, channels: 0 });
    m
}

fn packet(ssrc: u32, payload_type: u8, seq: u16) -> RtpPacket {
    RtpPacket {
        header: RtpHeader {
            marker: seq % 2 == 0,
            payload_type,
            sequence_number: seq,
            timestamp: 3000 * seq as u32,
            ssrc,
            csrcs: vec![],
            extension: None,
        },
        payload: vec![seq as u8; 20],
        padding: 0,
    }
}

#[test]
fn leading_byte_ranges_classify() {
    assert_eq!(classify(0), PacketClass::Stun);
    assert_eq!(classify(19), PacketClass::Stun);
    assert_eq!(classify(20), PacketClass::Dtls);
    assert_eq!(classify(63), PacketClass::Dtls);
    assert_eq!(classify(64), PacketClass::Unknown);
    assert_eq!(classify(127), PacketClass::Unknown);
    assert_eq!(classify(128), PacketClass::Rtp);
    assert_eq!(classify(191), PacketClass::Rtp);
    assert_eq!(classify(192), PacketClass::Unknown);
    assert_eq!(classify(255), PacketClass::Unknown);
}

#[test]
fn every_rtp_byte_reaches_the_rtp_receiver_once_registered() {
    let mut conn: IceConn<u8> = IceConn::new(addr(5000));
    for b in 128u8..192 {
        assert_eq!(conn.receive(&[b, 0], addr(5000)), Route::Drop);
    }
    conn.set_rtp_receiver(7);
    for b in 128u8..192 {
        assert_eq!(conn.receive(&[b, 0], addr(5000)), Route::ToRtp);
    }
}

#[test]
fn dtls_without_receiver_is_reported() {
    let mut conn: IceConn<u8> = IceConn::new(addr(5000));
    assert_eq!(conn.receive(&[22], addr(5000)), Route::DropNoDtlsReceiver);
    conn.set_dtls_receiver(1);
    assert_eq!(conn.receive(&[22], addr(5000)), Route::ToDtls);
    assert_eq!(conn.receive(&[0, 1], addr(5000)), Route::Drop);
    assert_eq!(conn.receive(&[], addr(5000)), Route::Drop);
}

#[test]
fn unspecified_remote_latches_and_migrates() {
    let mut conn: IceConn<u8> = IceConn::new(addr(0));
    assert!(matches!(conn.send(&[1, 2]), Err(ConnError::RemoteNotSet)));
    conn.receive(&[0x80], addr(40000));
    assert_eq!(conn.remote_addr, addr(40000));
    let d = conn.send(&[1, 2]).unwrap();
    assert_eq!(d.destination, addr(40000));
    assert_eq!(d.data, vec![1, 2]);
    conn.receive(&[0x00, 0x01], addr(40100));
    assert_eq!(conn.send(&[3]).unwrap().destination, addr(40100));
}

#[test]
fn signaling_edges() {
    assert_eq!(apply_local(SignalingState::Stable, SdpType::Offer), Ok(SignalingState::HaveLocalOffer));
    assert_eq!(apply_local(SignalingState::HaveRemoteOffer, SdpType::Answer), Ok(SignalingState::Stable));
    assert_eq!(apply_remote(SignalingState::Stable, SdpType::Offer), Ok(SignalingState::HaveRemoteOffer));
    assert_eq!(apply_remote(SignalingState::HaveLocalOffer, SdpType::Answer), Ok(SignalingState::Stable));
    assert_eq!(apply_remote(SignalingState::HaveLocalOffer, SdpType::Offer), Err(RtcError::InvalidState));
    assert_eq!(apply_local(SignalingState::Stable, SdpType::Answer), Err(RtcError::InvalidState));
    assert_eq!(apply_local(SignalingState::Closed, SdpType::Offer), Err(RtcError::Closed));
    assert_eq!(check_create_offer(SignalingState::HaveLocalOffer), Ok(()));
    assert_eq!(check_create_offer(SignalingState::HaveRemoteOffer), Err(RtcError::InvalidState));
    assert_eq!(check_create_answer(SignalingState::HaveRemoteOffer), Ok(()));
    assert_eq!(check_create_answer(SignalingState::Stable), Err(RtcError::InvalidState));
}

#[test]
fn sender_emits_no_extension_bit() {
    let mut sender = RtpSender::new(0x01020304, 65535);
    let sample = MediaSample { rtp_timestamp: 90000, payload_type: 96, data: vec![9, 8, 7], is_last_packet: true };
    let bytes = sender.send_sample(&sample, &video_map()).unwrap();
    assert_eq!(bytes[0] & 0x10, 0);
    assert_eq!(
        bytes,
        vec![0x80, 0x80 | 96, 0xff, 0xff, 0x00, 0x01, 0x5f, 0x90, 1, 2, 3, 4, 9, 8, 7]
    );
    assert_eq!(sender.sequence_number, 0);
    let next = sender.send_sample(&sample, &video_map()).unwrap();
    assert_eq!((next[2], next[3]), (0, 0));
    assert_eq!(sender.sequence_number, 1);
}

#[test]
fn sender_drops_unknown_payload_type() {
    let mut sender = RtpSender::new(5, 10);
    let sample = MediaSample { rtp_timestamp: 0, payload_type: 111, data: vec![1], is_last_packet: false };
    assert!(sender.send_sample(&sample, &video_map()).is_none());
    assert_eq!(sender.sequence_number, 10);
}

#[test]
fn marshal_sets_extension_csrc_and_padding() {
    let p = RtpPacket {
        header: RtpHeader {
            marker: false,
            payload_type: 0,
            sequence_number: 1,
            timestamp: 2,
            ssrc: 3,
            csrcs: vec![0x0a0b0c0d],
            extension: Some(HeaderExtension { profile: 0xBEDE, data: vec![1, 2, 3, 4] }),
        },
        payload: vec![0xaa],
        padding: 2,
    };
    let b = p.marshal();
    assert_eq!(b[0], 0x80 | 0x20 | 0x10 | 1);
    assert_eq!(&b[12..16], &[0x0a, 0x0b, 0x0c, 0x0d]);
    assert_eq!(&b[16..20], &[0xbe, 0xde, 0x00, 0x01]);
    assert_eq!(&b[20..24], &[1, 2, 3, 4]);
    assert_eq!(&b[24..], &[0xaa, 0x00, 0x02]);
}

#[test]
fn receiver_latches_first_packet_and_keeps_all() {
    let mut rx = RtpReceiver::new(None);
    let map = video_map();
    let mut samples = 0;
    let mut firsts = 0;
    for seq in 0..10u16 {
        match rx.on_packet(packet(4242, 96, seq), &map) {
            Delivery::Sample { sample, first } => {
                samples += 1;
                if first {
                    firsts += 1;
                }
                assert_eq!(sample.data, vec![seq as u8; 20]);
                assert_eq!(sample.is_last_packet, seq % 2 == 0);
                assert_eq!(sample.rtp_timestamp, 3000 * seq as u32);
            }
            other => panic!("unexpected {:?}", other),
        }
    }
    assert_eq!(samples, 10);
    assert_eq!(firsts, 1);
    assert_eq!(rx.ssrc, Some(4242));
}

#[test]
fn receiver_drops_foreign_ssrc_and_unknown_payload() {
    let mut rx = RtpReceiver::new(None);
    let map = video_map();
    assert!(matches!(rx.on_packet(packet(1, 100, 0), &map), Delivery::UnknownPayload));
    assert_eq!(rx.ssrc, None);
    assert!(matches!(rx.on_packet(packet(1, 96, 0), &map), Delivery::Sample { first: true, .. }));
    assert!(matches!(rx.on_packet(packet(2, 96, 1), &map), Delivery::ForeignSsrc));
    assert_eq!(rx.ssrc, Some(1));
}

#[test]
fn parse_reads_marshalled_packet() {
    let p = RtpPacket {
        header: RtpHeader {
            marker: true,
            payload_type: 111,
            sequence_number: 0x1234,
            timestamp: 0xdeadbeef,
            ssrc: 0x01020304,
            csrcs: vec![7, 8],
            extension: Some(HeaderExtension { profile: 0xBEDE, data: vec![0x10, 0xff, 0, 0] }),
        },
        payload: vec![1, 2, 3],
        padding: 4,
    };
    let q = parse_rtp(&p.marshal()).unwrap();
    assert!(q.header.marker);
    assert_eq!(q.header.payload_type, 111);
    assert_eq!(q.header.sequence_number, 0x1234);
    assert_eq!(q.header.timestamp, 0xdeadbeef);
    assert_eq!(q.header.ssrc, 0x01020304);
    assert_eq!(q.header.csrcs, vec![7, 8]);
    let e = q.header.extension.unwrap();
    assert_eq!((e.profile, e.data), (0xBEDE, vec![0x10, 0xff, 0, 0]));
    assert_eq!(q.payload, vec![1, 2, 3]);
    assert_eq!(q.padding, 4);
}

#[test]
fn parse_rejects_malformed_packets() {
    assert_eq!(parse_rtp(&[0x80; 11]).unwrap_err(), RtpError::TooShort);
    let mut b = vec![0x40u8, 96, 0, 1, 0, 0, 0, 0, 0, 0, 0, 1];
    assert_eq!(parse_rtp(&b).unwrap_err(), RtpError::BadVersion);
    b[0] = 0x81;
    assert_eq!(parse_rtp(&b).unwrap_err(), RtpError::Truncated);
    b[0] = 0x90;
    assert_eq!(parse_rtp(&b).unwrap_err(), RtpError::Truncated);
    b[0] = 0xA0;
    b.push(0);
    assert_eq!(parse_rtp(&b).unwrap_err(), RtpError::BadPadding);
    *b.last_mut().unwrap() = 2;
    assert_eq!(parse_rtp(&b).unwrap_err(), RtpError::BadPadding);
    *b.last_mut().unwrap() = 1;
    let p = parse_rtp(&b).unwrap();
    assert!(p.payload.is_empty());
    assert_eq!(p.padding, 1);
}

#[test]
fn remote_stats_records_default_to_zero() {
    assert_eq!(RemoteInboundStats::default(), RemoteInboundStats { packets_lost: 0, fraction_lost: 0, jitter: 0 });
    assert_eq!(RemoteOutboundStats::default().packets_sent, 0);
    assert_eq!(LocalStreamStats::default(), LocalStreamStats { packets: 0, bytes: 0 });
}
