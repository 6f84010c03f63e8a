use rustrtc::peer_connection::{self, RtpCodecParameters};
use rustrtc::MediaKind;
use std::collections::HashMap;

fn codec(payload_type: u8, clock_rate: u32, channels: u16) -> RtpCodecParameters {
    RtpCodecParameters { payload_type, clock_rate, channels }
}

#[test]
fn test_payload_type_update() {
    let mut transceiver = peer_connection::RtpTransceiver::new(
        MediaKind::Audio,
        "0",
        peer_connection::TransceiverDirection::SendRecv,
    );

    let mut initial_map = HashMap::new();
    initial_map.insert(111, codec(111, 48000, 2));
    transceiver.update_payload_map(initial_map.clone());

    let payload_map = transceiver.get_payload_map();
    assert_eq!(payload_map.len(), 1);
    assert_eq!(payload_map.get(&111).unwrap().clock_rate, 48000);
    assert_eq!(payload_map.get(&111).unwrap().channels, 2);

    let mut updated_map = HashMap::new();
    updated_map.insert(111, codec(111, 16000, 1));
    transceiver.update_payload_map(updated_map);

    let payload_map = transceiver.get_payload_map();
    assert_eq!(payload_map.get(&111).unwrap().clock_rate, 16000);
    assert_eq!(payload_map.get(&111).unwrap().channels, 1);

    let mut new_map = HashMap::new();
    new_map.insert(120, codec(120, 90000, 0));
    transceiver.update_payload_map(new_map);

    let payload_map = transceiver.get_payload_map();
    assert_eq!(payload_map.len(), 1);
    assert!(!payload_map.contains_key(&111));
    assert!(payload_map.contains_key(&120));
}

#[test]
fn test_extmap_update() {
    let mut transceiver = peer_connection::RtpTransceiver::new(
        MediaKind::Audio,
        "0",
        peer_connection::TransceiverDirection::SendRecv,
    );

    let mut initial_extmap = HashMap::new();
    initial_extmap.insert(1, "urn:ietf:params:rtp-hdrext:ssrc-audio-level".to_string());
    initial_extmap.insert(
        3,
        "http://www.webrtc.org/experiments/rtp-hdrext/abs-send-time".to_string(),
    );
    transceiver.update_extmap(initial_extmap.clone());

    let extmap = transceiver.get_extmap();
    assert_eq!(extmap.len(), 2);
    assert_eq!(
        extmap.get(&1).unwrap(),
        "urn:ietf:params:rtp-hdrext:ssrc-audio-level"
    );

    let mut updated_extmap = HashMap::new();
    updated_extmap.insert(1, "urn:ietf:params:rtp-hdrext:ssrc-audio-level".to_string());
    updated_extmap.insert(
        5,
        "http://www.webrtc.org/experiments/rtp-hdrext/abs-send-time".to_string(),
    );
    transceiver.update_extmap(updated_extmap);

    let extmap = transceiver.get_extmap();
    assert_eq!(extmap.len(), 2);
    assert!(!extmap.contains_key(&3));
    assert!(extmap.contains_key(&5));
}

#[test]
fn test_reinvite_payload_change() {
    let mut transceiver = peer_connection::RtpTransceiver::new(
        MediaKind::Audio,
        "0",
        peer_connection::TransceiverDirection::SendRecv,
    );

    let mut initial_map = HashMap::new();
    initial_map.insert(111, codec(111, 48000, 2));
    transceiver.update_payload_map(initial_map);

    assert_eq!(
        transceiver.get_payload_map().get(&111).unwrap().clock_rate,
        48000
    );

    let mut reinvite_map = HashMap::new();
    reinvite_map.insert(120, codec(120, 48000, 2));
    transceiver.update_payload_map(reinvite_map);

    let final_map = transceiver.get_payload_map();
    assert!(!final_map.contains_key(&111));
    assert!(final_map.contains_key(&120));
    assert_eq!(final_map.get(&120).unwrap().clock_rate, 48000);
}

#[test]
fn test_reinvite_comprehensive() {
    let mut transceiver = peer_connection::RtpTransceiver::new(
        MediaKind::Video,
        "0",
        peer_connection::TransceiverDirection::SendRecv,
    );

    let mut initial_payload_map = HashMap::new();
    initial_payload_map.insert(96, codec(96, 90000, 0));
    initial_payload_map.insert(97, codec(97, 90000, 0));
    transceiver.update_payload_map(initial_payload_map);

    let mut initial_extmap = HashMap::new();
    initial_extmap.insert(1, "urn:ietf:params:rtp-hdrext:toffset".to_string());
    initial_extmap.insert(
        3,
        "http://www.webrtc.org/experiments/rtp-hdrext/abs-send-time".to_string(),
    );
    transceiver.update_extmap(initial_extmap);

    let payload_map = transceiver.get_payload_map();
    assert_eq!(payload_map.len(), 2);
    assert!(payload_map.contains_key(&96));
    assert!(payload_map.contains_key(&97));

    let extmap = transceiver.get_extmap();
    assert_eq!(extmap.len(), 2);
    assert!(extmap.contains_key(&1));
    assert!(extmap.contains_key(&3));

    let mut updated_payload_map = HashMap::new();
    updated_payload_map.insert(98, codec(98, 90000, 0));
    updated_payload_map.insert(97, codec(97, 90000, 0));
    transceiver.update_payload_map(updated_payload_map);

    let mut updated_extmap = HashMap::new();
    updated_extmap.insert(2, "urn:ietf:params:rtp-hdrext:toffset".to_string());
    updated_extmap.insert(
        5,
        "http://www.webrtc.org/experiments/rtp-hdrext/abs-send-time".to_string(),
    );
    updated_extmap.insert(
        7,
        "urn:ietf:params:rtp-hdrext:sdes:rtp-stream-id".to_string(),
    );
    transceiver.update_extmap(updated_extmap);

    let payload_map = transceiver.get_payload_map();
    assert_eq!(payload_map.len(), 2);
    assert!(!payload_map.contains_key(&96));
    assert!(payload_map.contains_key(&97));
    assert!(payload_map.contains_key(&98));

    let extmap = transceiver.get_extmap();
    assert_eq!(extmap.len(), 3);
    assert!(!extmap.contains_key(&1));
    assert!(extmap.contains_key(&2));
    assert!(!extmap.contains_key(&3));
    assert!(extmap.contains_key(&5));
    assert!(extmap.contains_key(&7));

    let mut final_payload_map = HashMap::new();
    final_payload_map.insert(100, codec(100, 90000, 0));
    transceiver.update_payload_map(final_payload_map);

    let payload_map = transceiver.get_payload_map();
    assert_eq!(payload_map.len(), 1);
    assert!(payload_map.contains_key(&100));
    assert!(!payload_map.contains_key(&97));
    assert!(!payload_map.contains_key(&98));
}

#[test]
fn same_payload_map_twice_equals_once() {
    let mut t = peer_connection::RtpTransceiver::new(
        MediaKind::Audio,
        "0",
        peer_connection::TransceiverDirection::SendRecv,
    );
    let mut m = HashMap::new();
    m.insert(111, codec(111, 48000, 2));
    m.insert(0, codec(0, 8000, 0));
    t.update_payload_map(m.clone());
    let once = t.get_payload_map();
    t.update_payload_map(m.clone());
    assert_eq!(t.get_payload_map(), once);
    assert_eq!(once, m);
}

#[test]
fn replaced_map_holds_no_stale_entry() {
    let mut t = peer_connection::RtpTransceiver::new(
        MediaKind::Audio,
        "0",
        peer_connection::TransceiverDirection::SendRecv,
    );
    let mut pre = HashMap::new();
    pre.insert(111, codec(111, 48000, 2));
    pre.insert(9, codec(9, 8000, 1));
    t.update_payload_map(pre.clone());
    let mut next = HashMap::new();
    next.insert(120, codec(120, 48000, 2));
    t.update_payload_map(next.clone());
    let seen = t.get_payload_map();
    assert_eq!(seen, next);
    for k in seen.keys() {
        assert!(pre.contains_key(k) || next.contains_key(k));
    }
}

#[test]
fn receiver_latches_once_until_rebound() {
    let mut t = peer_connection::RtpTransceiver::new(
        MediaKind::Audio,
        "0",
        peer_connection::TransceiverDirection::RecvOnly,
    );
    assert_eq!(t.receiver_ssrc(), None);
    assert!(t.latch_receiver(1000));
    assert!(!t.latch_receiver(2000));
    assert_eq!(t.receiver_ssrc(), Some(1000));
    assert_eq!(t.rebind_receiver(3000), Some(1000));
    assert_eq!(t.rebind_receiver(3000), None);
    assert_eq!(t.receiver_ssrc(), Some(3000));
}

#[test]
fn set_direction_is_idempotent() {
    let mut t = peer_connection::RtpTransceiver::new(
        MediaKind::Video,
        "v",
        peer_connection::TransceiverDirection::SendRecv,
    );
    t.set_direction(peer_connection::TransceiverDirection::Inactive);
    t.set_direction(peer_connection::TransceiverDirection::Inactive);
    assert_eq!(t.direction(), peer_connection::TransceiverDirection::Inactive);
    assert_eq!(t.mid(), "v");
    assert_eq!(t.kind(), MediaKind::Video);
    assert_eq!(t.current_direction(), None);
}
