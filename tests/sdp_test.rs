use rustrtc::sdp::{
    extract_extmap, extract_payload_map, extract_ssrc, parse_rtpmap, attributes_from_lines,
    attributes_to_lines, Attribute, Direction, MediaSection, ParseReason,
};
use rustrtc::MediaKind;

#[test]
fn test_extract_payload_map_from_sdp() {
    let mut section = MediaSection::new(MediaKind::Audio, "0");
    section.attributes.push(Attribute::new(
        "rtpmap",
        Some("111 opus/48000/2".to_string()),
    ));
    section
        .attributes
        .push(Attribute::new("rtpmap", Some("9 G722/8000/1".to_string())));
    section
        .attributes
        .push(Attribute::new("rtpmap", Some("0 PCMU/8000".to_string())));

    let payload_map = extract_payload_map(&section);

    assert_eq!(payload_map.len(), 3);

    let opus = payload_map.get(&111).unwrap();
    assert_eq!(opus.clock_rate, 48000);
    assert_eq!(opus.channels, 2);

    let g722 = payload_map.get(&9).unwrap();
    assert_eq!(g722.clock_rate, 8000);
    assert_eq!(g722.channels, 1);

    let pcmu = payload_map.get(&0).unwrap();
    assert_eq!(pcmu.clock_rate, 8000);
    assert_eq!(pcmu.channels, 0);
}

#[test]
fn test_extract_extmap_from_sdp() {
    let mut section = MediaSection::new(MediaKind::Audio, "0");
    section.attributes.push(Attribute::new(
        "extmap",
        Some("1 urn:ietf:params:rtp-hdrext:ssrc-audio-level".to_string()),
    ));
    section.attributes.push(Attribute::new(
        "extmap",
        Some("3 http://www.webrtc.org/experiments/rtp-hdrext/abs-send-time".to_string()),
    ));
    section.attributes.push(Attribute::new(
        "extmap",
        Some("5 urn:ietf:params:rtp-hdrext:sdes:rtp-stream-id".to_string()),
    ));

    let extmap = extract_extmap(&section);

    assert_eq!(extmap.len(), 3);
    assert_eq!(
        extmap.get(&1).unwrap(),
        "urn:ietf:params:rtp-hdrext:ssrc-audio-level"
    );
    assert_eq!(
        extmap.get(&3).unwrap(),
        "http://www.webrtc.org/experiments/rtp-hdrext/abs-send-time"
    );
    assert_eq!(
        extmap.get(&5).unwrap(),
        "urn:ietf:params:rtp-hdrext:sdes:rtp-stream-id"
    );
}

#[test]
fn malformed_rtpmap_lines_are_skipped() {
    let mut section = MediaSection::new(MediaKind::Video, "1");
    section.attributes.push(Attribute::new("rtpmap", Some("96 VP8/90000".to_string())));
    section.attributes.push(Attribute::new("rtpmap", Some("x VP8/90000".to_string())));
    section.attributes.push(Attribute::new("rtpmap", Some("300 VP8/90000".to_string())));
    section.attributes.push(Attribute::new("rtpmap", Some("97 VP9".to_string())));
    section.attributes.push(Attribute::new("rtpmap", None));
    section.attributes.push(Attribute::new("fmtp", Some("98 VP8/90000".to_string())));
    let map = extract_payload_map(&section);
    assert_eq!(map.len(), 1);
    assert_eq!(map.get(&96).unwrap().clock_rate, 90000);
    assert_eq!(map.get(&96).unwrap().channels, 0);
}

#[test]
fn later_rtpmap_line_replaces_earlier() {
    let mut section = MediaSection::new(MediaKind::Audio, "0");
    section.attributes.push(Attribute::new("rtpmap", Some("111 opus/48000/2".to_string())));
    section.attributes.push(Attribute::new("rtpmap", Some("111 opus/16000/1".to_string())));
    let map = extract_payload_map(&section);
    assert_eq!(map.len(), 1);
    assert_eq!(map.get(&111).unwrap().clock_rate, 16000);
}

#[test]
fn rtpmap_values_parse_exactly() {
    let p = parse_rtpmap("111 opus/48000/2").unwrap();
    assert_eq!((p.payload_type, p.clock_rate, p.channels), (111, 48000, 2));
    let p = parse_rtpmap("0 PCMU/8000").unwrap();
    assert_eq!((p.payload_type, p.clock_rate, p.channels), (0, 8000, 0));
    let p = parse_rtpmap("8 PCMA/8000/x").unwrap();
    assert_eq!(p.channels, 0);
    assert!(parse_rtpmap("").is_none());
    assert!(parse_rtpmap("111opus/48000").is_none());
    assert!(parse_rtpmap("256 opus/48000").is_none());
    assert!(parse_rtpmap("96 VP8/").is_none());
}

#[test]
fn extmap_needs_numeric_id_and_uri() {
    let mut section = MediaSection::new(MediaKind::Audio, "0");
    section.attributes.push(Attribute::new("extmap", Some("2 urn:a".to_string())));
    section.attributes.push(Attribute::new("extmap", Some("x urn:b".to_string())));
    section.attributes.push(Attribute::new("extmap", Some("4 ".to_string())));
    section.attributes.push(Attribute::new("extmap", Some("6 urn:c extra".to_string())));
    let map = extract_extmap(&section);
    assert_eq!(map.len(), 2);
    assert_eq!(map.get(&2).unwrap(), "urn:a");
    assert_eq!(map.get(&6).unwrap(), "urn:c");
}

#[test]
fn direction_comes_from_first_direction_attribute() {
    let mut section = MediaSection::new(MediaKind::Audio, "0");
    assert_eq!(section.direction_from_attributes(), Direction::SendRecv);
    section.attributes.push(Attribute::new("mid", Some("0".to_string())));
    section.attributes.push(Attribute::new("recvonly", None));
    section.attributes.push(Attribute::new("sendonly", None));
    assert_eq!(section.direction_from_attributes(), Direction::RecvOnly);
    assert_eq!(Direction::SendOnly.mirror(), Direction::RecvOnly);
    assert_eq!(Direction::Inactive.mirror(), Direction::Inactive);
}

#[test]
fn ssrc_is_first_word_of_first_ssrc_line() {
    let mut section = MediaSection::new(MediaKind::Audio, "0");
    assert_eq!(extract_ssrc(&section), None);
    section.attributes.push(Attribute::new("ssrc", Some("12345 cname:test".to_string())));
    section.attributes.push(Attribute::new("ssrc", Some("999 cname:x".to_string())));
    assert_eq!(extract_ssrc(&section), Some(12345));
}

#[test]
fn attribute_lines_round_trip() {
    let attrs = vec![
        Attribute::new("rtpmap", Some("111 opus/48000/2".to_string())),
        Attribute::new("extmap", Some("1 urn:ietf:params:rtp-hdrext:ssrc-audio-level".to_string())),
        Attribute::new("ssrc", Some("12345 cname:a:b".to_string())),
        Attribute::new("candidate", Some("1 1 udp 2130706431 127.0.0.1 40000 typ host".to_string())),
        Attribute::new("sendonly", None),
    ];
    let lines = attributes_to_lines(&attrs);
    assert_eq!(lines[0], "a=rtpmap:111 opus/48000/2");
    assert_eq!(lines[4], "a=sendonly");
    let back = attributes_from_lines(&lines).unwrap();
    assert_eq!(back.len(), attrs.len());
    for (a, b) in attrs.iter().zip(back.iter()) {
        assert_eq!(a.key, b.key);
        assert_eq!(a.value, b.value);
    }
}

#[test]
fn non_attribute_line_is_reported_with_its_index() {
    let lines = vec!["a=mid:0".to_string(), "m=audio 9 UDP/TLS/RTP/SAVPF 111".to_string()];
    let err = attributes_from_lines(&lines).unwrap_err();
    assert_eq!(err.line, 1);
    assert_eq!(err.reason, ParseReason::NotAnAttribute);
}
