use rustrtc::rtp::{RtpHeader, RtpPacket, HeaderExtension, wire_size};
use rustrtc::stats::{
    ReceiverReport, ReportBlock, RtcpPacket, SenderReport, StatsCollector, StatsKind,
};

fn rtp_packet(ssrc: u32, payload_len: usize) -> RtpPacket {
    RtpPacket {
        header: RtpHeader {
            marker: false,
            payload_type: 96,
            sequence_number: 1,
            timestamp: 0,
            ssrc,
            csrcs: vec![],
            extension: None,
        },
        payload: vec![0u8; payload_len],
        padding: 0,
    }
}

#[test]
fn test_stats_collector_sr() {
    let mut collector = StatsCollector::new();
    let sr = SenderReport {
        sender_ssrc: 12345,
        ntp_most: 0,
        ntp_least: 1000,
        rtp_timestamp: 0,
        packet_count: 50,
        octet_count: 5000,
        report_blocks: vec![ReportBlock {
            ssrc: 67890,
            fraction_lost: 10,
            packets_lost: 5,
            highest_sequence: 100,
            jitter: 20,
            last_sender_report: 0,
            delay_since_last_sender_report: 0,
        }],
    };

    collector.process_rtcp(&RtcpPacket::SenderReport(sr));

    let stats = collector.collect();
    assert_eq!(stats.len(), 2);

    let remote_outbound = stats
        .iter()
        .find(|s| s.kind == StatsKind::RemoteOutboundRtp)
        .unwrap();
    assert_eq!(remote_outbound.value("ssrc"), Some(12345));
    assert_eq!(remote_outbound.value("packetsSent"), Some(50));
    assert_eq!(remote_outbound.value("bytesSent"), Some(5000));

    let remote_inbound = stats
        .iter()
        .find(|s| s.kind == StatsKind::RemoteInboundRtp)
        .unwrap();
    assert_eq!(remote_inbound.value("ssrc"), Some(67890));
    assert_eq!(remote_inbound.value("packetsLost"), Some(5));
    assert_eq!(remote_inbound.value("fractionLost"), Some(10));
    assert_eq!(remote_inbound.value("jitter"), Some(20));
}

#[test]
fn stats_round_trip_of_local_streams() {
    let mut collector = StatsCollector::new();
    collector.on_rtp_sent(&rtp_packet(12345, 100));
    collector.on_rtp_sent(&rtp_packet(12345, 100));
    collector.on_rtp_received(&rtp_packet(67890, 100));

    let stats = collector.collect();
    assert_eq!(stats.len(), 2);
    let outbound = stats.iter().find(|s| s.kind == StatsKind::OutboundRtp).unwrap();
    assert_eq!(outbound.id, "outbound-rtp-12345");
    assert_eq!(outbound.value("ssrc"), Some(12345));
    assert_eq!(outbound.value("packetsSent"), Some(2));
    assert_eq!(outbound.value("bytesSent"), Some(224));
    let inbound = stats.iter().find(|s| s.kind == StatsKind::InboundRtp).unwrap();
    assert_eq!(inbound.id, "inbound-rtp-67890");
    assert_eq!(inbound.value("ssrc"), Some(67890));
    assert_eq!(inbound.value("packetsReceived"), Some(1));
    assert_eq!(inbound.value("bytesReceived"), Some(112));
}

#[test]
fn receiver_report_updates_loss_and_jitter() {
    let mut collector = StatsCollector::new();
    let block = |lost: i32| ReportBlock {
        ssrc: 42,
        fraction_lost: 3,
        packets_lost: lost,
        highest_sequence: 7,
        jitter: 9,
        last_sender_report: 0,
        delay_since_last_sender_report: 0,
    };
    collector.process_rtcp(&RtcpPacket::ReceiverReport(ReceiverReport {
        sender_ssrc: 1,
        report_blocks: vec![block(4)],
    }));
    collector.process_rtcp(&RtcpPacket::ReceiverReport(ReceiverReport {
        sender_ssrc: 1,
        report_blocks: vec![block(-2)],
    }));
    let stats = collector.collect();
    assert_eq!(stats.len(), 1);
    assert_eq!(stats[0].kind, StatsKind::RemoteInboundRtp);
    assert_eq!(stats[0].id, "remote-inbound-rtp-42");
    assert_eq!(stats[0].value("packetsLost"), Some(-2));
    assert_eq!(stats[0].value("roundTripTime"), None);
}

#[test]
fn other_rtcp_packets_are_ignored() {
    let mut collector = StatsCollector::new();
    collector.process_rtcp(&RtcpPacket::Goodbye(vec![1, 2]));
    collector.process_rtcp(&RtcpPacket::PictureLossIndication { sender_ssrc: 1, media_ssrc: 2 });
    assert!(collector.collect().is_empty());
}

#[test]
fn snapshot_orders_remote_before_local() {
    let mut collector = StatsCollector::new();
    collector.on_rtp_sent(&rtp_packet(5, 10));
    collector.process_rtcp(&RtcpPacket::SenderReport(SenderReport {
        sender_ssrc: 9,
        ntp_most: 0,
        ntp_least: 0,
        rtp_timestamp: 0,
        packet_count: 1,
        octet_count: 2,
        report_blocks: vec![],
    }));
    let stats = collector.collect();
    assert_eq!(stats.len(), 2);
    assert_eq!(stats[0].kind, StatsKind::RemoteOutboundRtp);
    assert_eq!(stats[0].id, "remote-outbound-rtp-9");
    assert_eq!(stats[1].kind, StatsKind::OutboundRtp);
}

#[test]
fn wire_size_counts_every_part() {
    let mut p = rtp_packet(1, 100);
    assert_eq!(wire_size(&p), 112);
    p.header.csrcs = vec![1, 2];
    p.header.extension = Some(HeaderExtension { profile: 0xBEDE, data: vec![0u8; 8] });
    p.padding = 3;
    assert_eq!(wire_size(&p), 12 + 8 + 4 + 8 + 100 + 3);
}
