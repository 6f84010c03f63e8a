//! The stats collector: an observer of sent and received RTP packets and of
//! inbound RTCP reports, with a snapshot of per-SSRC statistics.
use vstd::prelude::*;
use crate::rtp::{RtpPacket, wire_size, wire_size_u64};
use crate::table::{SsrcTable, upserted, lookup};
use crate::text::{decimal, decimal_string};

verus! {

/// One report block of an RTCP sender or receiver report.
#[derive(Clone, Copy, Debug, PartialEq, Eq, Structural)]
pub struct ReportBlock {
    pub ssrc: u32,
    pub fraction_lost: u8,
    pub packets_lost: i32,
    pub highest_sequence: u32,
    pub jitter: u32,
    pub last_sender_report: u32,
    pub delay_since_last_sender_report: u32,
}

/// An RTCP sender report (PT 200).
#[derive(Clone, Debug)]
pub struct SenderReport {
    pub sender_ssrc: u32,
    pub ntp_most: u32,
    pub ntp_least: u32,
    pub rtp_timestamp: u32,
    pub packet_count: u32,
    pub octet_count: u32,
    pub report_blocks: Vec<ReportBlock>,
}

/// An RTCP receiver report (PT 201).
#[derive(Clone, Debug)]
pub struct ReceiverReport {
    pub sender_ssrc: u32,
    pub report_blocks: Vec<ReportBlock>,
}

/// The RTCP packets of a compound packet that the core tells apart.
#[derive(Clone, Debug)]
pub enum RtcpPacket {
    SenderReport(SenderReport),
    ReceiverReport(ReceiverReport),
    Goodbye(Vec<u32>),
    PictureLossIndication { sender_ssrc: u32, media_ssrc: u32 },
}

/// What the remote side reports of a stream that this side sends.
#[derive(Clone, Copy, Debug, PartialEq, Eq, Structural)]
pub struct RemoteInboundStats {
    pub packets_lost: i32,
    pub fraction_lost: u8,
    pub jitter: u32,
}

impl Default for RemoteInboundStats {
    fn default() -> (r: Self)
        ensures
            r == (RemoteInboundStats { packets_lost: 0, fraction_lost: 0, jitter: 0 }),
    {
        RemoteInboundStats { packets_lost: 0, fraction_lost: 0, jitter: 0 }
    }
}

/// What the remote side reports of a stream that it sends.
#[derive(Clone, Copy, Debug, PartialEq, Eq, Structural)]
pub struct RemoteOutboundStats {
    pub packets_sent: u32,
    pub bytes_sent: u32,
    pub remote_timestamp: u32,
}

impl Default for RemoteOutboundStats {
    fn default() -> (r: Self)
        ensures
            r == (RemoteOutboundStats { packets_sent: 0, bytes_sent: 0, remote_timestamp: 0 }),
    {
        RemoteOutboundStats { packets_sent: 0, bytes_sent: 0, remote_timestamp: 0 }
    }
}

/// Packet and byte counts of a stream seen on this side.
#[derive(Clone, Copy, Debug, PartialEq, Eq, Structural)]
pub struct LocalStreamStats {
    pub packets: u64,
    pub bytes: u64,
}

impl Default for LocalStreamStats {
    fn default() -> (r: Self)
        ensures
            r == (LocalStreamStats { packets: 0, bytes: 0 }),
    {
        LocalStreamStats { packets: 0, bytes: 0 }
    }
}

/// The kind of a stats entry.
#[derive(Clone, Copy, Debug, PartialEq, Eq, Structural)]
pub enum StatsKind {
    InboundRtp,
    OutboundRtp,
    RemoteInboundRtp,
    RemoteOutboundRtp,
}

/// One named value of a stats entry.
#[derive(Clone, Debug)]
pub struct StatsValue {
    pub name: String,
    pub value: i64,
}

/// One entry of a stats snapshot.
#[derive(Clone, Debug)]
pub struct StatsEntry {
    pub id: String,
    pub kind: StatsKind,
    pub values: Vec<StatsValue>,
}

/// The value named `name` in `vs`, the first one if several carry that name.
pub open spec fn value_named(vs: Seq<StatsValue>, name: Seq<char>) -> Option<i64>
    decreases vs.len(),
{
    if vs.len() == 0 {
        None
    } else if vs[0].name@ == name {
        Some(vs[0].value)
    } else {
        value_named(vs.drop_first(), name)
    }
}

impl StatsEntry {
    /// The value recorded under `name`, if the entry has one.
    pub fn value(&self, name: &str) -> (r: Option<i64>)
        ensures
            r == value_named(self.values@, name@),
    {
        let key = name.to_owned();
        assert(self.values@.subrange(0, self.values@.len() as int) =~= self.values@);
        let mut i: usize = 0;
        while i < self.values.len()
            invariant
                i <= self.values@.len(),
                key@ == name@,
                value_named(self.values@, name@) == value_named(
                    self.values@.subrange(i as int, self.values@.len() as int),
                    name@,
                ),
            decreases self.values@.len() - i,
        {
            let ghost rest = self.values@.subrange(i as int, self.values@.len() as int);
            if self.values[i].name == key {
                return Some(self.values[i].value);
            }
            assert(rest.drop_first() =~= self.values@.subrange(
                i + 1,
                self.values@.len() as int,
            ));
            i = i + 1;
        }
        None
    }
}

fn stats_id(prefix: &str, ssrc: u32) -> (r: String)
    ensures
        r@ == prefix@ + decimal(ssrc as nat),
{
    let mut id = prefix.to_owned();
    id.append(decimal_string(ssrc as u64).as_str());
    id
}

fn named(name: &str, value: i64) -> (r: StatsValue)
    ensures
        r.name@ == name@,
        r.value == value,
{
    StatsValue { name: name.to_owned(), value }
}

/// `v` carries `name` and `value`.
pub open spec fn is_value(v: StatsValue, name: Seq<char>, value: int) -> bool {
    v.name@ == name && v.value == value
}

/// The snapshot entry of a remote-inbound record.
pub open spec fn remote_inbound_entry(e: StatsEntry, rec: (u32, RemoteInboundStats)) -> bool {
    &&& e.id@ == "remote-inbound-rtp-"@ + decimal(rec.0 as nat)
    &&& e.kind == StatsKind::RemoteInboundRtp
    &&& e.values@.len() == 4
    &&& is_value(e.values@[0], "ssrc"@, rec.0 as int)
    &&& is_value(e.values@[1], "packetsLost"@, rec.1.packets_lost as int)
    &&& is_value(e.values@[2], "fractionLost"@, rec.1.fraction_lost as int)
    &&& is_value(e.values@[3], "jitter"@, rec.1.jitter as int)
}

/// The snapshot entry of a remote-outbound record.
pub open spec fn remote_outbound_entry(e: StatsEntry, rec: (u32, RemoteOutboundStats)) -> bool {
    &&& e.id@ == "remote-outbound-rtp-"@ + decimal(rec.0 as nat)
    &&& e.kind == StatsKind::RemoteOutboundRtp
    &&& e.values@.len() == 3
    &&& is_value(e.values@[0], "ssrc"@, rec.0 as int)
    &&& is_value(e.values@[1], "packetsSent"@, rec.1.packets_sent as int)
    &&& is_value(e.values@[2], "bytesSent"@, rec.1.bytes_sent as int)
}

/// The largest count that a stats value holds; larger counts are capped.
pub open spec fn capped(n: u64) -> int {
    if n > i64::MAX {
        i64::MAX as int
    } else {
        n as int
    }
}

/// The snapshot entry of a stream received on this side.
pub open spec fn inbound_entry(e: StatsEntry, rec: (u32, LocalStreamStats)) -> bool {
    &&& e.id@ == "inbound-rtp-"@ + decimal(rec.0 as nat)
    &&& e.kind == StatsKind::InboundRtp
    &&& e.values@.len() == 3
    &&& is_value(e.values@[0], "ssrc"@, rec.0 as int)
    &&& is_value(e.values@[1], "packetsReceived"@, capped(rec.1.packets))
    &&& is_value(e.values@[2], "bytesReceived"@, capped(rec.1.bytes))
}

/// The snapshot entry of a stream sent from this side.
pub open spec fn outbound_entry(e: StatsEntry, rec: (u32, LocalStreamStats)) -> bool {
    &&& e.id@ == "outbound-rtp-"@ + decimal(rec.0 as nat)
    &&& e.kind == StatsKind::OutboundRtp
    &&& e.values@.len() == 3
    &&& is_value(e.values@[0], "ssrc"@, rec.0 as int)
    &&& is_value(e.values@[1], "packetsSent"@, capped(rec.1.packets))
    &&& is_value(e.values@[2], "bytesSent"@, capped(rec.1.bytes))
}

fn cap(n: u64) -> (r: i64)
    ensures
        r == capped(n),
{
    if n > i64::MAX as u64 {
        i64::MAX
    } else {
        n as i64
    }
}

/// What a report block says of the stream it describes.
pub open spec fn inbound_of(b: ReportBlock) -> RemoteInboundStats {
    RemoteInboundStats { packets_lost: b.packets_lost, fraction_lost: b.fraction_lost, jitter: b.jitter }
}

/// The remote-inbound records after taking in `blocks`, one after another.
pub open spec fn after_blocks(
    s: Seq<(u32, RemoteInboundStats)>,
    blocks: Seq<ReportBlock>,
) -> Seq<(u32, RemoteInboundStats)>
    decreases blocks.len(),
{
    if blocks.len() == 0 {
        s
    } else {
        upserted(after_blocks(s, blocks.drop_last()), blocks.last().ssrc, inbound_of(blocks.last()))
    }
}

/// The counts of a local stream after one more packet of `size` bytes.
pub open spec fn counted(prev: Option<LocalStreamStats>, size: u64) -> LocalStreamStats {
    let base = match prev {
        Some(s) => s,
        None => LocalStreamStats { packets: 0, bytes: 0 },
    };
    LocalStreamStats {
        packets: base.packets.saturating_add(1),
        bytes: base.bytes.saturating_add(size),
    }
}

/// Per-SSRC statistics of the streams of one peer connection.
pub struct StatsCollector {
    pub remote_inbound: SsrcTable<RemoteInboundStats>,
    pub remote_outbound: SsrcTable<RemoteOutboundStats>,
    pub local_inbound: SsrcTable<LocalStreamStats>,
    pub local_outbound: SsrcTable<LocalStreamStats>,
}

impl StatsCollector {
    pub open spec fn wf(&self) -> bool {
        &&& self.remote_inbound.wf()
        &&& self.remote_outbound.wf()
        &&& self.local_inbound.wf()
        &&& self.local_outbound.wf()
    }

    /// A collector with no statistics yet.
    pub fn new() -> (r: Self)
        ensures
            r.wf(),
            r.remote_inbound@.len() == 0,
            r.remote_outbound@.len() == 0,
            r.local_inbound@.len() == 0,
            r.local_outbound@.len() == 0,
    {
        StatsCollector {
            remote_inbound: SsrcTable::new(),
            remote_outbound: SsrcTable::new(),
            local_inbound: SsrcTable::new(),
            local_outbound: SsrcTable::new(),
        }
    }

    /// Takes in one RTCP packet: sender and receiver reports update the
    /// remote statistics, other packets are ignored.
    pub fn process_rtcp(&mut self, packet: &RtcpPacket)
        requires
            old(self).wf(),
        ensures
            final(self).wf(),
            final(self).local_inbound == old(self).local_inbound,
            final(self).local_outbound == old(self).local_outbound,
            match packet {
                RtcpPacket::SenderReport(sr) => {
                    &&& final(self).remote_outbound@ == upserted(
                        old(self).remote_outbound@,
                        sr.sender_ssrc,
                        RemoteOutboundStats {
                            packets_sent: sr.packet_count,
                            bytes_sent: sr.octet_count,
                            remote_timestamp: sr.ntp_least,
                        },
                    )
                    &&& final(self).remote_inbound@ == after_blocks(
                        old(self).remote_inbound@,
                        sr.report_blocks@,
                    )
                },
                RtcpPacket::ReceiverReport(rr) => {
                    &&& final(self).remote_outbound@ == old(self).remote_outbound@
                    &&& final(self).remote_inbound@ == after_blocks(
                        old(self).remote_inbound@,
                        rr.report_blocks@,
                    )
                },
                _ => {
                    &&& final(self).remote_outbound@ == old(self).remote_outbound@
                    &&& final(self).remote_inbound@ == old(self).remote_inbound@
                },
            },
    {
        match packet {
            RtcpPacket::SenderReport(sr) => self.handle_sr(sr),
            RtcpPacket::ReceiverReport(rr) => self.handle_rr(rr),
            _ => {},
        }
    }

    fn take_blocks(&mut self, blocks: &Vec<ReportBlock>)
        requires
            old(self).wf(),
        ensures
            final(self).wf(),
            final(self).remote_inbound@ == after_blocks(old(self).remote_inbound@, blocks@),
            final(self).remote_outbound == old(self).remote_outbound,
            final(self).local_inbound == old(self).local_inbound,
            final(self).local_outbound == old(self).local_outbound,
    {
        let mut i: usize = 0;
        while i < blocks.len()
            invariant
                i <= blocks@.len(),
                self.wf(),
                self.remote_inbound@ == after_blocks(
                    old(self).remote_inbound@,
                    blocks@.subrange(0, i as int),
                ),
                self.remote_outbound == old(self).remote_outbound,
                self.local_inbound == old(self).local_inbound,
                self.local_outbound == old(self).local_outbound,
            decreases blocks@.len() - i,
        {
            let block = blocks[i];
            self.remote_inbound.upsert(
                block.ssrc,
                RemoteInboundStats {
                    packets_lost: block.packets_lost,
                    fraction_lost: block.fraction_lost,
                    jitter: block.jitter,
                },
            );
            assert(blocks@.subrange(0, i + 1).drop_last() =~= blocks@.subrange(0, i as int));
            i = i + 1;
        }
        assert(blocks@.subrange(0, blocks@.len() as int) =~= blocks@);
    }

    fn handle_sr(&mut self, sr: &SenderReport)
        requires
            old(self).wf(),
        ensures
            final(self).wf(),
            final(self).remote_outbound@ == upserted(
                old(self).remote_outbound@,
                sr.sender_ssrc,
                RemoteOutboundStats {
                    packets_sent: sr.packet_count,
                    bytes_sent: sr.octet_count,
                    remote_timestamp: sr.ntp_least,
                },
            ),
            final(self).remote_inbound@ == after_blocks(old(self).remote_inbound@, sr.report_blocks@),
            final(self).local_inbound == old(self).local_inbound,
            final(self).local_outbound == old(self).local_outbound,
    {
        self.remote_outbound.upsert(
            sr.sender_ssrc,
            RemoteOutboundStats {
                packets_sent: sr.packet_count,
                bytes_sent: sr.octet_count,
                remote_timestamp: sr.ntp_least,
            },
        );
        self.take_blocks(&sr.report_blocks);
    }

    fn handle_rr(&mut self, rr: &ReceiverReport)
        requires
            old(self).wf(),
        ensures
            final(self).wf(),
            final(self).remote_inbound@ == after_blocks(old(self).remote_inbound@, rr.report_blocks@),
            final(self).remote_outbound == old(self).remote_outbound,
            final(self).local_inbound == old(self).local_inbound,
            final(self).local_outbound == old(self).local_outbound,
    {
        // Round-trip time needs the send times of our own sender reports,
        // which are not kept; the block's loss and jitter are recorded.
        self.take_blocks(&rr.report_blocks);
    }

    /// Counts one RTP packet sent from this side.
    pub fn on_rtp_sent(&mut self, packet: &RtpPacket)
        requires
            old(self).wf(),
        ensures
            final(self).wf(),
            final(self).local_outbound@ == upserted(
                old(self).local_outbound@,
                packet.header.ssrc,
                counted(lookup(old(self).local_outbound@, packet.header.ssrc), wire_size_u64(*packet)),
            ),
            final(self).local_inbound == old(self).local_inbound,
            final(self).remote_inbound == old(self).remote_inbound,
            final(self).remote_outbound == old(self).remote_outbound,
    {
        let size = wire_size(packet);
        let ssrc = packet.header.ssrc;
        let prev = match self.local_outbound.get(ssrc) {
            Some(s) => s,
            None => LocalStreamStats::default(),
        };
        self.local_outbound.upsert(
            ssrc,
            LocalStreamStats {
                packets: prev.packets.saturating_add(1),
                bytes: prev.bytes.saturating_add(size),
            },
        );
    }

    /// Counts one RTP packet received on this side.
    pub fn on_rtp_received(&mut self, packet: &RtpPacket)
        requires
            old(self).wf(),
        ensures
            final(self).wf(),
            final(self).local_inbound@ == upserted(
                old(self).local_inbound@,
                packet.header.ssrc,
                counted(lookup(old(self).local_inbound@, packet.header.ssrc), wire_size_u64(*packet)),
            ),
            final(self).local_outbound == old(self).local_outbound,
            final(self).remote_inbound == old(self).remote_inbound,
            final(self).remote_outbound == old(self).remote_outbound,
    {
        let size = wire_size(packet);
        let ssrc = packet.header.ssrc;
        let prev = match self.local_inbound.get(ssrc) {
            Some(s) => s,
            None => LocalStreamStats::default(),
        };
        self.local_inbound.upsert(
            ssrc,
            LocalStreamStats {
                packets: prev.packets.saturating_add(1),
                bytes: prev.bytes.saturating_add(size),
            },
        );
    }

    /// A snapshot: one entry per remote-inbound record, then per
    /// remote-outbound, local-inbound and local-outbound record, each group
    /// in order of first insertion.
    pub fn collect(&self) -> (r: Vec<StatsEntry>)
        requires
            self.wf(),
        ensures
            ({
                let ri = self.remote_inbound@;
                let ro = self.remote_outbound@;
                let li = self.local_inbound@;
                let lo = self.local_outbound@;
                &&& r@.len() == ri.len() + ro.len() + li.len() + lo.len()
                &&& forall|i: int| 0 <= i < ri.len() ==> remote_inbound_entry(#[trigger] r@[i], ri[i])
                &&& forall|i: int|
                    0 <= i < ro.len() ==> remote_outbound_entry(#[trigger] r@[ri.len() + i], ro[i])
                &&& forall|i: int|
                    0 <= i < li.len() ==> inbound_entry(#[trigger] r@[ri.len() + ro.len() + i], li[i])
                &&& forall|i: int|
                    0 <= i < lo.len() ==> outbound_entry(
                        #[trigger] r@[ri.len() + ro.len() + li.len() + i],
                        lo[i],
                    )
            }),
    {
        let mut entries: Vec<StatsEntry> = Vec::new();
        let ghost ri = self.remote_inbound@;
        let ghost ro = self.remote_outbound@;
        let ghost li = self.local_inbound@;
        let ghost lo = self.local_outbound@;

        let mut i: usize = 0;
        while i < self.remote_inbound.len()
            invariant
                i <= ri.len(),
                ri == self.remote_inbound@,
                entries@.len() == i,
                forall|k: int| 0 <= k < i ==> remote_inbound_entry(#[trigger] entries@[k], ri[k]),
            decreases ri.len() - i,
        {
            let (ssrc, st) = self.remote_inbound.at(i);
            let mut values: Vec<StatsValue> = Vec::new();
            values.push(named("ssrc", ssrc as i64));
            values.push(named("packetsLost", st.packets_lost as i64));
            values.push(named("fractionLost", st.fraction_lost as i64));
            values.push(named("jitter", st.jitter as i64));
            let id = stats_id("remote-inbound-rtp-", ssrc);
            entries.push(StatsEntry { id, kind: StatsKind::RemoteInboundRtp, values });
            i = i + 1;
        }

        let mut i: usize = 0;
        while i < self.remote_outbound.len()
            invariant
                i <= ro.len(),
                ro == self.remote_outbound@,
                entries@.len() == ri.len() + i,
                forall|k: int| 0 <= k < ri.len() ==> remote_inbound_entry(#[trigger] entries@[k], ri[k]),
                forall|k: int|
                    0 <= k < i ==> remote_outbound_entry(#[trigger] entries@[ri.len() + k], ro[k]),
            decreases ro.len() - i,
        {
            let (ssrc, st) = self.remote_outbound.at(i);
            let mut values: Vec<StatsValue> = Vec::new();
            values.push(named("ssrc", ssrc as i64));
            values.push(named("packetsSent", st.packets_sent as i64));
            values.push(named("bytesSent", st.bytes_sent as i64));
            let id = stats_id("remote-outbound-rtp-", ssrc);
            entries.push(StatsEntry { id, kind: StatsKind::RemoteOutboundRtp, values });
            i = i + 1;
        }

        let mut i: usize = 0;
        while i < self.local_inbound.len()
            invariant
                i <= li.len(),
                li == self.local_inbound@,
                entries@.len() == ri.len() + ro.len() + i,
                forall|k: int| 0 <= k < ri.len() ==> remote_inbound_entry(#[trigger] entries@[k], ri[k]),
                forall|k: int|
                    0 <= k < ro.len() ==> remote_outbound_entry(#[trigger] entries@[ri.len() + k], ro[k]),
                forall|k: int|
                    0 <= k < i ==> inbound_entry(#[trigger] entries@[ri.len() + ro.len() + k], li[k]),
            decreases li.len() - i,
        {
            let (ssrc, st) = self.local_inbound.at(i);
            let mut values: Vec<StatsValue> = Vec::new();
            values.push(named("ssrc", ssrc as i64));
            values.push(named("packetsReceived", cap(st.packets)));
            values.push(named("bytesReceived", cap(st.bytes)));
            let id = stats_id("inbound-rtp-", ssrc);
            entries.push(StatsEntry { id, kind: StatsKind::InboundRtp, values });
            i = i + 1;
        }

        let mut i: usize = 0;
        while i < self.local_outbound.len()
            invariant
                i <= lo.len(),
                lo == self.local_outbound@,
                entries@.len() == ri.len() + ro.len() + li.len() + i,
                forall|k: int| 0 <= k < ri.len() ==> remote_inbound_entry(#[trigger] entries@[k], ri[k]),
                forall|k: int|
                    0 <= k < ro.len() ==> remote_outbound_entry(#[trigger] entries@[ri.len() + k], ro[k]),
                forall|k: int|
                    0 <= k < li.len() ==> inbound_entry(
                        #[trigger] entries@[ri.len() + ro.len() + k],
                        li[k],
                    ),
                forall|k: int|
                    0 <= k < i ==> outbound_entry(
                        #[trigger] entries@[ri.len() + ro.len() + li.len() + k],
                        lo[k],
                    ),
            decreases lo.len() - i,
        {
            let (ssrc, st) = self.local_outbound.at(i);
            let mut values: Vec<StatsValue> = Vec::new();
            values.push(named("ssrc", ssrc as i64));
            values.push(named("packetsSent", cap(st.packets)));
            values.push(named("bytesSent", cap(st.bytes)));
            let id = stats_id("outbound-rtp-", ssrc);
            entries.push(StatsEntry { id, kind: StatsKind::OutboundRtp, values });
            i = i + 1;
        }
        entries
    }
}

} // verus!
