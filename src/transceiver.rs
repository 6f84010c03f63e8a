//! RTP transceivers: the stable sender/receiver pair of one media section,
//! with its payload-type map, extension map and SSRC binding.
use vstd::prelude::*;
use std::collections::HashMap;
use crate::sdp::{Direction, MediaKind, RtpCodecParameters, uri_view};
use crate::rtp::{MediaSample, RtpPacket};

verus! {

broadcast use vstd::std_specs::hash::group_hash_axioms;

/// The receive side of a transceiver: the SSRC it is bound to, once known.
#[derive(Clone, Copy, Debug, PartialEq, Eq, Structural)]
pub struct RtpReceiver {
    pub ssrc: Option<u32>,
}

/// What latching `ssrc` does to a receiver bound to `bound`: an unbound
/// receiver adopts it, a bound one keeps its binding.
pub open spec fn latched(bound: Option<u32>, ssrc: u32) -> Option<u32> {
    match bound {
        Some(b) => Some(b),
        None => Some(ssrc),
    }
}

impl RtpReceiver {
    /// A receiver with no SSRC yet, or bound to the SSRC that SDP signaled.
    pub fn new(ssrc: Option<u32>) -> (r: RtpReceiver)
        ensures
            r.ssrc == ssrc,
    {
        RtpReceiver { ssrc }
    }

    /// Late binding: the first packet's SSRC is adopted by an unbound
    /// receiver. Returns whether the binding was made by this call.
    pub fn latch(&mut self, ssrc: u32) -> (r: bool)
        ensures
            final(self).ssrc == latched(old(self).ssrc, ssrc),
            r == old(self).ssrc is None,
    {
        match self.ssrc {
            Some(_) => false,
            None => {
                self.ssrc = Some(ssrc);
                true
            },
        }
    }

    /// Explicit rebinding by a renegotiation. Returns the previous SSRC when
    /// it differs from the new one, which callers report as a warning.
    pub fn rebind(&mut self, ssrc: u32) -> (r: Option<u32>)
        ensures
            final(self).ssrc == Some(ssrc),
            r == match old(self).ssrc {
                Some(p) => if p != ssrc {
                    Some(p)
                } else {
                    None
                },
                None => None::<u32>,
            },
    {
        let previous = self.ssrc;
        self.ssrc = Some(ssrc);
        match previous {
            Some(p) => if p != ssrc {
                Some(p)
            } else {
                None
            },
            None => None,
        }
    }
}

/// What a receiver does with one RTP packet.
#[derive(Debug)]
pub enum Delivery {
    /// The packet becomes a sample; `first` is set when it bound the
    /// receiver to its SSRC, which is when the track is surfaced.
    Sample { sample: MediaSample, first: bool },
    /// The payload type is not in the payload map: the packet is dropped.
    UnknownPayload,
    /// The receiver is bound to another SSRC: the packet is dropped.
    ForeignSsrc,
}

impl RtpReceiver {
    /// Takes in one RTP packet: a payload type outside the payload map is
    /// dropped; an unbound receiver latches to the packet's SSRC and the same
    /// packet is delivered; a packet of another SSRC than the bound one is
    /// dropped.
    pub fn on_packet(
        &mut self,
        packet: RtpPacket,
        payload_map: &HashMap<u8, RtpCodecParameters>,
    ) -> (r: Delivery)
        ensures
            !payload_map@.contains_key(packet.header.payload_type) ==> r is UnknownPayload
                && *final(self) == *old(self),
            payload_map@.contains_key(packet.header.payload_type) && old(self).ssrc is Some
                && old(self).ssrc != Some(packet.header.ssrc) ==> r is ForeignSsrc && *final(self)
                == *old(self),
            payload_map@.contains_key(packet.header.payload_type) && (old(self).ssrc is None
                || old(self).ssrc == Some(packet.header.ssrc)) ==> {
                &&& final(self).ssrc == Some(packet.header.ssrc)
                &&& r matches Delivery::Sample { sample, first }
                &&& first == old(self).ssrc is None
                &&& sample.rtp_timestamp == packet.header.timestamp
                &&& sample.payload_type == packet.header.payload_type
                &&& sample.data@ == packet.payload@
                &&& sample.is_last_packet == packet.header.marker
            },
    {
        if !payload_map.contains_key(&packet.header.payload_type) {
            return Delivery::UnknownPayload;
        }
        let first = match self.ssrc {
            Some(bound) => {
                if bound != packet.header.ssrc {
                    return Delivery::ForeignSsrc;
                }
                false
            },
            None => {
                self.ssrc = Some(packet.header.ssrc);
                true
            },
        };
        let sample = MediaSample {
            rtp_timestamp: packet.header.timestamp,
            payload_type: packet.header.payload_type,
            data: packet.payload,
            is_last_packet: packet.header.marker,
        };
        Delivery::Sample { sample, first }
    }
}

/// Once a receiver is bound, any sequence of latches leaves the binding as
/// it is: only an explicit rebind changes it.
pub proof fn latching_is_single_shot(bound: u32, later: Seq<u32>)
    ensures
        later.fold_left(Some(bound), |b: Option<u32>, s: u32| latched(b, s)) == Some(bound),
    decreases later.len(),
{
    if later.len() > 0 {
        latching_is_single_shot(bound, later.drop_last());
    }
}

/// The model of a transceiver: plain values for everything it holds.
pub struct TransceiverModel {
    pub kind: MediaKind,
    pub mid: Seq<char>,
    pub direction: Direction,
    pub current_direction: Option<Direction>,
    pub payload_map: Map<u8, RtpCodecParameters>,
    pub extmap: Map<u8, Seq<char>>,
    pub receiver_ssrc: Option<u32>,
}

/// The stable sender/receiver pair of one media section, addressed by
/// `mid`. `kind` and `mid` never change; the maps are replaced wholesale.
pub struct RtpTransceiver {
    kind: MediaKind,
    mid: String,
    direction: Direction,
    current_direction: Option<Direction>,
    payload_map: HashMap<u8, RtpCodecParameters>,
    extmap: HashMap<u8, String>,
    receiver: RtpReceiver,
}

impl View for RtpTransceiver {
    type V = TransceiverModel;

    closed spec fn view(&self) -> TransceiverModel {
        TransceiverModel {
            kind: self.kind,
            mid: self.mid@,
            direction: self.direction,
            current_direction: self.current_direction,
            payload_map: self.payload_map@,
            extmap: uri_view(self.extmap@),
            receiver_ssrc: self.receiver.ssrc,
        }
    }
}

/// `after` is `before` with its payload map replaced by `m`.
pub open spec fn payload_map_replaced(
    before: TransceiverModel,
    after: TransceiverModel,
    m: Map<u8, RtpCodecParameters>,
) -> bool {
    after == TransceiverModel { payload_map: m, ..before }
}

impl RtpTransceiver {
    /// A transceiver of `kind` for `mid`, with empty maps, not negotiated
    /// yet, and an unbound receiver.
    pub fn new(kind: MediaKind, mid: &str, direction: Direction) -> (r: RtpTransceiver)
        ensures
            r@ == (TransceiverModel {
                kind,
                mid: mid@,
                direction,
                current_direction: None,
                payload_map: Map::empty(),
                extmap: Map::empty(),
                receiver_ssrc: None,
            }),
    {
        let r = RtpTransceiver {
            kind,
            mid: mid.to_owned(),
            direction,
            current_direction: None,
            payload_map: HashMap::new(),
            extmap: HashMap::new(),
            receiver: RtpReceiver::new(None),
        };
        assert(uri_view(r.extmap@) =~= Map::<u8, Seq<char>>::empty());
        r
    }

    pub fn kind(&self) -> (r: MediaKind)
        ensures
            r == self@.kind,
    {
        self.kind
    }

    pub fn mid(&self) -> (r: &str)
        ensures
            r@ == self@.mid,
    {
        self.mid.as_str()
    }

    /// Whether this transceiver is the one addressed by `mid`.
    pub fn has_mid(&self, mid: &str) -> (r: bool)
        ensures
            r == (self@.mid == mid@),
    {
        self.mid == mid.to_owned()
    }

    pub fn direction(&self) -> (r: Direction)
        ensures
            r == self@.direction,
    {
        self.direction
    }

    pub fn current_direction(&self) -> (r: Option<Direction>)
        ensures
            r == self@.current_direction,
    {
        self.current_direction
    }

    /// The SSRC the receiver is bound to, if any.
    pub fn receiver_ssrc(&self) -> (r: Option<u32>)
        ensures
            r == self@.receiver_ssrc,
    {
        self.receiver.ssrc
    }

    /// Sets the local intent; setting the same direction again changes
    /// nothing.
    pub fn set_direction(&mut self, direction: Direction)
        ensures
            final(self)@ == (TransceiverModel { direction, ..old(self)@ }),
    {
        self.direction = direction;
    }

    pub fn set_current_direction(&mut self, direction: Direction)
        ensures
            final(self)@ == (TransceiverModel { current_direction: Some(direction), ..old(self)@ }),
    {
        self.current_direction = Some(direction);
    }

    /// A copy of the payload map.
    pub fn get_payload_map(&self) -> (r: HashMap<u8, RtpCodecParameters>)
        ensures
            r@ == self@.payload_map,
    {
        self.payload_map.clone()
    }

    /// A copy of the extension map.
    pub fn get_extmap(&self) -> (r: HashMap<u8, String>)
        ensures
            uri_view(r@) == self@.extmap,
    {
        self.extmap.clone()
    }

    /// Replaces the payload map wholesale by `m`: no entry of the previous
    /// map survives unless `m` has it.
    pub fn update_payload_map(&mut self, m: HashMap<u8, RtpCodecParameters>)
        ensures
            payload_map_replaced(old(self)@, final(self)@, m@),
    {
        self.payload_map = m;
    }

    /// Replaces the extension map wholesale by `m`.
    pub fn update_extmap(&mut self, m: HashMap<u8, String>)
        ensures
            final(self)@ == (TransceiverModel { extmap: uri_view(m@), ..old(self)@ }),
    {
        self.extmap = m;
    }

    /// Late binding of the receiver to the first packet's SSRC.
    pub fn latch_receiver(&mut self, ssrc: u32) -> (r: bool)
        ensures
            final(self)@ == (TransceiverModel {
                receiver_ssrc: latched(old(self)@.receiver_ssrc, ssrc),
                ..old(self)@
            }),
            r == old(self)@.receiver_ssrc is None,
    {
        self.receiver.latch(ssrc)
    }

    /// Rebinding of the receiver by a renegotiation; returns the replaced
    /// SSRC when it changed.
    pub fn rebind_receiver(&mut self, ssrc: u32) -> (r: Option<u32>)
        ensures
            final(self)@ == (TransceiverModel { receiver_ssrc: Some(ssrc), ..old(self)@ }),
            r == match old(self)@.receiver_ssrc {
                Some(p) => if p != ssrc {
                    Some(p)
                } else {
                    None
                },
                None => None::<u32>,
            },
    {
        self.receiver.rebind(ssrc)
    }
}

/// A replacement of the payload map is seen whole: every payload type that
/// the map holds afterwards comes from the new map, with the new map's
/// parameters, and the new map is there entire.
pub proof fn payload_map_update_is_atomic(
    before: TransceiverModel,
    after: TransceiverModel,
    m: Map<u8, RtpCodecParameters>,
)
    requires
        payload_map_replaced(before, after, m),
    ensures
        forall|pt: u8| #[trigger] after.payload_map.contains_key(pt) ==> m.contains_key(pt),
        forall|pt: u8| #[trigger] m.contains_key(pt) ==> after.payload_map[pt] == m[pt],
        after.payload_map == m,
{
}

/// Replacing the payload map twice by the same map has the effect of
/// replacing it once.
pub proof fn payload_map_update_is_idempotent(
    t0: TransceiverModel,
    t1: TransceiverModel,
    t2: TransceiverModel,
    m: Map<u8, RtpCodecParameters>,
)
    requires
        payload_map_replaced(t0, t1, m),
        payload_map_replaced(t1, t2, m),
    ensures
        t2 == t1,
        payload_map_replaced(t0, t2, m),
{
}

} // verus!
