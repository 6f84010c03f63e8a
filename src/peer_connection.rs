//! The peer connection's negotiation core: the signaling automaton and the
//! ledger of transceivers that session descriptions are applied to.
use vstd::prelude::*;
use crate::sdp::{
    Attribute, attr_view, Direction, MediaKind, MediaSection, rtpmap_of, mirrored, payload_map_of, extmap_map_of, ssrc_of,
    extract_payload_map, extract_extmap, extract_ssrc,
};
use crate::signaling::{
    RtcError, SdpType, SignalingState, apply_local, apply_remote, check_create_answer,
    check_create_offer, offer_allowed, local_edge, remote_edge, refusal,
};
use crate::text::{
    decimal, decimal_string, find_char, lemma_decimal_digits, lemma_digits_lack, lemma_find_char,
    parse_decimal,
};
pub use crate::transceiver::RtpTransceiver;
use crate::transceiver::TransceiverModel;

pub use crate::sdp::Direction as TransceiverDirection;
pub use crate::sdp::RtpCodecParameters;

verus! {

/// A session description: its role and its media sections, in order.
#[derive(Clone, Debug)]
pub struct SessionDescription {
    pub sdp_type: SdpType,
    pub media_sections: Vec<MediaSection>,
}

impl SessionDescription {
    /// A description of type `sdp_type` with no media section.
    pub fn new(sdp_type: SdpType) -> (r: SessionDescription)
        ensures
            r.sdp_type == sdp_type,
            r.media_sections@.len() == 0,
    {
        SessionDescription { sdp_type, media_sections: Vec::new() }
    }
}

/// Whether some transceiver of `ts` is addressed by `mid`.
pub open spec fn has_mid(ts: Seq<TransceiverModel>, mid: Seq<char>) -> bool {
    exists|i: int| 0 <= i < ts.len() && #[trigger] ts[i].mid == mid
}

/// The position of the transceiver addressed by `mid`.
pub open spec fn mid_index(ts: Seq<TransceiverModel>, mid: Seq<char>) -> int {
    choose|i: int| 0 <= i < ts.len() && #[trigger] ts[i].mid == mid
}

/// No two transceivers share a `mid`.
pub open spec fn mids_unique(ts: Seq<TransceiverModel>) -> bool {
    forall|i: int, j: int|
        0 <= i < ts.len() && 0 <= j < ts.len() && i != j ==> #[trigger] ts[i].mid
            != #[trigger] ts[j].mid
}

/// A transceiver after a remote section for its `mid` is applied: the maps
/// are replaced by the section's, the negotiated direction mirrors the
/// section's, and a signaled SSRC rebinds the receiver.
pub open spec fn remote_applied(t: TransceiverModel, s: MediaSection) -> TransceiverModel {
    TransceiverModel {
        current_direction: Some(mirrored(s.direction)),
        payload_map: payload_map_of(s.attributes@),
        extmap: extmap_map_of(s.attributes@),
        receiver_ssrc: match ssrc_of(s.attributes@) {
            Some(x) => Some(x),
            None => t.receiver_ssrc,
        },
        ..t
    }
}

/// The transceiver created for a remote section whose `mid` is new.
pub open spec fn created_for(s: MediaSection) -> TransceiverModel {
    TransceiverModel {
        kind: s.kind,
        mid: s.mid@,
        direction: mirrored(s.direction),
        current_direction: Some(mirrored(s.direction)),
        payload_map: payload_map_of(s.attributes@),
        extmap: extmap_map_of(s.attributes@),
        receiver_ssrc: ssrc_of(s.attributes@),
    }
}

/// The ledger after one remote section: the transceiver with its `mid` is
/// updated in place, or a new one is appended.
pub open spec fn after_remote_section(ts: Seq<TransceiverModel>, s: MediaSection) -> Seq<
    TransceiverModel,
> {
    if has_mid(ts, s.mid@) {
        let i = mid_index(ts, s.mid@);
        ts.update(i, remote_applied(ts[i], s))
    } else {
        ts.push(created_for(s))
    }
}

/// The ledger after the remote sections `secs`, in order.
pub open spec fn after_remote_sections(ts: Seq<TransceiverModel>, secs: Seq<MediaSection>) -> Seq<
    TransceiverModel,
>
    decreases secs.len(),
{
    if secs.len() == 0 {
        ts
    } else {
        after_remote_section(after_remote_sections(ts, secs.drop_last()), secs.last())
    }
}

/// A transceiver after a local section for its `mid` is applied: an offer
/// states the intended maps, an answer fixes the negotiated direction.
pub open spec fn local_applied(t: TransceiverModel, s: MediaSection, ty: SdpType) -> TransceiverModel {
    match ty {
        SdpType::Offer => TransceiverModel {
            payload_map: payload_map_of(s.attributes@),
            extmap: extmap_map_of(s.attributes@),
            ..t
        },
        SdpType::Answer => TransceiverModel { current_direction: Some(s.direction), ..t },
    }
}

/// The ledger after one local section; a section whose `mid` has no
/// transceiver changes nothing.
pub open spec fn after_local_section(ts: Seq<TransceiverModel>, s: MediaSection, ty: SdpType) -> Seq<
    TransceiverModel,
> {
    if has_mid(ts, s.mid@) {
        let i = mid_index(ts, s.mid@);
        ts.update(i, local_applied(ts[i], s, ty))
    } else {
        ts
    }
}

/// The ledger after the local sections `secs`, in order.
pub open spec fn after_local_sections(
    ts: Seq<TransceiverModel>,
    secs: Seq<MediaSection>,
    ty: SdpType,
) -> Seq<TransceiverModel>
    decreases secs.len(),
{
    if secs.len() == 0 {
        ts
    } else {
        after_local_section(after_local_sections(ts, secs.drop_last(), ty), secs.last(), ty)
    }
}

/// `after` keeps every transceiver of `before` at its position, with its
/// `mid` and kind, and holds at most one transceiver per `mid`.
pub open spec fn identities_kept(before: Seq<TransceiverModel>, after: Seq<TransceiverModel>) -> bool {
    &&& mids_unique(after)
    &&& after.len() >= before.len()
    &&& forall|i: int|
        0 <= i < before.len() ==> #[trigger] after[i].mid == before[i].mid && after[i].kind
            == before[i].kind
}

proof fn lemma_remote_section_keeps_identities(ts: Seq<TransceiverModel>, s: MediaSection)
    requires
        mids_unique(ts),
    ensures
        identities_kept(ts, after_remote_section(ts, s)),
{
    let a = after_remote_section(ts, s);
    if has_mid(ts, s.mid@) {
        let k = mid_index(ts, s.mid@);
        assert forall|i: int, j: int|
            0 <= i < a.len() && 0 <= j < a.len() && i != j implies #[trigger] a[i].mid
            != #[trigger] a[j].mid by {
            assert(a[i].mid == ts[i].mid);
            assert(a[j].mid == ts[j].mid);
        }
        assert forall|i: int| 0 <= i < ts.len() implies #[trigger] a[i].mid == ts[i].mid
            && a[i].kind == ts[i].kind by {}
    } else {
        assert forall|i: int, j: int|
            0 <= i < a.len() && 0 <= j < a.len() && i != j implies #[trigger] a[i].mid
            != #[trigger] a[j].mid by {
            if i < ts.len() && j < ts.len() {
                assert(a[i].mid == ts[i].mid);
                assert(a[j].mid == ts[j].mid);
            } else if i < ts.len() {
                assert(a[i].mid == ts[i].mid);
            } else {
                assert(a[j].mid == ts[j].mid);
            }
        }
    }
}

/// Across any sequence of remote descriptions, each transceiver stays at
/// its position with its `mid` and kind, and remains the only one with its
/// `mid`: looking a `mid` up finds the same transceiver as before.
pub proof fn remote_descriptions_keep_transceivers(ts: Seq<TransceiverModel>, secs: Seq<MediaSection>)
    requires
        mids_unique(ts),
    ensures
        identities_kept(ts, after_remote_sections(ts, secs)),
        forall|i: int|
            0 <= i < ts.len() ==> has_mid(after_remote_sections(ts, secs), #[trigger] ts[i].mid)
                && mid_index(after_remote_sections(ts, secs), ts[i].mid) == i,
    decreases secs.len(),
{
    let a = after_remote_sections(ts, secs);
    if secs.len() > 0 {
        let mid = after_remote_sections(ts, secs.drop_last());
        remote_descriptions_keep_transceivers(ts, secs.drop_last());
        lemma_remote_section_keeps_identities(mid, secs.last());
        assert forall|i: int| 0 <= i < ts.len() implies #[trigger] a[i].mid == ts[i].mid
            && a[i].kind == ts[i].kind by {
            assert(mid[i].mid == ts[i].mid);
            assert(a[i].mid == mid[i].mid);
        }
    }
    assert forall|i: int| 0 <= i < ts.len() implies has_mid(a, #[trigger] ts[i].mid) && mid_index(
        a,
        ts[i].mid,
    ) == i by {
        assert(a[i].mid == ts[i].mid);
        let k = mid_index(a, ts[i].mid);
        assert(a[k].mid == ts[i].mid);
    }
}

/// The attribute key of a direction.
pub open spec fn direction_key(d: Direction) -> Seq<char> {
    match d {
        Direction::SendRecv => "sendrecv"@,
        Direction::SendOnly => "sendonly"@,
        Direction::RecvOnly => "recvonly"@,
        Direction::Inactive => "inactive"@,
    }
}

/// The attributes that an answer adopts from an offered section: its
/// `rtpmap` and `extmap` lines, in order.
pub open spec fn adopted_attributes(attrs: Seq<Attribute>) -> Seq<(Seq<char>, Option<Seq<char>>)>
    decreases attrs.len(),
{
    if attrs.len() == 0 {
        Seq::empty()
    } else {
        let prev = adopted_attributes(attrs.drop_last());
        let a = attrs.last();
        if a.key@ == "rtpmap"@ || a.key@ == "extmap"@ {
            prev.push(attr_view(a))
        } else {
            prev
        }
    }
}

/// `ans` answers the offered section `off`: same kind, `mid` and port, the
/// mirrored direction, the offered payload types and extension ids, and the
/// direction attribute last.
pub open spec fn answers(ans: MediaSection, off: MediaSection) -> bool {
    &&& ans.kind == off.kind
    &&& ans.mid@ == off.mid@
    &&& ans.port == off.port
    &&& ans.direction == mirrored(off.direction)
    &&& ans.attributes@.map_values(|a: Attribute| attr_view(a)) == adopted_attributes(
        off.attributes@,
    ).push((direction_key(mirrored(off.direction)), None))
}

fn direction_attribute(d: Direction) -> (r: Attribute)
    ensures
        attr_view(r) == (direction_key(d), None::<Seq<char>>),
{
    let key = match d {
        Direction::SendRecv => "sendrecv",
        Direction::SendOnly => "sendonly",
        Direction::RecvOnly => "recvonly",
        Direction::Inactive => "inactive",
    };
    Attribute::new(key, None)
}

fn copy_attribute(a: &Attribute) -> (r: Attribute)
    ensures
        attr_view(r) == attr_view(*a),
{
    let value = match &a.value {
        Some(v) => Some(v.clone()),
        None => None,
    };
    Attribute { key: a.key.clone(), value }
}

fn is_adopted(a: &Attribute) -> (r: bool)
    ensures
        r == (a.key@ == "rtpmap"@ || a.key@ == "extmap"@),
{
    a.key == "rtpmap".to_owned() || a.key == "extmap".to_owned()
}

fn answer_section(off: &MediaSection) -> (r: MediaSection)
    ensures
        answers(r, *off),
{
    let attrs = &off.attributes;
    let mut out: Vec<Attribute> = Vec::new();
    let mut i: usize = 0;
    while i < attrs.len()
        invariant
            i <= attrs@.len(),
            out@.map_values(|a: Attribute| attr_view(a)) == adopted_attributes(
                attrs@.subrange(0, i as int),
            ),
        decreases attrs@.len() - i,
    {
        let ghost before = out@;
        assert(attrs@.subrange(0, i + 1).drop_last() =~= attrs@.subrange(0, i as int));
        assert(attrs@.subrange(0, i + 1).last() == attrs@[i as int]);
        if is_adopted(&attrs[i]) {
            out.push(copy_attribute(&attrs[i]));
            assert(out@.map_values(|a: Attribute| attr_view(a)) =~= before.map_values(
                |a: Attribute| attr_view(a),
            ).push(attr_view(attrs@[i as int])));
        }
        i = i + 1;
    }
    assert(attrs@.subrange(0, attrs@.len() as int) =~= attrs@);
    let d = off.direction.mirror();
    let ghost before = out@;
    out.push(direction_attribute(d));
    assert(out@.map_values(|a: Attribute| attr_view(a)) =~= before.map_values(
        |a: Attribute| attr_view(a),
    ).push((direction_key(d), None)));
    MediaSection { kind: off.kind, mid: off.mid.clone(), port: off.port, direction: d, attributes: out }
}

/// One codec the endpoint offers.
#[derive(Clone, Debug)]
pub struct CodecCapability {
    pub payload_type: u8,
    pub codec_name: String,
    pub clock_rate: u32,
    pub channels: u16,
}

/// The codecs offered for audio and for video, in order of preference.
#[derive(Clone, Debug)]
pub struct MediaCapabilities {
    pub audio: Vec<CodecCapability>,
    pub video: Vec<CodecCapability>,
}

/// The value of the `rtpmap` line of a codec: `<pt> <name>/<rate>`, with
/// `/<channels>` when the channel count is not 0.
pub open spec fn rtpmap_value(c: CodecCapability) -> Seq<char> {
    decimal(c.payload_type as nat) + " "@ + c.codec_name@ + "/"@ + decimal(c.clock_rate as nat) + if c.channels
        == 0 {
        Seq::<char>::empty()
    } else {
        "/"@ + decimal(c.channels as nat)
    }
}

/// The codecs offered for media of `kind`.
pub open spec fn codecs_for(caps: MediaCapabilities, kind: MediaKind) -> Seq<CodecCapability> {
    match kind {
        MediaKind::Audio => caps.audio@,
        MediaKind::Video => caps.video@,
        MediaKind::Application => Seq::empty(),
    }
}

/// `sec` offers transceiver `t`: same kind, `mid` and direction, port 9,
/// one `rtpmap` line per codec of its kind, and the direction attribute
/// last.
pub open spec fn offers(sec: MediaSection, t: TransceiverModel, caps: MediaCapabilities) -> bool {
    let codecs = codecs_for(caps, t.kind);
    &&& sec.kind == t.kind
    &&& sec.mid@ == t.mid
    &&& sec.port == 9
    &&& sec.direction == t.direction
    &&& sec.attributes@.len() == codecs.len() + 1
    &&& forall|i: int|
        0 <= i < codecs.len() ==> attr_view(#[trigger] sec.attributes@[i]) == (
            "rtpmap"@,
            Some(rtpmap_value(codecs[i])),
        )
    &&& attr_view(sec.attributes@[codecs.len() as int]) == (direction_key(t.direction), None::<Seq<char>>)
}

/// Reading back the `rtpmap` value of an offered codec gives its payload
/// type, clock rate and channel count, for every codec whose name holds no
/// `/` (the first `/` ends the name).
pub proof fn offered_rtpmap_reads_back(c: CodecCapability)
    requires
        find_char(c.codec_name@, '/') is None,
    ensures
        rtpmap_of(rtpmap_value(c)) == Some(
            RtpCodecParameters {
                payload_type: c.payload_type,
                clock_rate: c.clock_rate,
                channels: c.channels,
            },
        ),
{
    reveal_strlit(" ");
    reveal_strlit("/");
    let dp = decimal(c.payload_type as nat);
    let dr = decimal(c.clock_rate as nat);
    let dc = decimal(c.channels as nat);
    lemma_decimal_digits(c.payload_type as nat);
    lemma_decimal_digits(c.clock_rate as nat);
    lemma_decimal_digits(c.channels as nat);
    lemma_digits_lack(dp, ' ');
    lemma_digits_lack(dr, '/');
    crate::text::lemma_find_char_found(dp, ' ');
    crate::text::lemma_find_char_found(dr, '/');
    crate::text::lemma_find_char_found(c.codec_name@, '/');
    let name = c.codec_name@;
    let tail = if c.channels == 0 {
        Seq::<char>::empty()
    } else {
        "/"@ + dc
    };
    let v = rtpmap_value(c);
    assert(v =~= dp + " "@ + name + "/"@ + dr + tail);
    assert forall|j: int| 0 <= j < dp.len() implies v[j] != ' ' by {
        assert(v[j] == dp[j]);
    }
    lemma_find_char(v, ' ', dp.len() as int);
    assert(v.subrange(0, dp.len() as int) =~= dp);
    let rest = v.subrange(dp.len() as int + 1, v.len() as int);
    assert(rest =~= name + "/"@ + dr + tail);
    assert forall|j: int| 0 <= j < name.len() implies rest[j] != '/' by {
        assert(rest[j] == name[j]);
    }
    lemma_find_char(rest, '/', name.len() as int);
    let after = rest.subrange(name.len() as int + 1, rest.len() as int);
    assert(after =~= dr + tail);
    if c.channels == 0 {
        assert(after =~= dr);
    } else {
        assert forall|j: int| 0 <= j < dr.len() implies after[j] != '/' by {
            assert(after[j] == dr[j]);
        }
        lemma_find_char(after, '/', dr.len() as int);
        assert(after.subrange(0, dr.len() as int) =~= dr);
        assert(after.subrange(dr.len() as int + 1, after.len() as int) =~= dc);
    }
    assert(parse_decimal(dp, 255) == Some(c.payload_type as int));
    assert(parse_decimal(dr, u32::MAX as int) == Some(c.clock_rate as int));
}

/// The payload parameters of a codec.
pub open spec fn codec_parameters(c: CodecCapability) -> RtpCodecParameters {
    RtpCodecParameters { payload_type: c.payload_type, clock_rate: c.clock_rate, channels: c.channels }
}

/// The payload map of a codec list: a later codec with the same payload
/// type replaces an earlier one.
pub open spec fn codec_map(cs: Seq<CodecCapability>) -> Map<u8, RtpCodecParameters>
    decreases cs.len(),
{
    if cs.len() == 0 {
        Map::empty()
    } else {
        codec_map(cs.drop_last()).insert(cs.last().payload_type, codec_parameters(cs.last()))
    }
}

proof fn lemma_offered_prefix(attrs: Seq<Attribute>, cs: Seq<CodecCapability>, k: int)
    requires
        0 <= k <= cs.len(),
        cs.len() <= attrs.len(),
        forall|i: int| 0 <= i < cs.len() ==> find_char(#[trigger] cs[i].codec_name@, '/') is None,
        forall|i: int|
            0 <= i < cs.len() ==> attr_view(#[trigger] attrs[i]) == (
                "rtpmap"@,
                Some(rtpmap_value(cs[i])),
            ),
    ensures
        payload_map_of(attrs.subrange(0, k)) == codec_map(cs.subrange(0, k)),
    decreases k,
{
    if k > 0 {
        lemma_offered_prefix(attrs, cs, k - 1);
        let a = attrs.subrange(0, k);
        let c = cs.subrange(0, k);
        assert(a.drop_last() =~= attrs.subrange(0, k - 1));
        assert(c.drop_last() =~= cs.subrange(0, k - 1));
        assert(a.last() == attrs[k - 1]);
        assert(c.last() == cs[k - 1]);
        assert(attr_view(attrs[k - 1]) == ("rtpmap"@, Some(rtpmap_value(cs[k - 1]))));
        offered_rtpmap_reads_back(cs[k - 1]);
    } else {
        assert(attrs.subrange(0, 0) =~= Seq::<Attribute>::empty());
        assert(cs.subrange(0, 0) =~= Seq::<CodecCapability>::empty());
    }
}

/// A section that `create_offer` writes for a transceiver reads back, on
/// the answering side, as the payload map of the configured codecs of its
/// kind, for codec names that hold no `/`.
pub proof fn offered_section_payload_map(sec: MediaSection, t: TransceiverModel, caps: MediaCapabilities)
    requires
        offers(sec, t, caps),
        forall|i: int|
            0 <= i < codecs_for(caps, t.kind).len() ==> find_char(
                #[trigger] codecs_for(caps, t.kind)[i].codec_name@,
                '/',
            ) is None,
    ensures
        payload_map_of(sec.attributes@) == codec_map(codecs_for(caps, t.kind)),
{
    let cs = codecs_for(caps, t.kind);
    let attrs = sec.attributes@;
    lemma_offered_prefix(attrs, cs, cs.len() as int);
    assert(cs.subrange(0, cs.len() as int) =~= cs);
    assert(attrs.drop_last() =~= attrs.subrange(0, cs.len() as int));
    reveal_strlit("rtpmap");
    reveal_strlit("sendrecv");
    reveal_strlit("sendonly");
    reveal_strlit("recvonly");
    reveal_strlit("inactive");
    assert(attrs.last().key@ == direction_key(t.direction));
    assert(direction_key(t.direction).len() == 8);
}

fn rtpmap_line(c: &CodecCapability) -> (r: Attribute)
    ensures
        attr_view(r) == ("rtpmap"@, Some(rtpmap_value(*c))),
{
    let mut v = decimal_string(c.payload_type as u64);
    v.append(" ");
    v.append(c.codec_name.as_str());
    v.append("/");
    v.append(decimal_string(c.clock_rate as u64).as_str());
    if c.channels != 0 {
        v.append("/");
        v.append(decimal_string(c.channels as u64).as_str());
    } else {
        assert(v@ =~= rtpmap_value(*c));
    }
    Attribute::new("rtpmap", Some(v))
}

/// A receiver rebound to another SSRC by a remote description: the
/// transceiver's position, the replaced SSRC and the new one.
#[derive(Clone, Copy, Debug, PartialEq, Eq, Structural)]
pub struct SsrcRebind {
    pub transceiver: usize,
    pub previous: u32,
    pub current: u32,
}

/// The rebinding that the remote section `s` makes in ledger `ts`, if any:
/// the transceiver with its `mid` is bound to an SSRC other than the one
/// the section signals.
pub open spec fn rebind_of(ts: Seq<TransceiverModel>, s: MediaSection) -> Option<SsrcRebind> {
    if has_mid(ts, s.mid@) {
        let i = mid_index(ts, s.mid@);
        match (ts[i].receiver_ssrc, ssrc_of(s.attributes@)) {
            (Some(p), Some(x)) => if p != x {
                Some(SsrcRebind { transceiver: i as usize, previous: p, current: x })
            } else {
                None
            },
            _ => None,
        }
    } else {
        None
    }
}

/// The rebindings that the remote sections `secs` make, in order.
pub open spec fn rebinds_of(ts: Seq<TransceiverModel>, secs: Seq<MediaSection>) -> Seq<SsrcRebind>
    decreases secs.len(),
{
    if secs.len() == 0 {
        Seq::empty()
    } else {
        let prev = rebinds_of(ts, secs.drop_last());
        match rebind_of(after_remote_sections(ts, secs.drop_last()), secs.last()) {
            Some(r) => prev.push(r),
            None => prev,
        }
    }
}

/// The model of a peer connection's negotiation state.
pub struct PeerConnectionModel {
    pub signaling_state: SignalingState,
    pub transceivers: Seq<TransceiverModel>,
    /// The last remote description applied.
    pub remote_description: Option<SessionDescription>,
}

/// The negotiation core of a peer connection.
pub struct PeerConnection {
    signaling_state: SignalingState,
    transceivers: Vec<RtpTransceiver>,
    remote_description: Option<SessionDescription>,
}

/// The models of a list of transceivers.
pub open spec fn models(ts: Seq<RtpTransceiver>) -> Seq<TransceiverModel> {
    ts.map_values(|t: RtpTransceiver| t@)
}

impl View for PeerConnection {
    type V = PeerConnectionModel;

    closed spec fn view(&self) -> PeerConnectionModel {
        PeerConnectionModel {
            signaling_state: self.signaling_state,
            transceivers: models(self.transceivers@),
            remote_description: self.remote_description,
        }
    }
}

impl PeerConnection {
    pub open spec fn wf(&self) -> bool {
        &&& mids_unique(self@.transceivers)
        &&& self@.signaling_state == SignalingState::HaveRemoteOffer
            ==> self@.remote_description is Some
    }

    /// A connection in `Stable` state with no transceiver.
    pub fn new() -> (r: PeerConnection)
        ensures
            r.wf(),
            r@.signaling_state == SignalingState::Stable,
            r@.transceivers.len() == 0,
            r@.remote_description is None,
    {
        let r = PeerConnection {
            signaling_state: SignalingState::Stable,
            transceivers: Vec::new(),
            remote_description: None,
        };
        assert(r@.transceivers =~= Seq::<TransceiverModel>::empty());
        r
    }

    pub fn signaling_state(&self) -> (r: SignalingState)
        ensures
            r == self@.signaling_state,
    {
        self.signaling_state
    }

    /// The transceivers, in order of creation.
    pub fn get_transceivers(&self) -> (r: &Vec<RtpTransceiver>)
        ensures
            models(r@) == self@.transceivers,
    {
        &self.transceivers
    }

    fn find_mid(&self, mid: &str) -> (r: Option<usize>)
        requires
            self.wf(),
        ensures
            match r {
                Some(i) => has_mid(self@.transceivers, mid@) && i == mid_index(
                    self@.transceivers,
                    mid@,
                ),
                None => !has_mid(self@.transceivers, mid@),
            },
    {
        let ghost ts = self@.transceivers;
        let mut i: usize = 0;
        while i < self.transceivers.len()
            invariant
                ts == self@.transceivers,
                mids_unique(ts),
                ts.len() == self.transceivers@.len(),
                i <= ts.len(),
                forall|j: int| 0 <= j < i ==> #[trigger] ts[j].mid != mid@,
            decreases ts.len() - i,
        {
            assert(ts[i as int] == self.transceivers@[i as int]@);
            if self.transceivers[i].has_mid(mid) {
                proof {
                    assert(ts[i as int].mid == mid@);
                    assert(has_mid(ts, mid@));
                    let k = mid_index(ts, mid@);
                    assert(ts[k].mid == mid@);
                    assert(k == i);
                }
                return Some(i);
            }
            i = i + 1;
        }
        None
    }

    /// Creates a transceiver of `kind` with local intent `direction` and a
    /// fresh `mid`: the decimal number of the first free name counting up
    /// from the number of transceivers. Returns its position.
    pub fn add_transceiver(&mut self, kind: MediaKind, direction: Direction) -> (r: Result<
        usize,
        RtcError,
    >)
        requires
            old(self).wf(),
        ensures
            final(self).wf(),
            match r {
                Ok(i) => {
                    &&& i == old(self)@.transceivers.len()
                    &&& final(self)@.signaling_state == old(self)@.signaling_state
                    &&& final(self)@.remote_description == old(self)@.remote_description
                    &&& final(self)@.transceivers.len() == i + 1
                    &&& final(self)@.transceivers.subrange(0, i as int) == old(self)@.transceivers
                    &&& exists|c: u64|
                        c >= i && !has_mid(old(self)@.transceivers, decimal(c as nat))
                            && #[trigger] final(self)@.transceivers[i as int] == (TransceiverModel {
                            kind,
                            mid: decimal(c as nat),
                            direction,
                            current_direction: None,
                            payload_map: Map::empty(),
                            extmap: Map::empty(),
                            receiver_ssrc: None,
                        })
                },
                Err(e) => {
                    &&& e == RtcError::InvalidState
                    &&& final(self)@ == old(self)@
                    &&& forall|c: u64|
                        c >= old(self)@.transceivers.len() ==> has_mid(
                            old(self)@.transceivers,
                            #[trigger] decimal(c as nat),
                        )
                },
            },
    {
        let n = self.transceivers.len();
        let mut c: u64 = n as u64;
        loop
            invariant
                self.wf(),
                self@ == old(self)@,
                n == self@.transceivers.len(),
                c >= n,
                forall|d: u64| n <= d < c ==> has_mid(self@.transceivers, #[trigger] decimal(d as nat)),
            decreases u64::MAX - c,
        {
            let mid = decimal_string(c);
            if self.find_mid(mid.as_str()).is_none() {
                let t = RtpTransceiver::new(kind, mid.as_str(), direction);
                let ghost before = self@.transceivers;
                self.transceivers.push(t);
                proof {
                    assert(self@.transceivers =~= before.push(t@));
                    assert(self@.transceivers.subrange(0, n as int) =~= before);
                    assert(self@.transceivers[n as int].mid == decimal(c as nat));
                }
                return Ok(n);
            }
            if c == u64::MAX {
                return Err(RtcError::InvalidState);
            }
            c = c + 1;
        }
    }

    fn apply_remote_section(&mut self, s: &MediaSection) -> (r: Option<SsrcRebind>)
        requires
            old(self).wf(),
        ensures
            r == rebind_of(old(self)@.transceivers, *s),
            final(self).wf(),
            final(self)@.signaling_state == old(self)@.signaling_state,
            final(self)@.transceivers == after_remote_section(old(self)@.transceivers, *s),
            final(self)@.remote_description == old(self)@.remote_description,
    {
        let ghost ts = self@.transceivers;
        let payload_map = extract_payload_map(s);
        let extmap = extract_extmap(s);
        let ssrc = extract_ssrc(s);
        let d = s.direction.mirror();
        match self.find_mid(s.mid.as_str()) {
            Some(i) => {
                let t = &mut self.transceivers[i];
                t.set_current_direction(d);
                t.update_payload_map(payload_map);
                t.update_extmap(extmap);
                let rebind = match ssrc {
                    Some(x) => match t.rebind_receiver(x) {
                        Some(p) => Some(SsrcRebind { transceiver: i, previous: p, current: x }),
                        None => None,
                    },
                    None => None,
                };
                proof {
                    assert(self@.transceivers =~= ts.update(i as int, remote_applied(ts[i as int], *s)));
                }
                rebind
            },
            None => {
                let mut t = RtpTransceiver::new(s.kind, s.mid.as_str(), d);
                t.set_current_direction(d);
                t.update_payload_map(payload_map);
                t.update_extmap(extmap);
                match ssrc {
                    Some(x) => {
                        t.rebind_receiver(x);
                    },
                    None => {},
                }
                assert(t@ == created_for(*s));
                self.transceivers.push(t);
                proof {
                    assert(self@.transceivers =~= ts.push(created_for(*s)));
                }
                None
            },
        }
    }

    fn apply_local_section(&mut self, s: &MediaSection, ty: SdpType)
        requires
            old(self).wf(),
        ensures
            final(self).wf(),
            final(self)@.signaling_state == old(self)@.signaling_state,
            final(self)@.transceivers == after_local_section(old(self)@.transceivers, *s, ty),
            final(self)@.remote_description == old(self)@.remote_description,
    {
        let ghost ts = self@.transceivers;
        match self.find_mid(s.mid.as_str()) {
            Some(i) => {
                match ty {
                    SdpType::Offer => {
                        let payload_map = extract_payload_map(s);
                        let extmap = extract_extmap(s);
                        let t = &mut self.transceivers[i];
                        t.update_payload_map(payload_map);
                        t.update_extmap(extmap);
                    },
                    SdpType::Answer => {
                        let t = &mut self.transceivers[i];
                        t.set_current_direction(s.direction);
                    },
                }
                proof {
                    assert(self@.transceivers =~= ts.update(
                        i as int,
                        local_applied(ts[i as int], *s, ty),
                    ));
                }
            },
            None => {},
        }
    }

    /// `setRemoteDescription`: takes the transition of the automaton, then
    /// applies each media section to the transceiver with its `mid`,
    /// creating it when the `mid` is new. A description that no edge allows
    /// (a remote offer during a local one is glare) is refused and changes
    /// nothing. Returns the receivers that a signaled SSRC rebound, which
    /// callers report as warnings; the transceivers and their tracks stay.
    pub fn set_remote_description(&mut self, desc: SessionDescription) -> (r: Result<
        Vec<SsrcRebind>,
        RtcError,
    >)
        requires
            old(self).wf(),
        ensures
            final(self).wf(),
            match remote_edge(old(self)@.signaling_state, desc.sdp_type) {
                None => {
                    &&& r == Err::<Vec<SsrcRebind>, RtcError>(refusal(old(self)@.signaling_state))
                    &&& final(self)@ == old(self)@
                },
                Some(n) => {
                    &&& r matches Ok(w) && w@ == rebinds_of(
                        old(self)@.transceivers,
                        desc.media_sections@,
                    )
                    &&& final(self)@.signaling_state == n
                    &&& final(self)@.transceivers == after_remote_sections(
                        old(self)@.transceivers,
                        desc.media_sections@,
                    )
                    &&& final(self)@.remote_description == Some(desc)
                },
            },
    {
        let next = match apply_remote(self.signaling_state, desc.sdp_type) {
            Ok(n) => n,
            Err(e) => {
                return Err(e);
            },
        };
        let secs = &desc.media_sections;
        let mut rebinds: Vec<SsrcRebind> = Vec::new();
        let mut i: usize = 0;
        while i < secs.len()
            invariant
                i <= secs@.len(),
                self.wf(),
                self@.signaling_state == old(self)@.signaling_state,
                self@.remote_description == old(self)@.remote_description,
                self@.transceivers == after_remote_sections(
                    old(self)@.transceivers,
                    secs@.subrange(0, i as int),
                ),
                rebinds@ == rebinds_of(old(self)@.transceivers, secs@.subrange(0, i as int)),
            decreases secs@.len() - i,
        {
            let rebind = self.apply_remote_section(&secs[i]);
            assert(secs@.subrange(0, i + 1).drop_last() =~= secs@.subrange(0, i as int));
            assert(secs@.subrange(0, i + 1).last() == secs@[i as int]);
            match rebind {
                Some(r) => {
                    rebinds.push(r);
                },
                None => {},
            }
            i = i + 1;
        }
        assert(secs@.subrange(0, secs@.len() as int) =~= secs@);
        self.signaling_state = next;
        self.remote_description = Some(desc);
        Ok(rebinds)
    }

    /// `setLocalDescription`: takes the transition of the automaton, then
    /// applies each media section to the transceiver with its `mid`. A
    /// description that no edge allows is refused and changes nothing.
    pub fn set_local_description(&mut self, desc: SessionDescription) -> (r: Result<(), RtcError>)
        requires
            old(self).wf(),
        ensures
            final(self).wf(),
            match local_edge(old(self)@.signaling_state, desc.sdp_type) {
                None => {
                    &&& r == Err::<(), RtcError>(refusal(old(self)@.signaling_state))
                    &&& final(self)@ == old(self)@
                },
                Some(n) => {
                    &&& r is Ok
                    &&& final(self)@.signaling_state == n
                    &&& final(self)@.transceivers == after_local_sections(
                        old(self)@.transceivers,
                        desc.media_sections@,
                        desc.sdp_type,
                    )
                    &&& final(self)@.remote_description == old(self)@.remote_description
                },
            },
    {
        let next = match apply_local(self.signaling_state, desc.sdp_type) {
            Ok(n) => n,
            Err(e) => {
                return Err(e);
            },
        };
        let secs = &desc.media_sections;
        let mut i: usize = 0;
        while i < secs.len()
            invariant
                i <= secs@.len(),
                self.wf(),
                self@.signaling_state == old(self)@.signaling_state,
                self@.remote_description == old(self)@.remote_description,
                self@.transceivers == after_local_sections(
                    old(self)@.transceivers,
                    secs@.subrange(0, i as int),
                    desc.sdp_type,
                ),
            decreases secs@.len() - i,
        {
            self.apply_local_section(&secs[i], desc.sdp_type);
            assert(secs@.subrange(0, i + 1).drop_last() =~= secs@.subrange(0, i as int));
            i = i + 1;
        }
        assert(secs@.subrange(0, secs@.len() as int) =~= secs@);
        self.signaling_state = next;
        Ok(())
    }
    /// `createAnswer`: allowed only in `HaveRemoteOffer`; answers each
    /// section of the remote offer in order (see `answers`).
    pub fn create_answer(&self) -> (r: Result<SessionDescription, RtcError>)
        requires
            self.wf(),
        ensures
            self@.signaling_state != SignalingState::HaveRemoteOffer ==> r == Err::<
                SessionDescription,
                RtcError,
            >(refusal(self@.signaling_state)),
            self@.signaling_state == SignalingState::HaveRemoteOffer ==> (r matches Ok(ans) && {
                let off = self@.remote_description->0;
                &&& ans.sdp_type == SdpType::Answer
                &&& ans.media_sections@.len() == off.media_sections@.len()
                &&& forall|i: int|
                    0 <= i < off.media_sections@.len() ==> answers(
                        #[trigger] ans.media_sections@[i],
                        off.media_sections@[i],
                    )
            }),
    {
        match check_create_answer(self.signaling_state) {
            Ok(()) => {},
            Err(e) => {
                return Err(e);
            },
        }
        let off = match &self.remote_description {
            Some(d) => d,
            None => {
                return Err(RtcError::InvalidState);
            },
        };
        let mut sections: Vec<MediaSection> = Vec::new();
        let mut i: usize = 0;
        while i < off.media_sections.len()
            invariant
                i <= off.media_sections@.len(),
                sections@.len() == i,
                forall|j: int|
                    0 <= j < i ==> answers(#[trigger] sections@[j], off.media_sections@[j]),
            decreases off.media_sections@.len() - i,
        {
            sections.push(answer_section(&off.media_sections[i]));
            i = i + 1;
        }
        Ok(SessionDescription { sdp_type: SdpType::Answer, media_sections: sections })
    }
    /// `createOffer`: allowed only in `Stable` or `HaveLocalOffer`; offers
    /// every transceiver in order (see `offers`).
    pub fn create_offer(&self, caps: &MediaCapabilities) -> (r: Result<SessionDescription, RtcError>)
        ensures
            !offer_allowed(self@.signaling_state) ==> r == Err::<SessionDescription, RtcError>(
                refusal(self@.signaling_state),
            ),
            offer_allowed(self@.signaling_state) ==> (r matches Ok(off) && {
                &&& off.sdp_type == SdpType::Offer
                &&& off.media_sections@.len() == self@.transceivers.len()
                &&& forall|i: int|
                    0 <= i < self@.transceivers.len() ==> offers(
                        #[trigger] off.media_sections@[i],
                        self@.transceivers[i],
                        *caps,
                    )
            }),
    {
        match check_create_offer(self.signaling_state) {
            Ok(()) => {},
            Err(e) => {
                return Err(e);
            },
        }
        let ghost ts = self@.transceivers;
        let mut sections: Vec<MediaSection> = Vec::new();
        let mut i: usize = 0;
        while i < self.transceivers.len()
            invariant
                ts == self@.transceivers,
                ts.len() == self.transceivers@.len(),
                i <= ts.len(),
                sections@.len() == i,
                forall|j: int| 0 <= j < i ==> offers(#[trigger] sections@[j], ts[j], *caps),
            decreases ts.len() - i,
        {
            let t = &self.transceivers[i];
            assert(ts[i as int] == t@);
            let empty: Vec<CodecCapability> = Vec::new();
            let codecs = match t.kind() {
                MediaKind::Audio => &caps.audio,
                MediaKind::Video => &caps.video,
                MediaKind::Application => &empty,
            };
            assert(codecs@ == codecs_for(*caps, t@.kind));
            let mut attrs: Vec<Attribute> = Vec::new();
            let mut k: usize = 0;
            while k < codecs.len()
                invariant
                    k <= codecs@.len(),
                    attrs@.len() == k,
                    forall|j: int|
                        0 <= j < k ==> attr_view(#[trigger] attrs@[j]) == (
                            "rtpmap"@,
                            Some(rtpmap_value(codecs@[j])),
                        ),
                decreases codecs@.len() - k,
            {
                attrs.push(rtpmap_line(&codecs[k]));
                k = k + 1;
            }
            attrs.push(direction_attribute(t.direction()));
            let mid = t.mid().to_owned();
            sections.push(
                MediaSection { kind: t.kind(), mid, port: 9, direction: t.direction(), attributes: attrs },
            );
            i = i + 1;
        }
        Ok(SessionDescription { sdp_type: SdpType::Offer, media_sections: sections })
    }
}

} // verus!
