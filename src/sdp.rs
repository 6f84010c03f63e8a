//! The session description model: media sections and their attributes, and
//! the payload-type and header-extension maps that they carry.
use vstd::prelude::*;
use std::collections::HashMap;
pub use crate::signaling::SdpType;
pub use crate::peer_connection::SessionDescription;
use crate::text::{find_char, find_char_exec, parse_decimal, parse_decimal_exec, lemma_find_char_found};

verus! {

broadcast use vstd::std_specs::hash::group_hash_axioms;

/// The kind of media a section carries.
#[derive(Clone, Copy, Debug, PartialEq, Eq, Structural)]
pub enum MediaKind {
    Audio,
    Video,
    Application,
}

/// The direction of a media section, from the describing side's point of view.
#[derive(Clone, Copy, Debug, PartialEq, Eq, Structural)]
pub enum Direction {
    SendRecv,
    SendOnly,
    RecvOnly,
    Inactive,
}

/// The direction seen from the other side: their `sendonly` is our `recvonly`.
pub open spec fn mirrored(d: Direction) -> Direction {
    match d {
        Direction::SendOnly => Direction::RecvOnly,
        Direction::RecvOnly => Direction::SendOnly,
        _ => d,
    }
}

impl Direction {
    /// The direction seen from the other side.
    pub fn mirror(self) -> (r: Direction)
        ensures
            r == mirrored(self),
    {
        match self {
            Direction::SendOnly => Direction::RecvOnly,
            Direction::RecvOnly => Direction::SendOnly,
            _ => self,
        }
    }
}

/// One `a=` line of a media section: a key and an optional value.
#[derive(Clone, Debug)]
pub struct Attribute {
    pub key: String,
    pub value: Option<String>,
}

impl Attribute {
    pub fn new(key: &str, value: Option<String>) -> (r: Attribute)
        ensures
            r.key@ == key@,
            r.value == value,
    {
        Attribute { key: key.to_owned(), value }
    }
}

/// One media section of a session description.
#[derive(Clone, Debug)]
pub struct MediaSection {
    pub kind: MediaKind,
    pub mid: String,
    pub port: u16,
    pub direction: Direction,
    pub attributes: Vec<Attribute>,
}

/// The direction that an attribute key names, if it names one.
pub open spec fn direction_named(key: Seq<char>) -> Option<Direction> {
    if key == "sendrecv"@ {
        Some(Direction::SendRecv)
    } else if key == "sendonly"@ {
        Some(Direction::SendOnly)
    } else if key == "recvonly"@ {
        Some(Direction::RecvOnly)
    } else if key == "inactive"@ {
        Some(Direction::Inactive)
    } else {
        None
    }
}

/// The direction given by the first direction attribute of `attrs`;
/// `SendRecv` when there is none.
pub open spec fn direction_of(attrs: Seq<Attribute>) -> Direction
    decreases attrs.len(),
{
    if attrs.len() == 0 {
        Direction::SendRecv
    } else {
        match direction_named(attrs[0].key@) {
            Some(d) => d,
            None => direction_of(attrs.drop_first()),
        }
    }
}

fn key_is(a: &Attribute, k: &str) -> (r: bool)
    ensures
        r == (a.key@ == k@),
{
    a.key == k.to_owned()
}

fn direction_named_exec(a: &Attribute) -> (r: Option<Direction>)
    ensures
        r == direction_named(a.key@),
{
    if key_is(a, "sendrecv") {
        Some(Direction::SendRecv)
    } else if key_is(a, "sendonly") {
        Some(Direction::SendOnly)
    } else if key_is(a, "recvonly") {
        Some(Direction::RecvOnly)
    } else if key_is(a, "inactive") {
        Some(Direction::Inactive)
    } else {
        None
    }
}

impl MediaSection {
    /// An empty `SendRecv` section of `kind` identified by `mid`, on port 9.
    pub fn new(kind: MediaKind, mid: &str) -> (r: MediaSection)
        ensures
            r.kind == kind,
            r.mid@ == mid@,
            r.port == 9,
            r.direction == Direction::SendRecv,
            r.attributes@.len() == 0,
    {
        MediaSection {
            kind,
            mid: mid.to_owned(),
            port: 9,
            direction: Direction::SendRecv,
            attributes: Vec::new(),
        }
    }

    /// The direction that the attributes give: the first direction
    /// attribute, or `SendRecv` when there is none.
    pub fn direction_from_attributes(&self) -> (r: Direction)
        ensures
            r == direction_of(self.attributes@),
    {
        let n = self.attributes.len();
        assert(self.attributes@.subrange(0, n as int) =~= self.attributes@);
        let mut i: usize = 0;
        while i < n
            invariant
                n == self.attributes@.len(),
                i <= n,
                direction_of(self.attributes@) == direction_of(
                    self.attributes@.subrange(i as int, n as int),
                ),
            decreases n - i,
        {
            let ghost rest = self.attributes@.subrange(i as int, n as int);
            assert(rest[0] == self.attributes@[i as int]);
            match direction_named_exec(&self.attributes[i]) {
                Some(d) => {
                    return d;
                },
                None => {},
            }
            assert(rest.drop_first() =~= self.attributes@.subrange(i + 1, n as int));
            i = i + 1;
        }
        Direction::SendRecv
    }
}

/// The parameters that an `rtpmap` line gives a payload type.
#[derive(Clone, Copy, Debug, PartialEq, Eq, Structural)]
pub struct RtpCodecParameters {
    pub payload_type: u8,
    pub clock_rate: u32,
    pub channels: u16,
}

/// The parameters that the value of `a=rtpmap:<pt> <codec>/<rate>[/<channels>]`
/// gives: `<pt>` runs up to the first space and is a decimal `u8`; after it,
/// the codec name runs up to the first `/`; the clock rate, a decimal `u32`,
/// runs up to the next `/` or the end; what follows that `/`, if any, is the
/// channel count, a decimal `u16`, or 0 when it is not one.
pub open spec fn rtpmap_of(v: Seq<char>) -> Option<RtpCodecParameters> {
    match find_char(v, ' ') {
        None => None,
        Some(sp) => {
            let pt = parse_decimal(v.subrange(0, sp), 255);
            let rest = v.subrange(sp + 1, v.len() as int);
            match find_char(rest, '/') {
                None => None,
                Some(sl) => {
                    let after = rest.subrange(sl + 1, rest.len() as int);
                    let (rate_s, channels) = match find_char(after, '/') {
                        Some(k) => (
                            after.subrange(0, k),
                            match parse_decimal(after.subrange(k + 1, after.len() as int), 65535) {
                                Some(c) => c,
                                None => 0,
                            },
                        ),
                        None => (after, 0),
                    };
                    match (pt, parse_decimal(rate_s, u32::MAX as int)) {
                        (Some(p), Some(r)) => Some(
                            RtpCodecParameters {
                                payload_type: p as u8,
                                clock_rate: r as u32,
                                channels: channels as u16,
                            },
                        ),
                        _ => None,
                    }
                },
            }
        },
    }
}

/// Reads the value of an `rtpmap` attribute (see `rtpmap_of`).
pub fn parse_rtpmap(v: &str) -> (r: Option<RtpCodecParameters>)
    ensures
        r == rtpmap_of(v@),
{
    proof {
        lemma_find_char_found(v@, ' ');
    }
    let n = v.unicode_len();
    let sp = match find_char_exec(v, ' ') {
        Some(i) => i,
        None => {
            return None;
        },
    };
    let pt = parse_decimal_exec(v.substring_char(0, sp), 255);
    let rest = v.substring_char(sp + 1, n);
    proof {
        lemma_find_char_found(rest@, '/');
    }
    let sl = match find_char_exec(rest, '/') {
        Some(i) => i,
        None => {
            return None;
        },
    };
    let after = rest.substring_char(sl + 1, rest.unicode_len());
    proof {
        lemma_find_char_found(after@, '/');
    }
    let (rate, channels) = match find_char_exec(after, '/') {
        Some(k) => {
            let c = match parse_decimal_exec(after.substring_char(k + 1, after.unicode_len()), 65535) {
                Some(c) => c,
                None => 0,
            };
            (parse_decimal_exec(after.substring_char(0, k), u32::MAX as u64), c)
        },
        None => (parse_decimal_exec(after, u32::MAX as u64), 0),
    };
    match (pt, rate) {
        (Some(p), Some(r)) => Some(
            RtpCodecParameters { payload_type: p as u8, clock_rate: r as u32, channels: channels as u16 },
        ),
        _ => None,
    }
}

/// The payload map that the `rtpmap` attributes of `attrs` give, read in
/// order; a later line for a payload type replaces an earlier one, and
/// malformed lines are skipped.
pub open spec fn payload_map_of(attrs: Seq<Attribute>) -> Map<u8, RtpCodecParameters>
    decreases attrs.len(),
{
    if attrs.len() == 0 {
        Map::empty()
    } else {
        let prev = payload_map_of(attrs.drop_last());
        let a = attrs.last();
        match a.value {
            Some(v) => if a.key@ == "rtpmap"@ {
                match rtpmap_of(v@) {
                    Some(p) => prev.insert(p.payload_type, p),
                    None => prev,
                }
            } else {
                prev
            },
            None => prev,
        }
    }
}

/// Builds `{ payload type -> codec parameters }` from the section's
/// `rtpmap` attributes.
pub fn extract_payload_map(section: &MediaSection) -> (r: HashMap<u8, RtpCodecParameters>)
    ensures
        r@ == payload_map_of(section.attributes@),
{
    let attrs = &section.attributes;
    let mut map: HashMap<u8, RtpCodecParameters> = HashMap::new();
    let mut i: usize = 0;
    while i < attrs.len()
        invariant
            i <= attrs@.len(),
            map@ == payload_map_of(attrs@.subrange(0, i as int)),
        decreases attrs@.len() - i,
    {
        let a = &attrs[i];
        assert(attrs@.subrange(0, i + 1).drop_last() =~= attrs@.subrange(0, i as int));
        assert(attrs@.subrange(0, i + 1).last() == attrs@[i as int]);
        match &a.value {
            Some(v) => {
                if key_is(a, "rtpmap") {
                    match parse_rtpmap(v.as_str()) {
                        Some(p) => {
                            map.insert(p.payload_type, p);
                        },
                        None => {},
                    }
                }
            },
            None => {},
        }
        i = i + 1;
    }
    assert(attrs@.subrange(0, attrs@.len() as int) =~= attrs@);
    map
}

/// The extension id and URI that the value of `a=extmap:<id> <uri>` gives:
/// `<id>` runs up to the first space and is a decimal `u8`; the URI is the
/// next word, which must not be empty.
pub open spec fn extmap_of(v: Seq<char>) -> Option<(u8, Seq<char>)> {
    match find_char(v, ' ') {
        None => None,
        Some(sp) => {
            let rest = v.subrange(sp + 1, v.len() as int);
            let uri = match find_char(rest, ' ') {
                Some(k) => rest.subrange(0, k),
                None => rest,
            };
            match parse_decimal(v.subrange(0, sp), 255) {
                Some(id) => if uri.len() > 0 {
                    Some((id as u8, uri))
                } else {
                    None
                },
                None => None,
            }
        },
    }
}

/// Reads the value of an `extmap` attribute (see `extmap_of`).
pub fn parse_extmap(v: &str) -> (r: Option<(u8, String)>)
    ensures
        match r {
            Some((id, uri)) => extmap_of(v@) == Some((id, uri@)),
            None => extmap_of(v@) is None,
        },
{
    proof {
        lemma_find_char_found(v@, ' ');
    }
    let n = v.unicode_len();
    let sp = match find_char_exec(v, ' ') {
        Some(i) => i,
        None => {
            return None;
        },
    };
    let rest = v.substring_char(sp + 1, n);
    proof {
        lemma_find_char_found(rest@, ' ');
    }
    let uri = match find_char_exec(rest, ' ') {
        Some(k) => rest.substring_char(0, k),
        None => rest,
    };
    match parse_decimal_exec(v.substring_char(0, sp), 255) {
        Some(id) => if uri.unicode_len() > 0 {
            Some((id as u8, uri.to_owned()))
        } else {
            None
        },
        None => None,
    }
}

/// The extension map that the `extmap` attributes of `attrs` give, read in
/// order; a later line for an id replaces an earlier one, and malformed
/// lines are skipped.
pub open spec fn extmap_map_of(attrs: Seq<Attribute>) -> Map<u8, Seq<char>>
    decreases attrs.len(),
{
    if attrs.len() == 0 {
        Map::empty()
    } else {
        let prev = extmap_map_of(attrs.drop_last());
        let a = attrs.last();
        match a.value {
            Some(v) => if a.key@ == "extmap"@ {
                match extmap_of(v@) {
                    Some((id, uri)) => prev.insert(id, uri),
                    None => prev,
                }
            } else {
                prev
            },
            None => prev,
        }
    }
}

/// The URIs of an extension map, as character sequences.
pub open spec fn uri_view(m: Map<u8, String>) -> Map<u8, Seq<char>> {
    m.map_values(|s: String| s@)
}

/// Builds `{ extension id -> URI }` from the section's `extmap` attributes.
pub fn extract_extmap(section: &MediaSection) -> (r: HashMap<u8, String>)
    ensures
        uri_view(r@) == extmap_map_of(section.attributes@),
{
    let attrs = &section.attributes;
    let mut map: HashMap<u8, String> = HashMap::new();
    assert(uri_view(map@) =~= Map::<u8, Seq<char>>::empty());
    let mut i: usize = 0;
    while i < attrs.len()
        invariant
            i <= attrs@.len(),
            uri_view(map@) == extmap_map_of(attrs@.subrange(0, i as int)),
        decreases attrs@.len() - i,
    {
        let a = &attrs[i];
        assert(attrs@.subrange(0, i + 1).drop_last() =~= attrs@.subrange(0, i as int));
        assert(attrs@.subrange(0, i + 1).last() == attrs@[i as int]);
        match &a.value {
            Some(v) => {
                if key_is(a, "extmap") {
                    match parse_extmap(v.as_str()) {
                        Some((id, uri)) => {
                            let ghost before = map@;
                            map.insert(id, uri);
                            assert(uri_view(map@) =~= uri_view(before).insert(id, uri@));
                        },
                        None => {},
                    }
                }
            },
            None => {},
        }
        i = i + 1;
    }
    assert(attrs@.subrange(0, attrs@.len() as int) =~= attrs@);
    map
}

/// An attribute as a key and an optional value, both as characters.
pub open spec fn attr_view(a: Attribute) -> (Seq<char>, Option<Seq<char>>) {
    (
        a.key@,
        match a.value {
            Some(v) => Some(v@),
            None => None,
        },
    )
}

/// The SDP line of an attribute, without its line ending: `a=<key>` or
/// `a=<key>:<value>`.
pub open spec fn attribute_line(a: Attribute) -> Seq<char> {
    "a="@ + a.key@ + match a.value {
        Some(v) => ":"@ + v@,
        None => Seq::empty(),
    }
}

/// The attribute that an SDP line holds: after `a=`, the key runs up to
/// the first `:` and the value is what follows it; with no `:` the line has
/// a key alone. A line that does not start with `a=` holds none.
pub open spec fn attribute_of_line(l: Seq<char>) -> Option<(Seq<char>, Option<Seq<char>>)> {
    if l.len() >= 2 && l[0] == 'a' && l[1] == '=' {
        let body = l.subrange(2, l.len() as int);
        match find_char(body, ':') {
            Some(k) => Some((body.subrange(0, k), Some(body.subrange(k + 1, body.len() as int)))),
            None => Some((body, None)),
        }
    } else {
        None
    }
}

impl Attribute {
    /// The attribute's SDP line, without its line ending.
    pub fn to_line(&self) -> (r: String)
        ensures
            r@ == attribute_line(*self),
    {
        let mut line = "a=".to_owned();
        line.append(self.key.as_str());
        match &self.value {
            Some(v) => {
                line.append(":");
                line.append(v.as_str());
            },
            None => {},
        }
        proof {
            if self.value is None {
                assert(line@ =~= attribute_line(*self));
            }
        }
        line
    }

    /// Reads an attribute from one SDP line without its line ending.
    pub fn from_line(line: &str) -> (r: Option<Attribute>)
        ensures
            match r {
                Some(a) => attribute_of_line(line@) == Some(attr_view(a)),
                None => attribute_of_line(line@) is None,
            },
    {
        let n = line.unicode_len();
        if n < 2 || line.get_char(0) != 'a' || line.get_char(1) != '=' {
            return None;
        }
        let body = line.substring_char(2, n);
        match find_char_exec(body, ':') {
            Some(k) => {
                proof {
                    lemma_find_char_found(body@, ':');
                }
                let key = body.substring_char(0, k);
                let value = body.substring_char(k + 1, body.unicode_len());
                Some(Attribute { key: key.to_owned(), value: Some(value.to_owned()) })
            },
            None => Some(Attribute { key: body.to_owned(), value: None }),
        }
    }
}

/// Reading back the line of an attribute gives the attribute again, for
/// every attribute whose key holds no `:` (the first `:` of a line ends
/// its key).
pub proof fn attribute_line_round_trip(a: Attribute)
    requires
        find_char(a.key@, ':') is None,
    ensures
        attribute_of_line(attribute_line(a)) == Some(attr_view(a)),
{
    reveal_strlit("a=");
    reveal_strlit(":");
    let l = attribute_line(a);
    let body = l.subrange(2, l.len() as int);
    lemma_find_char_found(a.key@, ':');
    let k = a.key@;
    match a.value {
        Some(v) => {
            assert(body =~= k + ":"@ + v@);
            assert forall|j: int| 0 <= j < k.len() implies body[j] != ':' by {
                assert(body[j] == k[j]);
            }
            assert(body[k.len() as int] == ':');
            crate::text::lemma_find_char(body, ':', k.len() as int);
            assert(body.subrange(0, k.len() as int) =~= k);
            assert(body.subrange(k.len() as int + 1, body.len() as int) =~= v@);
        },
        None => {
            assert(body =~= k);
        },
    }
}

/// Where and why a description could not be read.
#[derive(Clone, Copy, Debug, PartialEq, Eq, Structural)]
pub struct ParseError {
    /// The 0-based index of the offending line.
    pub line: usize,
    pub reason: ParseReason,
}

#[derive(Clone, Copy, Debug, PartialEq, Eq, Structural)]
pub enum ParseReason {
    /// The line is not of the form `a=<key>[:<value>]`.
    NotAnAttribute,
}

/// The lines of a list of attributes, one per attribute, in order.
pub fn attributes_to_lines(attrs: &Vec<Attribute>) -> (r: Vec<String>)
    ensures
        r@.len() == attrs@.len(),
        forall|i: int| 0 <= i < attrs@.len() ==> #[trigger] r@[i]@ == attribute_line(attrs@[i]),
{
    let mut lines: Vec<String> = Vec::new();
    let mut i: usize = 0;
    while i < attrs.len()
        invariant
            i <= attrs@.len(),
            lines@.len() == i,
            forall|j: int| 0 <= j < i ==> #[trigger] lines@[j]@ == attribute_line(attrs@[j]),
        decreases attrs@.len() - i,
    {
        lines.push(attrs[i].to_line());
        i = i + 1;
    }
    lines
}

/// Reads one attribute from each line, or reports the first line that
/// holds none.
pub fn attributes_from_lines(lines: &Vec<String>) -> (r: Result<Vec<Attribute>, ParseError>)
    ensures
        match r {
            Ok(attrs) => attrs@.len() == lines@.len() && forall|i: int|
                0 <= i < lines@.len() ==> attribute_of_line(#[trigger] lines@[i]@) == Some(
                    attr_view(attrs@[i]),
                ),
            Err(e) => e.line < lines@.len() && e.reason == ParseReason::NotAnAttribute
                && attribute_of_line(lines@[e.line as int]@) is None && forall|i: int|
                0 <= i < e.line ==> attribute_of_line(#[trigger] lines@[i]@) is Some,
        },
{
    let mut attrs: Vec<Attribute> = Vec::new();
    let mut i: usize = 0;
    while i < lines.len()
        invariant
            i <= lines@.len(),
            attrs@.len() == i,
            forall|j: int|
                0 <= j < i ==> attribute_of_line(#[trigger] lines@[j]@) == Some(attr_view(attrs@[j])),
        decreases lines@.len() - i,
    {
        match Attribute::from_line(lines[i].as_str()) {
            Some(a) => {
                attrs.push(a);
            },
            None => {
                return Err(ParseError { line: i, reason: ParseReason::NotAnAttribute });
            },
        }
        i = i + 1;
    }
    Ok(attrs)
}

/// Reading back the lines of a list of attributes gives the list again,
/// when no key holds a `:`.
pub proof fn attribute_lines_round_trip(attrs: Seq<Attribute>, lines: Seq<String>)
    requires
        forall|i: int| 0 <= i < attrs.len() ==> find_char(#[trigger] attrs[i].key@, ':') is None,
        lines.len() == attrs.len(),
        forall|i: int| 0 <= i < attrs.len() ==> #[trigger] lines[i]@ == attribute_line(attrs[i]),
    ensures
        forall|i: int|
            0 <= i < lines.len() ==> attribute_of_line(#[trigger] lines[i]@) == Some(
                attr_view(attrs[i]),
            ),
{
    assert forall|i: int| 0 <= i < lines.len() implies attribute_of_line(
        #[trigger] lines[i]@,
    ) == Some(attr_view(attrs[i])) by {
        attribute_line_round_trip(attrs[i]);
    }
}

/// The SSRC that the value of `a=ssrc:<ssrc> <attribute>` names: its first
/// word, a decimal `u32`.
pub open spec fn ssrc_value(v: Seq<char>) -> Option<u32> {
    let word = match find_char(v, ' ') {
        Some(k) => v.subrange(0, k),
        None => v,
    };
    match parse_decimal(word, u32::MAX as int) {
        Some(n) => Some(n as u32),
        None => None,
    }
}

/// The SSRC named by the first well-formed `ssrc` attribute of `attrs`.
pub open spec fn ssrc_of(attrs: Seq<Attribute>) -> Option<u32>
    decreases attrs.len(),
{
    if attrs.len() == 0 {
        None
    } else {
        let a = attrs[0];
        let here = match a.value {
            Some(v) => if a.key@ == "ssrc"@ {
                ssrc_value(v@)
            } else {
                None
            },
            None => None,
        };
        match here {
            Some(n) => Some(n),
            None => ssrc_of(attrs.drop_first()),
        }
    }
}

fn ssrc_value_exec(v: &str) -> (r: Option<u32>)
    ensures
        r == ssrc_value(v@),
{
    proof {
        lemma_find_char_found(v@, ' ');
    }
    let word = match find_char_exec(v, ' ') {
        Some(k) => v.substring_char(0, k),
        None => v,
    };
    match parse_decimal_exec(word, u32::MAX as u64) {
        Some(n) => Some(n as u32),
        None => None,
    }
}

/// The SSRC that the section signals, if any (see `ssrc_of`).
pub fn extract_ssrc(section: &MediaSection) -> (r: Option<u32>)
    ensures
        r == ssrc_of(section.attributes@),
{
    let n = section.attributes.len();
    assert(section.attributes@.subrange(0, n as int) =~= section.attributes@);
    let mut i: usize = 0;
    while i < n
        invariant
            n == section.attributes@.len(),
            i <= n,
            ssrc_of(section.attributes@) == ssrc_of(section.attributes@.subrange(i as int, n as int)),
        decreases n - i,
    {
        let ghost rest = section.attributes@.subrange(i as int, n as int);
        assert(rest.len() > 0 && rest[0] == section.attributes@[i as int]);
        let a = &section.attributes[i];
        match &a.value {
            Some(v) => {
                if key_is(a, "ssrc") {
                    match ssrc_value_exec(v.as_str()) {
                        Some(s) => {
                            assert(ssrc_of(rest) == Some(s));
                            return Some(s);
                        },
                        None => {},
                    }
                }
            },
            None => {},
        }
        assert(rest.drop_first() =~= section.attributes@.subrange(i + 1, n as int));
        i = i + 1;
    }
    None
}

} // verus!
