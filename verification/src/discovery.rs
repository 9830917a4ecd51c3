//! mDNS-SD discovery records: TXT properties, stream advertisements and picking a receiver.

use vstd::prelude::*;
use crate::protocol::{audio_port_from_video, ports, audio as audio_params};
use crate::text::{
    decimal_chars, decimal_string, parse_u32, parse_unsigned, push_char, push_decimal,
    str_chars, string_from_chars, chars_eq,
};

verus! {

/// Seconds `stream --discover` waits for receivers on the LAN.
pub const DEFAULT_BROWSE_TIMEOUT_SECS: u64 = 5;

/// Fallback when the session `fps` is unset (matches the transport default).
pub const DEFAULT_STREAM_FPS: u32 = 15;

/// Parsed mDNS TXT stream properties.
#[derive(Debug, Clone, Copy, PartialEq, Eq, Structural)]
pub struct TxtStreamProps {
    pub width: u32,
    pub height: u32,
    pub fps: u32,
    pub max_width: u32,
    pub max_height: u32,
    pub max_fps: u32,
}

/// All properties zero.
pub open spec fn empty_txt_props() -> TxtStreamProps {
    TxtStreamProps { width: 0, height: 0, fps: 0, max_width: 0, max_height: 0, max_fps: 0 }
}

impl Default for TxtStreamProps {
    fn default() -> (res: Self)
        ensures
            res == empty_txt_props(),
    {
        TxtStreamProps { width: 0, height: 0, fps: 0, max_width: 0, max_height: 0, max_fps: 0 }
    }
}

/// Advertised stream metadata (from TXT + SRV).
#[derive(Debug, Clone, PartialEq, Eq)]
pub struct StreamAdvertisement {
    pub instance_name: String,
    pub host: String,
    pub port: u16,
    /// Preferred session width (receiver window / decode size).
    pub width: u32,
    pub height: u32,
    pub fps: u32,
    /// Decode ceiling; `0` means the same as `width` / `height` / `fps`.
    pub max_width: u32,
    pub max_height: u32,
    pub max_fps: u32,
}

/// Errors of discovery records.
#[derive(Debug, Clone, PartialEq, Eq)]
pub enum DiscoveryError {
    /// A receiver advertised a zero width or height.
    MissingDimensions { instance_name: String, width: u32, height: u32 },
    /// No receiver was found.
    NoReceivers,
    /// Several receivers were found and no pick was given.
    Ambiguous { count: usize },
    /// The pick is not a number.
    InvalidPick { pick: String },
    /// The pick is past the end of the list.
    PickOutOfRange { index: usize, count: usize },
}

impl StreamAdvertisement {
    /// `host:port` for the RTP target.
    pub fn target_addr(&self) -> (res: String)
        ensures
            res@ == self.host@ + seq![':'] + decimal_chars(self.port as nat),
    {
        let mut s = self.host.clone();
        push_char(&mut s, ':');
        push_decimal(&mut s, self.port as u64);
        s
    }

    /// Receiver advertisements must include non-zero dimensions in TXT.
    pub fn validate_dimensions(&self) -> (res: Result<(), DiscoveryError>)
        ensures
            res is Ok <==> (self.width != 0 && self.height != 0),
            res matches Err(e) ==> e == (DiscoveryError::MissingDimensions {
                instance_name: self.instance_name,
                width: self.width,
                height: self.height,
            }),
    {
        if self.width == 0 || self.height == 0 {
            return Err(DiscoveryError::MissingDimensions {
                instance_name: self.instance_name.clone(),
                width: self.width,
                height: self.height,
            });
        }
        Ok(())
    }

    /// Session fps, or `default_fps` when unset.
    pub fn effective_fps(&self, default_fps: u32) -> (res: u32)
        ensures
            res == (if self.fps == 0 { default_fps } else { self.fps }),
    {
        if self.fps == 0 { default_fps } else { self.fps }
    }

    /// Decode width ceiling, falling back to the session width.
    pub fn effective_max_width(&self) -> (res: u32)
        ensures
            res == (if self.max_width > 0 { self.max_width } else { self.width }),
    {
        if self.max_width > 0 { self.max_width } else { self.width }
    }

    /// Decode height ceiling, falling back to the session height.
    pub fn effective_max_height(&self) -> (res: u32)
        ensures
            res == (if self.max_height > 0 { self.max_height } else { self.height }),
    {
        if self.max_height > 0 { self.max_height } else { self.height }
    }

    /// Decode fps ceiling, falling back to `session_fps`.
    pub fn effective_max_fps(&self, session_fps: u32) -> (res: u32)
        ensures
            res == (if self.max_fps > 0 { self.max_fps } else { session_fps }),
    {
        if self.max_fps > 0 { self.max_fps } else { session_fps }
    }

    /// Session fps used for cap fallback (`fps` when advertised, else `fallback_fps`).
    pub fn session_fps_or(&self, fallback_fps: u32) -> (res: u32)
        ensures
            res == (if self.fps == 0 { fallback_fps } else { self.fps }),
    {
        self.effective_fps(fallback_fps)
    }

    /// True when explicit TXT `max_*` values differ from the session `w`/`h`/`fps`.
    pub fn explicit_caps_differ_from_session(&self) -> (res: bool)
        ensures
            res == ((self.max_width > 0 && self.max_width != self.width) || (self.max_height > 0
                && self.max_height != self.height) || (self.max_fps > 0 && self.max_fps != self.fps)),
    {
        (self.max_width > 0 && self.max_width != self.width) || (self.max_height > 0
            && self.max_height != self.height) || (self.max_fps > 0 && self.max_fps != self.fps)
    }
}

/// The value of a TXT number: the parsed `u32`, or 0 when it does not parse.
pub open spec fn txt_number(v: Seq<char>) -> u32 {
    match parse_unsigned(v, u32::MAX as nat) {
        Some(n) => n as u32,
        None => 0,
    }
}

/// Applies one TXT `key=value` pair; keys other than the six dimension keys are ignored.
pub open spec fn apply_txt(p: TxtStreamProps, k: Seq<char>, v: Seq<char>) -> TxtStreamProps {
    if k == seq!['w'] {
        TxtStreamProps { width: txt_number(v), ..p }
    } else if k == seq!['h'] {
        TxtStreamProps { height: txt_number(v), ..p }
    } else if k == seq!['f', 'p', 's'] {
        TxtStreamProps { fps: txt_number(v), ..p }
    } else if k == seq!['m', 'a', 'x', '_', 'w'] {
        TxtStreamProps { max_width: txt_number(v), ..p }
    } else if k == seq!['m', 'a', 'x', '_', 'h'] {
        TxtStreamProps { max_height: txt_number(v), ..p }
    } else if k == seq!['m', 'a', 'x', '_', 'f', 'p', 's'] {
        TxtStreamProps { max_fps: txt_number(v), ..p }
    } else {
        p
    }
}

/// Stream properties of a TXT record: the pairs applied in order, later keys winning.
pub open spec fn txt_props_of(kvs: Seq<(Seq<char>, Seq<char>)>) -> TxtStreamProps
    decreases kvs.len(),
{
    if kvs.len() == 0 {
        empty_txt_props()
    } else {
        apply_txt(txt_props_of(kvs.drop_last()), kvs.last().0, kvs.last().1)
    }
}

/// Views of string pairs.
pub open spec fn pair_views(ps: Seq<(String, String)>) -> Seq<(Seq<char>, Seq<char>)> {
    ps.map_values(|p: (String, String)| (p.0@, p.1@))
}

/// Parses TXT properties into stream dimensions and receiver caps.
pub fn parse_txt_properties(properties: &[(String, String)]) -> (res: TxtStreamProps)
    ensures
        res == txt_props_of(pair_views(properties@)),
{
    let mut props = TxtStreamProps::default();
    let w = ['w'];
    let h = ['h'];
    let fps = ['f', 'p', 's'];
    let max_w = ['m', 'a', 'x', '_', 'w'];
    let max_h = ['m', 'a', 'x', '_', 'h'];
    let max_fps = ['m', 'a', 'x', '_', 'f', 'p', 's'];
    assert(w@ =~= seq!['w']);
    assert(h@ =~= seq!['h']);
    assert(fps@ =~= seq!['f', 'p', 's']);
    assert(max_w@ =~= seq!['m', 'a', 'x', '_', 'w']);
    assert(max_h@ =~= seq!['m', 'a', 'x', '_', 'h']);
    assert(max_fps@ =~= seq!['m', 'a', 'x', '_', 'f', 'p', 's']);
    let mut i: usize = 0;
    while i < properties.len()
        invariant
            i <= properties@.len(),
            w@ == seq!['w'],
            h@ == seq!['h'],
            fps@ == seq!['f', 'p', 's'],
            max_w@ == seq!['m', 'a', 'x', '_', 'w'],
            max_h@ == seq!['m', 'a', 'x', '_', 'h'],
            max_fps@ == seq!['m', 'a', 'x', '_', 'f', 'p', 's'],
            props == txt_props_of(pair_views(properties@.take(i as int))),
        decreases properties@.len() - i,
    {
        let (k, v) = &properties[i];
        let kc = str_chars(k.as_str());
        let n = match parse_u32(v.as_str()) {
            Some(n) => n,
            None => 0,
        };
        assert(n == txt_number(v@));
        if chars_eq(kc.as_slice(), &w) {
            props.width = n;
        } else if chars_eq(kc.as_slice(), &h) {
            props.height = n;
        } else if chars_eq(kc.as_slice(), &fps) {
            props.fps = n;
        } else if chars_eq(kc.as_slice(), &max_w) {
            props.max_width = n;
        } else if chars_eq(kc.as_slice(), &max_h) {
            props.max_height = n;
        } else if chars_eq(kc.as_slice(), &max_fps) {
            props.max_fps = n;
        }
        assert(pair_views(properties@.take(i + 1)).drop_last() =~= pair_views(properties@.take(i as int)));
        assert(pair_views(properties@.take(i + 1)).last() == (k@, v@));
        i += 1;
    }
    assert(properties@.take(properties@.len() as int) =~= properties@);
    props
}

/// An advertisement from its SRV target and parsed TXT properties.
pub fn advertisement_from_txt(
    instance_name: String,
    host: String,
    port: u16,
    txt: TxtStreamProps,
) -> (res: StreamAdvertisement)
    ensures
        res == (StreamAdvertisement {
            instance_name,
            host,
            port,
            width: txt.width,
            height: txt.height,
            fps: txt.fps,
            max_width: txt.max_width,
            max_height: txt.max_height,
            max_fps: txt.max_fps,
        }),
{
    StreamAdvertisement {
        instance_name,
        host,
        port,
        width: txt.width,
        height: txt.height,
        fps: txt.fps,
        max_width: txt.max_width,
        max_height: txt.max_height,
        max_fps: txt.max_fps,
    }
}

/// An advertisement for a receiver registered with the given parameters
/// (caps equal to the session).
pub fn advertisement_from_register(
    instance_name: &str,
    host: &str,
    port: u16,
    width: u32,
    height: u32,
    fps: u32,
) -> (res: StreamAdvertisement)
    ensures
        res.instance_name@ == instance_name@,
        res.host@ == host@,
        res.port == port,
        res.width == width,
        res.height == height,
        res.fps == fps,
        res.max_width == width,
        res.max_height == height,
        res.max_fps == fps,
{
    StreamAdvertisement {
        instance_name: String::from_str(instance_name),
        host: String::from_str(host),
        port,
        width,
        height,
        fps,
        max_width: width,
        max_height: height,
        max_fps: fps,
    }
}

/// Audio RTP port advertised for a video port: video port + 2, or the
/// default audio port when that overflows.
pub open spec fn advertised_audio_port(port: u16) -> u16 {
    if port + ports::AUDIO_OFFSET_FROM_VIDEO <= u16::MAX {
        (port + ports::AUDIO_OFFSET_FROM_VIDEO) as u16
    } else {
        ports::AUDIO_RTP_DEFAULT
    }
}

/// The TXT record a receiver publishes (protocol v1, section 3.3): version,
/// session size, caps equal to the session, the optional class, and with
/// audio the `audio`, `a_port`, `a_sr` and `a_ch` keys.
pub open spec fn advertised_txt(
    port: u16,
    width: u32,
    height: u32,
    fps: u32,
    device_class: Option<Seq<char>>,
    with_audio: bool,
) -> Seq<(Seq<char>, Seq<char>)> {
    let base = seq![
        (seq!['v'], decimal_chars(1)),
        (seq!['w'], decimal_chars(width as nat)),
        (seq!['h'], decimal_chars(height as nat)),
        (seq!['f', 'p', 's'], decimal_chars(fps as nat)),
        (seq!['m', 'a', 'x', '_', 'w'], decimal_chars(width as nat)),
        (seq!['m', 'a', 'x', '_', 'h'], decimal_chars(height as nat)),
        (seq!['m', 'a', 'x', '_', 'f', 'p', 's'], decimal_chars(fps as nat)),
    ];
    let with_class = match device_class {
        Some(c) => base.push((seq!['c', 'l', 'a', 's', 's'], c)),
        None => base,
    };
    if with_audio {
        with_class + seq![
            (seq!['a', 'u', 'd', 'i', 'o'], seq!['1']),
            (seq!['a', '_', 'p', 'o', 'r', 't'], decimal_chars(advertised_audio_port(port) as nat)),
            (seq!['a', '_', 's', 'r'], decimal_chars(audio_params::SAMPLE_RATE as nat)),
            (seq!['a', '_', 'c', 'h'], decimal_chars(audio_params::CHANNELS as nat)),
        ]
    } else {
        with_class
    }
}

fn txt_pair(key: &[char], value: String) -> (res: (String, String))
    ensures
        res.0@ == key@,
        res.1@ == value@,
{
    (string_from_chars(key), value)
}

/// The TXT properties a receiver publishes for its session (see [`advertised_txt`]).
pub fn txt_properties_for(
    port: u16,
    width: u32,
    height: u32,
    fps: u32,
    device_class: Option<&str>,
    with_audio: bool,
) -> (res: Vec<(String, String)>)
    ensures
        pair_views(res@) == advertised_txt(
            port,
            width,
            height,
            fps,
            match device_class {
                Some(c) => Some(c@),
                None => None,
            },
            with_audio,
        ),
{
    let k_v = ['v'];
    assert(k_v@ =~= seq!['v']);
    let k_w = ['w'];
    assert(k_w@ =~= seq!['w']);
    let k_h = ['h'];
    assert(k_h@ =~= seq!['h']);
    let k_fps = ['f', 'p', 's'];
    assert(k_fps@ =~= seq!['f', 'p', 's']);
    let k_max_w = ['m', 'a', 'x', '_', 'w'];
    assert(k_max_w@ =~= seq!['m', 'a', 'x', '_', 'w']);
    let k_max_h = ['m', 'a', 'x', '_', 'h'];
    assert(k_max_h@ =~= seq!['m', 'a', 'x', '_', 'h']);
    let k_max_fps = ['m', 'a', 'x', '_', 'f', 'p', 's'];
    assert(k_max_fps@ =~= seq!['m', 'a', 'x', '_', 'f', 'p', 's']);
    let k_class = ['c', 'l', 'a', 's', 's'];
    assert(k_class@ =~= seq!['c', 'l', 'a', 's', 's']);
    let k_audio = ['a', 'u', 'd', 'i', 'o'];
    assert(k_audio@ =~= seq!['a', 'u', 'd', 'i', 'o']);
    let k_a_port = ['a', '_', 'p', 'o', 'r', 't'];
    assert(k_a_port@ =~= seq!['a', '_', 'p', 'o', 'r', 't']);
    let k_a_sr = ['a', '_', 's', 'r'];
    assert(k_a_sr@ =~= seq!['a', '_', 's', 'r']);
    let k_a_ch = ['a', '_', 'c', 'h'];
    assert(k_a_ch@ =~= seq!['a', '_', 'c', 'h']);
    let one = ['1'];
    assert(one@ =~= seq!['1']);
    let mut props: Vec<(String, String)> = Vec::new();
    props.push(txt_pair(&k_v, decimal_string(1)));
    props.push(txt_pair(&k_w, decimal_string(width as u64)));
    props.push(txt_pair(&k_h, decimal_string(height as u64)));
    props.push(txt_pair(&k_fps, decimal_string(fps as u64)));
    props.push(txt_pair(&k_max_w, decimal_string(width as u64)));
    props.push(txt_pair(&k_max_h, decimal_string(height as u64)));
    props.push(txt_pair(&k_max_fps, decimal_string(fps as u64)));
    let ghost base = seq![
        (seq!['v'], decimal_chars(1)),
        (seq!['w'], decimal_chars(width as nat)),
        (seq!['h'], decimal_chars(height as nat)),
        (seq!['f', 'p', 's'], decimal_chars(fps as nat)),
        (seq!['m', 'a', 'x', '_', 'w'], decimal_chars(width as nat)),
        (seq!['m', 'a', 'x', '_', 'h'], decimal_chars(height as nat)),
        (seq!['m', 'a', 'x', '_', 'f', 'p', 's'], decimal_chars(fps as nat)),
    ];
    assert(pair_views(props@) =~= base);
    let ghost class_view = match device_class {
        Some(c) => Some(c@),
        None => None,
    };
    if let Some(class) = device_class {
        let ghost before = props@;
        props.push(txt_pair(&k_class, String::from_str(class)));
        assert(pair_views(props@) =~= pair_views(before).push((seq!['c', 'l', 'a', 's', 's'], class@)));
    }
    let ghost with_class = match class_view {
        Some(c) => base.push((seq!['c', 'l', 'a', 's', 's'], c)),
        None => base,
    };
    assert(pair_views(props@) =~= with_class);
    if with_audio {
        let audio_port = match audio_port_from_video(port) {
            Some(p) => p,
            None => ports::AUDIO_RTP_DEFAULT,
        };
        assert(audio_port == advertised_audio_port(port));
        let ghost before = props@;
        props.push(txt_pair(&k_audio, string_from_chars(&one)));
        props.push(txt_pair(&k_a_port, decimal_string(audio_port as u64)));
        props.push(txt_pair(&k_a_sr, decimal_string(audio_params::SAMPLE_RATE as u64)));
        props.push(txt_pair(&k_a_ch, decimal_string(audio_params::CHANNELS as u64)));
        assert(pair_views(props@) =~= pair_views(before) + seq![
            (seq!['a', 'u', 'd', 'i', 'o'], seq!['1']),
            (seq!['a', '_', 'p', 'o', 'r', 't'], decimal_chars(advertised_audio_port(port) as nat)),
            (seq!['a', '_', 's', 'r'], decimal_chars(audio_params::SAMPLE_RATE as nat)),
            (seq!['a', '_', 'c', 'h'], decimal_chars(audio_params::CHANNELS as nat)),
        ]);
    }
    props
}

/// A stream discovered on the LAN.
#[derive(Debug, Clone)]
pub struct DiscoveredStream {
    pub advertisement: StreamAdvertisement,
}

/// Instance label from an mDNS full name: the text before the first `.`.
pub open spec fn instance_label(fullname: Seq<char>) -> Seq<char>
    decreases fullname.len(),
{
    if fullname.len() == 0 || fullname[0] == '.' {
        Seq::empty()
    } else {
        seq![fullname[0]] + instance_label(fullname.drop_first())
    }
}

} // verus!

verus! {

/// A TXT key that none of the six dimension keys matches.
pub open spec fn is_other_txt_key(k: Seq<char>) -> bool {
    k != seq!['w'] && k != seq!['h'] && k != seq!['f', 'p', 's'] && k != seq!['m', 'a', 'x', '_', 'w']
        && k != seq!['m', 'a', 'x', '_', 'h'] && k != seq!['m', 'a', 'x', '_', 'f', 'p', 's']
}

proof fn lemma_txt_props_ignore_suffix(kvs: Seq<(Seq<char>, Seq<char>)>, extra: Seq<(Seq<char>, Seq<char>)>)
    requires
        forall|i: int| 0 <= i < extra.len() ==> is_other_txt_key(#[trigger] extra[i].0),
    ensures
        txt_props_of(kvs + extra) == txt_props_of(kvs),
    decreases extra.len(),
{
    if extra.len() > 0 {
        let e = extra.drop_last();
        assert((kvs + extra).drop_last() =~= kvs + e);
        assert((kvs + extra).last() == extra.last());
        assert(is_other_txt_key(extra[extra.len() - 1].0));
        lemma_txt_props_ignore_suffix(kvs, e);
    } else {
        assert(kvs + extra =~= kvs);
    }
}

/// What a receiver publishes is what a sender reads back: parsing the
/// published TXT record gives the session size, with caps equal to it.
pub proof fn lemma_published_txt_roundtrip(
    port: u16,
    width: u32,
    height: u32,
    fps: u32,
    device_class: Option<Seq<char>>,
    with_audio: bool,
)
    ensures
        txt_props_of(advertised_txt(port, width, height, fps, device_class, with_audio)) == (TxtStreamProps {
            width,
            height,
            fps,
            max_width: width,
            max_height: height,
            max_fps: fps,
        }),
{
    crate::text::lemma_parse_decimal_roundtrip(width as nat, u32::MAX as nat);
    crate::text::lemma_parse_decimal_roundtrip(height as nat, u32::MAX as nat);
    crate::text::lemma_parse_decimal_roundtrip(fps as nat, u32::MAX as nat);
    let base = seq![
        (seq!['v'], decimal_chars(1)),
        (seq!['w'], decimal_chars(width as nat)),
        (seq!['h'], decimal_chars(height as nat)),
        (seq!['f', 'p', 's'], decimal_chars(fps as nat)),
        (seq!['m', 'a', 'x', '_', 'w'], decimal_chars(width as nat)),
        (seq!['m', 'a', 'x', '_', 'h'], decimal_chars(height as nat)),
        (seq!['m', 'a', 'x', '_', 'f', 'p', 's'], decimal_chars(fps as nat)),
    ];
    let e: Seq<(Seq<char>, Seq<char>)> = Seq::empty();
    assert(txt_props_of(e) == empty_txt_props());
    assert(base.take(1).drop_last() =~= e);
    assert(is_other_txt_key(seq!['v'])) by {
        assert(seq!['v'][0] != seq!['w'][0]);
        assert(seq!['v'][0] != seq!['h'][0]);
        assert(seq!['v'].len() != seq!['f', 'p', 's'].len());
        assert(seq!['v'].len() != seq!['m', 'a', 'x', '_', 'w'].len());
        assert(seq!['v'].len() != seq!['m', 'a', 'x', '_', 'h'].len());
        assert(seq!['v'].len() != seq!['m', 'a', 'x', '_', 'f', 'p', 's'].len());
    }
    assert(txt_props_of(base.take(1)) == empty_txt_props());
    assert(base.take(2).drop_last() =~= base.take(1));
    assert(txt_props_of(base.take(2)) == TxtStreamProps { width, ..empty_txt_props() });
    assert(base.take(3).drop_last() =~= base.take(2));
    assert(seq!['h'][0] != seq!['w'][0]);
    assert(txt_props_of(base.take(3)) == TxtStreamProps { width, height, ..empty_txt_props() });
    assert(base.take(4).drop_last() =~= base.take(3));
    assert(seq!['f', 'p', 's'].len() != seq!['w'].len());
    assert(seq!['f', 'p', 's'].len() != seq!['h'].len());
    assert(txt_props_of(base.take(4)) == TxtStreamProps { width, height, fps, ..empty_txt_props() });
    assert(base.take(5).drop_last() =~= base.take(4));
    assert(seq!['m', 'a', 'x', '_', 'w'].len() != seq!['w'].len());
    assert(seq!['m', 'a', 'x', '_', 'w'].len() != seq!['h'].len());
    assert(seq!['m', 'a', 'x', '_', 'w'].len() != seq!['f', 'p', 's'].len());
    assert(txt_props_of(base.take(5)) == TxtStreamProps { width, height, fps, max_width: width, ..empty_txt_props() });
    assert(base.take(6).drop_last() =~= base.take(5));
    assert(seq!['m', 'a', 'x', '_', 'h'][4] != seq!['m', 'a', 'x', '_', 'w'][4]);
    assert(txt_props_of(base.take(6)) == TxtStreamProps {
        width,
        height,
        fps,
        max_width: width,
        max_height: height,
        max_fps: 0,
    });
    assert(base.take(7).drop_last() =~= base.take(6));
    assert(seq!['m', 'a', 'x', '_', 'f', 'p', 's'].len() != seq!['m', 'a', 'x', '_', 'w'].len());
    assert(seq!['m', 'a', 'x', '_', 'f', 'p', 's'].len() != seq!['m', 'a', 'x', '_', 'h'].len());
    assert(base.take(7) =~= base);
    let expected = TxtStreamProps {
        width,
        height,
        fps,
        max_width: width,
        max_height: height,
        max_fps: fps,
    };
    assert(txt_props_of(base) == expected);
    let with_class = match device_class {
        Some(c) => base.push((seq!['c', 'l', 'a', 's', 's'], c)),
        None => base,
    };
    if let Some(c) = device_class {
        let extra = seq![(seq!['c', 'l', 'a', 's', 's'], c)];
        assert(base.push((seq!['c', 'l', 'a', 's', 's'], c)) =~= base + extra);
        assert(is_other_txt_key(extra[0].0));
        lemma_txt_props_ignore_suffix(base, extra);
    }
    assert(txt_props_of(with_class) == expected);
    if with_audio {
        let extra = seq![
            (seq!['a', 'u', 'd', 'i', 'o'], seq!['1']),
            (seq!['a', '_', 'p', 'o', 'r', 't'], decimal_chars(advertised_audio_port(port) as nat)),
            (seq!['a', '_', 's', 'r'], decimal_chars(audio_params::SAMPLE_RATE as nat)),
            (seq!['a', '_', 'c', 'h'], decimal_chars(audio_params::CHANNELS as nat)),
        ];
        assert forall|i: int| 0 <= i < extra.len() implies is_other_txt_key(#[trigger] extra[i].0) by {
            if i == 0 {} else if i == 1 {} else if i == 2 {} else {}
        }
        lemma_txt_props_ignore_suffix(with_class, extra);
    }
}

} // verus!
