//! Command-line decisions of the desktop tool: flags and options, stream and
//! receive dimensions from the arguments, the receiver, or a profile, audio
//! port pairing, and the version string.

use vstd::prelude::*;
use crate::capture::PrimaryDisplay;
use crate::discovery::StreamAdvertisement;
use crate::encoder::{DEFAULT_FPS, DEFAULT_HEIGHT, DEFAULT_WIDTH};
use crate::profile::{
    capped_dims, kind_dims, negotiate_for_receiver, profile_kind_named, ProfileKind, ReceiverCapability,
    StreamProfile,
};
use crate::protocol::{audio_port_from_video, ports};
use crate::text::{decimal_chars, parse_u32, parse_unsigned, push_char, push_decimal, str_chars, str_is};

verus! {

/// Version of this library.
pub fn version() -> (r: &'static str)
    ensures
        r@ == "0.2.0"@,
{
    "0.2.0"
}

/// Name and version of this library.
pub fn name_and_version() -> (r: String)
    ensures
        r@ == "zerocast 0.2.0"@,
{
    "zerocast 0.2.0".to_owned()
}

/// Characters of each argument.
pub open spec fn arg_views(args: Seq<String>) -> Seq<Seq<char>> {
    args.map_values(|a: String| a@)
}

/// `i` is the first position of `flag` among the arguments.
pub open spec fn is_first_arg(args: Seq<Seq<char>>, flag: Seq<char>, i: int) -> bool {
    &&& 0 <= i < args.len()
    &&& args[i] == flag
    &&& forall|k: int| 0 <= k < i ==> #[trigger] args[k] != flag
}

fn find_arg(args: &Vec<String>, flag: &str) -> (r: Option<usize>)
    ensures
        match r {
            Some(i) => is_first_arg(arg_views(args@), flag@, i as int),
            None => forall|k: int| 0 <= k < args@.len() ==> #[trigger] arg_views(args@)[k] != flag@,
        },
{
    let mut i: usize = 0;
    while i < args.len()
        invariant
            i <= args@.len(),
            forall|k: int| 0 <= k < i ==> #[trigger] arg_views(args@)[k] != flag@,
        decreases args@.len() - i,
    {
        if str_is(args[i].as_str(), flag) {
            return Some(i);
        }
        i += 1;
    }
    None
}

/// Removes the first `flag` from the arguments; true when there was one.
pub fn take_flag(args: &mut Vec<String>, flag: &str) -> (r: bool)
    ensures
        r == (exists|i: int| is_first_arg(arg_views(old(args)@), flag@, i)),
        r ==> (exists|i: int| is_first_arg(arg_views(old(args)@), flag@, i) && final(args)@ == old(args)@.remove(i)),
        !r ==> final(args)@ == old(args)@,
{
    match find_arg(args, flag) {
        Some(i) => {
            args.remove(i);
            true
        },
        None => {
            proof {
                if exists|i: int| is_first_arg(arg_views(old(args)@), flag@, i) {
                    let i = choose|i: int| is_first_arg(arg_views(old(args)@), flag@, i);
                }
            }
            false
        },
    }
}

/// Why the command line was refused.
#[derive(Debug, Clone, PartialEq, Eq)]
pub enum CliError {
    /// An option was given without its value.
    MissingValue { flag: String, hint: String },
    /// `--profile` named no known profile.
    BadProfile { name: String },
    /// A number argument did not parse.
    NotANumber { what: String },
}

/// Removes `flag` and the value after it: none when the flag is absent; an
/// error when no value follows it (the end, or another option starting with `-`).
pub fn require_option_arg(args: &mut Vec<String>, flag: &str, value_hint: &str) -> (r: Result<Option<String>, CliError>)
    ensures
        (forall|k: int| 0 <= k < old(args)@.len() ==> #[trigger] arg_views(old(args)@)[k] != flag@) ==> r == Ok::<Option<String>, CliError>(None) && final(args)@ == old(args)@,
        (exists|i: int| is_first_arg(arg_views(old(args)@), flag@, i)) ==> ({
            let i = choose|i: int| is_first_arg(arg_views(old(args)@), flag@, i);
            let rest = old(args)@.remove(i);
            if i < rest.len() && !(rest[i]@.len() > 0 && rest[i]@[0] == '-') {
                r matches Ok(Some(v)) && v@ == rest[i]@ && final(args)@ == rest.remove(i)
            } else {
                r matches Err(CliError::MissingValue { flag: f, hint: h }) && f@ == flag@ && h@ == value_hint@
            }
        }),
{
    let idx = match find_arg(args, flag) {
        Some(i) => i,
        None => return Ok(None),
    };
    proof {
        let j = choose|i: int| is_first_arg(arg_views(old(args)@), flag@, i);
        if j < idx {
            assert(arg_views(old(args)@)[j] != flag@);
        } else if j > idx {
            assert(arg_views(old(args)@)[idx as int] != flag@);
        }
    }
    args.remove(idx);
    if idx < args.len() {
        let cs = str_chars(args[idx].as_str());
        if !(cs.len() > 0 && cs[0] == '-') {
            let v = args.remove(idx);
            return Ok(Some(v));
        }
    }
    Err(CliError::MissingValue { flag: flag.to_owned(), hint: value_hint.to_owned() })
}

/// `--profile` value as a profile kind.
pub fn parse_profile_kind(name: &str) -> (r: Result<ProfileKind, CliError>)
    ensures
        match profile_kind_named(name@) {
            Some(k) => r == Ok::<ProfileKind, CliError>(k),
            None => r matches Err(CliError::BadProfile { name: n }) && n@ == name@,
        },
{
    match ProfileKind::parse(name) {
        Some(k) => Ok(k),
        None => Err(CliError::BadProfile { name: name.to_owned() }),
    }
}

/// The receiver's decode caps: its explicit caps, else its session (the
/// session rate, else `default_fps`).
pub fn receiver_capability_from_ad(ad: &StreamAdvertisement, default_fps: u32) -> (r: ReceiverCapability)
    ensures
        r.max_width == (if ad.max_width > 0 { ad.max_width } else { ad.width }),
        r.max_height == (if ad.max_height > 0 { ad.max_height } else { ad.height }),
        r.max_fps == (if ad.max_fps > 0 { ad.max_fps } else if ad.fps == 0 { default_fps } else { ad.fps }),
{
    ReceiverCapability {
        max_width: ad.effective_max_width(),
        max_height: ad.effective_max_height(),
        max_fps: ad.effective_max_fps(ad.session_fps_or(default_fps)),
    }
}

/// Stream size and rate for a discovered receiver: the requested profile
/// negotiated against its caps, or its own session capped to its caps.
/// The flag says whether the result is worth reporting (a profile was asked
/// for, or the session changed).
pub fn negotiate_stream_dims(
    ad: &StreamAdvertisement,
    profile_kind: Option<ProfileKind>,
    display: PrimaryDisplay,
    default_fps: u32,
) -> (r: ((u32, u32, u32), bool))
    ensures
        ({
            let recv = ReceiverCapability {
                max_width: if ad.max_width > 0 { ad.max_width } else { ad.width },
                max_height: if ad.max_height > 0 { ad.max_height } else { ad.height },
                max_fps: if ad.max_fps > 0 { ad.max_fps } else if ad.fps == 0 { default_fps } else { ad.fps },
            };
            let session_fps = if ad.fps == 0 { default_fps } else { ad.fps };
            let dims = match profile_kind {
                Some(kind) => capped_dims(kind_dims(kind, display.width, display.height, display.refresh_hz).0,
                    kind_dims(kind, display.width, display.height, display.refresh_hz).1,
                    kind_dims(kind, display.width, display.height, display.refresh_hz).2, recv),
                None => capped_dims(ad.width, ad.height, session_fps, recv),
            };
            &&& r.0 == dims
            &&& r.1 == (profile_kind is Some || dims.0 != ad.width || dims.1 != ad.height || dims.2 != session_fps)
        }),
{
    let recv = receiver_capability_from_ad(ad, default_fps);
    let negotiated = match profile_kind {
        Some(kind) => negotiate_for_receiver(kind, recv, display.width, display.height, display.refresh_hz),
        None => StreamProfile { name: "recv-session", width: ad.width, height: ad.height, fps: ad.effective_fps(default_fps) }.capped_for_receiver(recv),
    };
    let session_fps = ad.effective_fps(default_fps);
    let report = profile_kind.is_some() || negotiated.width != ad.width || negotiated.height != ad.height
        || negotiated.fps != session_fps;
    ((negotiated.width, negotiated.height, negotiated.fps), report)
}

/// Size and rate of a profile for a display.
pub fn profile_dims(kind: ProfileKind, display: PrimaryDisplay) -> (r: (u32, u32, u32))
    ensures
        r == kind_dims(kind, display.width, display.height, display.refresh_hz),
{
    let p = StreamProfile::from_kind(kind, display.width, display.height, display.refresh_hz);
    (p.width, p.height, p.fps)
}

/// A number argument, or `default` when it is absent.
fn optional_number(arg: Option<&String>, default: u32, what: &str) -> (r: Result<u32, CliError>)
    ensures
        match arg {
            None => r == Ok::<u32, CliError>(default),
            Some(a) => match parse_unsigned(a@, u32::MAX as nat) {
                Some(n) => r == Ok::<u32, CliError>(n as u32),
                None => r matches Err(CliError::NotANumber { what: w }) && w@ == what@,
            },
        },
{
    match arg {
        None => Ok(default),
        Some(a) => match parse_u32(a.as_str()) {
            Some(n) => Ok(n),
            None => Err(CliError::NotANumber { what: what.to_owned() }),
        },
    }
}

/// Number of an optional positional argument: `default` when absent, its
/// value when it parses as a `u32`.
pub open spec fn positional_number(args: Seq<String>, i: int, default: u32) -> Option<u32> {
    if i < args.len() {
        match parse_unsigned(args[i]@, u32::MAX as nat) {
            Some(n) => Some(n as u32),
            None => None,
        }
    } else {
        Some(default)
    }
}

/// Width, height and rate from the positional arguments after the target,
/// each defaulting (640, 360, 30) when absent; one that does not parse is an error.
pub fn stream_dims_from_args(args: &Vec<String>) -> (r: Result<(u32, u32, u32), CliError>)
    ensures
        ({
            let w = positional_number(args@, 0, 640);
            let h = positional_number(args@, 1, 360);
            let f = positional_number(args@, 2, 30);
            match (w, h, f) {
                (Some(a), Some(b), Some(c)) => r == Ok::<(u32, u32, u32), CliError>((a, b, c)),
                _ => r is Err,
            }
        }),
{
    let width = optional_number(if args.len() > 0 { Some(&args[0]) } else { None }, DEFAULT_WIDTH, "width")?;
    let height = optional_number(if args.len() > 1 { Some(&args[1]) } else { None }, DEFAULT_HEIGHT, "height")?;
    let fps = optional_number(if args.len() > 2 { Some(&args[2]) } else { None }, DEFAULT_FPS, "fps")?;
    Ok((width, height, fps))
}

/// Device class a receiver publishes for a profile: `embedded` for the low profile.
pub fn published_device_class(profile_kind: Option<ProfileKind>) -> (r: Option<&'static str>)
    ensures
        profile_kind == Some(ProfileKind::Low) ==> (r matches Some(s) && s@ == "embedded"@),
        profile_kind != Some(ProfileKind::Low) ==> r is None,
{
    match profile_kind {
        Some(ProfileKind::Low) => Some("embedded"),
        _ => None,
    }
}

/// Audio port for a video target: the override, else the video port + 2,
/// else the default audio port when that overflows.
pub fn audio_target_port(video_port: u16, audio_port_override: Option<u16>) -> (r: u16)
    ensures
        r == (match audio_port_override {
            Some(p) => p,
            None => if video_port + 2 <= u16::MAX { (video_port + 2) as u16 } else { 5002u16 },
        }),
{
    match audio_port_override {
        Some(p) => p,
        None => match audio_port_from_video(video_port) {
            Some(p) => p,
            None => ports::AUDIO_RTP_DEFAULT,
        },
    }
}

/// Audio bind port for a video bind: the override, else 0 for an ephemeral
/// video bind, else as for a target.
pub fn audio_bind_port(video_port: u16, audio_port_override: Option<u16>) -> (r: u16)
    ensures
        r == (match audio_port_override {
            Some(p) => p,
            None => if video_port == 0 { 0u16 } else if video_port + 2 <= u16::MAX { (video_port + 2) as u16 } else { 5002u16 },
        }),
{
    match audio_port_override {
        Some(p) => p,
        None => if video_port == 0 {
            0
        } else {
            match audio_port_from_video(video_port) {
                Some(p) => p,
                None => ports::AUDIO_RTP_DEFAULT,
            }
        },
    }
}

/// `ip:port`.
pub fn join_host_port(ip: &str, port: u16) -> (r: String)
    ensures
        r@ == ip@ + seq![':'] + decimal_chars(port as nat),
{
    let mut s = ip.to_owned();
    push_char(&mut s, ':');
    push_decimal(&mut s, port as u64);
    s
}

} // verus!
