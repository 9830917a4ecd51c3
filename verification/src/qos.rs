//! QoS v1: observe sender stats windows and recommend ladder changes.

use vstd::prelude::*;
use crate::profile::{capped_dims, ReceiverCapability, StreamProfile};
use crate::text::{ascii_lower_seq, ascii_lowercase_chars, chars_eq};

verus! {

/// Receiver device hint from mDNS TXT `class=`.
#[derive(Debug, Clone, Copy, PartialEq, Eq, Structural)]
pub enum DeviceClass {
    Desktop,
    Embedded,
}

impl Default for DeviceClass {
    fn default() -> (res: Self)
        ensures
            res == DeviceClass::Desktop,
    {
        DeviceClass::Desktop
    }
}

/// The device class named by a TXT `class` value, compared without regard to ASCII case.
pub open spec fn device_class_named(s: Seq<char>) -> Option<DeviceClass> {
    let l = ascii_lower_seq(s);
    if l == seq!['e', 'm', 'b', 'e', 'd', 'd', 'e', 'd'] || l == seq!['p', 'i', '0', 'w'] || l
        == seq!['p', 'i'] || l == seq!['a', 'r', 'm'] {
        Some(DeviceClass::Embedded)
    } else if l == seq!['d', 'e', 's', 'k', 't', 'o', 'p'] || l == seq!['p', 'c'] {
        Some(DeviceClass::Desktop)
    } else {
        None
    }
}

impl DeviceClass {
    /// Parses `embedded`/`pi0w`/`pi`/`arm` or `desktop`/`pc`, in any ASCII case.
    pub fn parse_txt(s: &str) -> (res: Option<Self>)
        ensures
            res == device_class_named(s@),
    {
        let l = ascii_lowercase_chars(s);
        let embedded = ['e', 'm', 'b', 'e', 'd', 'd', 'e', 'd'];
        let pi0w = ['p', 'i', '0', 'w'];
        let pi = ['p', 'i'];
        let arm = ['a', 'r', 'm'];
        let desktop = ['d', 'e', 's', 'k', 't', 'o', 'p'];
        let pc = ['p', 'c'];
        assert(embedded@ =~= seq!['e', 'm', 'b', 'e', 'd', 'd', 'e', 'd']);
        assert(pi0w@ =~= seq!['p', 'i', '0', 'w']);
        assert(pi@ =~= seq!['p', 'i']);
        assert(arm@ =~= seq!['a', 'r', 'm']);
        assert(desktop@ =~= seq!['d', 'e', 's', 'k', 't', 'o', 'p']);
        assert(pc@ =~= seq!['p', 'c']);
        if chars_eq(l.as_slice(), &embedded) || chars_eq(l.as_slice(), &pi0w) || chars_eq(
            l.as_slice(),
            &pi,
        ) || chars_eq(l.as_slice(), &arm) {
            Some(DeviceClass::Embedded)
        } else if chars_eq(l.as_slice(), &desktop) || chars_eq(l.as_slice(), &pc) {
            Some(DeviceClass::Desktop)
        } else {
            None
        }
    }
}

/// One sender stats window (typically 30 frames), in integer units.
#[derive(Debug, Clone, Copy, PartialEq, Eq, Structural)]
pub struct StreamMetricsSample {
    /// Measured frame rate, in thousandths of a frame per second.
    pub actual_mfps: u64,
    /// Target frame rate, in thousandths of a frame per second.
    pub target_mfps: u64,
    /// Average encode time per frame, in microseconds.
    pub avg_encode_us: u64,
    /// Estimated video bitrate, in kbit/s.
    pub kbps: u64,
}

/// What the controller suggests after `observe_window`.
#[derive(Debug, Clone, Copy, PartialEq, Eq)]
pub enum QosAction {
    Hold,
    RecommendDowngrade(StreamProfile),
    RecommendUpgrade(StreamProfile),
}

/// Thresholds of the QoS controller.
#[derive(Debug, Clone, Copy, PartialEq, Eq, Structural)]
pub struct QosConfig {
    /// Share of one frame period (percent) the average encode may take before
    /// the window counts as bad.
    pub encode_budget_pct: u32,
    /// Frame rate the frame period is computed from (at least 1).
    pub budget_fps: u32,
    /// `actual_fps / target_fps`, in percent, must stay at or above this.
    pub min_fps_ratio_pct: u32,
    pub bad_windows_for_downgrade: u32,
    pub good_windows_for_upgrade: u32,
    /// Ignore this many windows after the stream starts.
    pub warmup_windows: u32,
}

/// Thresholds for a target frame rate: encode budget of 75 % (65 % embedded)
/// of a frame period, minimum fps ratio of 70 % (88 % embedded), downgrade
/// after 2 (1 embedded) bad windows, upgrade after 5 (6 embedded) good ones,
/// three warm-up windows.
pub open spec fn config_for(target_fps: u32, embedded: bool) -> QosConfig {
    QosConfig {
        encode_budget_pct: if embedded { 65 } else { 75 },
        budget_fps: if target_fps < 1 { 1 } else { target_fps },
        min_fps_ratio_pct: if embedded { 88 } else { 70 },
        bad_windows_for_downgrade: if embedded { 1 } else { 2 },
        good_windows_for_upgrade: if embedded { 6 } else { 5 },
        warmup_windows: 3,
    }
}

impl QosConfig {
    /// Thresholds for `target_fps` (see [`config_for`]).
    pub fn for_target_fps(target_fps: u32, embedded: bool) -> (res: Self)
        ensures
            res == config_for(target_fps, embedded),
    {
        QosConfig {
            encode_budget_pct: if embedded { 65 } else { 75 },
            budget_fps: if target_fps < 1 { 1 } else { target_fps },
            min_fps_ratio_pct: if embedded { 88 } else { 70 },
            bad_windows_for_downgrade: if embedded { 1 } else { 2 },
            good_windows_for_upgrade: if embedded { 6 } else { 5 },
            warmup_windows: 3,
        }
    }
}

/// The average encode time fits the budget: `avg_us <= 10_000 * pct / fps`.
pub open spec fn encode_within_budget(cfg: QosConfig, s: StreamMetricsSample) -> bool {
    s.avg_encode_us * cfg.budget_fps <= 10_000 * cfg.encode_budget_pct
}

/// The measured frame rate is close enough to the target (or no target is set).
pub open spec fn fps_ratio_ok(cfg: QosConfig, s: StreamMetricsSample) -> bool {
    s.target_mfps == 0 || s.actual_mfps * 100 >= cfg.min_fps_ratio_pct * s.target_mfps
}

/// `s` fits within the dimensions `d` (width, height, fps).
pub open spec fn fits_dims(s: (u32, u32, u32), d: (u32, u32, u32)) -> bool {
    s.0 <= d.0 && s.1 <= d.1 && s.2 <= d.2
}

/// Ladder rung a session starts at: the rung equal to it, else the lowest rung
/// that still holds it, else the lowest rung.
pub open spec fn start_rung_for(l0: (u32, u32, u32), l1: (u32, u32, u32), l2: (u32, u32, u32), s: (u32, u32, u32)) -> nat {
    if l0 == s {
        0
    } else if l1 == s {
        1
    } else if l2 == s {
        2
    } else if fits_dims(s, l2) {
        2
    } else if fits_dims(s, l1) {
        1
    } else if fits_dims(s, l0) {
        0
    } else {
        2
    }
}

/// Steps high, med, low on the display-aware ladder with hysteresis.
#[derive(Debug, Clone)]
pub struct QosController {
    ladder: [StreamProfile; 3],
    rung_index: usize,
    max_rung_index: usize,
    session_start_rung: usize,
    config: QosConfig,
    consecutive_bad: u32,
    consecutive_good: u32,
    recv_cap: Option<ReceiverCapability>,
    device_class: DeviceClass,
    stats_windows_seen: u32,
}

impl QosController {
    /// Ladder rung `i` (0 = high, 2 = low).
    pub closed spec fn ladder_at(&self, i: int) -> StreamProfile {
        self.ladder@[i]
    }

    /// Current rung index.
    pub closed spec fn rung(&self) -> nat {
        self.rung_index as nat
    }

    /// Lowest-quality rung the controller may recommend.
    pub closed spec fn max_rung(&self) -> nat {
        self.max_rung_index as nat
    }

    /// Rung the session started at; upgrades never go above it.
    pub closed spec fn start_rung(&self) -> nat {
        self.session_start_rung as nat
    }

    /// Current thresholds.
    pub closed spec fn config(&self) -> QosConfig {
        self.config
    }

    /// Consecutive bad windows seen.
    pub closed spec fn bad_run(&self) -> nat {
        self.consecutive_bad as nat
    }

    /// Consecutive good windows seen.
    pub closed spec fn good_run(&self) -> nat {
        self.consecutive_good as nat
    }

    /// Receiver caps applied to every recommended profile.
    pub closed spec fn receiver_cap(&self) -> Option<ReceiverCapability> {
        self.recv_cap
    }

    /// Device class of the receiver.
    pub closed spec fn class(&self) -> DeviceClass {
        self.device_class
    }

    /// Stats windows observed so far.
    pub closed spec fn seen(&self) -> nat {
        self.stats_windows_seen as nat
    }

    /// Internal consistency: the rung lies between the session start and the floor.
    pub closed spec fn wf(&self) -> bool {
        &&& self.session_start_rung <= self.rung_index <= self.max_rung_index <= 2
        &&& self.consecutive_bad <= self.stats_windows_seen
        &&& self.consecutive_good <= self.stats_windows_seen
        &&& self.config.budget_fps >= 1
    }

    /// Dimensions recommended for rung `i`: the rung, capped by the receiver when known.
    pub open spec fn rung_dims(&self, i: int) -> (u32, u32, u32) {
        let p = self.ladder_at(i);
        match self.receiver_cap() {
            Some(r) => capped_dims(p.width, p.height, p.fps, r),
            None => p.dims(),
        }
    }

    /// Whether a stats window counts as bad at the current rung: encode over
    /// budget, or (only above the floor rung) frame rate too far below target.
    pub open spec fn window_bad(&self, s: StreamMetricsSample) -> bool {
        !encode_within_budget(self.config(), s) || !(self.rung() >= self.max_rung() || fps_ratio_ok(
            self.config(),
            s,
        ))
    }

    /// Builds a controller for a session on a display. With receiver caps, the
    /// session rung is also the floor: no downgrade below negotiated caps.
    pub fn new(
        session: StreamProfile,
        display_w: u32,
        display_h: u32,
        refresh_hz: u32,
        recv_cap: Option<ReceiverCapability>,
        device_class: DeviceClass,
    ) -> (res: Self)
        ensures
            res.wf(),
            res.ladder_at(0).dims() == crate::profile::high_dims(display_w, display_h, refresh_hz),
            res.ladder_at(1).dims() == (1280u32, 720u32, 30u32),
            res.ladder_at(2).dims() == (426u32, 240u32, 15u32),
            res.ladder_at(0).name@ == "high"@,
            res.ladder_at(1).name@ == "med"@,
            res.ladder_at(2).name@ == "low"@,
            res.rung() == start_rung_for(
                res.ladder_at(0).dims(),
                res.ladder_at(1).dims(),
                res.ladder_at(2).dims(),
                session.dims(),
            ),
            res.start_rung() == res.rung(),
            res.max_rung() == (if recv_cap is Some { res.rung() } else { 2 }),
            res.config() == config_for(session.fps, device_class == DeviceClass::Embedded),
            res.bad_run() == 0,
            res.good_run() == 0,
            res.seen() == 0,
            res.receiver_cap() == recv_cap,
            res.class() == device_class,
    {
        let ladder = StreamProfile::qos_ladder(display_w, display_h, refresh_hz);
        let s = session;
        let same = |p: &StreamProfile| -> (b: bool)
            ensures b == (p.dims() == s.dims())
        { p.width == s.width && p.height == s.height && p.fps == s.fps };
        let holds = |p: &StreamProfile| -> (b: bool)
            ensures b == fits_dims(s.dims(), p.dims())
        { s.width <= p.width && s.height <= p.height && s.fps <= p.fps };
        let rung_index: usize = if same(&ladder[0]) {
            0
        } else if same(&ladder[1]) {
            1
        } else if same(&ladder[2]) {
            2
        } else if holds(&ladder[2]) {
            2
        } else if holds(&ladder[1]) {
            1
        } else if holds(&ladder[0]) {
            0
        } else {
            2
        };
        let max_rung_index = if recv_cap.is_some() { rung_index } else { 2 };
        QosController {
            ladder,
            rung_index,
            max_rung_index,
            session_start_rung: rung_index,
            config: QosConfig::for_target_fps(session.fps, device_class == DeviceClass::Embedded),
            consecutive_bad: 0,
            consecutive_good: 0,
            recv_cap,
            device_class,
            stats_windows_seen: 0,
        }
    }

    /// Refreshes the thresholds after the sender applied a new rung.
    pub fn on_profile_applied(&mut self, profile: StreamProfile)
        requires
            old(self).wf(),
        ensures
            final(self).wf(),
            final(self).config() == config_for(profile.fps, old(self).class() == DeviceClass::Embedded),
            final(self).rung() == old(self).rung(),
            final(self).max_rung() == old(self).max_rung(),
            final(self).start_rung() == old(self).start_rung(),
            final(self).bad_run() == old(self).bad_run(),
            final(self).good_run() == old(self).good_run(),
            final(self).seen() == old(self).seen(),
            final(self).receiver_cap() == old(self).receiver_cap(),
            final(self).class() == old(self).class(),
            forall|i: int| 0 <= i < 3 ==> final(self).ladder_at(i) == old(self).ladder_at(i),
    {
        self.config = QosConfig::for_target_fps(profile.fps, self.device_class == DeviceClass::Embedded);
    }

    /// Number of stats windows observed so far.
    pub fn windows_seen(&self) -> (res: u32)
        ensures
            res as nat == self.seen(),
    {
        self.stats_windows_seen
    }

    fn cap_profile(profile: StreamProfile, recv: Option<ReceiverCapability>) -> (res: StreamProfile)
        ensures
            res.name == profile.name,
            res.dims() == (match recv {
                Some(r) => capped_dims(profile.width, profile.height, profile.fps, r),
                None => profile.dims(),
            }),
    {
        let name = profile.name;
        let capped = match recv {
            Some(r) => profile.capped_for_receiver(r),
            None => profile,
        };
        StreamProfile { name, width: capped.width, height: capped.height, fps: capped.fps }
    }

    /// The profile of the current rung, capped by the receiver when known.
    pub fn current_profile(&self) -> (res: StreamProfile)
        requires
            self.wf(),
        ensures
            res.name == self.ladder_at(self.rung() as int).name,
            res.dims() == self.rung_dims(self.rung() as int),
    {
        Self::cap_profile(self.ladder[self.rung_index], self.recv_cap)
    }

    fn wide_mul(a: u64, b: u64) -> (r: u128)
        ensures
            r == a * b,
    {
        assert((a as u128) * (b as u128) <= u128::MAX) by (nonlinear_arith)
            requires a <= u64::MAX, b <= u64::MAX;
        (a as u128) * (b as u128)
    }

    fn window_is_bad(&self, sample: StreamMetricsSample) -> (res: bool)
        requires
            self.wf(),
        ensures
            res == self.window_bad(sample),
    {
        let encode_ok = Self::wide_mul(sample.avg_encode_us, self.config.budget_fps as u64)
            <= Self::wide_mul(10_000, self.config.encode_budget_pct as u64);
        let fps_ok = if self.rung_index >= self.max_rung_index {
            true
        } else if sample.target_mfps == 0 {
            true
        } else {
            Self::wide_mul(sample.actual_mfps, 100) >= Self::wide_mul(
                self.config.min_fps_ratio_pct as u64,
                sample.target_mfps,
            )
        };
        !fps_ok || !encode_ok
    }

    /// Feeds one stats window. After the warm-up windows, a bad window extends
    /// the bad run (and resets the good run) and a good one the reverse; a bad
    /// run reaching the threshold steps one rung down (never below the floor),
    /// a good run reaching its threshold steps one rung up (never above the
    /// session start). Any step resets both runs.
    pub fn observe_window(&mut self, sample: StreamMetricsSample) -> (res: QosAction)
        requires
            old(self).wf(),
            old(self).seen() < u32::MAX,
        ensures
            final(self).wf(),
            final(self).seen() == old(self).seen() + 1,
            final(self).max_rung() == old(self).max_rung(),
            final(self).start_rung() == old(self).start_rung(),
            final(self).config() == old(self).config(),
            final(self).receiver_cap() == old(self).receiver_cap(),
            final(self).class() == old(self).class(),
            forall|i: int| 0 <= i < 3 ==> final(self).ladder_at(i) == old(self).ladder_at(i),
            old(self).seen() + 1 <= old(self).config().warmup_windows ==> {
                &&& res == QosAction::Hold
                &&& final(self).rung() == old(self).rung()
                &&& final(self).bad_run() == old(self).bad_run()
                &&& final(self).good_run() == old(self).good_run()
            },
            old(self).seen() + 1 > old(self).config().warmup_windows ==> {
                let bad = old(self).window_bad(sample);
                let nb: nat = if bad { old(self).bad_run() + 1 } else { 0 };
                let ng: nat = if bad { 0 } else { old(self).good_run() + 1 };
                let r: int = old(self).rung() as int;
                if nb >= old(self).config().bad_windows_for_downgrade && r < 2 && r < old(self).max_rung() {
                    &&& final(self).rung() == r + 1
                    &&& final(self).bad_run() == 0
                    &&& final(self).good_run() == 0
                    &&& res matches QosAction::RecommendDowngrade(p)
                    &&& p.name == old(self).ladder_at(r + 1int).name
                    &&& p.dims() == old(self).rung_dims(r + 1int)
                } else if ng >= old(self).config().good_windows_for_upgrade && r > 0 && r > old(self).start_rung() {
                    &&& final(self).rung() == r - 1
                    &&& final(self).bad_run() == 0
                    &&& final(self).good_run() == 0
                    &&& res matches QosAction::RecommendUpgrade(p)
                    &&& p.name == old(self).ladder_at(r - 1).name
                    &&& p.dims() == old(self).rung_dims(r - 1)
                } else {
                    &&& res == QosAction::Hold
                    &&& final(self).rung() == r
                    &&& final(self).bad_run() == nb
                    &&& final(self).good_run() == ng
                }
            },
    {
        self.stats_windows_seen = self.stats_windows_seen + 1;
        if self.stats_windows_seen <= self.config.warmup_windows {
            return QosAction::Hold;
        }
        if self.window_is_bad(sample) {
            self.consecutive_bad = self.consecutive_bad + 1;
            self.consecutive_good = 0;
        } else {
            self.consecutive_good = self.consecutive_good + 1;
            self.consecutive_bad = 0;
        }
        if self.consecutive_bad >= self.config.bad_windows_for_downgrade && self.rung_index < 2
            && self.rung_index < self.max_rung_index {
            self.rung_index = self.rung_index + 1;
            self.consecutive_bad = 0;
            self.consecutive_good = 0;
            let profile = Self::cap_profile(self.ladder[self.rung_index], self.recv_cap);
            return QosAction::RecommendDowngrade(profile);
        }
        if self.consecutive_good >= self.config.good_windows_for_upgrade && self.rung_index > 0
            && self.rung_index > self.session_start_rung {
            self.rung_index = self.rung_index - 1;
            self.consecutive_bad = 0;
            self.consecutive_good = 0;
            let profile = Self::cap_profile(self.ladder[self.rung_index], self.recv_cap);
            return QosAction::RecommendUpgrade(profile);
        }
        QosAction::Hold
    }
}

} // verus!

verus! {

/// With receiver caps the negotiated session rung is the floor: a controller
/// built with caps starts at its floor and, since every window keeps the rung
/// between the session start and the floor, stays there.
pub proof fn lemma_negotiated_session_is_floor(c: QosController)
    requires
        c.wf(),
        c.max_rung() == c.start_rung(),
    ensures
        c.rung() == c.start_rung(),
        c.rung() == c.max_rung(),
{
}

/// Which stats windows count as bad: one whose average encode time exceeds
/// the budget (`encode_budget_pct` percent of one frame period at
/// `budget_fps`) is bad at every rung; one whose frame rate falls below
/// `min_fps_ratio_pct` percent of a non-zero target is bad only above the
/// floor rung; every other window is good.
pub proof fn lemma_bad_window_rule(c: QosController, s: StreamMetricsSample)
    ensures
        s.avg_encode_us * c.config().budget_fps > 10_000 * c.config().encode_budget_pct ==> c.window_bad(s),
        c.rung() < c.max_rung() && s.target_mfps > 0 && s.actual_mfps * 100 < c.config().min_fps_ratio_pct
            * s.target_mfps ==> c.window_bad(s),
        s.avg_encode_us * c.config().budget_fps <= 10_000 * c.config().encode_budget_pct && (c.rung()
            >= c.max_rung() || s.target_mfps == 0 || s.actual_mfps * 100 >= c.config().min_fps_ratio_pct
            * s.target_mfps) ==> !c.window_bad(s),
{
}

} // verus!
