//! Health of the live visualizer: audio stream error telemetry, the stream's
//! health state, and the restart bookkeeping of the watchdog.
use vstd::prelude::*;
use crate::text::{chars_eq, chars_of, contains, find};

verus! {

/// How often accumulated audio stream errors are reported, in milliseconds.
pub const STREAM_ERROR_REPORT_INTERVAL_MS: u64 = 10000;

/// Restart failures after which a configured audio backend gives way to the default.
pub const LIVE_VISUALIZER_RESTART_FAILURE_LIMIT: u32 = 3;

/// The wait before a restart, in milliseconds, when no restart has failed.
pub const LIVE_VISUALIZER_RESTART_COOLDOWN_MS: u64 = 1000;

/// The longest wait before a restart, in milliseconds.
pub const LIVE_VISUALIZER_RESTART_COOLDOWN_MAX_MS: u64 = 60000;

/// Healthy watchdog pings in a row that clear the restart failure count.
pub const LIVE_VISUALIZER_HEALTHY_PINGS_TO_CLEAR_FAILURES: u8 = 2;

/// Health of the audio stream that feeds the visualizer.
#[derive(Clone, Copy, Debug, PartialEq, Eq, Structural)]
pub enum StreamHealth {
    Starting,
    Healthy,
    Degraded,
    Restarting,
    Stopped,
}

impl Default for StreamHealth {
    fn default() -> (r: Self)
        ensures
            r == StreamHealth::Starting,
    {
        StreamHealth::Starting
    }
}

/// The name of a stream health state.
pub open spec fn health_label(h: StreamHealth) -> Seq<char> {
    match h {
        StreamHealth::Starting => "Starting"@,
        StreamHealth::Healthy => "Healthy"@,
        StreamHealth::Degraded => "Degraded"@,
        StreamHealth::Restarting => "Restarting"@,
        StreamHealth::Stopped => "Stopped"@,
    }
}

/// The name of a stream health state.
pub fn stream_health_label(stream_health: StreamHealth) -> (r: &'static str)
    ensures
        r@ == health_label(stream_health),
{
    match stream_health {
        StreamHealth::Starting => "Starting",
        StreamHealth::Healthy => "Healthy",
        StreamHealth::Degraded => "Degraded",
        StreamHealth::Restarting => "Restarting",
        StreamHealth::Stopped => "Stopped",
    }
}

/// The overall status reported for the live visualizer: `Restarting` while none
/// is attached or its stream is starting, restarting or stopped; `Degraded` when
/// the stream is degraded, or healthy while restarts have recently failed;
/// otherwise `Healthy`.
pub open spec fn status_summary(attached: bool, h: StreamHealth, failures: u32) -> Seq<char> {
    if !attached {
        "Restarting"@
    } else {
        match h {
            StreamHealth::Healthy => if failures > 0 {
                "Degraded"@
            } else {
                "Healthy"@
            },
            StreamHealth::Degraded => "Degraded"@,
            _ => "Restarting"@,
        }
    }
}

/// The overall status reported for the live visualizer (see `status_summary`).
pub fn summarize_visualizer_status(
    live_visualizer_attached: bool,
    stream_health: StreamHealth,
    consecutive_restart_failures: u32,
) -> (r: &'static str)
    ensures
        r@ == status_summary(live_visualizer_attached, stream_health, consecutive_restart_failures),
{
    if !live_visualizer_attached {
        return "Restarting";
    }
    match stream_health {
        StreamHealth::Healthy => {
            if consecutive_restart_failures > 0 {
                "Degraded"
            } else {
                "Healthy"
            }
        },
        StreamHealth::Degraded => "Degraded",
        StreamHealth::Starting | StreamHealth::Restarting | StreamHealth::Stopped => "Restarting",
    }
}

/// A kind of audio stream error, as counted.
#[derive(Clone, Copy, Debug, PartialEq, Eq, Structural)]
pub enum StreamErrorKind {
    PollErr,
    XRun,
    DeviceUnavailable,
    Other,
}

/// The kinds of error the audio library reports on a running stream.
#[derive(Clone, Copy, Debug, PartialEq, Eq, Structural)]
pub enum StreamErrorSource {
    DeviceNotAvailable,
    StreamInvalidated,
    BufferUnderrun,
    /// An error of the audio backend, known by its message.
    BackendSpecific,
}

/// How a stream error is counted: device loss as unavailability, underruns as
/// xruns, and backend errors by their message: an underrun/overrun text as an xrun,
/// `POLLERR` as a poll error, a device that is not available as unavailability,
/// anything else as other.
pub open spec fn classify_spec(source: StreamErrorSource, text: Seq<char>) -> StreamErrorKind {
    match source {
        StreamErrorSource::DeviceNotAvailable | StreamErrorSource::StreamInvalidated => StreamErrorKind::DeviceUnavailable,
        StreamErrorSource::BufferUnderrun => StreamErrorKind::XRun,
        StreamErrorSource::BackendSpecific => if contains(text, "Buffer underrun/overrun occurred"@) {
            StreamErrorKind::XRun
        } else if contains(text, "POLLERR"@) {
            StreamErrorKind::PollErr
        } else if contains(text, "device is no longer available"@) || contains(
            text,
            "not available"@,
        ) {
            StreamErrorKind::DeviceUnavailable
        } else {
            StreamErrorKind::Other
        },
    }
}

fn text_contains(hay: &[char], needle: &str) -> (r: bool)
    ensures
        r == contains(hay@, needle@),
{
    let n = chars_of(needle);
    match find(hay, &n) {
        Some(_) => true,
        None => false,
    }
}

/// Classifies a stream error by its kind and message (see `classify_spec`).
pub fn classify_stream_error(source: StreamErrorSource, err_text: &str) -> (r: StreamErrorKind)
    ensures
        r == classify_spec(source, err_text@),
{
    match source {
        StreamErrorSource::DeviceNotAvailable | StreamErrorSource::StreamInvalidated => {
            StreamErrorKind::DeviceUnavailable
        },
        StreamErrorSource::BufferUnderrun => StreamErrorKind::XRun,
        StreamErrorSource::BackendSpecific => {
            let t = chars_of(err_text);
            if text_contains(&t, "Buffer underrun/overrun occurred") {
                StreamErrorKind::XRun
            } else if text_contains(&t, "POLLERR") {
                StreamErrorKind::PollErr
            } else if text_contains(&t, "device is no longer available") || text_contains(
                &t,
                "not available",
            ) {
                StreamErrorKind::DeviceUnavailable
            } else {
                StreamErrorKind::Other
            }
        },
    }
}

/// Counts of stream errors by kind.
#[derive(Clone, Copy, Debug, PartialEq, Eq, Structural)]
pub struct StreamErrorCounts {
    pub pollerr: u64,
    pub xrun: u64,
    pub other: u64,
    pub device_unavailable: u64,
}

/// No errors.
pub open spec fn zero_counts() -> StreamErrorCounts {
    StreamErrorCounts { pollerr: 0, xrun: 0, other: 0, device_unavailable: 0 }
}

/// The sum of all counts.
pub open spec fn counts_total(c: StreamErrorCounts) -> int {
    c.pollerr + c.xrun + c.other + c.device_unavailable
}

/// `u64::saturating_add(1)`.
pub open spec fn sat_inc(v: u64) -> u64 {
    if v == u64::MAX {
        v
    } else {
        (v + 1) as u64
    }
}

/// The counts with one more error of the kind (saturating).
pub open spec fn counted(c: StreamErrorCounts, kind: StreamErrorKind) -> StreamErrorCounts {
    match kind {
        StreamErrorKind::PollErr => StreamErrorCounts { pollerr: sat_inc(c.pollerr), ..c },
        StreamErrorKind::XRun => StreamErrorCounts { xrun: sat_inc(c.xrun), ..c },
        StreamErrorKind::Other => StreamErrorCounts { other: sat_inc(c.other), ..c },
        StreamErrorKind::DeviceUnavailable => StreamErrorCounts {
            device_unavailable: sat_inc(c.device_unavailable),
            ..c
        },
    }
}

/// Each count of `a` is at most the same count of `b`.
pub open spec fn counts_le(a: StreamErrorCounts, b: StreamErrorCounts) -> bool {
    a.pollerr <= b.pollerr && a.xrun <= b.xrun && a.other <= b.other && a.device_unavailable
        <= b.device_unavailable
}

impl StreamErrorCounts {
    /// No errors.
    pub fn zero() -> (r: Self)
        ensures
            r == zero_counts(),
    {
        StreamErrorCounts { pollerr: 0, xrun: 0, other: 0, device_unavailable: 0 }
    }

    /// The number of errors of all kinds.
    pub fn total(self) -> (r: u64)
        requires
            counts_total(self) <= u64::MAX,
        ensures
            r == counts_total(self),
    {
        self.pollerr + self.xrun + self.other + self.device_unavailable
    }
}

/// Stream errors counted since the last report and over the stream's lifetime.
#[derive(Debug)]
pub struct StreamErrorTelemetry {
    pub interval: StreamErrorCounts,
    pub lifetime: StreamErrorCounts,
    /// When the last report was taken, in milliseconds of a monotonic clock.
    pub last_report_ms: u64,
}

impl StreamErrorTelemetry {
    /// No errors yet, the last report taken at `now_ms`.
    pub fn new(now_ms: u64) -> (r: Self)
        ensures
            r.interval == zero_counts(),
            r.lifetime == zero_counts(),
            r.last_report_ms == now_ms,
    {
        StreamErrorTelemetry {
            interval: StreamErrorCounts::zero(),
            lifetime: StreamErrorCounts::zero(),
            last_report_ms: now_ms,
        }
    }

    /// Counts one error of the kind, in the interval and over the lifetime.
    pub fn record(&mut self, kind: StreamErrorKind)
        ensures
            final(self).interval == counted(old(self).interval, kind),
            final(self).lifetime == counted(old(self).lifetime, kind),
            final(self).last_report_ms == old(self).last_report_ms,
    {
        match kind {
            StreamErrorKind::PollErr => {
                self.interval.pollerr = self.interval.pollerr.saturating_add(1);
                self.lifetime.pollerr = self.lifetime.pollerr.saturating_add(1);
            },
            StreamErrorKind::XRun => {
                self.interval.xrun = self.interval.xrun.saturating_add(1);
                self.lifetime.xrun = self.lifetime.xrun.saturating_add(1);
            },
            StreamErrorKind::Other => {
                self.interval.other = self.interval.other.saturating_add(1);
                self.lifetime.other = self.lifetime.other.saturating_add(1);
            },
            StreamErrorKind::DeviceUnavailable => {
                self.interval.device_unavailable = self.interval.device_unavailable.saturating_add(1);
                self.lifetime.device_unavailable = self.lifetime.device_unavailable.saturating_add(1);
            },
        }
    }

    /// Once the report interval has passed since the last report (the clock read at
    /// `now_ms`; an earlier reading counts as no time passed), returns the interval
    /// and lifetime counts and starts a new interval at `now_ms`.
    pub fn take_report_if_due(&mut self, now_ms: u64) -> (r: Option<(StreamErrorCounts, StreamErrorCounts)>)
        ensures
            if now_ms < old(self).last_report_ms || now_ms - old(self).last_report_ms
                < STREAM_ERROR_REPORT_INTERVAL_MS {
                &&& r is None
                &&& final(self).interval == old(self).interval
                &&& final(self).lifetime == old(self).lifetime
                &&& final(self).last_report_ms == old(self).last_report_ms
            } else {
                &&& r == Some((old(self).interval, old(self).lifetime))
                &&& final(self).interval == zero_counts()
                &&& final(self).lifetime == old(self).lifetime
                &&& final(self).last_report_ms == now_ms
            },
    {
        if now_ms.saturating_sub(self.last_report_ms) < STREAM_ERROR_REPORT_INTERVAL_MS {
            return None;
        }
        let interval = self.interval;
        let lifetime = self.lifetime;
        self.interval = StreamErrorCounts::zero();
        self.last_report_ms = now_ms;
        Some((interval, lifetime))
    }
}

/// The stream health a report implies: healthy without errors in the interval,
/// degraded with some.
pub fn health_after_report(interval: StreamErrorCounts) -> (r: StreamHealth)
    ensures
        r == (if counts_total(interval) == 0 {
            StreamHealth::Healthy
        } else {
            StreamHealth::Degraded
        }),
{
    if interval.pollerr == 0 && interval.xrun == 0 && interval.other == 0
        && interval.device_unavailable == 0 {
        StreamHealth::Healthy
    } else {
        StreamHealth::Degraded
    }
}

/// Recording an error keeps every interval count within its lifetime count.
pub proof fn lemma_record_keeps_interval_within_lifetime(
    interval: StreamErrorCounts,
    lifetime: StreamErrorCounts,
    kind: StreamErrorKind,
)
    requires
        counts_le(interval, lifetime),
    ensures
        counts_le(counted(interval, kind), counted(lifetime, kind)),
{
}

/// The restart bookkeeping of the live visualizer.
#[derive(Clone, Copy, Debug, PartialEq, Eq, Structural)]
pub struct LiveVisualizerRecoveryState {
    pub consecutive_restart_failures: u32,
    pub auto_fallback_to_default_active: bool,
    pub last_restart_at_ms: Option<u64>,
    pub healthy_ping_streak: u8,
}

/// `base` doubled `k` times.
pub open spec fn doubled(base: nat, k: nat) -> nat
    decreases k,
{
    if k == 0 {
        base
    } else {
        2 * doubled(base, (k - 1) as nat)
    }
}

/// The wait after `failures` failed restarts: the base cooldown doubled per
/// failure (at most 20 times), capped at the maximum.
pub open spec fn cooldown_spec(failures: u32) -> nat {
    let shift: nat = if failures < 20 {
        failures as nat
    } else {
        20
    };
    let c = doubled(LIVE_VISUALIZER_RESTART_COOLDOWN_MS as nat, shift);
    if c < LIVE_VISUALIZER_RESTART_COOLDOWN_MAX_MS {
        c
    } else {
        LIVE_VISUALIZER_RESTART_COOLDOWN_MAX_MS as nat
    }
}

proof fn lemma_doubled_step(base: nat, k: nat)
    ensures
        doubled(base, k + 1) == 2 * doubled(base, k),
{
}

proof fn lemma_doubled_twenty()
    ensures
        doubled(1000, 20) == 1000 * 1048576,
{
    reveal_with_fuel(doubled, 21);
}

proof fn lemma_doubled_monotone(base: nat, a: nat, b: nat)
    requires
        a <= b,
    ensures
        doubled(base, a) <= doubled(base, b),
    decreases b,
{
    if a < b {
        lemma_doubled_monotone(base, a, (b - 1) as nat);
    }
}

/// The bookkeeping after the watchdog found the visualizer healthy, and whether
/// the failures were cleared: without failures the streak stays at zero; with
/// failures it grows (saturating), and at the threshold the failure count and
/// the streak are cleared.
pub open spec fn after_healthy_ping(s: LiveVisualizerRecoveryState) -> (LiveVisualizerRecoveryState, bool) {
    if s.consecutive_restart_failures == 0 {
        (LiveVisualizerRecoveryState { healthy_ping_streak: 0, ..s }, false)
    } else {
        let streak: int = if s.healthy_ping_streak == u8::MAX {
            u8::MAX as int
        } else {
            s.healthy_ping_streak + 1
        };
        if streak >= LIVE_VISUALIZER_HEALTHY_PINGS_TO_CLEAR_FAILURES {
            (LiveVisualizerRecoveryState { consecutive_restart_failures: 0, healthy_ping_streak: 0, ..s }, true)
        } else {
            (LiveVisualizerRecoveryState { healthy_ping_streak: streak as u8, ..s }, false)
        }
    }
}

/// After a failed restart, two healthy watchdog pings in a row clear the
/// failure count, whatever it was, and leave the streak at zero.
pub proof fn lemma_two_healthy_pings_clear_failures(s: LiveVisualizerRecoveryState)
    requires
        s.healthy_ping_streak == 0,
    ensures
        after_healthy_ping(after_healthy_ping(s).0).0.consecutive_restart_failures == 0,
        after_healthy_ping(after_healthy_ping(s).0).0.healthy_ping_streak == 0,
{
}

impl LiveVisualizerRecoveryState {
    /// No restarts yet.
    pub fn new() -> (r: Self)
        ensures
            r.consecutive_restart_failures == 0,
            !r.auto_fallback_to_default_active,
            r.last_restart_at_ms is None,
            r.healthy_ping_streak == 0,
    {
        LiveVisualizerRecoveryState {
            consecutive_restart_failures: 0,
            auto_fallback_to_default_active: false,
            last_restart_at_ms: None,
            healthy_ping_streak: 0,
        }
    }

    /// A restart succeeded at `now_ms`, falling back to the default backend or not.
    /// The failure count is left for the watchdog to clear.
    pub fn mark_recovery_success(&mut self, auto_fallback_to_default_active: bool, now_ms: u64)
        ensures
            *final(self) == (LiveVisualizerRecoveryState {
                auto_fallback_to_default_active,
                last_restart_at_ms: Some(now_ms),
                healthy_ping_streak: 0,
                ..*old(self)
            }),
    {
        self.auto_fallback_to_default_active = auto_fallback_to_default_active;
        self.last_restart_at_ms = Some(now_ms);
        self.healthy_ping_streak = 0;
    }

    /// A restart failed: one more consecutive failure (saturating), which is returned.
    pub fn mark_recovery_failure(&mut self) -> (r: u32)
        ensures
            *final(self) == (LiveVisualizerRecoveryState {
                consecutive_restart_failures: if old(self).consecutive_restart_failures == u32::MAX {
                    u32::MAX
                } else {
                    (old(self).consecutive_restart_failures + 1) as u32
                },
                healthy_ping_streak: 0,
                ..*old(self)
            }),
            r == final(self).consecutive_restart_failures,
    {
        self.consecutive_restart_failures = self.consecutive_restart_failures.saturating_add(1);
        self.healthy_ping_streak = 0;
        self.consecutive_restart_failures
    }

    /// A restart is attempted at `now_ms`.
    pub fn mark_restart_attempt(&mut self, now_ms: u64)
        ensures
            *final(self) == (LiveVisualizerRecoveryState {
                last_restart_at_ms: Some(now_ms),
                healthy_ping_streak: 0,
                ..*old(self)
            }),
    {
        self.last_restart_at_ms = Some(now_ms);
        self.healthy_ping_streak = 0;
    }

    /// The watchdog found the visualizer healthy. Without failures the streak stays
    /// at zero; with failures it grows, and at the threshold the failure count and
    /// the streak are cleared. Returns whether the failures were cleared.
    pub fn mark_watchdog_healthy(&mut self) -> (cleared: bool)
        ensures
            (*final(self), cleared) == after_healthy_ping(*old(self)),
    {
        if self.consecutive_restart_failures == 0 {
            self.healthy_ping_streak = 0;
            return false;
        }
        self.healthy_ping_streak = self.healthy_ping_streak.saturating_add(1);
        if self.healthy_ping_streak >= LIVE_VISUALIZER_HEALTHY_PINGS_TO_CLEAR_FAILURES {
            self.consecutive_restart_failures = 0;
            self.healthy_ping_streak = 0;
            return true;
        }
        false
    }

    /// The wait before the next restart is due (see `cooldown_spec`).
    pub fn restart_cooldown_ms(&self) -> (r: u64)
        ensures
            r == cooldown_spec(self.consecutive_restart_failures),
    {
        let shift: u32 = if self.consecutive_restart_failures < 20 {
            self.consecutive_restart_failures
        } else {
            20
        };
        let mut c: u64 = LIVE_VISUALIZER_RESTART_COOLDOWN_MS;
        let mut k: u32 = 0;
        while k < shift
            invariant
                k <= shift <= 20,
                c == doubled(LIVE_VISUALIZER_RESTART_COOLDOWN_MS as nat, k as nat),
                c <= 1000 * 1048576,
            decreases shift - k,
        {
            proof {
                lemma_doubled_step(LIVE_VISUALIZER_RESTART_COOLDOWN_MS as nat, k as nat);
                lemma_doubled_monotone(LIVE_VISUALIZER_RESTART_COOLDOWN_MS as nat, (k + 1) as nat, 20);
                lemma_doubled_twenty();
            }
            c = c * 2;
            k = k + 1;
        }
        if c < LIVE_VISUALIZER_RESTART_COOLDOWN_MAX_MS {
            c
        } else {
            LIVE_VISUALIZER_RESTART_COOLDOWN_MAX_MS
        }
    }

    /// How long a restart still has to wait at `now_ms`: nothing before the first
    /// restart or once the cooldown has passed since the last one (an earlier clock
    /// reading counts as no time passed), else the rest of the cooldown.
    pub fn restart_cooldown_remaining(&self, now_ms: u64) -> (r: Option<u64>)
        ensures
            match self.last_restart_at_ms {
                None => r is None,
                Some(last) => {
                    let elapsed: int = if now_ms < last {
                        0
                    } else {
                        now_ms - last
                    };
                    if elapsed >= cooldown_spec(self.consecutive_restart_failures) {
                        r is None
                    } else {
                        r == Some((cooldown_spec(self.consecutive_restart_failures) - elapsed) as u64)
                    }
                },
            },
    {
        let last = match self.last_restart_at_ms {
            Some(t) => t,
            None => {
                return None;
            },
        };
        let cooldown = self.restart_cooldown_ms();
        let elapsed = now_ms.saturating_sub(last);
        if elapsed >= cooldown {
            None
        } else {
            Some(cooldown - elapsed)
        }
    }
}

/// The restart cooldown never exceeds the maximum and never shrinks as failures
/// accumulate.
pub proof fn lemma_cooldown_bounded_and_monotone(f: u32, g: u32)
    requires
        f <= g,
    ensures
        cooldown_spec(f) <= LIVE_VISUALIZER_RESTART_COOLDOWN_MAX_MS,
        cooldown_spec(f) <= cooldown_spec(g),
        cooldown_spec(0) == LIVE_VISUALIZER_RESTART_COOLDOWN_MS,
{
    let sf: nat = if f < 20 {
        f as nat
    } else {
        20
    };
    let sg: nat = if g < 20 {
        g as nat
    } else {
        20
    };
    lemma_doubled_monotone(LIVE_VISUALIZER_RESTART_COOLDOWN_MS as nat, sf, sg);
}

/// Whether, after `failure_count` failed restarts, the visualizer falls back to
/// the default audio backend: only a configured backend other than the default,
/// and only once the failure limit is reached.
pub open spec fn fallback_spec(configured_backend: Seq<char>, failure_count: u32) -> bool {
    configured_backend != "default"@ && failure_count >= LIVE_VISUALIZER_RESTART_FAILURE_LIMIT
}

/// Whether to fall back to the default audio backend (see `fallback_spec`).
pub fn should_fall_back_to_default(configured_backend: &str, failure_count: u32) -> (r: bool)
    ensures
        r == fallback_spec(configured_backend@, failure_count),
{
    let b = chars_of(configured_backend);
    let d = chars_of("default");
    !chars_eq(&b, &d) && failure_count >= LIVE_VISUALIZER_RESTART_FAILURE_LIMIT
}

} // verus!
