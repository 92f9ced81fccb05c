//! Request handling of the HTTP control API: reading setting names, checking
//! updates, changing the runtime settings and deciding what the live visualizer
//! is told.
use vstd::prelude::*;
use crate::config::{opt_str, Axis, ConfigNumber, Effect, Sort, VisualizerConfig, VisualizerConfigView};
use crate::metadata::{copy_colors, NowPlayingRuntimeState, NowPlayingView};
use crate::panels::{is_stable_order, stable_order};
use crate::text::{chars_eq, chars_eq_ignore_case, chars_of, eq_ignore_case, is_lower, is_upper, lower, lower_char, upper, upper_char};

verus! {

/// The axis a request names, in any letter case.
pub open spec fn axis_named(s: Seq<char>) -> Option<Axis> {
    if eq_ignore_case(s, "x"@) {
        Some(Axis::X)
    } else if eq_ignore_case(s, "y"@) {
        Some(Axis::Y)
    } else {
        None
    }
}

/// The sort direction a request names, in any letter case.
pub open spec fn sort_named(s: Seq<char>) -> Option<Sort> {
    if eq_ignore_case(s, "asc"@) {
        Some(Sort::Asc)
    } else if eq_ignore_case(s, "desc"@) {
        Some(Sort::Desc)
    } else {
        None
    }
}

/// The effect a request names, in any letter case; the wave may be written
/// `energywave`, `energy_wave` or `energy-wave`.
pub open spec fn effect_named(s: Seq<char>) -> Option<Effect> {
    if eq_ignore_case(s, "spectrum"@) {
        Some(Effect::Spectrum)
    } else if eq_ignore_case(s, "energywave"@) || eq_ignore_case(s, "energy_wave"@)
        || eq_ignore_case(s, "energy-wave"@) {
        Some(Effect::EnergyWave)
    } else if eq_ignore_case(s, "ripple"@) {
        Some(Effect::Ripple)
    } else {
        None
    }
}

/// Whether `input` equals the literal `name` but for ASCII letter case.
fn named(input: &[char], name: &str) -> (r: bool)
    ensures
        r == eq_ignore_case(input@, name@),
{
    let n = chars_of(name);
    chars_eq_ignore_case(input, &n)
}

/// Reads an axis name (`x` or `y`).
pub fn parse_axis(input: &str) -> (r: Option<Axis>)
    ensures
        r == axis_named(input@),
{
    let s = chars_of(input);
    if named(&s, "x") {
        Some(Axis::X)
    } else if named(&s, "y") {
        Some(Axis::Y)
    } else {
        None
    }
}

/// Reads a sort direction (`asc` or `desc`).
pub fn parse_sort(input: &str) -> (r: Option<Sort>)
    ensures
        r == sort_named(input@),
{
    let s = chars_of(input);
    if named(&s, "asc") {
        Some(Sort::Asc)
    } else if named(&s, "desc") {
        Some(Sort::Desc)
    } else {
        None
    }
}

/// Reads an effect name.
pub fn parse_effect(input: &str) -> (r: Option<Effect>)
    ensures
        r == effect_named(input@),
{
    let s = chars_of(input);
    if named(&s, "spectrum") {
        Some(Effect::Spectrum)
    } else if named(&s, "energywave") || named(&s, "energy_wave") || named(&s, "energy-wave") {
        Some(Effect::EnergyWave)
    } else if named(&s, "ripple") {
        Some(Effect::Ripple)
    } else {
        None
    }
}

/// Why an update request is refused.
#[derive(Clone, Copy, Debug, PartialEq, Eq, Structural)]
pub enum UpdateError {
    /// A settings update that changes nothing.
    NoSettings,
    /// A frequency range whose lower end is not below its upper end.
    FreqRange,
    /// A gain that is not a finite number of at least zero.
    Gain,
    /// A transition time outside 1 to 10.
    TransitionTime,
    /// A time window outside 0.1 to 1.0 seconds.
    TimeWindow,
    /// An unknown primary axis.
    PrimaryAxis,
    /// An unknown primary sort direction.
    SortPrimary,
    /// An unknown secondary sort direction.
    SortSecondary,
    /// An unknown effect.
    Effect,
    /// A now-playing settings update without its one setting.
    NoDrivePalette,
}

/// The message a refused request is answered with.
pub open spec fn update_error_text(e: UpdateError) -> Seq<char> {
    match e {
        UpdateError::NoSettings => "Request must include at least one visualizer setting."@,
        UpdateError::FreqRange => "freq_range must have min < max (e.g. [20, 4500])."@,
        UpdateError::Gain => "default_gain must be a finite number >= 0."@,
        UpdateError::TransitionTime => "transition_time must be between 1 and 10 (0.1s to 1.0s in 100ms units)."@,
        UpdateError::TimeWindow => "time_window must be between 0.1 and 1.0 seconds."@,
        UpdateError::PrimaryAxis => "Invalid primary_axis. Use X or Y."@,
        UpdateError::SortPrimary => "Invalid sort_primary. Use Asc or Desc."@,
        UpdateError::SortSecondary => "Invalid sort_secondary. Use Asc or Desc."@,
        UpdateError::Effect => "Invalid effect. Use Spectrum, EnergyWave, or Ripple."@,
        UpdateError::NoDrivePalette => "Request must include drive_visualizer_palette."@,
    }
}

impl UpdateError {
    /// The message the request is answered with.
    pub fn message(&self) -> (r: &'static str)
        ensures
            r@ == update_error_text(*self),
    {
        match self {
            UpdateError::NoSettings => "Request must include at least one visualizer setting.",
            UpdateError::FreqRange => "freq_range must have min < max (e.g. [20, 4500]).",
            UpdateError::Gain => "default_gain must be a finite number >= 0.",
            UpdateError::TransitionTime => "transition_time must be between 1 and 10 (0.1s to 1.0s in 100ms units).",
            UpdateError::TimeWindow => "time_window must be between 0.1 and 1.0 seconds.",
            UpdateError::PrimaryAxis => "Invalid primary_axis. Use X or Y.",
            UpdateError::SortPrimary => "Invalid sort_primary. Use Asc or Desc.",
            UpdateError::SortSecondary => "Invalid sort_secondary. Use Asc or Desc.",
            UpdateError::Effect => "Invalid effect. Use Spectrum, EnergyWave, or Ripple.",
            UpdateError::NoDrivePalette => "Request must include drive_visualizer_palette.",
        }
    }
}

/// The sign bit of an IEEE-754 double.
pub const F64_SIGN_BIT: u64 = 0x8000_0000_0000_0000;

/// The bits of positive infinity; every pattern at or above it (without the
/// sign) is an infinity or a NaN.
pub const F64_INFINITY_BITS: u64 = 0x7FF0_0000_0000_0000;

/// The bits of `0.1f32` widened to a double: the shortest time window.
pub const TIME_WINDOW_MIN_BITS: u64 = 0x3FB9_9999_A000_0000;

/// The bits of `1.0`: the longest time window.
pub const TIME_WINDOW_MAX_BITS: u64 = 0x3FF0_0000_0000_0000;

/// Whether the double with these bits is finite.
pub open spec fn f64_finite(bits: u64) -> bool {
    bits % F64_SIGN_BIT < F64_INFINITY_BITS
}

/// Whether a gain is acceptable: finite and not below zero (`-0.0` is not).
pub open spec fn gain_acceptable(bits: u64) -> bool {
    f64_finite(bits) && bits <= F64_SIGN_BIT
}

/// Whether a time window is acceptable: from `0.1f32` to `1.0` seconds. Positive
/// finite doubles are ordered as their bits are.
pub open spec fn time_window_acceptable(bits: u64) -> bool {
    TIME_WINDOW_MIN_BITS <= bits <= TIME_WINDOW_MAX_BITS
}

/// A change of the visualizer's settings, as a request sends it. The gain and
/// the time window are `f32` values, widened to `f64` and given by their
/// IEEE-754 bits.
#[derive(Debug)]
pub struct VisualizerSettingsUpdate {
    pub audio_backend: Option<String>,
    pub freq_range: Option<(u16, u16)>,
    pub default_gain: Option<u64>,
    pub transition_time: Option<u16>,
    pub time_window: Option<u64>,
}

/// Whether a settings update is accepted, or the first reason it is not.
pub open spec fn settings_check(u: VisualizerSettingsUpdate) -> Result<(), UpdateError> {
    if u.audio_backend is None && u.freq_range is None && u.default_gain is None
        && u.transition_time is None && u.time_window is None {
        Err(UpdateError::NoSettings)
    } else if u.freq_range matches Some((low, high)) && low >= high {
        Err(UpdateError::FreqRange)
    } else if u.default_gain matches Some(g) && !gain_acceptable(g) {
        Err(UpdateError::Gain)
    } else if u.transition_time matches Some(t) && !(1 <= t <= 10) {
        Err(UpdateError::TransitionTime)
    } else if u.time_window matches Some(w) && !time_window_acceptable(w) {
        Err(UpdateError::TimeWindow)
    } else {
        Ok(())
    }
}

/// The settings after an accepted update: each setting it carries replaces
/// the old one, the others stay.
pub open spec fn settings_applied(c: VisualizerConfigView, u: VisualizerSettingsUpdate) -> VisualizerConfigView {
    VisualizerConfigView {
        audio_backend: if u.audio_backend is Some {
            opt_str(u.audio_backend)
        } else {
            c.audio_backend
        },
        freq_range: if u.freq_range is Some {
            u.freq_range
        } else {
            c.freq_range
        },
        default_gain: match u.default_gain {
            Some(g) => Some(ConfigNumber::Float(g)),
            None => c.default_gain,
        },
        transition_time: if u.transition_time is Some {
            u.transition_time
        } else {
            c.transition_time
        },
        time_window: match u.time_window {
            Some(w) => Some(ConfigNumber::Float(w)),
            None => c.time_window,
        },
        ..c
    }
}

/// A message that tells the live visualizer of a changed setting.
#[derive(Clone, Copy, Debug, PartialEq, Eq, Structural)]
pub enum SettingsMessage {
    SetFreqRange(u16, u16),
    /// The gain, by the bits of its widened value.
    SetGain(u64),
    SetTransitionTime(u16),
    /// The time window, by the bits of its widened value.
    SetTimeWindow(u64),
}

/// What the live visualizer is to be told after a settings update.
#[derive(Debug)]
pub enum SettingsAction {
    /// Restart it, so that it opens the new audio backend.
    Restart,
    /// Send it these messages, in order.
    Send(Vec<SettingsMessage>),
}

/// The messages of an update: one per changed setting, in the order frequency
/// range, gain, transition time, time window.
pub open spec fn settings_messages(u: VisualizerSettingsUpdate) -> Seq<SettingsMessage> {
    (match u.freq_range {
        Some((low, high)) => seq![SettingsMessage::SetFreqRange(low, high)],
        None => seq![],
    }) + (match u.default_gain {
        Some(g) => seq![SettingsMessage::SetGain(g)],
        None => seq![],
    }) + (match u.transition_time {
        Some(t) => seq![SettingsMessage::SetTransitionTime(t)],
        None => seq![],
    }) + (match u.time_window {
        Some(w) => seq![SettingsMessage::SetTimeWindow(w)],
        None => seq![],
    })
}

/// What the visualizer is told: a restart when the audio backend changes,
/// otherwise the messages of the update (`None` stands for the restart).
pub open spec fn settings_action(u: VisualizerSettingsUpdate) -> Option<Seq<SettingsMessage>> {
    if u.audio_backend is Some {
        None
    } else {
        Some(settings_messages(u))
    }
}

/// The view of an action.
pub open spec fn action_view(a: SettingsAction) -> Option<Seq<SettingsMessage>> {
    match a {
        SettingsAction::Restart => None,
        SettingsAction::Send(v) => Some(v@),
    }
}

/// Checks a settings update, applies it to the runtime settings and says what
/// the live visualizer is to be told. A refused update changes nothing.
pub fn apply_visualizer_settings(
    config: &mut VisualizerConfig,
    update: VisualizerSettingsUpdate,
) -> (r: Result<SettingsAction, UpdateError>)
    ensures
        match r {
            Ok(action) => {
                &&& settings_check(update) is Ok
                &&& final(config)@ == settings_applied(old(config)@, update)
                &&& action_view(action) == settings_action(update)
            },
            Err(e) => settings_check(update) == Err::<(), UpdateError>(e) && final(config)@ == old(config)@,
        },
{
    if update.audio_backend.is_none() && update.freq_range.is_none() && update.default_gain.is_none()
        && update.transition_time.is_none() && update.time_window.is_none() {
        return Err(UpdateError::NoSettings);
    }
    if let Some((low, high)) = update.freq_range {
        if low >= high {
            return Err(UpdateError::FreqRange);
        }
    }
    if let Some(g) = update.default_gain {
        if !(g % F64_SIGN_BIT < F64_INFINITY_BITS && g <= F64_SIGN_BIT) {
            return Err(UpdateError::Gain);
        }
    }
    if let Some(t) = update.transition_time {
        if !(1 <= t && t <= 10) {
            return Err(UpdateError::TransitionTime);
        }
    }
    if let Some(w) = update.time_window {
        if !(TIME_WINDOW_MIN_BITS <= w && w <= TIME_WINDOW_MAX_BITS) {
            return Err(UpdateError::TimeWindow);
        }
    }
    let ghost u = update;
    let restart = update.audio_backend.is_some();
    let mut messages: Vec<SettingsMessage> = Vec::new();
    if let Some(b) = update.audio_backend {
        config.audio_backend = Some(b);
    }
    if let Some((low, high)) = update.freq_range {
        config.freq_range = Some((low, high));
        messages.push(SettingsMessage::SetFreqRange(low, high));
    }
    let ghost m1 = messages@;
    if let Some(g) = update.default_gain {
        config.default_gain = Some(ConfigNumber::Float(g));
        messages.push(SettingsMessage::SetGain(g));
    }
    let ghost m2 = messages@;
    if let Some(t) = update.transition_time {
        config.transition_time = Some(t);
        messages.push(SettingsMessage::SetTransitionTime(t));
    }
    let ghost m3 = messages@;
    if let Some(w) = update.time_window {
        config.time_window = Some(ConfigNumber::Float(w));
        messages.push(SettingsMessage::SetTimeWindow(w));
    }
    proof {
        let a = match u.freq_range {
            Some((low, high)) => seq![SettingsMessage::SetFreqRange(low, high)],
            None => Seq::<SettingsMessage>::empty(),
        };
        let b = match u.default_gain {
            Some(g) => seq![SettingsMessage::SetGain(g)],
            None => Seq::<SettingsMessage>::empty(),
        };
        let c = match u.transition_time {
            Some(t) => seq![SettingsMessage::SetTransitionTime(t)],
            None => Seq::<SettingsMessage>::empty(),
        };
        let d = match u.time_window {
            Some(w) => seq![SettingsMessage::SetTimeWindow(w)],
            None => Seq::<SettingsMessage>::empty(),
        };
        assert(m1 =~= a);
        assert(m2 =~= a + b);
        assert(m3 =~= a + b + c);
        assert(messages@ =~= a + b + c + d);
    }
    if restart {
        Ok(SettingsAction::Restart)
    } else {
        Ok(SettingsAction::Send(messages))
    }
}

/// The ordering a sort update asks for, or the first part of it that is not
/// understood.
pub open spec fn sort_update_spec(primary_axis: Seq<char>, sort_primary: Seq<char>, sort_secondary: Seq<char>) -> Result<(Axis, Sort, Sort), UpdateError> {
    match (axis_named(primary_axis), sort_named(sort_primary), sort_named(sort_secondary)) {
        (None, _, _) => Err(UpdateError::PrimaryAxis),
        (_, None, _) => Err(UpdateError::SortPrimary),
        (_, _, None) => Err(UpdateError::SortSecondary),
        (Some(a), Some(p), Some(s)) => Ok((a, p, s)),
    }
}

/// Reads a panel-ordering update and applies it to the runtime settings;
/// returns the new axis and directions. A refused update changes nothing.
pub fn apply_visualizer_sort(
    config: &mut VisualizerConfig,
    primary_axis: &str,
    sort_primary: &str,
    sort_secondary: &str,
) -> (r: Result<(Axis, Sort, Sort), UpdateError>)
    ensures
        r == sort_update_spec(primary_axis@, sort_primary@, sort_secondary@),
        match r {
            Ok((a, p, s)) => final(config)@ == VisualizerConfigView {
                primary_axis: Some(a),
                sort_primary: Some(p),
                sort_secondary: Some(s),
                ..old(config)@
            },
            Err(_) => final(config)@ == old(config)@,
        },
{
    let a = match parse_axis(primary_axis) {
        Some(a) => a,
        None => return Err(UpdateError::PrimaryAxis),
    };
    let p = match parse_sort(sort_primary) {
        Some(p) => p,
        None => return Err(UpdateError::SortPrimary),
    };
    let s = match parse_sort(sort_secondary) {
        Some(s) => s,
        None => return Err(UpdateError::SortSecondary),
    };
    config.primary_axis = Some(a);
    config.sort_primary = Some(p);
    config.sort_secondary = Some(s);
    Ok((a, p, s))
}

/// Reads an effect update and applies it to the runtime settings; returns the
/// new effect. A refused update changes nothing.
pub fn apply_visualizer_effect(config: &mut VisualizerConfig, effect: &str) -> (r: Result<Effect, UpdateError>)
    ensures
        match r {
            Ok(e) => effect_named(effect@) == Some(e) && final(config)@ == VisualizerConfigView {
                effect: Some(e),
                ..old(config)@
            },
            Err(err) => effect_named(effect@) is None && err == UpdateError::Effect && final(config)@
                == old(config)@,
        },
{
    match parse_effect(effect) {
        Some(e) => {
            config.effect = Some(e);
            Ok(e)
        },
        None => Err(UpdateError::Effect),
    }
}

/// Applies a now-playing settings update at time `now_ms`: whether the album
/// art drives the visualizer's palette. Returns the palette to hand to the
/// visualizer at once: the current art's colours, when the art now drives the
/// palette and there are any. A request without the setting is refused and
/// changes nothing.
pub fn apply_now_playing_settings(
    state: &mut NowPlayingRuntimeState,
    drive_visualizer_palette: Option<bool>,
    now_ms: u64,
) -> (r: Result<Option<Vec<[u8; 3]>>, UpdateError>)
    ensures
        match r {
            Err(e) => drive_visualizer_palette is None && e == UpdateError::NoDrivePalette
                && final(state)@ == old(state)@,
            Ok(palette) => {
                &&& drive_visualizer_palette is Some
                &&& final(state)@ == NowPlayingView {
                    drive_visualizer_palette: drive_visualizer_palette->0,
                    updated_at_ms: Some(now_ms),
                    ..old(state)@
                }
                &&& (palette is Some <==> drive_visualizer_palette->0
                    && old(state)@.palette_colors.len() > 0)
                &&& (palette matches Some(c) ==> c@ == old(state)@.palette_colors)
            },
        },
{
    let enabled = match drive_visualizer_palette {
        Some(e) => e,
        None => return Err(UpdateError::NoDrivePalette),
    };
    state.drive_visualizer_palette = enabled;
    state.updated_at_ms = Some(now_ms);
    if state.drive_visualizer_palette && state.palette_colors.len() > 0 {
        Ok(Some(copy_colors(&state.palette_colors)))
    } else {
        Ok(None)
    }
}

/// The views of a list of strings.
pub open spec fn strings_view(v: Seq<String>) -> Seq<Seq<char>> {
    v.map_values(|s: String| s@)
}

/// The audio backends offered: those found, with `default` put first when it is
/// not among them.
pub open spec fn offered_backends(found: Seq<Seq<char>>) -> Seq<Seq<char>> {
    if found.contains("default"@) {
        found
    } else {
        seq!["default"@] + found
    }
}

/// The audio backends to offer, given the input backends that were found.
pub fn available_audio_backends(found: Vec<String>) -> (r: Vec<String>)
    ensures
        strings_view(r@) == offered_backends(strings_view(found@)),
{
    let d = chars_of("default");
    let mut i: usize = 0;
    while i < found.len()
        invariant
            i <= found.len(),
            d@ == "default"@,
            forall|k: int| 0 <= k < i ==> found@[k]@ != "default"@,
        decreases found.len() - i,
    {
        let name = chars_of(found[i].as_str());
        if chars_eq(&name, &d) {
            proof {
                assert(strings_view(found@)[i as int] == "default"@);
            }
            return found;
        }
        i = i + 1;
    }
    proof {
        assert forall|k: int| 0 <= k < strings_view(found@).len() implies strings_view(found@)[k]
            != "default"@ by {
            assert(strings_view(found@)[k] == found@[k]@);
        }
    }
    let mut out = found;
    let ghost before = out@;
    out.insert(0, String::from_str("default"));
    proof {
        assert(strings_view(out@) =~= seq!["default"@] + strings_view(before));
    }
    out
}

/// Whether a visualizer whose audio backend failed to open retries with the
/// default backend: only when another backend was configured.
pub fn retry_with_default_backend(configured_backend: Option<&str>) -> (r: bool)
    ensures
        r == (configured_backend matches Some(name) && name@ != "default"@),
{
    match configured_backend {
        Some(name) => {
            let n = chars_of(name);
            let d = chars_of("default");
            !chars_eq(&n, &d)
        },
        None => false,
    }
}

/// The device's global orientation in degrees, from the `value` the device
/// reported (0 when none), cut to 16 bits.
pub fn orientation_degrees(value: Option<u64>) -> (r: u16)
    ensures
        r == (match value {
            Some(v) => v % 65536,
            None => 0,
        }),
{
    match value {
        Some(v) => (v % 65536) as u16,
        None => 0,
    }
}

proof fn lemma_lower_char_idempotent(c: char)
    ensures
        lower_char(lower_char(c)) == lower_char(c),
        lower_char(upper_char(c)) == lower_char(c),
{
    if is_upper(c) {
        assert(!is_upper(lower_char(c)));
    }
    if is_lower(c) {
        assert(is_upper(upper_char(c)));
        assert(lower_char(upper_char(c)) == c);
    }
}

proof fn lemma_lower_folds_case(s: Seq<char>)
    ensures
        lower(lower(s)) == lower(s),
        lower(upper(s)) == lower(s),
{
    assert forall|i: int| 0 <= i < s.len() implies lower(lower(s))[i] == lower(s)[i] && lower(upper(s))[i]
        == lower(s)[i] by {
        lemma_lower_char_idempotent(s[i]);
    }
    assert(lower(lower(s)) =~= lower(s));
    assert(lower(upper(s)) =~= lower(s));
}

/// Axis, sort and effect names are read the same in any letter case: a name
/// means what its lowercase and its uppercase spelling mean.
pub proof fn lemma_setting_names_ignore_case(s: Seq<char>)
    ensures
        axis_named(s) == axis_named(lower(s)),
        axis_named(s) == axis_named(upper(s)),
        sort_named(s) == sort_named(lower(s)),
        sort_named(s) == sort_named(upper(s)),
        effect_named(s) == effect_named(lower(s)),
        effect_named(s) == effect_named(upper(s)),
{
    lemma_lower_folds_case(s);
}

/// An accepted settings update applied twice leaves the settings as applying
/// it once does.
pub proof fn lemma_settings_update_idempotent(c: VisualizerConfigView, u: VisualizerSettingsUpdate)
    ensures
        settings_applied(settings_applied(c, u), u) == settings_applied(c, u),
{
}

/// Whatever backends are found, `default` is offered, and the found ones are
/// offered in their order.
pub proof fn lemma_default_backend_offered(found: Seq<Seq<char>>)
    ensures
        offered_backends(found).contains("default"@),
        offered_backends(found) == found || offered_backends(found) == seq!["default"@] + found,
{
    if !found.contains("default"@) {
        assert((seq!["default"@] + found)[0] == "default"@);
    }
}

/// The ordering keys of panel colours: by panel id.
pub open spec fn id_keys(entries: Seq<(u16, [u8; 3])>) -> Seq<(int, int)> {
    entries.map_values(|e: (u16, [u8; 3])| (e.0 as int, 0int))
}

/// The latest panel colours as the preview lists them: every entry once,
/// ordered by panel id (entries with the same id in their given order).
pub fn preview_panel_colors(entries: &[(u16, [u8; 3])]) -> (r: Vec<(u16, [u8; 3])>)
    ensures
        r@.len() == entries@.len(),
        forall|a: int, b: int| 0 <= a < b < r@.len() ==> (#[trigger] r@[a]).0 <= (#[trigger] r@[b]).0,
        exists|order: Seq<int>|
            is_stable_order(order, id_keys(entries@)) && forall|k: int|
                0 <= k < r@.len() ==> #[trigger] r@[k] == entries@[order[k]],
{
    let n = entries.len();
    let mut keys: Vec<(i64, i64)> = Vec::new();
    let mut i: usize = 0;
    while i < n
        invariant
            i <= n,
            n == entries@.len(),
            keys@.len() == i,
            forall|k: int| 0 <= k < i ==> #[trigger] keys@[k] == (entries@[k].0 as i64, 0i64),
        decreases n - i,
    {
        keys.push((entries[i].0 as i64, 0i64));
        i = i + 1;
    }
    let ghost ks = id_keys(entries@);
    let order = stable_order(&keys, Ghost(ks));
    let ghost m = order@.map_values(|v: usize| v as int);
    let mut r: Vec<(u16, [u8; 3])> = Vec::new();
    let mut k: usize = 0;
    while k < n
        invariant
            k <= n,
            n == entries@.len(),
            ks == id_keys(entries@),
            m == order@.map_values(|v: usize| v as int),
            is_stable_order(m, ks),
            r@.len() == k,
            forall|j: int| 0 <= j < k ==> #[trigger] r@[j] == entries@[m[j]],
        decreases n - k,
    {
        let idx = order[k];
        assert(m[k as int] == idx as int);
        r.push(entries[idx]);
        k = k + 1;
    }
    proof {
        assert forall|a: int, b: int| 0 <= a < b < r@.len() implies (#[trigger] r@[a]).0 <= (
        #[trigger] r@[b]).0 by {
            assert(crate::panels::stably_before(ks, m[a], m[b]));
            assert(ks[m[a]] == (entries@[m[a]].0 as int, 0int));
            assert(ks[m[b]] == (entries@[m[b]].0 as int, 0int));
        }
    }
    r
}

} // verus!
