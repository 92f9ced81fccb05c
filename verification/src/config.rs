//! Visualizer settings: sort axes and directions, effects, colour sources.
use vstd::prelude::*;
use crate::text::{chars_is, chars_of, lower, to_lower};
use toml::Value;
use toml::Value::{Array, Float, Integer, Table};

verus! {

/// The coordinate by which panels are ordered first.
#[derive(Clone, Copy, Debug, PartialEq, Eq, Structural)]
pub enum Axis {
    X,
    Y,
}

/// The direction of an ordering.
#[derive(Clone, Copy, Debug, PartialEq, Eq, Structural)]
pub enum Sort {
    Asc,
    Desc,
}

/// Visual effect mode of the visualizer: how audio maps to panel brightness.
#[derive(Clone, Copy, Debug, PartialEq, Eq, Structural)]
pub enum Effect {
    /// Each panel independently tracks a logarithmic frequency band.
    Spectrum,
    /// Each panel tracks its own band, and brightness bleeds into its neighbours.
    EnergyWave,
    /// Onset-triggered pulses travel outward from the first panel.
    Ripple,
}

/// Where the visualizer takes its panel colours from.
#[derive(Clone, Copy, Debug, PartialEq, Eq, Structural)]
pub enum ColorSourceKind {
    /// The palette of a Nanoleaf effect.
    Palette,
    /// Colours extracted from the album artwork of the playing track.
    Artwork,
}

impl Default for Axis {
    fn default() -> (r: Self)
        ensures
            r == Axis::Y,
    {
        Axis::Y
    }
}

impl Default for Sort {
    fn default() -> (r: Self)
        ensures
            r == Sort::Asc,
    {
        Sort::Asc
    }
}

impl Default for Effect {
    fn default() -> (r: Self)
        ensures
            r == Effect::Spectrum,
    {
        Effect::Spectrum
    }
}

impl Default for ColorSourceKind {
    fn default() -> (r: Self)
        ensures
            r == ColorSourceKind::Palette,
    {
        ColorSourceKind::Palette
    }
}

/// The axis an optional setting stands for (`Y` when unset).
pub open spec fn axis_or_default(a: Option<Axis>) -> Axis {
    match a {
        Some(a) => a,
        None => Axis::Y,
    }
}

/// The direction an optional setting stands for (`Asc` when unset).
pub open spec fn sort_or_default(s: Option<Sort>) -> Sort {
    match s {
        Some(s) => s,
        None => Sort::Asc,
    }
}

/// The effect an optional setting stands for (`Spectrum` when unset).
pub open spec fn effect_or_default(e: Option<Effect>) -> Effect {
    match e {
        Some(e) => e,
        None => Effect::Spectrum,
    }
}

/// The default audio backend: automatic loopback detection.
pub const DEFAULT_AUDIO_BACKEND: &'static str = "default";

/// The default frequency range, in Hz.
pub const DEFAULT_FREQ_RANGE: (u16, u16) = (20, 4500);

/// The default transition time, in units of 100 ms.
pub const DEFAULT_TRANSITION_TIME: u16 = 2;

/// The bits of the `f64` 1.0, the default gain.
pub const DEFAULT_GAIN_BITS: u64 = 0x3FF0_0000_0000_0000;

/// The bits of the `f64` 0.1875, the default time window in seconds.
pub const DEFAULT_TIME_WINDOW_BITS: u64 = 0x3FC8_0000_0000_0000;

/// A number of the configuration file: a float (the bits of its `f64`) or an
/// integer; the visualizer reads either as `f32`.
#[derive(Clone, Copy, Debug, PartialEq, Eq, Structural)]
pub enum ConfigNumber {
    Float(u64),
    Integer(i64),
}

/// A value of the `[visualizer_config]` table.
#[derive(Debug)]
pub enum ConfigValue {
    String(String),
    Integer(i64),
    /// A float, as the bits of its `f64`.
    Float(u64),
    /// An array: each element read as an integer where it is one, and the
    /// whole read as an array of integer arrays where it is one.
    Array(Vec<Option<i64>>, Option<Vec<Vec<i64>>>),
    /// A boolean, date-time or table.
    Other,
}

/// The contents of a `ConfigValue`.
pub ghost enum ValueView {
    String(Seq<char>),
    Integer(i64),
    Float(u64),
    Array(Seq<Option<i64>>, Option<Seq<Seq<i64>>>),
    Other,
}

/// The contents of optional rows of integers.
pub open spec fn rows_view(rows: Option<Vec<Vec<i64>>>) -> Option<Seq<Seq<i64>>> {
    match rows {
        Some(r) => Some(r@.map_values(|row: Vec<i64>| row@)),
        None => None,
    }
}

impl View for ConfigValue {
    type V = ValueView;

    open spec fn view(&self) -> ValueView {
        match self {
            ConfigValue::String(s) => ValueView::String(s@),
            ConfigValue::Integer(i) => ValueView::Integer(*i),
            ConfigValue::Float(b) => ValueView::Float(*b),
            ConfigValue::Array(a, rows) => ValueView::Array(a@, rows_view(*rows)),
            ConfigValue::Other => ValueView::Other,
        }
    }
}

/// A value at the top of the configuration file.
#[derive(Debug)]
pub enum TopValue {
    String(String),
    Table(Vec<(String, ConfigValue)>),
    Other,
}

/// The contents of a `TopValue`.
pub ghost enum TopView {
    String(Seq<char>),
    Table(Seq<(Seq<char>, ValueView)>),
    Other,
}

/// The contents of the entries of a table.
pub open spec fn entries_view(t: Seq<(String, ConfigValue)>) -> Seq<(Seq<char>, ValueView)> {
    t.map_values(|e: (String, ConfigValue)| (e.0@, e.1@))
}

impl View for TopValue {
    type V = TopView;

    open spec fn view(&self) -> TopView {
        match self {
            TopValue::String(s) => TopView::String(s@),
            TopValue::Table(t) => TopView::Table(entries_view(t@)),
            TopValue::Other => TopView::Other,
        }
    }
}

/// The visualizer's settings.
#[derive(Debug)]
pub struct VisualizerConfig {
    pub audio_backend: Option<String>,
    pub freq_range: Option<(u16, u16)>,
    pub color_source: Option<ColorSourceKind>,
    /// Name of a Nanoleaf effect whose palette is used; unset means the device's
    /// current effect. Ignored when colours come from artwork.
    pub palette_name: Option<String>,
    pub default_gain: Option<ConfigNumber>,
    pub transition_time: Option<u16>,
    pub time_window: Option<ConfigNumber>,
    pub primary_axis: Option<Axis>,
    pub sort_primary: Option<Sort>,
    pub sort_secondary: Option<Sort>,
    pub effect: Option<Effect>,
}

/// The contents of a `VisualizerConfig`.
pub ghost struct VisualizerConfigView {
    pub audio_backend: Option<Seq<char>>,
    pub freq_range: Option<(u16, u16)>,
    pub color_source: Option<ColorSourceKind>,
    pub palette_name: Option<Seq<char>>,
    pub default_gain: Option<ConfigNumber>,
    pub transition_time: Option<u16>,
    pub time_window: Option<ConfigNumber>,
    pub primary_axis: Option<Axis>,
    pub sort_primary: Option<Sort>,
    pub sort_secondary: Option<Sort>,
    pub effect: Option<Effect>,
}

/// The view of an optional string.
pub open spec fn opt_str(o: Option<String>) -> Option<Seq<char>> {
    match o {
        Some(s) => Some(s@),
        None => None,
    }
}

impl View for VisualizerConfig {
    type V = VisualizerConfigView;

    open spec fn view(&self) -> VisualizerConfigView {
        VisualizerConfigView {
            audio_backend: opt_str(self.audio_backend),
            freq_range: self.freq_range,
            color_source: self.color_source,
            palette_name: opt_str(self.palette_name),
            default_gain: self.default_gain,
            transition_time: self.transition_time,
            time_window: self.time_window,
            primary_axis: self.primary_axis,
            sort_primary: self.sort_primary,
            sort_secondary: self.sort_secondary,
            effect: self.effect,
        }
    }
}

/// The default settings: the `default` backend, 20-4500 Hz, colours from the
/// device's palette, gain 1, transitions of 200 ms, a 0.1875 s window, panels
/// ordered by `Y` then `X` ascending, the spectrum effect.
pub open spec fn default_visualizer_config() -> VisualizerConfigView {
    VisualizerConfigView {
        audio_backend: Some("default"@),
        freq_range: Some((20, 4500)),
        color_source: Some(ColorSourceKind::Palette),
        palette_name: None,
        default_gain: Some(ConfigNumber::Float(DEFAULT_GAIN_BITS)),
        transition_time: Some(2),
        time_window: Some(ConfigNumber::Float(DEFAULT_TIME_WINDOW_BITS)),
        primary_axis: Some(Axis::Y),
        sort_primary: Some(Sort::Asc),
        sort_secondary: Some(Sort::Asc),
        effect: Some(Effect::Spectrum),
    }
}

impl Default for VisualizerConfig {
    fn default() -> (r: Self)
        ensures
            r@ == default_visualizer_config(),
    {
        VisualizerConfig {
            audio_backend: Some(String::from_str(DEFAULT_AUDIO_BACKEND)),
            freq_range: Some(DEFAULT_FREQ_RANGE),
            color_source: Some(ColorSourceKind::Palette),
            palette_name: None,
            default_gain: Some(ConfigNumber::Float(DEFAULT_GAIN_BITS)),
            transition_time: Some(DEFAULT_TRANSITION_TIME),
            time_window: Some(ConfigNumber::Float(DEFAULT_TIME_WINDOW_BITS)),
            primary_axis: Some(Axis::Y),
            sort_primary: Some(Sort::Asc),
            sort_secondary: Some(Sort::Asc),
            effect: Some(Effect::Spectrum),
        }
    }
}

/// Why a configuration is refused.
#[derive(Debug)]
pub enum ConfigError {
    /// The file is not valid TOML; the parser's message.
    Syntax(String),
    /// `freq_range` is not a 2-element integer array.
    FreqRangeShape,
    /// A bound of `freq_range` is not a `u16`.
    FreqRangeOutOfRange,
    /// `color_source` is neither `palette` nor `artwork` (the given text).
    InvalidColorSource(String),
    /// `transition_time` is not a `u16`.
    TransitionTimeOutOfRange,
    /// `primary_axis` is neither `X` nor `Y`.
    InvalidAxis,
    /// A sort is neither `Asc` nor `Desc`.
    InvalidSort,
    /// `effect` names no effect (the given text).
    InvalidEffect(String),
    /// `colors` is neither the name of a palette nor an array of `[R, G, B]`
    /// triplets with each channel in 0-255.
    InvalidColors,
    /// A key that is unknown, or whose value has the wrong type.
    InvalidKey(String),
}

/// The contents of a `ConfigError`.
pub ghost enum ConfigErrorView {
    Syntax(Seq<char>),
    FreqRangeShape,
    FreqRangeOutOfRange,
    InvalidColorSource(Seq<char>),
    TransitionTimeOutOfRange,
    InvalidAxis,
    InvalidSort,
    InvalidEffect(Seq<char>),
    InvalidColors,
    InvalidKey(Seq<char>),
}

impl View for ConfigError {
    type V = ConfigErrorView;

    open spec fn view(&self) -> ConfigErrorView {
        match self {
            ConfigError::Syntax(s) => ConfigErrorView::Syntax(s@),
            ConfigError::FreqRangeShape => ConfigErrorView::FreqRangeShape,
            ConfigError::FreqRangeOutOfRange => ConfigErrorView::FreqRangeOutOfRange,
            ConfigError::InvalidColorSource(s) => ConfigErrorView::InvalidColorSource(s@),
            ConfigError::TransitionTimeOutOfRange => ConfigErrorView::TransitionTimeOutOfRange,
            ConfigError::InvalidAxis => ConfigErrorView::InvalidAxis,
            ConfigError::InvalidSort => ConfigErrorView::InvalidSort,
            ConfigError::InvalidEffect(s) => ConfigErrorView::InvalidEffect(s@),
            ConfigError::InvalidColors => ConfigErrorView::InvalidColors,
            ConfigError::InvalidKey(s) => ConfigErrorView::InvalidKey(s@),
        }
    }
}

/// The effect a name stands for in the configuration file.
pub open spec fn effect_name(s: Seq<char>) -> Option<Effect> {
    if s == "Spectrum"@ || s == "spectrum"@ {
        Some(Effect::Spectrum)
    } else if s == "EnergyWave"@ || s == "energy_wave"@ || s == "energy-wave"@ {
        Some(Effect::EnergyWave)
    } else if s == "Ripple"@ || s == "ripple"@ {
        Some(Effect::Ripple)
    } else {
        None
    }
}

/// A sort direction in the configuration file.
pub open spec fn sort_name(s: Seq<char>) -> Option<Sort> {
    if s == "Asc"@ {
        Some(Sort::Asc)
    } else if s == "Desc"@ {
        Some(Sort::Desc)
    } else {
        None
    }
}

/// The names of the predefined palettes.
pub open spec fn palette_name_known(s: Seq<char>) -> bool {
    ||| s == "ocean-nightclub"@
    ||| s == "sunset"@
    ||| s == "house-music-party"@
    ||| s == "tropical-beach"@
    ||| s == "fire"@
    ||| s == "forest"@
    ||| s == "neon-rainbow"@
    ||| s == "pink-dreams"@
    ||| s == "cool-blues"@
    ||| s == "tmnt"@
    ||| s == "christmas"@
}

/// Whether a row is an `[R, G, B]` triplet with each channel in 0-255.
pub open spec fn rgb_triplet(row: Seq<i64>) -> bool {
    row.len() == 3 && 0 <= row[0] <= 255 && 0 <= row[1] <= 255 && 0 <= row[2] <= 255
}

/// Whether every row is an `[R, G, B]` triplet.
pub open spec fn all_rgb_triplets(rows: Seq<Seq<i64>>) -> bool {
    forall|i: int| 0 <= i < rows.len() ==> #[trigger] rgb_triplet(rows[i])
}

/// Whether a `colors` value is acceptable: the name of a predefined palette, or
/// an array of `[R, G, B]` triplets with each channel in 0-255.
pub open spec fn colors_acceptable(val: ValueView) -> bool {
    match val {
        ValueView::String(s) => palette_name_known(s),
        ValueView::Array(_, Some(rows)) => all_rgb_triplets(rows),
        _ => false,
    }
}

/// Whether an integer fits a `u16`.
pub open spec fn fits_u16(v: i64) -> bool {
    0 <= v <= 65535
}

/// The settings after one `[visualizer_config]` entry, or why it is refused: each
/// known key with a value of its type sets its setting, anything else is an
/// invalid key. `colors` is checked (a palette name or `[R, G, B]` triplets) and
/// then left aside, as the palette now comes from the device; `hues`, no longer
/// used, is ignored.
pub open spec fn apply_entry(v: VisualizerConfigView, key: Seq<char>, val: ValueView) -> Result<VisualizerConfigView, ConfigErrorView> {
    if key == "hues"@ {
        Ok(v)
    } else if key == "colors"@ {
        if colors_acceptable(val) {
            Ok(v)
        } else {
            Err(ConfigErrorView::InvalidColors)
        }
    } else {
        match val {
            ValueView::String(s) => if key == "audio_backend"@ {
                Ok(VisualizerConfigView { audio_backend: Some(s), ..v })
            } else if key == "color_source"@ {
                if lower(s) == "palette"@ {
                    Ok(VisualizerConfigView { color_source: Some(ColorSourceKind::Palette), ..v })
                } else if lower(s) == "artwork"@ {
                    Ok(VisualizerConfigView { color_source: Some(ColorSourceKind::Artwork), ..v })
                } else {
                    Err(ConfigErrorView::InvalidColorSource(s))
                }
            } else if key == "palette_name"@ {
                Ok(VisualizerConfigView { palette_name: Some(s), ..v })
            } else if key == "primary_axis"@ {
                if s == "X"@ {
                    Ok(VisualizerConfigView { primary_axis: Some(Axis::X), ..v })
                } else if s == "Y"@ {
                    Ok(VisualizerConfigView { primary_axis: Some(Axis::Y), ..v })
                } else {
                    Err(ConfigErrorView::InvalidAxis)
                }
            } else if key == "sort_primary"@ {
                match sort_name(s) {
                    Some(d) => Ok(VisualizerConfigView { sort_primary: Some(d), ..v }),
                    None => Err(ConfigErrorView::InvalidSort),
                }
            } else if key == "sort_secondary"@ {
                match sort_name(s) {
                    Some(d) => Ok(VisualizerConfigView { sort_secondary: Some(d), ..v }),
                    None => Err(ConfigErrorView::InvalidSort),
                }
            } else if key == "effect"@ {
                match effect_name(s) {
                    Some(e) => Ok(VisualizerConfigView { effect: Some(e), ..v }),
                    None => Err(ConfigErrorView::InvalidEffect(s)),
                }
            } else {
                Err(ConfigErrorView::InvalidKey(key))
            },
            ValueView::Array(a, _) => if key == "freq_range"@ {
                if a.len() != 2 {
                    Err(ConfigErrorView::FreqRangeShape)
                } else {
                    match (a[0], a[1]) {
                        (Some(lo), Some(hi)) => if fits_u16(lo) && fits_u16(hi) {
                            Ok(VisualizerConfigView { freq_range: Some((lo as u16, hi as u16)), ..v })
                        } else {
                            Err(ConfigErrorView::FreqRangeOutOfRange)
                        },
                        _ => Err(ConfigErrorView::FreqRangeShape),
                    }
                }
            } else {
                Err(ConfigErrorView::InvalidKey(key))
            },
            ValueView::Float(b) => if key == "default_gain"@ {
                Ok(VisualizerConfigView { default_gain: Some(ConfigNumber::Float(b)), ..v })
            } else if key == "time_window"@ {
                Ok(VisualizerConfigView { time_window: Some(ConfigNumber::Float(b)), ..v })
            } else {
                Err(ConfigErrorView::InvalidKey(key))
            },
            ValueView::Integer(i) => if key == "default_gain"@ {
                Ok(VisualizerConfigView { default_gain: Some(ConfigNumber::Integer(i)), ..v })
            } else if key == "transition_time"@ {
                if fits_u16(i) {
                    Ok(VisualizerConfigView { transition_time: Some(i as u16), ..v })
                } else {
                    Err(ConfigErrorView::TransitionTimeOutOfRange)
                }
            } else {
                Err(ConfigErrorView::InvalidKey(key))
            },
            ValueView::Other => Err(ConfigErrorView::InvalidKey(key)),
        }
    }
}

/// The settings after the entries of a table, in order, stopping at the first
/// refused one.
pub open spec fn apply_entries(v: VisualizerConfigView, entries: Seq<(Seq<char>, ValueView)>) -> Result<VisualizerConfigView, ConfigErrorView>
    decreases entries.len(),
{
    if entries.len() == 0 {
        Ok(v)
    } else {
        match apply_entries(v, entries.drop_last()) {
            Ok(w) => apply_entry(w, entries.last().0, entries.last().1),
            Err(e) => Err(e),
        }
    }
}

fn parse_sort(s: &[char]) -> (r: Option<Sort>)
    ensures
        r == sort_name(s@),
{
    if chars_is(s, "Asc") {
        Some(Sort::Asc)
    } else if chars_is(s, "Desc") {
        Some(Sort::Desc)
    } else {
        None
    }
}

fn parse_effect_name(s: &[char]) -> (r: Option<Effect>)
    ensures
        r == effect_name(s@),
{
    if chars_is(s, "Spectrum") || chars_is(s, "spectrum") {
        Some(Effect::Spectrum)
    } else if chars_is(s, "EnergyWave") || chars_is(s, "energy_wave") || chars_is(s, "energy-wave") {
        Some(Effect::EnergyWave)
    } else if chars_is(s, "Ripple") || chars_is(s, "ripple") {
        Some(Effect::Ripple)
    } else {
        None
    }
}

fn is_palette_name(s: &[char]) -> (r: bool)
    ensures
        r == palette_name_known(s@),
{
    chars_is(s, "ocean-nightclub") || chars_is(s, "sunset") || chars_is(s, "house-music-party")
        || chars_is(s, "tropical-beach") || chars_is(s, "fire") || chars_is(s, "forest")
        || chars_is(s, "neon-rainbow") || chars_is(s, "pink-dreams") || chars_is(s, "cool-blues")
        || chars_is(s, "tmnt") || chars_is(s, "christmas")
}

fn is_rgb_triplet(row: &Vec<i64>) -> (r: bool)
    ensures
        r == rgb_triplet(row@),
{
    row.len() == 3 && 0 <= row[0] && row[0] <= 255 && 0 <= row[1] && row[1] <= 255 && 0 <= row[2]
        && row[2] <= 255
}

/// Checks a `colors` value (see `colors_acceptable`).
fn colors_ok(val: &ConfigValue) -> (r: bool)
    ensures
        r == colors_acceptable(val@),
{
    match val {
        ConfigValue::String(s) => is_palette_name(&chars_of(s.as_str())),
        ConfigValue::Array(_, Some(rows)) => {
            let ghost rv = rows@.map_values(|row: Vec<i64>| row@);
            let mut i: usize = 0;
            while i < rows.len()
                invariant
                    i <= rows@.len(),
                    rv == rows@.map_values(|row: Vec<i64>| row@),
                    colors_acceptable(val@) == all_rgb_triplets(rv),
                    forall|j: int| 0 <= j < i ==> #[trigger] rgb_triplet(rv[j]),
                decreases rows.len() - i,
            {
                if !is_rgb_triplet(&rows[i]) {
                    assert(rv.len() == rows@.len());
                    assert(rv[i as int] == rows@[i as int]@);
                    assert(!all_rgb_triplets(rv));
                    return false;
                }
                i = i + 1;
            }
            assert(rv.len() == rows@.len());
            assert(all_rgb_triplets(rv));
            true
        },
        _ => false,
    }
}

fn copy_string(s: &String) -> (r: String)
    ensures
        r@ == s@,
{
    s.clone()
}

impl VisualizerConfig {
    fn apply(&mut self, key: &String, val: &ConfigValue) -> (r: Result<(), ConfigError>)
        ensures
            match apply_entry(old(self)@, key@, val@) {
                Ok(w) => r is Ok && final(self)@ == w,
                Err(e) => r matches Err(err) && err@ == e && final(self)@ == old(self)@,
            },
    {
        let k = chars_of(key.as_str());
        if chars_is(&k, "hues") {
            return Ok(());
        }
        if chars_is(&k, "colors") {
            if colors_ok(val) {
                return Ok(());
            }
            return Err(ConfigError::InvalidColors);
        }
        match val {
            ConfigValue::String(s) => {
                let sc = chars_of(s.as_str());
                if chars_is(&k, "audio_backend") {
                    self.audio_backend = Some(copy_string(s));
                } else if chars_is(&k, "color_source") {
                    let l = to_lower(&sc);
                    if chars_is(&l, "palette") {
                        self.color_source = Some(ColorSourceKind::Palette);
                    } else if chars_is(&l, "artwork") {
                        self.color_source = Some(ColorSourceKind::Artwork);
                    } else {
                        return Err(ConfigError::InvalidColorSource(copy_string(s)));
                    }
                } else if chars_is(&k, "palette_name") {
                    self.palette_name = Some(copy_string(s));
                } else if chars_is(&k, "primary_axis") {
                    if chars_is(&sc, "X") {
                        self.primary_axis = Some(Axis::X);
                    } else if chars_is(&sc, "Y") {
                        self.primary_axis = Some(Axis::Y);
                    } else {
                        return Err(ConfigError::InvalidAxis);
                    }
                } else if chars_is(&k, "sort_primary") {
                    match parse_sort(&sc) {
                        Some(d) => {
                            self.sort_primary = Some(d);
                        },
                        None => {
                            return Err(ConfigError::InvalidSort);
                        },
                    }
                } else if chars_is(&k, "sort_secondary") {
                    match parse_sort(&sc) {
                        Some(d) => {
                            self.sort_secondary = Some(d);
                        },
                        None => {
                            return Err(ConfigError::InvalidSort);
                        },
                    }
                } else if chars_is(&k, "effect") {
                    match parse_effect_name(&sc) {
                        Some(e) => {
                            self.effect = Some(e);
                        },
                        None => {
                            return Err(ConfigError::InvalidEffect(copy_string(s)));
                        },
                    }
                } else {
                    return Err(ConfigError::InvalidKey(copy_string(key)));
                }
                Ok(())
            },
            ConfigValue::Array(a, _) => {
                if !chars_is(&k, "freq_range") {
                    return Err(ConfigError::InvalidKey(copy_string(key)));
                }
                if a.len() != 2 {
                    return Err(ConfigError::FreqRangeShape);
                }
                match (a[0], a[1]) {
                    (Some(lo), Some(hi)) => {
                        if 0 <= lo && lo <= 65535 && 0 <= hi && hi <= 65535 {
                            self.freq_range = Some((lo as u16, hi as u16));
                            Ok(())
                        } else {
                            Err(ConfigError::FreqRangeOutOfRange)
                        }
                    },
                    _ => Err(ConfigError::FreqRangeShape),
                }
            },
            ConfigValue::Float(b) => {
                if chars_is(&k, "default_gain") {
                    self.default_gain = Some(ConfigNumber::Float(*b));
                    Ok(())
                } else if chars_is(&k, "time_window") {
                    self.time_window = Some(ConfigNumber::Float(*b));
                    Ok(())
                } else {
                    Err(ConfigError::InvalidKey(copy_string(key)))
                }
            },
            ConfigValue::Integer(i) => {
                if chars_is(&k, "default_gain") {
                    self.default_gain = Some(ConfigNumber::Integer(*i));
                    Ok(())
                } else if chars_is(&k, "transition_time") {
                    if 0 <= *i && *i <= 65535 {
                        self.transition_time = Some(*i as u16);
                        Ok(())
                    } else {
                        Err(ConfigError::TransitionTimeOutOfRange)
                    }
                } else {
                    Err(ConfigError::InvalidKey(copy_string(key)))
                }
            },
            ConfigValue::Other => Err(ConfigError::InvalidKey(copy_string(key))),
        }
    }

    /// Applies the entries of a `[visualizer_config]` table in order (see
    /// `apply_entries`). At the first refused entry it stops with that entry's
    /// error, the settings as the entries before it left them.
    pub fn parse_visualizer_config(&mut self, t: &Vec<(String, ConfigValue)>) -> (r: Result<(), ConfigError>)
        ensures
            match apply_entries(old(self)@, entries_view(t@)) {
                Ok(w) => r is Ok && final(self)@ == w,
                Err(e) => r matches Err(err) && err@ == e && exists|k: int|
                    0 <= k < t@.len() && #[trigger] apply_entries(
                        old(self)@,
                        entries_view(t@).subrange(0, k),
                    ) == Ok::<VisualizerConfigView, ConfigErrorView>(final(self)@) && apply_entry(
                        final(self)@,
                        entries_view(t@)[k].0,
                        entries_view(t@)[k].1,
                    ) == Err::<VisualizerConfigView, ConfigErrorView>(e),
            },
    {
        let ghost start = self@;
        let mut i: usize = 0;
        while i < t.len()
            invariant
                i <= t@.len(),
                start == old(self)@,
                apply_entries(start, entries_view(t@.subrange(0, i as int))) == Ok::<
                    VisualizerConfigView,
                    ConfigErrorView,
                >(self@),
            decreases t.len() - i,
        {
            let ghost before = self@;
            proof {
                let e = entries_view(t@.subrange(0, i + 1));
                assert(e.drop_last() =~= entries_view(t@.subrange(0, i as int)));
                assert(e.last() == (t@[i as int].0@, t@[i as int].1@));
            }
            match self.apply(&t[i].0, &t[i].1) {
                Ok(()) => {},
                Err(e) => {
                    proof {
                        let e1 = entries_view(t@.subrange(0, i + 1));
                        assert(apply_entries(start, e1.drop_last()) == Ok::<
                            VisualizerConfigView,
                            ConfigErrorView,
                        >(before));
                        assert(apply_entries(start, e1) == apply_entry(before, e1.last().0, e1.last().1));
                        assert(entries_view(t@).subrange(0, i + 1) =~= entries_view(
                            t@.subrange(0, i + 1),
                        ));
                        lemma_apply_entries_stops(start, entries_view(t@), i as int + 1);
                        assert(entries_view(t@).subrange(0, i as int) =~= entries_view(
                            t@.subrange(0, i as int),
                        ));
                        assert(entries_view(t@)[i as int] == e1.last());
                    }
                    return Err(e);
                },
            }
            i = i + 1;
        }
        assert(t@.subrange(0, t.len() as int) =~= t@);
        Ok(())
    }
}

/// Once a prefix of the entries is refused, so is the whole table, with that error.
pub proof fn lemma_apply_entries_stops(v: VisualizerConfigView, entries: Seq<(Seq<char>, ValueView)>, k: int)
    requires
        0 <= k <= entries.len(),
        apply_entries(v, entries.subrange(0, k)) is Err,
    ensures
        apply_entries(v, entries) == apply_entries(v, entries.subrange(0, k)),
    decreases entries.len() - k,
{
    if k == entries.len() {
        assert(entries.subrange(0, k) =~= entries);
    } else {
        assert(entries.subrange(0, k + 1).drop_last() =~= entries.subrange(0, k));
        lemma_apply_entries_stops(v, entries, k + 1);
    }
}

/// The entries of a TOML document as its text parses: the top-level keys in the
/// parser's order with their values, or the parser's error message.
pub uninterp spec fn toml_config_entries(text: Seq<char>) -> Result<Seq<(Seq<char>, TopView)>, Seq<char>>;

/// The contents of a list of top-level entries.
pub open spec fn top_entries_view(t: Seq<(String, TopValue)>) -> Seq<(Seq<char>, TopView)> {
    t.map_values(|e: (String, TopValue)| (e.0@, e.1@))
}

/// `toml::from_str` into a `toml::Table`: the top-level entries of the document (strings,
/// tables of values, anything else), or the parser's message.
#[verifier::external_body]
pub(crate) fn parse_toml_document(text: &str) -> (r: Result<Vec<(String, TopValue)>, String>)
    ensures
        match r {
            Ok(v) => toml_config_entries(text@) == Ok::<Seq<(Seq<char>, TopView)>, Seq<char>>(
                top_entries_view(v@),
            ),
            Err(m) => toml_config_entries(text@) == Err::<Seq<(Seq<char>, TopView)>, Seq<char>>(m@),
        },
{
    Ok(toml::from_str::<toml::Table>(text).map_err(|e| e.to_string())?.into_iter().map(|(k, v)| (k, match v {
        Value::String(s) => TopValue::String(s),
        Table(t) => TopValue::Table(t.into_iter().map(|(k, v)| (k, match v {
            Value::String(s) => ConfigValue::String(s),
            Integer(i) => ConfigValue::Integer(i),
            Float(f) => ConfigValue::Float(f.to_bits()),
            Array(ref a) => ConfigValue::Array(a.iter().map(Value::as_integer).collect(), v.try_into().ok()),
            _ => ConfigValue::Other,
        })).collect()),
        _ => TopValue::Other,
    })).collect())
}

/// The application configuration.
#[derive(Debug)]
pub struct Config {
    pub default_nl_device_name: Option<String>,
    pub visualizer_config: VisualizerConfig,
}

/// The contents of a `Config`.
pub ghost struct ConfigView {
    pub default_nl_device_name: Option<Seq<char>>,
    pub visualizer_config: VisualizerConfigView,
}

impl View for Config {
    type V = ConfigView;

    open spec fn view(&self) -> ConfigView {
        ConfigView {
            default_nl_device_name: opt_str(self.default_nl_device_name),
            visualizer_config: self.visualizer_config@,
        }
    }
}

/// The configuration after one top-level entry, or why it is refused: the default
/// device name, the `[visualizer_config]` table, and the legacy `[tui_config]`
/// table (ignored); anything else is an invalid key.
pub open spec fn apply_top_entry(c: ConfigView, key: Seq<char>, val: TopView) -> Result<ConfigView, ConfigErrorView> {
    match val {
        TopView::String(s) => if key == "default_nl_device_name"@ {
            Ok(ConfigView { default_nl_device_name: Some(s), ..c })
        } else {
            Err(ConfigErrorView::InvalidKey(key))
        },
        TopView::Table(t) => if key == "tui_config"@ {
            Ok(c)
        } else if key == "visualizer_config"@ {
            match apply_entries(c.visualizer_config, t) {
                Ok(v) => Ok(ConfigView { visualizer_config: v, ..c }),
                Err(e) => Err(e),
            }
        } else {
            Err(ConfigErrorView::InvalidKey(key))
        },
        TopView::Other => Err(ConfigErrorView::InvalidKey(key)),
    }
}

/// The configuration after the top-level entries, in order, stopping at the first
/// refused one.
pub open spec fn apply_top_entries(c: ConfigView, entries: Seq<(Seq<char>, TopView)>) -> Result<ConfigView, ConfigErrorView>
    decreases entries.len(),
{
    if entries.len() == 0 {
        Ok(c)
    } else {
        match apply_top_entries(c, entries.drop_last()) {
            Ok(w) => apply_top_entry(w, entries.last().0, entries.last().1),
            Err(e) => Err(e),
        }
    }
}

/// The configuration a document's text holds: its entries applied to the
/// defaults (no default device, default visualizer settings), or the parser's
/// message as a syntax error.
pub open spec fn config_text_spec(text: Seq<char>) -> Result<ConfigView, ConfigErrorView> {
    match toml_config_entries(text) {
        Ok(entries) => apply_top_entries(
            ConfigView { default_nl_device_name: None, visualizer_config: default_visualizer_config() },
            entries,
        ),
        Err(m) => Err(ConfigErrorView::Syntax(m)),
    }
}

proof fn lemma_apply_top_entries_stops(c: ConfigView, entries: Seq<(Seq<char>, TopView)>, k: int)
    requires
        0 <= k <= entries.len(),
        apply_top_entries(c, entries.subrange(0, k)) is Err,
    ensures
        apply_top_entries(c, entries) == apply_top_entries(c, entries.subrange(0, k)),
    decreases entries.len() - k,
{
    if k == entries.len() {
        assert(entries.subrange(0, k) =~= entries);
    } else {
        assert(entries.subrange(0, k + 1).drop_last() =~= entries.subrange(0, k));
        lemma_apply_top_entries_stops(c, entries, k + 1);
    }
}

impl Config {
    /// A configuration with the given default device, and the given visualizer
    /// settings or else the defaults.
    pub fn new(default_nl_device_name: Option<String>, visualizer_config: Option<VisualizerConfig>) -> (r: Self)
        ensures
            r@.default_nl_device_name == opt_str(default_nl_device_name),
            r@.visualizer_config == match visualizer_config {
                Some(v) => v@,
                None => default_visualizer_config(),
            },
    {
        let visualizer_config = match visualizer_config {
            Some(v) => v,
            None => VisualizerConfig::default(),
        };
        Config { default_nl_device_name, visualizer_config }
    }

    /// Reads the configuration from the top-level entries of its document (see
    /// `apply_top_entries`), starting from the defaults.
    pub fn from_entries(entries: &Vec<(String, TopValue)>) -> (r: Result<Config, ConfigError>)
        ensures
            match apply_top_entries(
                ConfigView { default_nl_device_name: None, visualizer_config: default_visualizer_config() },
                top_entries_view(entries@),
            ) {
                Ok(c) => r matches Ok(cfg) && cfg@ == c,
                Err(e) => r matches Err(err) && err@ == e,
            },
    {
        let mut config = Config::new(None, None);
        let ghost start = config@;
        let mut i: usize = 0;
        while i < entries.len()
            invariant
                i <= entries@.len(),
                start == (ConfigView {
                    default_nl_device_name: None,
                    visualizer_config: default_visualizer_config(),
                }),
                apply_top_entries(start, top_entries_view(entries@.subrange(0, i as int))) == Ok::<
                    ConfigView,
                    ConfigErrorView,
                >(config@),
            decreases entries.len() - i,
        {
            let ghost before = config@;
            proof {
                let e = top_entries_view(entries@.subrange(0, i + 1));
                assert(e.drop_last() =~= top_entries_view(entries@.subrange(0, i as int)));
                assert(e.last() == (entries@[i as int].0@, entries@[i as int].1@));
                assert(apply_top_entries(start, e) == apply_top_entry(before, e.last().0, e.last().1));
                assert(top_entries_view(entries@).subrange(0, i + 1) =~= e);
            }
            let key = chars_of(entries[i].0.as_str());
            let step: Result<(), ConfigError> = match &entries[i].1 {
                TopValue::String(s) => {
                    if chars_is(&key, "default_nl_device_name") {
                        config.default_nl_device_name = Some(copy_string(s));
                        Ok(())
                    } else {
                        Err(ConfigError::InvalidKey(copy_string(&entries[i].0)))
                    }
                },
                TopValue::Table(t) => {
                    if chars_is(&key, "tui_config") {
                        Ok(())
                    } else if chars_is(&key, "visualizer_config") {
                        config.visualizer_config.parse_visualizer_config(t)
                    } else {
                        Err(ConfigError::InvalidKey(copy_string(&entries[i].0)))
                    }
                },
                TopValue::Other => Err(ConfigError::InvalidKey(copy_string(&entries[i].0))),
            };
            match step {
                Ok(()) => {},
                Err(e) => {
                    proof {
                        lemma_apply_top_entries_stops(start, top_entries_view(entries@), i as int + 1);
                    }
                    return Err(e);
                },
            }
            i = i + 1;
        }
        assert(entries@.subrange(0, entries.len() as int) =~= entries@);
        Ok(config)
    }

    /// Reads the configuration from the text of its file (see `config_text_spec`).
    pub fn parse_config_text(text: &str) -> (r: Result<Config, ConfigError>)
        ensures
            match config_text_spec(text@) {
                Ok(c) => r matches Ok(cfg) && cfg@ == c,
                Err(e) => r matches Err(err) && err@ == e,
            },
    {
        match parse_toml_document(text) {
            Ok(entries) => Config::from_entries(&entries),
            Err(m) => Err(ConfigError::Syntax(m)),
        }
    }
}

/// The sort directions of the configuration file, for either sort key and
/// whatever the settings were: `Asc` sets ascending and `Desc` descending, and
/// nothing else changes. Two different names never read as the same direction.
pub proof fn lemma_sort_names(v: VisualizerConfigView, a: Seq<char>, b: Seq<char>)
    ensures
        apply_entry(v, "sort_primary"@, ValueView::String("Asc"@)) == Ok::<VisualizerConfigView, ConfigErrorView>(
            VisualizerConfigView { sort_primary: Some(Sort::Asc), ..v },
        ),
        apply_entry(v, "sort_primary"@, ValueView::String("Desc"@)) == Ok::<VisualizerConfigView, ConfigErrorView>(
            VisualizerConfigView { sort_primary: Some(Sort::Desc), ..v },
        ),
        apply_entry(v, "sort_secondary"@, ValueView::String("Asc"@)) == Ok::<VisualizerConfigView, ConfigErrorView>(
            VisualizerConfigView { sort_secondary: Some(Sort::Asc), ..v },
        ),
        apply_entry(v, "sort_secondary"@, ValueView::String("Desc"@)) == Ok::<VisualizerConfigView, ConfigErrorView>(
            VisualizerConfigView { sort_secondary: Some(Sort::Desc), ..v },
        ),
        sort_name(a) is Some && sort_name(a) == sort_name(b) ==> a == b,
{
    reveal_strlit("Asc");
    reveal_strlit("Desc");
    reveal_strlit("sort_primary");
    reveal_strlit("sort_secondary");
    reveal_strlit("hues");
    reveal_strlit("colors");
    reveal_strlit("audio_backend");
    reveal_strlit("color_source");
    reveal_strlit("palette_name");
    reveal_strlit("primary_axis");
    assert("Asc"@.len() != "Desc"@.len());
    assert("sort_primary"@[5] != "sort_secondary"@[5]);
    assert("sort_primary"@ != "primary_axis"@ && "sort_secondary"@ != "primary_axis"@) by {
        assert("sort_primary"@[0] != "primary_axis"@[0]);
        assert("sort_secondary"@[0] != "primary_axis"@[0]);
    }
    assert("sort_primary"@[0] != "audio_backend"@[0] && "sort_primary"@[0] != "color_source"@[0]
        && "sort_primary"@[0] != "palette_name"@[0] && "sort_primary"@[0] != "hues"@[0]
        && "sort_primary"@[0] != "colors"@[0]);
}

/// The axis names of the configuration file, whatever the settings were: `X`
/// sets the X axis and `Y` the Y axis, and nothing else changes.
pub proof fn lemma_axis_names(v: VisualizerConfigView)
    ensures
        apply_entry(v, "primary_axis"@, ValueView::String("X"@)) == Ok::<VisualizerConfigView, ConfigErrorView>(
            VisualizerConfigView { primary_axis: Some(Axis::X), ..v },
        ),
        apply_entry(v, "primary_axis"@, ValueView::String("Y"@)) == Ok::<VisualizerConfigView, ConfigErrorView>(
            VisualizerConfigView { primary_axis: Some(Axis::Y), ..v },
        ),
{
    reveal_strlit("X");
    reveal_strlit("Y");
    reveal_strlit("hues");
    reveal_strlit("colors");
    reveal_strlit("audio_backend");
    reveal_strlit("color_source");
    reveal_strlit("palette_name");
    reveal_strlit("primary_axis");
    assert("X"@[0] != "Y"@[0]);
    assert("primary_axis"@[0] != "audio_backend"@[0] && "primary_axis"@[0] != "color_source"@[0]
        && "primary_axis"@[1] != "palette_name"@[1] && "primary_axis"@[0] != "hues"@[0]
        && "primary_axis"@[0] != "colors"@[0]);
}

} // verus!
