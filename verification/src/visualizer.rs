//! The control side of the visualizer thread: its settings, how each control
//! message changes them and what it asks of the panels, and the bookkeeping of
//! audio buffering and restarts.
use vstd::prelude::*;
use crate::config::{effect_or_default, Axis, Effect, Sort, DEFAULT_FREQ_RANGE, DEFAULT_TRANSITION_TIME};
use crate::metadata::copy_colors;

verus! {

/// The palette used where no colours are given: twelve hues from golden
/// through red, pink and violet to sky blue.
pub open spec fn default_colors_spec() -> Seq<[u8; 3]> {
    seq![
        [255u8, 213u8, 0u8],
        [255u8, 128u8, 0u8],
        [255u8, 43u8, 0u8],
        [255u8, 0u8, 43u8],
        [255u8, 0u8, 128u8],
        [255u8, 0u8, 213u8],
        [213u8, 0u8, 255u8],
        [128u8, 0u8, 255u8],
        [43u8, 0u8, 255u8],
        [0u8, 43u8, 255u8],
        [0u8, 128u8, 255u8],
        [0u8, 213u8, 255u8],
    ]
}

/// The default palette (see `default_colors_spec`).
pub fn default_colors() -> (r: Vec<[u8; 3]>)
    ensures
        r@ == default_colors_spec(),
{
    let r = vec![
        [255u8, 213u8, 0u8],
        [255u8, 128u8, 0u8],
        [255u8, 43u8, 0u8],
        [255u8, 0u8, 43u8],
        [255u8, 0u8, 128u8],
        [255u8, 0u8, 213u8],
        [213u8, 0u8, 255u8],
        [128u8, 0u8, 255u8],
        [43u8, 0u8, 255u8],
        [0u8, 43u8, 255u8],
        [0u8, 128u8, 255u8],
        [0u8, 213u8, 255u8],
    ];
    assert(r@ =~= default_colors_spec());
    r
}

/// A message to the visualizer thread. The gain and the time window are `f32`
/// values widened to `f64`, given by their IEEE-754 bits.
#[derive(Debug)]
pub enum VisualizerMsg {
    End,
    Ping,
    SetGain(u64),
    SetPalette(Vec<[u8; 3]>),
    SetEffect(Effect),
    ResetPanels,
    SetTimeWindow(u64),
    SetTransitionTime(u16),
    SetFreqRange(u16, u16),
    SetSorting { primary_axis: Axis, sort_primary: Sort, sort_secondary: Sort, global_orientation: u16 },
}

/// The settings the visualizer thread runs with.
#[derive(Debug)]
pub struct VisualizerControl {
    /// Cleared by `End`: the thread is to stop.
    pub running: bool,
    pub gain_bits: u64,
    pub time_window_bits: u64,
    /// Panel transition time, in units of 100 ms.
    pub trans_time: u16,
    pub min_freq: u16,
    pub max_freq: u16,
    /// The palette the panel colours are spread from; never empty.
    pub hues: Vec<[u8; 3]>,
    pub effect: Effect,
}

/// The contents of a `VisualizerControl`.
pub ghost struct ControlView {
    pub running: bool,
    pub gain_bits: u64,
    pub time_window_bits: u64,
    pub trans_time: u16,
    pub min_freq: u16,
    pub max_freq: u16,
    pub hues: Seq<[u8; 3]>,
    pub effect: Effect,
}

impl View for VisualizerControl {
    type V = ControlView;

    open spec fn view(&self) -> ControlView {
        ControlView {
            running: self.running,
            gain_bits: self.gain_bits,
            time_window_bits: self.time_window_bits,
            trans_time: self.trans_time,
            min_freq: self.min_freq,
            max_freq: self.max_freq,
            hues: self.hues@,
            effect: self.effect,
        }
    }
}

/// An ordering of the panels: axis, directions and the device's orientation.
#[derive(Clone, Copy, Debug, PartialEq, Eq, Structural)]
pub struct PanelOrdering {
    pub primary_axis: Axis,
    pub sort_primary: Sort,
    pub sort_secondary: Sort,
    pub global_orientation: u16,
}

/// What a control message asks of the panels.
#[derive(Clone, Copy, Debug, PartialEq, Eq, Structural)]
pub struct ControlAction {
    /// Send an all-black frame at once, so that old colours do not linger.
    pub black_frame: bool,
    /// Set every panel's brightness back to zero.
    pub clear_brightness: bool,
    /// Set the remembered peaks and speeds back to zero.
    pub clear_dynamics: bool,
    /// Spread the palette over the panels again.
    pub recolor: bool,
    /// Order the panels anew.
    pub resort: Option<PanelOrdering>,
}

/// Nothing to do on the panels.
pub open spec fn no_action() -> ControlAction {
    ControlAction {
        black_frame: false,
        clear_brightness: false,
        clear_dynamics: false,
        recolor: false,
        resort: None,
    }
}

/// The palette colours a message carries, where it carries some.
pub open spec fn message_palette(msg: VisualizerMsg) -> Option<Seq<[u8; 3]>> {
    match msg {
        VisualizerMsg::SetPalette(c) => Some(c@),
        _ => None,
    }
}

/// The settings after a control message, and what it asks of the panels. A new
/// effect or a reset starts the panels dark and forgets the dynamics; a new
/// palette or ordering recolours the panels and starts them dark.
pub open spec fn control_step(v: ControlView, msg: VisualizerMsg) -> (ControlView, ControlAction) {
    match msg {
        VisualizerMsg::End => (ControlView { running: false, ..v }, no_action()),
        VisualizerMsg::Ping => (v, no_action()),
        VisualizerMsg::SetGain(g) => (ControlView { gain_bits: g, ..v }, no_action()),
        VisualizerMsg::SetEffect(e) => (
            ControlView { effect: e, ..v },
            ControlAction { black_frame: true, clear_brightness: true, clear_dynamics: true, ..no_action() },
        ),
        VisualizerMsg::SetPalette(c) => (
            ControlView { hues: c@, ..v },
            ControlAction { black_frame: true, clear_brightness: true, recolor: true, ..no_action() },
        ),
        VisualizerMsg::ResetPanels => (
            v,
            ControlAction { black_frame: true, clear_brightness: true, clear_dynamics: true, ..no_action() },
        ),
        VisualizerMsg::SetTimeWindow(w) => (ControlView { time_window_bits: w, ..v }, no_action()),
        VisualizerMsg::SetTransitionTime(t) => (ControlView { trans_time: t, ..v }, no_action()),
        VisualizerMsg::SetFreqRange(lo, hi) => (ControlView { min_freq: lo, max_freq: hi, ..v }, no_action()),
        VisualizerMsg::SetSorting { primary_axis, sort_primary, sort_secondary, global_orientation } => (
            v,
            ControlAction {
                black_frame: true,
                clear_brightness: true,
                recolor: true,
                resort: Some(PanelOrdering { primary_axis, sort_primary, sort_secondary, global_orientation }),
                ..no_action()
            },
        ),
    }
}

impl VisualizerControl {
    /// The settings a visualizer starts with: each configured one, or its default
    /// (transition time 2, 20-4500 Hz, the spectrum effect); the given palette, or
    /// the default one when it is empty.
    pub fn new(
        gain_bits: u64,
        time_window_bits: u64,
        transition_time: Option<u16>,
        freq_range: Option<(u16, u16)>,
        effect: Option<Effect>,
        hues: Vec<[u8; 3]>,
    ) -> (r: Self)
        ensures
            r@.running,
            r@.gain_bits == gain_bits,
            r@.time_window_bits == time_window_bits,
            r@.trans_time == (match transition_time {
                Some(t) => t,
                None => 2,
            }),
            (r@.min_freq, r@.max_freq) == (match freq_range {
                Some(f) => f,
                None => (20u16, 4500u16),
            }),
            r@.effect == effect_or_default(effect),
            r@.hues == (if hues@.len() == 0 {
                default_colors_spec()
            } else {
                hues@
            }),
            r@.hues.len() > 0,
    {
        let (min_freq, max_freq) = match freq_range {
            Some(f) => f,
            None => DEFAULT_FREQ_RANGE,
        };
        VisualizerControl {
            running: true,
            gain_bits,
            time_window_bits,
            trans_time: match transition_time {
                Some(t) => t,
                None => DEFAULT_TRANSITION_TIME,
            },
            min_freq,
            max_freq,
            hues: if hues.len() == 0 {
                default_colors()
            } else {
                hues
            },
            effect: match effect {
                Some(e) => e,
                None => Effect::Spectrum,
            },
        }
    }

    /// Applies a control message (see `control_step`) and says what it asks of
    /// the panels. A palette must not be empty: it is spread over the panels.
    pub fn apply(&mut self, msg: VisualizerMsg) -> (r: ControlAction)
        requires
            message_palette(msg) matches Some(c) ==> c.len() > 0,
        ensures
            final(self)@ == control_step(old(self)@, msg).0,
            r == control_step(old(self)@, msg).1,
            old(self)@.hues.len() > 0 ==> final(self)@.hues.len() > 0,
    {
        let quiet = ControlAction {
            black_frame: false,
            clear_brightness: false,
            clear_dynamics: false,
            recolor: false,
            resort: None,
        };
        match msg {
            VisualizerMsg::End => {
                self.running = false;
                quiet
            },
            VisualizerMsg::Ping => quiet,
            VisualizerMsg::SetGain(g) => {
                self.gain_bits = g;
                quiet
            },
            VisualizerMsg::SetEffect(e) => {
                self.effect = e;
                ControlAction { black_frame: true, clear_brightness: true, clear_dynamics: true, ..quiet }
            },
            VisualizerMsg::SetPalette(c) => {
                self.hues = c;
                ControlAction { black_frame: true, clear_brightness: true, recolor: true, ..quiet }
            },
            VisualizerMsg::ResetPanels => {
                ControlAction { black_frame: true, clear_brightness: true, clear_dynamics: true, ..quiet }
            },
            VisualizerMsg::SetTimeWindow(w) => {
                self.time_window_bits = w;
                quiet
            },
            VisualizerMsg::SetTransitionTime(t) => {
                self.trans_time = t;
                quiet
            },
            VisualizerMsg::SetFreqRange(lo, hi) => {
                self.min_freq = lo;
                self.max_freq = hi;
                quiet
            },
            VisualizerMsg::SetSorting { primary_axis, sort_primary, sort_secondary, global_orientation } => {
                ControlAction {
                    black_frame: true,
                    clear_brightness: true,
                    recolor: true,
                    resort: Some(PanelOrdering { primary_axis, sort_primary, sort_secondary, global_orientation }),
                    ..quiet
                }
            },
        }
    }

    /// A copy of the current palette.
    pub fn palette(&self) -> (r: Vec<[u8; 3]>)
        ensures
            r@ == self.hues@,
    {
        copy_colors(&self.hues)
    }
}

/// How many of the oldest buffered samples to drop: when more than four frames'
/// worth (`to_collect` samples each) are buffered, all but the newest two frames.
pub open spec fn excess_samples(buffered: usize, to_collect: usize) -> usize {
    let cap = if 4 * to_collect <= usize::MAX { (4 * to_collect) as usize } else { usize::MAX };
    let keep = if 2 * to_collect <= usize::MAX { (2 * to_collect) as usize } else { usize::MAX };
    if buffered > cap {
        (buffered - keep) as usize
    } else {
        0
    }
}

/// The number of buffered samples to drop so that the visualizer catches up
/// with the audio (see `excess_samples`).
pub fn samples_to_drop(buffered: usize, to_collect: usize) -> (r: usize)
    ensures
        r == excess_samples(buffered, to_collect),
        r > 0 ==> buffered - r == 2 * to_collect,
{
    let cap = match to_collect.checked_mul(4) {
        Some(c) => c,
        None => usize::MAX,
    };
    if buffered > cap {
        let keep = match to_collect.checked_mul(2) {
            Some(k) => k,
            None => usize::MAX,
        };
        buffered - keep
    } else {
        0
    }
}

/// The first wait before rebuilding a failed audio stream, in milliseconds.
pub const AUDIO_RESTART_INITIAL_BACKOFF_MS: u64 = 250;

/// The longest wait before rebuilding a failed audio stream, in milliseconds.
pub const AUDIO_RESTART_MAX_BACKOFF_MS: u64 = 5000;

/// The wait before the next rebuild after one more failure: twice the last,
/// at most five seconds.
pub fn next_audio_backoff_ms(backoff_ms: u64) -> (r: u64)
    requires
        backoff_ms <= u64::MAX / 2,
    ensures
        r == backoff_after(backoff_ms),
{
    let doubled = backoff_ms * 2;
    if doubled <= AUDIO_RESTART_MAX_BACKOFF_MS {
        doubled
    } else {
        AUDIO_RESTART_MAX_BACKOFF_MS
    }
}


/// The rebuild wait after one more failure.
pub open spec fn backoff_after(backoff_ms: u64) -> u64 {
    if 2 * backoff_ms <= AUDIO_RESTART_MAX_BACKOFF_MS {
        (2 * backoff_ms) as u64
    } else {
        AUDIO_RESTART_MAX_BACKOFF_MS
    }
}

/// From the first wait on, the rebuild wait only grows, and never beyond five
/// seconds.
pub proof fn lemma_backoff_bounded(backoff_ms: u64)
    requires
        AUDIO_RESTART_INITIAL_BACKOFF_MS <= backoff_ms <= AUDIO_RESTART_MAX_BACKOFF_MS,
    ensures
        backoff_ms <= backoff_after(backoff_ms) <= AUDIO_RESTART_MAX_BACKOFF_MS,
        AUDIO_RESTART_INITIAL_BACKOFF_MS <= backoff_after(backoff_ms),
{
}

/// The palette changes only with a palette message, and then to exactly its
/// colours; a new panel ordering changes no setting at all, only what is asked of
/// the panels (recolouring from the same palette in the new order).
pub proof fn lemma_palette_kept_but_by_palette_messages(v: ControlView, msg: VisualizerMsg)
    ensures
        msg matches VisualizerMsg::SetPalette(c) ==> control_step(v, msg).0.hues == c@,
        !(msg is SetPalette) ==> control_step(v, msg).0.hues == v.hues,
        (msg is SetSorting) ==> control_step(v, msg).0 == v && control_step(v, msg).1.recolor
            && control_step(v, msg).1.resort is Some,
{
}

/// Each setting message changes its own setting to the value it carries and
/// leaves the others as they were.
pub proof fn lemma_setting_messages(v: ControlView, msg: VisualizerMsg)
    ensures
        msg matches VisualizerMsg::SetGain(g) ==> control_step(v, msg).0 == (ControlView { gain_bits: g, ..v }),
        msg matches VisualizerMsg::SetTimeWindow(w) ==> control_step(v, msg).0 == (ControlView { time_window_bits: w, ..v }),
        msg matches VisualizerMsg::SetTransitionTime(t) ==> control_step(v, msg).0 == (ControlView { trans_time: t, ..v }),
        msg matches VisualizerMsg::SetFreqRange(lo, hi) ==> control_step(v, msg).0 == (ControlView { min_freq: lo, max_freq: hi, ..v }),
        msg matches VisualizerMsg::SetEffect(e) ==> control_step(v, msg).0 == (ControlView { effect: e, ..v }),
        (msg is Ping || msg is ResetPanels) ==> control_step(v, msg).0 == v,
        (msg is End) ==> !control_step(v, msg).0.running,
        !(msg is End) ==> control_step(v, msg).0.running == v.running,
{
}

} // verus!
