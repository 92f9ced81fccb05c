use audioleaf::config::{Axis, Effect, Sort};
use audioleaf::visualizer::{
    default_colors, next_audio_backoff_ms, samples_to_drop, ControlAction, PanelOrdering,
    VisualizerControl, VisualizerMsg,
};

fn control() -> VisualizerControl {
    VisualizerControl::new(1, 2, None, None, None, Vec::new())
}

#[test]
fn defaults_fill_unset_settings() {
    let c = control();
    assert!(c.running);
    assert_eq!(c.trans_time, 2);
    assert_eq!((c.min_freq, c.max_freq), (20, 4500));
    assert_eq!(c.effect, Effect::Spectrum);
    assert_eq!(c.hues, default_colors());
    assert_eq!(c.hues.len(), 12);
    assert_eq!(c.hues[0], [255, 213, 0]);
    assert_eq!(c.hues[11], [0, 213, 255]);
}

#[test]
fn configured_settings_are_kept() {
    let c = VisualizerControl::new(7, 8, Some(5), Some((40, 400)), Some(Effect::Ripple), vec![[1, 2, 3]]);
    assert_eq!(c.gain_bits, 7);
    assert_eq!(c.time_window_bits, 8);
    assert_eq!(c.trans_time, 5);
    assert_eq!((c.min_freq, c.max_freq), (40, 400));
    assert_eq!(c.effect, Effect::Ripple);
    assert_eq!(c.palette(), vec![[1, 2, 3]]);
}

fn quiet() -> ControlAction {
    ControlAction { black_frame: false, clear_brightness: false, clear_dynamics: false, recolor: false, resort: None }
}

#[test]
fn plain_settings_change_nothing_on_the_panels() {
    let mut c = control();
    assert_eq!(c.apply(VisualizerMsg::Ping), quiet());
    assert_eq!(c.apply(VisualizerMsg::SetGain(99)), quiet());
    assert_eq!(c.gain_bits, 99);
    assert_eq!(c.apply(VisualizerMsg::SetTimeWindow(42)), quiet());
    assert_eq!(c.time_window_bits, 42);
    assert_eq!(c.apply(VisualizerMsg::SetTransitionTime(6)), quiet());
    assert_eq!(c.trans_time, 6);
    assert_eq!(c.apply(VisualizerMsg::SetFreqRange(30, 300)), quiet());
    assert_eq!((c.min_freq, c.max_freq), (30, 300));
    assert!(c.running);
    assert_eq!(c.apply(VisualizerMsg::End), quiet());
    assert!(!c.running);
}

#[test]
fn effect_change_starts_dark() {
    let mut c = control();
    let a = c.apply(VisualizerMsg::SetEffect(Effect::EnergyWave));
    assert_eq!(a, ControlAction { black_frame: true, clear_brightness: true, clear_dynamics: true, ..quiet() });
    assert_eq!(c.effect, Effect::EnergyWave);
    let a = c.apply(VisualizerMsg::ResetPanels);
    assert_eq!(a, ControlAction { black_frame: true, clear_brightness: true, clear_dynamics: true, ..quiet() });
}

#[test]
fn palette_and_ordering_recolour() {
    let mut c = control();
    let a = c.apply(VisualizerMsg::SetPalette(vec![[9, 9, 9], [8, 8, 8]]));
    assert_eq!(a, ControlAction { black_frame: true, clear_brightness: true, recolor: true, ..quiet() });
    assert_eq!(c.hues, vec![[9, 9, 9], [8, 8, 8]]);
    let a = c.apply(VisualizerMsg::SetSorting {
        primary_axis: Axis::X,
        sort_primary: Sort::Desc,
        sort_secondary: Sort::Asc,
        global_orientation: 60,
    });
    assert_eq!(
        a.resort,
        Some(PanelOrdering { primary_axis: Axis::X, sort_primary: Sort::Desc, sort_secondary: Sort::Asc, global_orientation: 60 })
    );
    assert!(a.recolor && a.black_frame && a.clear_brightness && !a.clear_dynamics);
    assert!(!c.hues.is_empty());
}

#[test]
fn buffer_catches_up_with_audio() {
    assert_eq!(samples_to_drop(100, 20), 60);
    assert_eq!(samples_to_drop(80, 20), 0);
    assert_eq!(samples_to_drop(81, 20), 41);
    assert_eq!(samples_to_drop(0, 0), 0);
    assert_eq!(samples_to_drop(usize::MAX, usize::MAX / 2 + 1), 0);
}

#[test]
fn rebuild_waits_double_up_to_five_seconds() {
    assert_eq!(next_audio_backoff_ms(250), 500);
    assert_eq!(next_audio_backoff_ms(2500), 5000);
    assert_eq!(next_audio_backoff_ms(4000), 5000);
    assert_eq!(next_audio_backoff_ms(5000), 5000);
    let mut b = 250;
    for _ in 0..10 {
        let n = next_audio_backoff_ms(b);
        assert!(n >= b && n <= 5000);
        b = n;
    }
    assert_eq!(b, 5000);
}
