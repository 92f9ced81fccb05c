use audioleaf::api::{
    apply_now_playing_settings, apply_visualizer_effect, apply_visualizer_settings,
    apply_visualizer_sort, available_audio_backends, orientation_degrees, parse_axis,
    parse_effect, parse_sort, preview_panel_colors, retry_with_default_backend, SettingsAction,
    SettingsMessage, UpdateError, VisualizerSettingsUpdate,
};
use audioleaf::config::{Axis, ConfigNumber, Effect, Sort, VisualizerConfig};
use audioleaf::metadata::NowPlayingRuntimeState;

fn bits(x: f32) -> u64 {
    (x as f64).to_bits()
}

fn empty_update() -> VisualizerSettingsUpdate {
    VisualizerSettingsUpdate {
        audio_backend: None,
        freq_range: None,
        default_gain: None,
        transition_time: None,
        time_window: None,
    }
}

#[test]
fn axis_names_in_any_case() {
    assert_eq!(parse_axis("x"), Some(Axis::X));
    assert_eq!(parse_axis("X"), Some(Axis::X));
    assert_eq!(parse_axis("Y"), Some(Axis::Y));
    assert_eq!(parse_axis("z"), None);
    assert_eq!(parse_axis(" x"), None);
}

#[test]
fn sort_names_in_any_case() {
    assert_eq!(parse_sort("ASC"), Some(Sort::Asc));
    assert_eq!(parse_sort("desc"), Some(Sort::Desc));
    assert_eq!(parse_sort("DeSc"), Some(Sort::Desc));
    assert_eq!(parse_sort("up"), None);
}

#[test]
fn effect_names_and_spellings() {
    assert_eq!(parse_effect("Spectrum"), Some(Effect::Spectrum));
    assert_eq!(parse_effect("EnergyWave"), Some(Effect::EnergyWave));
    assert_eq!(parse_effect("energy_wave"), Some(Effect::EnergyWave));
    assert_eq!(parse_effect("ENERGY-WAVE"), Some(Effect::EnergyWave));
    assert_eq!(parse_effect("ripple"), Some(Effect::Ripple));
    assert_eq!(parse_effect("pulse"), None);
    assert_eq!(parse_effect(""), None);
}

#[test]
fn error_messages() {
    assert_eq!(UpdateError::NoSettings.message(), "Request must include at least one visualizer setting.");
    assert_eq!(UpdateError::FreqRange.message(), "freq_range must have min < max (e.g. [20, 4500]).");
    assert_eq!(UpdateError::Gain.message(), "default_gain must be a finite number >= 0.");
    assert_eq!(
        UpdateError::TransitionTime.message(),
        "transition_time must be between 1 and 10 (0.1s to 1.0s in 100ms units)."
    );
    assert_eq!(UpdateError::TimeWindow.message(), "time_window must be between 0.1 and 1.0 seconds.");
    assert_eq!(UpdateError::PrimaryAxis.message(), "Invalid primary_axis. Use X or Y.");
    assert_eq!(UpdateError::SortPrimary.message(), "Invalid sort_primary. Use Asc or Desc.");
    assert_eq!(UpdateError::SortSecondary.message(), "Invalid sort_secondary. Use Asc or Desc.");
    assert_eq!(UpdateError::Effect.message(), "Invalid effect. Use Spectrum, EnergyWave, or Ripple.");
    assert_eq!(UpdateError::NoDrivePalette.message(), "Request must include drive_visualizer_palette.");
}

#[test]
fn empty_settings_update_is_refused() {
    let mut config = VisualizerConfig::default();
    let r = apply_visualizer_settings(&mut config, empty_update());
    assert_eq!(r.unwrap_err(), UpdateError::NoSettings);
    assert_eq!(config.freq_range, Some((20, 4500)));
}

#[test]
fn frequency_range_must_increase() {
    let mut config = VisualizerConfig::default();
    let u = VisualizerSettingsUpdate { freq_range: Some((4500, 20)), ..empty_update() };
    assert_eq!(apply_visualizer_settings(&mut config, u).unwrap_err(), UpdateError::FreqRange);
    let u = VisualizerSettingsUpdate { freq_range: Some((100, 100)), ..empty_update() };
    assert_eq!(apply_visualizer_settings(&mut config, u).unwrap_err(), UpdateError::FreqRange);
    assert_eq!(config.freq_range, Some((20, 4500)));
}

#[test]
fn gain_must_be_finite_and_not_negative() {
    let mut config = VisualizerConfig::default();
    for bad in [f32::NAN, f32::INFINITY, f32::NEG_INFINITY, -0.5f32] {
        let u = VisualizerSettingsUpdate { default_gain: Some(bits(bad)), ..empty_update() };
        assert_eq!(apply_visualizer_settings(&mut config, u).unwrap_err(), UpdateError::Gain);
    }
    for good in [0.0f32, -0.0f32, 2.5f32] {
        let u = VisualizerSettingsUpdate { default_gain: Some(bits(good)), ..empty_update() };
        assert!(apply_visualizer_settings(&mut config, u).is_ok());
        assert_eq!(config.default_gain, Some(ConfigNumber::Float(bits(good))));
    }
}

#[test]
fn transition_time_from_one_to_ten() {
    let mut config = VisualizerConfig::default();
    for bad in [0u16, 11u16] {
        let u = VisualizerSettingsUpdate { transition_time: Some(bad), ..empty_update() };
        assert_eq!(apply_visualizer_settings(&mut config, u).unwrap_err(), UpdateError::TransitionTime);
    }
    let u = VisualizerSettingsUpdate { transition_time: Some(10), ..empty_update() };
    assert!(apply_visualizer_settings(&mut config, u).is_ok());
    assert_eq!(config.transition_time, Some(10));
}

#[test]
fn time_window_between_tenth_and_one_second() {
    let mut config = VisualizerConfig::default();
    for bad in [0.05f32, 1.5f32, -0.2f32, f32::NAN] {
        let u = VisualizerSettingsUpdate { time_window: Some(bits(bad)), ..empty_update() };
        assert_eq!(apply_visualizer_settings(&mut config, u).unwrap_err(), UpdateError::TimeWindow);
    }
    for good in [0.1f32, 0.25f32, 1.0f32] {
        let u = VisualizerSettingsUpdate { time_window: Some(bits(good)), ..empty_update() };
        assert!(apply_visualizer_settings(&mut config, u).is_ok());
        assert_eq!(config.time_window, Some(ConfigNumber::Float(bits(good))));
    }
}

#[test]
fn first_failing_check_is_reported() {
    let mut config = VisualizerConfig::default();
    let u = VisualizerSettingsUpdate {
        freq_range: Some((10, 5)),
        transition_time: Some(0),
        ..empty_update()
    };
    assert_eq!(apply_visualizer_settings(&mut config, u).unwrap_err(), UpdateError::FreqRange);
}

#[test]
fn new_backend_restarts_the_visualizer() {
    let mut config = VisualizerConfig::default();
    let u = VisualizerSettingsUpdate {
        audio_backend: Some("hw:Loopback,1".to_string()),
        transition_time: Some(3),
        ..empty_update()
    };
    match apply_visualizer_settings(&mut config, u).unwrap() {
        SettingsAction::Restart => {}
        other => panic!("expected a restart, got {:?}", other),
    }
    assert_eq!(config.audio_backend.as_deref(), Some("hw:Loopback,1"));
    assert_eq!(config.transition_time, Some(3));
}

#[test]
fn other_settings_are_sent_in_order() {
    let mut config = VisualizerConfig::default();
    let u = VisualizerSettingsUpdate {
        freq_range: Some((30, 3000)),
        default_gain: Some(bits(1.5)),
        transition_time: Some(4),
        time_window: Some(bits(0.5)),
        ..empty_update()
    };
    match apply_visualizer_settings(&mut config, u).unwrap() {
        SettingsAction::Send(messages) => assert_eq!(
            messages,
            vec![
                SettingsMessage::SetFreqRange(30, 3000),
                SettingsMessage::SetGain(bits(1.5)),
                SettingsMessage::SetTransitionTime(4),
                SettingsMessage::SetTimeWindow(bits(0.5)),
            ]
        ),
        other => panic!("expected messages, got {:?}", other),
    }
    assert_eq!(config.freq_range, Some((30, 3000)));
    assert_eq!(config.audio_backend.as_deref(), Some("default"));
}

#[test]
fn settings_update_twice_equals_once() {
    let mut once = VisualizerConfig::default();
    let mut twice = VisualizerConfig::default();
    let make = || VisualizerSettingsUpdate {
        freq_range: Some((40, 400)),
        time_window: Some(bits(0.2)),
        ..empty_update()
    };
    apply_visualizer_settings(&mut once, make()).unwrap();
    apply_visualizer_settings(&mut twice, make()).unwrap();
    apply_visualizer_settings(&mut twice, make()).unwrap();
    assert_eq!(once.freq_range, twice.freq_range);
    assert_eq!(once.time_window, twice.time_window);
    assert_eq!(once.default_gain, twice.default_gain);
}

#[test]
fn sort_update_reads_all_three_names() {
    let mut config = VisualizerConfig::default();
    assert_eq!(
        apply_visualizer_sort(&mut config, "x", "Desc", "asc"),
        Ok((Axis::X, Sort::Desc, Sort::Asc))
    );
    assert_eq!(config.primary_axis, Some(Axis::X));
    assert_eq!(config.sort_primary, Some(Sort::Desc));
    assert_eq!(config.sort_secondary, Some(Sort::Asc));
}

#[test]
fn sort_update_errors() {
    let mut config = VisualizerConfig::default();
    assert_eq!(apply_visualizer_sort(&mut config, "z", "asc", "asc"), Err(UpdateError::PrimaryAxis));
    assert_eq!(apply_visualizer_sort(&mut config, "x", "up", "asc"), Err(UpdateError::SortPrimary));
    assert_eq!(apply_visualizer_sort(&mut config, "x", "asc", "sideways"), Err(UpdateError::SortSecondary));
    assert_eq!(config.primary_axis, Some(Axis::Y));
}

#[test]
fn effect_update() {
    let mut config = VisualizerConfig::default();
    assert_eq!(apply_visualizer_effect(&mut config, "RIPPLE"), Ok(Effect::Ripple));
    assert_eq!(config.effect, Some(Effect::Ripple));
    assert_eq!(apply_visualizer_effect(&mut config, "strobe"), Err(UpdateError::Effect));
    assert_eq!(config.effect, Some(Effect::Ripple));
}

#[test]
fn now_playing_settings_update() {
    let mut state = NowPlayingRuntimeState::new("/tmp/pipe".to_string());
    assert_eq!(apply_now_playing_settings(&mut state, None, 5), Err(UpdateError::NoDrivePalette));
    assert_eq!(state.updated_at_ms, None);
    assert_eq!(apply_now_playing_settings(&mut state, Some(true), 7), Ok(None));
    assert!(state.drive_visualizer_palette);
    assert_eq!(state.updated_at_ms, Some(7));
    state.palette_colors = vec![[1, 2, 3], [4, 5, 6]];
    assert_eq!(
        apply_now_playing_settings(&mut state, Some(true), 8),
        Ok(Some(vec![[1, 2, 3], [4, 5, 6]]))
    );
    assert_eq!(apply_now_playing_settings(&mut state, Some(false), 9), Ok(None));
    assert!(!state.drive_visualizer_palette);
}

#[test]
fn default_backend_is_always_offered() {
    let found = vec!["hw:0".to_string(), "pulse".to_string()];
    assert_eq!(available_audio_backends(found), vec!["default", "hw:0", "pulse"]);
    let found = vec!["pulse".to_string(), "default".to_string()];
    assert_eq!(available_audio_backends(found), vec!["pulse", "default"]);
    assert_eq!(available_audio_backends(Vec::new()), vec!["default"]);
}

#[test]
fn retry_with_default_only_for_other_backends() {
    assert!(!retry_with_default_backend(None));
    assert!(!retry_with_default_backend(Some("default")));
    assert!(retry_with_default_backend(Some("hw:1")));
}

#[test]
fn orientation_cut_to_sixteen_bits() {
    assert_eq!(orientation_degrees(Some(120)), 120);
    assert_eq!(orientation_degrees(Some(70000)), 4464);
    assert_eq!(orientation_degrees(None), 0);
}

#[test]
fn preview_colors_ordered_by_panel_id() {
    let entries = [(30u16, [3u8, 3, 3]), (10, [1, 1, 1]), (20, [2, 2, 2])];
    assert_eq!(
        preview_panel_colors(&entries),
        vec![(10, [1, 1, 1]), (20, [2, 2, 2]), (30, [3, 3, 3])]
    );
    assert_eq!(preview_panel_colors(&[]), Vec::<(u16, [u8; 3])>::new());
}
