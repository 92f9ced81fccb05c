use audioleaf::config::{Axis, ColorSourceKind, Config, ConfigError, ConfigNumber, ConfigValue, Effect, Sort, VisualizerConfig};
use audioleaf::migration::strip_legacy_keys;

const README_EXAMPLE: &str = r#"default_nl_device_name = "Shapes AC01"

[visualizer_config]
# Audio input device (see Audio Setup below)
audio_backend = "BlackHole 2ch"

# Frequency range to visualize [min_hz, max_hz]
freq_range = [20, 4500]

# Color palette — named palette or custom RGB array
colors = "ocean-nightclub"

# Audio sensitivity (doesn't affect playback volume)
default_gain = 1.0

# Panel transition speed in 100ms units (2 = 200ms)
transition_time = 2

# Audio sampling window in seconds
time_window = 0.1875

# Panel sorting
primary_axis = "Y"        # "X" or "Y"
sort_primary = "Asc"      # "Asc" or "Desc"
sort_secondary = "Asc"    # "Asc" or "Desc"

effect = "Spectrum"
"#;

#[test]
fn readme_example_configuration() {
    let c = Config::parse_config_text(README_EXAMPLE).unwrap();
    assert_eq!(c.default_nl_device_name.as_deref(), Some("Shapes AC01"));
    let v = &c.visualizer_config;
    assert_eq!(v.audio_backend.as_deref(), Some("BlackHole 2ch"));
    assert_eq!(v.freq_range, Some((20, 4500)));
    assert_eq!(v.default_gain, Some(ConfigNumber::Float(1.0f64.to_bits())));
    assert_eq!(v.transition_time, Some(2));
    assert_eq!(v.time_window, Some(ConfigNumber::Float(0.1875f64.to_bits())));
    assert_eq!(v.primary_axis, Some(Axis::Y));
    assert_eq!(v.sort_primary, Some(Sort::Asc));
    assert_eq!(v.sort_secondary, Some(Sort::Asc));
    assert_eq!(v.effect, Some(Effect::Spectrum));
    assert_eq!(v.color_source, Some(ColorSourceKind::Palette));
}

#[test]
fn empty_file_gives_defaults() {
    let c = Config::parse_config_text("").unwrap();
    assert_eq!(c.default_nl_device_name, None);
    let v = &c.visualizer_config;
    assert_eq!(v.audio_backend.as_deref(), Some("default"));
    assert_eq!(v.freq_range, Some((20, 4500)));
    assert_eq!(v.transition_time, Some(2));
    assert_eq!(v.default_gain, Some(ConfigNumber::Float(1.0f64.to_bits())));
    assert_eq!(v.time_window, Some(ConfigNumber::Float(0.1875f64.to_bits())));
    assert_eq!(v.palette_name, None);
    assert_eq!(v.effect, Some(Effect::Spectrum));
}

#[test]
fn new_config_uses_default_visualizer_settings() {
    let c = Config::new(Some("Canvas".to_string()), None);
    assert_eq!(c.default_nl_device_name.as_deref(), Some("Canvas"));
    assert_eq!(c.visualizer_config.primary_axis, Some(Axis::Y));
}

#[test]
fn integer_gain_and_artwork_colours() {
    let text = "[visualizer_config]\ndefault_gain = 3\ncolor_source = \"ARTWORK\"\npalette_name = \"Northern Lights\"\neffect = \"energy-wave\"\n";
    let c = Config::parse_config_text(text).unwrap();
    let v = &c.visualizer_config;
    assert_eq!(v.default_gain, Some(ConfigNumber::Integer(3)));
    assert_eq!(v.color_source, Some(ColorSourceKind::Artwork));
    assert_eq!(v.palette_name.as_deref(), Some("Northern Lights"));
    assert_eq!(v.effect, Some(Effect::EnergyWave));
}

#[test]
fn legacy_sections_are_ignored() {
    let text = "hues = 3\n[tui_config]\ncolorful = true\n";
    assert!(matches!(Config::parse_config_text(text), Err(ConfigError::InvalidKey(k)) if k == "hues"));
    let text = "[tui_config]\ncolorful = true\n[visualizer_config]\nhues = [1, 2]\n";
    assert!(Config::parse_config_text(text).is_ok());
}

#[test]
fn configuration_errors() {
    let check = |text: &str| Config::parse_config_text(text).unwrap_err();
    assert!(matches!(check("[visualizer_config]\nfreq_range = [1]\n"), ConfigError::FreqRangeShape));
    assert!(matches!(check("[visualizer_config]\nfreq_range = [1, \"x\"]\n"), ConfigError::FreqRangeShape));
    assert!(matches!(check("[visualizer_config]\nfreq_range = [-1, 10]\n"), ConfigError::FreqRangeOutOfRange));
    assert!(matches!(check("[visualizer_config]\ncolor_source = \"neon\"\n"), ConfigError::InvalidColorSource(s) if s == "neon"));
    assert!(matches!(check("[visualizer_config]\ntransition_time = 70000\n"), ConfigError::TransitionTimeOutOfRange));
    assert!(matches!(check("[visualizer_config]\nprimary_axis = \"x\"\n"), ConfigError::InvalidAxis));
    assert!(matches!(check("[visualizer_config]\nsort_primary = \"up\"\n"), ConfigError::InvalidSort));
    assert!(matches!(check("[visualizer_config]\neffect = \"Pulse\"\n"), ConfigError::InvalidEffect(s) if s == "Pulse"));
    assert!(matches!(check("[visualizer_config]\nbrightness = 3\n"), ConfigError::InvalidKey(s) if s == "brightness"));
    assert!(matches!(check("[visualizer_config]\ntime_window = 1\n"), ConfigError::InvalidKey(s) if s == "time_window"));
    assert!(matches!(check("default_nl_device_name = 4\n"), ConfigError::InvalidKey(s) if s == "default_nl_device_name"));
    assert!(matches!(check("this is not toml"), ConfigError::Syntax(_)));
}

#[test]
fn entries_apply_in_order() {
    let mut v = VisualizerConfig::default();
    let entries = vec![
        ("transition_time".to_string(), ConfigValue::Integer(5)),
        ("primary_axis".to_string(), ConfigValue::String("X".to_string())),
    ];
    assert!(v.parse_visualizer_config(&entries).is_ok());
    assert_eq!(v.transition_time, Some(5));
    assert_eq!(v.primary_axis, Some(Axis::X));
    let mut w = VisualizerConfig::default();
    let entries = vec![
        ("transition_time".to_string(), ConfigValue::Integer(7)),
        ("sort_primary".to_string(), ConfigValue::String("Up".to_string())),
        ("transition_time".to_string(), ConfigValue::Integer(9)),
    ];
    assert!(matches!(w.parse_visualizer_config(&entries), Err(ConfigError::InvalidSort)));
    assert_eq!(w.transition_time, Some(7));
}

#[test]
fn refused_entry_keeps_earlier_entries_and_nothing_after() {
    let mut v = VisualizerConfig::default();
    let t = vec![
        ("audio_backend".to_string(), ConfigValue::String("Loopback".to_string())),
        ("effect".to_string(), ConfigValue::String("Strobe".to_string())),
        ("primary_axis".to_string(), ConfigValue::String("X".to_string())),
    ];
    let before_effect = v.effect;
    let before_axis = v.primary_axis;
    assert!(matches!(v.parse_visualizer_config(&t), Err(ConfigError::InvalidEffect(ref s)) if s == "Strobe"));
    assert_eq!(v.audio_backend.as_deref(), Some("Loopback"));
    assert_eq!(v.effect, before_effect);
    assert_eq!(v.primary_axis, before_axis);
}

#[test]
fn refused_single_entry_leaves_settings_unchanged() {
    let mut v = VisualizerConfig::default();
    let t = vec![("sort_primary".to_string(), ConfigValue::String("asc".to_string()))];
    let before = (v.sort_primary, v.sort_secondary, v.primary_axis, v.effect, v.freq_range);
    assert!(matches!(v.parse_visualizer_config(&t), Err(ConfigError::InvalidSort)));
    assert_eq!((v.sort_primary, v.sort_secondary, v.primary_axis, v.effect, v.freq_range), before);
    assert_eq!(v.audio_backend.as_deref(), Some("default"));
}

#[test]
fn colors_must_name_a_palette_or_give_rgb_triplets() {
    let ok = |text: &str| Config::parse_config_text(text).is_ok();
    assert!(ok("[visualizer_config]\ncolors = \"ocean-nightclub\"\n"));
    assert!(ok("[visualizer_config]\ncolors = \"christmas\"\n"));
    assert!(ok("[visualizer_config]\ncolors = [[255, 0, 128], [0, 128, 255], [128, 255, 0]]\n"));
    let refused = |text: &str| matches!(Config::parse_config_text(text), Err(ConfigError::InvalidColors));
    assert!(refused("[visualizer_config]\ncolors = \"no-such-palette\"\n"));
    assert!(refused("[visualizer_config]\ncolors = [[255, 0, 256]]\n"));
    assert!(refused("[visualizer_config]\ncolors = [[255, 0]]\n"));
    assert!(refused("[visualizer_config]\ncolors = [255, 0, 128]\n"));
    assert!(refused("[visualizer_config]\ncolors = 3\n"));
}

#[test]
fn accepted_colors_leave_the_settings_as_they_were() {
    let mut v = VisualizerConfig::default();
    let t = vec![("colors".to_string(), ConfigValue::String("sunset".to_string()))];
    assert!(v.parse_visualizer_config(&t).is_ok());
    assert_eq!(v.audio_backend.as_deref(), Some("default"));
    assert_eq!(v.effect, Some(Effect::Spectrum));
}

#[test]
fn legacy_palette_keys_are_stripped_keeping_the_rest() {
    let text = "# my settings\n[visualizer_config]\naudio_backend = \"default\" # input\ncolors = \"sunset\"\nhues = [1, 2]\neffect = \"Ripple\"\n";
    let (out, removed) = strip_legacy_keys(text).unwrap();
    assert_eq!(removed, vec!["colors".to_string(), "hues".to_string()]);
    assert!(!out.contains("colors"));
    assert!(!out.contains("hues"));
    assert!(out.contains("# my settings"));
    assert!(out.contains("audio_backend = \"default\" # input"));
    assert!(out.contains("effect = \"Ripple\""));
    let only_hues = "[visualizer_config]\nhues = [1]\n";
    assert_eq!(strip_legacy_keys(only_hues).unwrap().1, vec!["hues".to_string()]);
}

#[test]
fn nothing_to_strip_or_not_toml_gives_nothing() {
    assert!(strip_legacy_keys("[visualizer_config]\neffect = \"Ripple\"\n").is_none());
    assert!(strip_legacy_keys("colors = \"sunset\"\n").is_none());
    assert!(strip_legacy_keys("[visualizer_config\n").is_none());
}
