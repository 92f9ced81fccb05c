use audioleaf::audio_select::{
    choose_input_device, device_names, expand_selector_candidates, find_loopback_device,
    is_ascii_digits, label_devices, lookup_alsa_card_index, parse_alsa_selector_parts,
    parse_indexed_name, pick_loopback_44100_profile, select_input_device,
    should_prefer_loopback_profile, strip_host_prefix, InputChoice, InputDeviceNames,
    InputRange, SampleKind,
};

fn chars(s: &str) -> Vec<char> {
    s.chars().collect()
}

fn text(v: &[char]) -> String {
    v.iter().collect()
}

fn entry(backend: &str, friendly: &str, legacy: &str) -> InputDeviceNames {
    InputDeviceNames {
        backend_name: backend.to_string(),
        friendly_name: friendly.to_string(),
        legacy_display_name: legacy.to_string(),
    }
}

const CARDS: &str = " 0 [PCH            ]: HDA-Intel - HDA Intel PCH\n                      HDA Intel PCH at 0xf7f10000 irq 33\n 1 [Loopback       ]: Loopback - Loopback\n                      Loopback 1\r\n";

#[test]
fn device_names_fall_back_on_each_other() {
    assert_eq!(
        device_names(Some(" hw:CARD=Loopback,DEV=0 "), Some("Loopback PCM")),
        Some(("hw:CARD=Loopback,DEV=0".to_string(), "Loopback PCM".to_string()))
    );
    assert_eq!(device_names(Some(""), Some(" Mic ")), Some(("Mic".to_string(), "Mic".to_string())));
    assert_eq!(device_names(Some("id"), None), Some(("id".to_string(), "id".to_string())));
    assert_eq!(device_names(None, Some("  ")), None);
}

#[test]
fn duplicates_are_numbered_in_order() {
    let names = vec![
        ("a".to_string(), "Loopback, Loopback PCM".to_string()),
        ("b".to_string(), "Loopback, Loopback PCM".to_string()),
        ("c".to_string(), "Mic".to_string()),
    ];
    let labelled = label_devices(&names);
    assert_eq!(labelled.len(), 3);
    assert_eq!(labelled[0].legacy_display_name, "Loopback, Loopback PCM [#1]");
    assert_eq!(labelled[1].legacy_display_name, "Loopback, Loopback PCM [#2]");
    assert_eq!(labelled[2].legacy_display_name, "Mic");
    assert_eq!(labelled[1].backend_name, "b");
    assert_eq!(labelled[1].friendly_name, "Loopback, Loopback PCM");
    assert_ne!(labelled[0].legacy_display_name, labelled[1].legacy_display_name);
}

#[test]
fn many_duplicates_get_two_digit_numbers() {
    let names: Vec<(String, String)> = (0..12).map(|i| (format!("dev{}", i), "Same".to_string())).collect();
    let labelled = label_devices(&names);
    assert_eq!(labelled[9].legacy_display_name, "Same [#10]");
    assert_eq!(labelled[11].legacy_display_name, "Same [#12]");
}

#[test]
fn host_prefix_is_removed() {
    assert_eq!(text(&strip_host_prefix(&chars("ALSA: hw:1,0"))), "hw:1,0");
    assert_eq!(text(&strip_host_prefix(&chars("coreaudio:BlackHole 2ch"))), "BlackHole 2ch");
    assert_eq!(text(&strip_host_prefix(&chars("hw:1,0"))), "hw:1,0");
    assert_eq!(text(&strip_host_prefix(&chars("pulse"))), "pulse");
}

#[test]
fn numbered_names_are_read() {
    let (base, k) = parse_indexed_name(&chars("Loopback PCM [#2]")).unwrap();
    assert_eq!(text(&base), "Loopback PCM");
    assert_eq!(k, 2);
    assert_eq!(parse_indexed_name(&chars("Loopback PCM [#0]")), None);
    assert_eq!(parse_indexed_name(&chars(" [#3]")), None);
    assert_eq!(parse_indexed_name(&chars("X [#a]")), None);
    assert_eq!(parse_indexed_name(&chars("X [#12")), None);
    let (base, k) = parse_indexed_name(&chars("A [#1] [#7]")).unwrap();
    assert_eq!(text(&base), "A [#1]");
    assert_eq!(k, 7);
}

#[test]
fn ascii_digit_runs() {
    assert!(is_ascii_digits(&chars("12")));
    assert!(!is_ascii_digits(&chars("")));
    assert!(!is_ascii_digits(&chars("1a")));
}

#[test]
fn short_alsa_selectors() {
    let (c, d, s) = parse_alsa_selector_parts(&chars("1,0")).unwrap();
    assert_eq!((text(&c), text(&d), s.map(|v| text(&v))), ("1".to_string(), "0".to_string(), None));
    let (c, d, s) = parse_alsa_selector_parts(&chars("Loopback, 1, 2")).unwrap();
    assert_eq!(
        (text(&c), text(&d), s.map(|v| text(&v))),
        ("Loopback".to_string(), "1".to_string(), Some("2".to_string()))
    );
    let (_, _, s) = parse_alsa_selector_parts(&chars("0,0, ")).unwrap();
    assert_eq!(s, None);
    assert_eq!(parse_alsa_selector_parts(&chars("1")), None);
    assert_eq!(parse_alsa_selector_parts(&chars(" ,1")), None);
}

#[test]
fn named_alsa_selectors() {
    let (c, d, s) = parse_alsa_selector_parts(&chars("CARD=Loopback,DEV=1,SUBDEV=0")).unwrap();
    assert_eq!(
        (text(&c), text(&d), s.map(|v| text(&v))),
        ("Loopback".to_string(), "1".to_string(), Some("0".to_string()))
    );
    let (c, d, s) = parse_alsa_selector_parts(&chars("card = PCH , DEV=3, junk")).unwrap();
    assert_eq!((text(&c), text(&d), s), ("PCH".to_string(), "3".to_string(), None));
    assert_eq!(parse_alsa_selector_parts(&chars("CARD=Loopback")), None);
    assert_eq!(parse_alsa_selector_parts(&chars("CARD=,DEV=1")), None);
}

#[test]
fn card_index_from_card_list() {
    assert_eq!(lookup_alsa_card_index(Some(CARDS), &chars("Loopback")), Some(1));
    assert_eq!(lookup_alsa_card_index(Some(CARDS), &chars("loopback")), Some(1));
    assert_eq!(lookup_alsa_card_index(Some(CARDS), &chars("PCH")), Some(0));
    assert_eq!(lookup_alsa_card_index(Some(CARDS), &chars("Missing")), None);
    assert_eq!(lookup_alsa_card_index(None, &chars("PCH")), None);
    assert_eq!(lookup_alsa_card_index(Some(""), &chars("PCH")), None);
}

#[test]
fn selector_spellings_with_card_name() {
    let c: Vec<String> = expand_selector_candidates(&chars("hw:Loopback,1"), Some(CARDS))
        .iter()
        .map(|v| text(v))
        .collect();
    assert_eq!(
        c,
        vec!["hw:Loopback,1", "hw:CARD=Loopback,DEV=1", "hw:Loopback,1,0", "hw:1,1", "hw:CARD=1,DEV=1"]
    );
}

#[test]
fn selector_spellings_with_subdevice() {
    let c: Vec<String> = expand_selector_candidates(&chars("plughw:0,0,0"), None).iter().map(|v| text(v)).collect();
    assert_eq!(c, vec!["plughw:0,0,0", "plughw:0,0", "plughw:CARD=0,DEV=0"]);
    let c: Vec<String> = expand_selector_candidates(&chars("HW:1,0,3"), None).iter().map(|v| text(v)).collect();
    assert_eq!(c, vec!["HW:1,0,3", "hw:1,0", "hw:CARD=1,DEV=0", "hw:1,0,3", "hw:CARD=1,DEV=0,SUBDEV=3"]);
    let c: Vec<String> = expand_selector_candidates(&chars("pulse"), None).iter().map(|v| text(v)).collect();
    assert_eq!(c, vec!["pulse"]);
}

fn devices() -> Vec<InputDeviceNames> {
    vec![
        entry("hw:CARD=PCH,DEV=0", "HDA Intel PCH", "HDA Intel PCH"),
        entry("hw:CARD=Loopback,DEV=1", "Loopback, Loopback PCM", "Loopback, Loopback PCM [#1]"),
        entry("hw:CARD=Loopback,DEV=0", "Loopback, Loopback PCM", "Loopback, Loopback PCM [#2]"),
        entry("pulse", "Mic", "Mic"),
    ]
}

#[test]
fn selection_by_any_name() {
    let devs = devices();
    assert_eq!(select_input_device(&devs, "pulse", None), Some(3));
    assert_eq!(select_input_device(&devs, " HDA Intel PCH ", None), Some(0));
    assert_eq!(select_input_device(&devs, "Loopback, Loopback PCM [#2]", None), Some(2));
    assert_eq!(select_input_device(&devs, "Loopback, Loopback PCM", None), Some(1));
    assert_eq!(select_input_device(&devs, "alsa: Mic", None), Some(3));
    assert_eq!(select_input_device(&devs, "   ", None), None);
    assert_eq!(select_input_device(&devs, "nothing", None), None);
}

#[test]
fn selection_by_duplicate_number() {
    let devs = vec![entry("a", "Mic", "Mic"), entry("b", "Speaker", "Speaker"), entry("c", "Mic", "Mic")];
    assert_eq!(select_input_device(&devs, "Mic [#2]", None), Some(2));
    assert_eq!(select_input_device(&devs, "Mic [#3]", None), None);
}

#[test]
fn selection_by_alsa_spelling() {
    let devs = devices();
    assert_eq!(select_input_device(&devs, "hw:Loopback,1", None), Some(1));
    assert_eq!(select_input_device(&devs, "hw:1,0", Some(CARDS)), None);
    assert_eq!(select_input_device(&devs, "plughw:CARD=PCH,DEV=0", None), None);
    assert_eq!(select_input_device(&devs, "hw:PCH,0", None), Some(0));
}

#[test]
fn loopback_devices_are_recognised() {
    let devs = vec![entry("mic0", "Built-in Microphone", "Built-in Microphone"), entry("bh", "BlackHole 2ch", "BlackHole 2ch")];
    assert_eq!(find_loopback_device(&devs), Some(1));
    let devs = vec![entry("alsa_output.monitor", "Speakers", "Speakers")];
    assert_eq!(find_loopback_device(&devs), Some(0));
    let devs = vec![entry("mic0", "Built-in Microphone", "Built-in Microphone")];
    assert_eq!(find_loopback_device(&devs), None);
}

#[test]
fn input_choice() {
    let devs = vec![entry("mic0", "Mic", "Mic"), entry("bh", "BlackHole 2ch", "BlackHole 2ch")];
    assert_eq!(choose_input_device(&devs, None, None), InputChoice::Device(1));
    assert_eq!(choose_input_device(&devs, Some("default"), None), InputChoice::Device(1));
    assert_eq!(choose_input_device(&devs, Some("Mic"), None), InputChoice::Device(0));
    assert_eq!(choose_input_device(&devs, Some("xyz"), None), InputChoice::NotFound);
    let mics = vec![entry("mic0", "Mic", "Mic")];
    assert_eq!(choose_input_device(&mics, None, None), InputChoice::SystemDefault);
}

#[test]
fn loopback_profile_preference() {
    assert!(!should_prefer_loopback_profile("default", Some("Loopback"), None));
    assert!(!should_prefer_loopback_profile("DEFAULT", Some("Loopback"), None));
    assert!(should_prefer_loopback_profile("hw:Loopback,1", None, None));
    assert!(should_prefer_loopback_profile("ALOOP", None, None));
    assert!(should_prefer_loopback_profile("mic", Some("USB Loopback Device"), None));
    assert!(should_prefer_loopback_profile("mic", None, Some("hw:LOOPBACK")));
    assert!(!should_prefer_loopback_profile("mic", Some("USB"), Some("x")));
}

fn range(channels: u16, min: u32, max: u32, kind: SampleKind) -> InputRange {
    InputRange { channels, min_sample_rate: min, max_sample_rate: max, kind }
}

#[test]
fn loopback_profile_choice() {
    let ranges = [
        range(1, 8000, 96000, SampleKind::I16),
        range(2, 8000, 96000, SampleKind::F32),
        range(2, 44100, 44100, SampleKind::I16),
        range(2, 8000, 96000, SampleKind::I16),
    ];
    assert_eq!(pick_loopback_44100_profile(&ranges), Some(2));
    let ranges = [range(2, 48000, 48000, SampleKind::I16), range(2, 8000, 96000, SampleKind::Other)];
    assert_eq!(pick_loopback_44100_profile(&ranges), Some(1));
    let ranges = [range(2, 48000, 96000, SampleKind::I16)];
    assert_eq!(pick_loopback_44100_profile(&ranges), None);
    assert_eq!(pick_loopback_44100_profile(&[]), None);
}
