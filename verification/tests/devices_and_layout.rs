use audioleaf::devices::{
    choose_live_device, readiness_change, resolve_device, resolve_device_paths,
    validate_state_request, DeviceLookupError, NlDevice, NoDevicesFile, StateChange,
    StateRequestError,
};
use audioleaf::layout::{get_panels, layout_bounds, parse_layout, LayoutRecord, ShapeType};
use audioleaf::panels::Panel;

fn device(name: &str, last: u8) -> NlDevice {
    NlDevice { name: name.to_string(), ip: [192, 168, 1, last], token: format!("tok{}", last) }
}

#[test]
fn lookup_by_name_or_first() {
    let devs = vec![device("Shapes", 2), device("Canvas", 3), device("Canvas", 4)];
    let d = NlDevice::find_in_list(devs, Some("Canvas")).unwrap();
    assert_eq!(d.ip, [192, 168, 1, 3]);
    let devs = vec![device("Shapes", 2), device("Canvas", 3)];
    assert_eq!(NlDevice::find_in_list(devs, None).unwrap().name, "Shapes");
    let devs = vec![device("Shapes", 2)];
    assert_eq!(
        NlDevice::find_in_list(devs, Some("Elements")).unwrap_err(),
        DeviceLookupError::NotFound("Elements".to_string())
    );
    assert_eq!(NlDevice::find_in_list(Vec::new(), None).unwrap_err(), DeviceLookupError::NoDevices);
}

#[test]
fn live_device_falls_back_to_first() {
    let devs = vec![device("Shapes", 2), device("Canvas", 3)];
    let (d, fell_back) = choose_live_device(devs, Some("Lines")).unwrap();
    assert_eq!(d.name, "Shapes");
    assert!(fell_back);
    let devs = vec![device("Shapes", 2), device("Canvas", 3)];
    let (d, fell_back) = choose_live_device(devs, Some("Canvas")).unwrap();
    assert_eq!(d.name, "Canvas");
    assert!(!fell_back);
    assert!(choose_live_device(Vec::new(), None).is_none());
}

#[test]
fn command_line_name_wins_over_configured_one() {
    let devs = vec![device("Shapes", 2), device("Canvas", 3)];
    assert_eq!(resolve_device(Some("Canvas"), Some(Some("Shapes")), devs).unwrap().name, "Canvas");
    let devs = vec![device("Shapes", 2), device("Canvas", 3)];
    assert_eq!(resolve_device(None, Some(Some("Canvas")), devs).unwrap().name, "Canvas");
    let devs = vec![device("Shapes", 2), device("Canvas", 3)];
    assert_eq!(resolve_device(None, None, devs).unwrap().name, "Shapes");
    let devs = vec![device("Shapes", 2)];
    assert_eq!(resolve_device(None, Some(None), devs).unwrap().name, "Shapes");
}

#[test]
fn device_paths_need_devices_file() {
    assert_eq!(resolve_device_paths("c.toml", "d.toml", true), Ok(("c.toml", "d.toml")));
    assert_eq!(resolve_device_paths("c.toml", "d.toml", false), Err(NoDevicesFile));
}

#[test]
fn readiness() {
    assert_eq!(readiness_change(Some(true), Some(100)), None);
    assert_eq!(readiness_change(None, None), None);
    assert_eq!(
        readiness_change(Some(false), Some(100)),
        Some(StateChange { power_on: Some(true), brightness: Some(100) })
    );
    assert_eq!(
        readiness_change(Some(true), Some(40)),
        Some(StateChange { power_on: None, brightness: Some(100) })
    );
    assert_eq!(readiness_change(Some(true), Some(356)), None);
}

#[test]
fn state_requests() {
    assert_eq!(validate_state_request(None, None), Err(StateRequestError::Empty));
    assert_eq!(validate_state_request(None, Some(101)), Err(StateRequestError::BrightnessOutOfRange));
    assert_eq!(
        validate_state_request(Some(false), Some(0)),
        Ok(StateChange { power_on: Some(false), brightness: Some(0) })
    );
    assert_eq!(validate_state_request(Some(true), None), Ok(StateChange { power_on: Some(true), brightness: None }));
}

#[test]
fn shapes() {
    let hex = ShapeType::from_id(7);
    assert_eq!(hex.name, "Hexagon (Shapes)");
    assert_eq!(hex.side_length_hundredths, 6700);
    assert_eq!(hex.num_sides(), 6);
    assert_eq!(ShapeType::from_id(0).num_sides(), 3);
    assert_eq!(ShapeType::from_id(2).num_sides(), 4);
    let unknown = ShapeType::from_id(99);
    assert_eq!(unknown.name, "Unknown");
    assert_eq!(unknown.side_length_hundredths, 10000);
    assert_eq!(unknown.num_sides(), 4);
    assert_eq!(ShapeType::from_id(15).side_length_hundredths, 4575);
}

fn record(id: u64, x: i64, y: i64, shape: Option<u64>) -> LayoutRecord {
    LayoutRecord { panel_id: Some(id), x: Some(x), y: Some(y), orientation: Some(60), shape_type: shape }
}

#[test]
fn layout_records_become_panel_infos() {
    let records = [
        record(10, 100, -50, Some(7)),
        LayoutRecord { panel_id: None, x: None, y: Some(70000), orientation: None, shape_type: None },
    ];
    let infos = parse_layout(&records);
    assert_eq!(infos.len(), 2);
    assert_eq!((infos[0].panel_id, infos[0].x, infos[0].y, infos[0].orientation), (10, 100, -50, 60));
    assert_eq!(infos[0].shape_type.name, "Hexagon (Shapes)");
    assert_eq!((infos[1].panel_id, infos[1].x, infos[1].y, infos[1].orientation), (0, 0, 4464, 0));
    assert_eq!(infos[1].shape_type.name, "Triangle");
}

#[test]
fn controllers_are_not_light_panels() {
    let records = [record(1, 0, 0, Some(8)), record(2, 5, 5, Some(12)), record(3, 10, 20, None)];
    assert_eq!(
        get_panels(&records),
        vec![Panel { id: 1, x: 0, y: 0 }, Panel { id: 3, x: 10, y: 20 }]
    );
}

#[test]
fn bounds_of_a_layout() {
    let infos = parse_layout(&[record(1, 5, -3, Some(7)), record(2, -8, 12, Some(7)), record(3, 0, 0, Some(7))]);
    assert_eq!(layout_bounds(&infos), Some((-8, 5, -3, 12)));
    assert_eq!(layout_bounds(&[]), None);
}
