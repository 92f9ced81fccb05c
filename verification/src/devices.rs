//! Known Nanoleaf devices: choosing one by name, and the state changes that
//! make a device ready for the visualizer.
use vstd::prelude::*;

verus! {

/// A paired Nanoleaf device: its name, IPv4 address and API token.
#[derive(Debug)]
pub struct NlDevice {
    pub name: String,
    pub ip: [u8; 4],
    pub token: String,
}

/// Why no device was chosen.
#[derive(Debug, PartialEq, Eq)]
pub enum DeviceLookupError {
    /// The list of known devices is empty.
    NoDevices,
    /// No known device has the requested name.
    NotFound(String),
}

/// The first position of a device with the given name.
pub open spec fn first_named(devices: Seq<NlDevice>, name: Seq<char>, i: int) -> bool {
    0 <= i < devices.len() && devices[i].name@ == name && forall|j: int|
        0 <= j < i ==> devices[j].name@ != name
}

/// Whether some device has the given name.
pub open spec fn has_named(devices: Seq<NlDevice>, name: Seq<char>) -> bool {
    exists|i: int| 0 <= i < devices.len() && devices[i].name@ == name
}

fn position_of(devices: &Vec<NlDevice>, name: &str) -> (r: Option<usize>)
    ensures
        match r {
            Some(i) => first_named(devices@, name@, i as int),
            None => !has_named(devices@, name@),
        },
{
    let target = String::from_str(name);
    let mut i: usize = 0;
    while i < devices.len()
        invariant
            i <= devices@.len(),
            target@ == name@,
            forall|j: int| 0 <= j < i ==> devices@[j].name@ != name@,
        decreases devices.len() - i,
    {
        if devices[i].name == target {
            return Some(i);
        }
        i = i + 1;
    }
    None
}

impl NlDevice {
    /// Picks a device from the known ones: the first without a name to look for,
    /// else the first with that name. Fails on an empty list, or where no device has
    /// the name.
    pub fn find_in_list(devices: Vec<NlDevice>, device_name: Option<&str>) -> (r: Result<NlDevice, DeviceLookupError>)
        ensures
            devices@.len() == 0 ==> r == Err::<NlDevice, DeviceLookupError>(DeviceLookupError::NoDevices),
            devices@.len() > 0 ==> match device_name {
                None => r == Ok::<NlDevice, DeviceLookupError>(devices@[0]),
                Some(name) => if has_named(devices@, name@) {
                    exists|i: int|
                        first_named(devices@, name@, i) && r == Ok::<NlDevice, DeviceLookupError>(
                            devices@[i],
                        )
                } else {
                    r matches Err(DeviceLookupError::NotFound(n)) && n@ == name@
                },
            },
    {
        let mut devices = devices;
        if devices.len() == 0 {
            return Err(DeviceLookupError::NoDevices);
        }
        match device_name {
            None => Ok(devices.remove(0)),
            Some(name) => match position_of(&devices, name) {
                Some(i) => Ok(devices.remove(i)),
                None => Err(DeviceLookupError::NotFound(String::from_str(name))),
            },
        }
    }
}

/// The device the live visualizer attaches to: the one with the preferred name
/// where there is one, else the first; `fell_back` tells whether a preferred name
/// was given and not found.
pub fn choose_live_device(devices: Vec<NlDevice>, preferred_name: Option<&str>) -> (r: Option<(NlDevice, bool)>)
    ensures
        devices@.len() == 0 ==> r is None,
        devices@.len() > 0 ==> match preferred_name {
            None => r == Some((devices@[0], false)),
            Some(name) => if has_named(devices@, name@) {
                exists|i: int| first_named(devices@, name@, i) && r == Some((devices@[i], false))
            } else {
                r == Some((devices@[0], true))
            },
        },
{
    let mut devices = devices;
    if devices.len() == 0 {
        return None;
    }
    match preferred_name {
        None => Some((devices.remove(0), false)),
        Some(name) => match position_of(&devices, name) {
            Some(i) => Some((devices.remove(i), false)),
            None => Some((devices.remove(0), true)),
        },
    }
}

/// The name to look a device up by for a command: the one given on the command
/// line, else the configured default where a configuration file exists.
/// `config_default_name` is `None` where there is no configuration file.
pub open spec fn requested_name<'a>(cli_device_name: Option<&'a str>, config_default_name: Option<Option<&'a str>>) -> Option<&'a str> {
    match cli_device_name {
        Some(n) => Some(n),
        None => match config_default_name {
            Some(d) => d,
            None => None,
        },
    }
}

/// Resolves the device a command works on: the one with the command-line name, or
/// with the configured default name (where a configuration file exists), or the
/// first known device (see `NlDevice::find_in_list`).
pub fn resolve_device(
    cli_device_name: Option<&str>,
    config_default_name: Option<Option<&str>>,
    devices: Vec<NlDevice>,
) -> (r: Result<NlDevice, DeviceLookupError>)
    ensures
        ({
            let name = requested_name(cli_device_name, config_default_name);
            &&& devices@.len() == 0 ==> r == Err::<NlDevice, DeviceLookupError>(DeviceLookupError::NoDevices)
            &&& devices@.len() > 0 ==> match name {
                None => r == Ok::<NlDevice, DeviceLookupError>(devices@[0]),
                Some(n) => if has_named(devices@, n@) {
                    exists|i: int|
                        first_named(devices@, n@, i) && r == Ok::<NlDevice, DeviceLookupError>(
                            devices@[i],
                        )
                } else {
                    r matches Err(DeviceLookupError::NotFound(m)) && m@ == n@
                },
            }
        }),
{
    let name = match cli_device_name {
        Some(n) => Some(n),
        None => match config_default_name {
            Some(d) => d,
            None => None,
        },
    };
    NlDevice::find_in_list(devices, name)
}

/// The devices file is missing: devices must be added first.
#[derive(Debug, PartialEq, Eq)]
pub struct NoDevicesFile;

/// The configuration and devices file paths of a command, which needs the devices
/// file to exist.
pub fn resolve_device_paths<P>(config_path: P, devices_path: P, devices_exists: bool) -> (r: Result<(P, P), NoDevicesFile>)
    ensures
        devices_exists ==> r == Ok::<(P, P), NoDevicesFile>((config_path, devices_path)),
        !devices_exists ==> r == Err::<(P, P), NoDevicesFile>(NoDevicesFile),
{
    if !devices_exists {
        return Err(NoDevicesFile);
    }
    Ok((config_path, devices_path))
}

/// A change of a device's power and brightness.
#[derive(Clone, Copy, Debug, PartialEq, Eq, Structural)]
pub struct StateChange {
    pub power_on: Option<bool>,
    pub brightness: Option<u8>,
}

/// The change that readies a device for the visualizer, given what its info
/// reports (missing values read as on and 100; the brightness is cut to a byte as
/// `as u8` cuts it): power on where it is off, and brightness 100 whenever a change
/// is needed; none where it is on at brightness 100.
pub open spec fn readiness_spec(is_on: Option<bool>, brightness: Option<u64>) -> Option<StateChange> {
    let on = match is_on {
        Some(b) => b,
        None => true,
    };
    let level = match brightness {
        Some(b) => b as u8,
        None => 100u8,
    };
    if !on || level != 100 {
        Some(StateChange { power_on: if !on { Some(true) } else { None }, brightness: Some(100) })
    } else {
        None
    }
}

/// The change that readies a device (see `readiness_spec`).
pub fn readiness_change(is_on: Option<bool>, brightness: Option<u64>) -> (r: Option<StateChange>)
    ensures
        r == readiness_spec(is_on, brightness),
{
    let on = match is_on {
        Some(b) => b,
        None => true,
    };
    let level: u8 = match brightness {
        Some(b) => b as u8,
        None => 100,
    };
    let needs_power = !on;
    let needs_brightness = level != 100;
    if needs_power || needs_brightness {
        Some(
            StateChange {
                power_on: if needs_power {
                    Some(true)
                } else {
                    None
                },
                brightness: Some(100),
            },
        )
    } else {
        None
    }
}

/// Why a requested state change is refused.
#[derive(Debug, PartialEq, Eq, Structural)]
pub enum StateRequestError {
    /// Neither power nor brightness is given.
    Empty,
    /// The brightness is above 100.
    BrightnessOutOfRange,
}

/// Checks a requested state change: it must set power or brightness, and a
/// brightness is at most 100.
pub fn validate_state_request(power_on: Option<bool>, brightness: Option<u8>) -> (r: Result<StateChange, StateRequestError>)
    ensures
        (power_on is None && brightness is None) ==> r == Err::<StateChange, StateRequestError>(
            StateRequestError::Empty,
        ),
        !(power_on is None && brightness is None) && (brightness matches Some(b) && b > 100) ==> r
            == Err::<StateChange, StateRequestError>(StateRequestError::BrightnessOutOfRange),
        !(power_on is None && brightness is None) && !(brightness matches Some(b) && b > 100) ==> r
            == Ok::<StateChange, StateRequestError>(StateChange { power_on, brightness }),
{
    if power_on.is_none() && brightness.is_none() {
        return Err(StateRequestError::Empty);
    }
    match brightness {
        Some(b) => {
            if b > 100 {
                return Err(StateRequestError::BrightnessOutOfRange);
            }
        },
        None => {},
    }
    Ok(StateChange { power_on, brightness })
}

} // verus!
