//! Audio devices offered for recording: microphones and system-audio
//! sources, by name. The application enumerates the devices of the audio
//! host; this module builds the lists and picks a device by name.

use vstd::prelude::*;
use crate::store::text_eq;
use crate::text::opt_view;
use vstd::string::StringExecFns;

verus! {

/// Where a device records from.
#[derive(Debug, Clone, Copy, PartialEq, Eq, Structural)]
pub enum DeviceType {
    /// A microphone of the default audio host.
    Input,
    /// A system-audio source.
    System,
}

/// A device offered in the settings.
#[derive(Debug, Clone, PartialEq, Eq)]
pub struct AudioDevice {
    pub name: String,
    pub device_type: DeviceType,
    pub is_default: bool,
}

/// The device chosen in the settings.
#[derive(Debug, Clone, PartialEq, Eq)]
pub struct SelectedDevice {
    pub name: String,
    pub device_type: DeviceType,
}

/// A running capture, with the sample rate of its device.
#[derive(Debug, Clone, Copy, PartialEq, Eq)]
pub struct AudioCapture {
    pub sample_rate: u32,
}

/// A device as values.
pub open spec fn device_view(d: AudioDevice) -> (Seq<char>, DeviceType, bool) {
    (d.name@, d.device_type, d.is_default)
}

/// The views of a list of devices.
pub open spec fn devices_view(v: Seq<AudioDevice>) -> Seq<(Seq<char>, DeviceType, bool)> {
    v.map_values(|d: AudioDevice| device_view(d))
}

/// The devices named in `names`, in order, skipping the devices whose
/// name could not be read (`None`); each is of type `t` and is the default
/// one when its name is `default_name`.
pub open spec fn named_devices(
    names: Seq<Option<String>>,
    default_name: Seq<char>,
    t: DeviceType,
    flag_default: bool,
) -> Seq<(Seq<char>, DeviceType, bool)>
    decreases names.len(),
{
    if names.len() == 0 {
        Seq::empty()
    } else {
        let init = named_devices(names.drop_last(), default_name, t, flag_default);
        match names.last() {
            Some(n) => init.push((n@, t, flag_default && n@ == default_name)),
            None => init,
        }
    }
}

fn devices_from_names(names: &Vec<Option<String>>, default_name: &str, t: DeviceType, flag_default: bool) -> (r: Vec<AudioDevice>)
    ensures
        devices_view(r@) == named_devices(names@, default_name@, t, flag_default),
{
    let mut out: Vec<AudioDevice> = Vec::new();
    let mut i: usize = 0;
    while i < names.len()
        invariant
            i <= names.len(),
            devices_view(out@) == named_devices(names@.take(i as int), default_name@, t, flag_default),
        decreases names.len() - i,
    {
        assert(names@.take(i + 1).drop_last() =~= names@.take(i as int));
        let ghost before = out@;
        match &names[i] {
            Some(n) => {
                let is_default = flag_default && text_eq(n.as_str(), default_name);
                let d = AudioDevice { name: n.clone(), device_type: t, is_default };
                out.push(d);
                assert(devices_view(out@) =~= devices_view(before).push(device_view(d)));
            },
            None => {},
        }
        i = i + 1;
    }
    assert(names@.take(names.len() as int) =~= names@);
    out
}

/// The microphones of the default host, from the names of its input
/// devices (`None` where a name could not be read) and the name of its
/// default input device (`None` when there is none, read as empty).
pub fn microphone_devices(names: &Vec<Option<String>>, default_name: Option<&str>) -> (r: Vec<
    AudioDevice,
>)
    ensures
        devices_view(r@) == named_devices(
            names@,
            match default_name {
                Some(d) => d@,
                None => Seq::empty(),
            },
            DeviceType::Input,
            true,
        ),
{
    match default_name {
        Some(d) => devices_from_names(names, d, DeviceType::Input, true),
        None => {
            let empty = String::new();
            devices_from_names(names, empty.as_str(), DeviceType::Input, true)
        },
    }
}

/// The system-audio sources, from the names of their devices; none is
/// the default.
pub fn system_audio_devices(names: &Vec<Option<String>>) -> (r: Vec<AudioDevice>)
    ensures
        devices_view(r@) == named_devices(names@, Seq::empty(), DeviceType::System, false),
{
    let empty = String::new();
    devices_from_names(names, empty.as_str(), DeviceType::System, false)
}

/// Every recording device: the microphones, then the system-audio
/// sources. A failure to list microphones is the result; system audio
/// that cannot be listed contributes nothing.
pub fn list_input_devices(
    microphones: Result<Vec<AudioDevice>, String>,
    system: Result<Vec<AudioDevice>, String>,
) -> (r: Result<Vec<AudioDevice>, String>)
    ensures
        match microphones {
            Err(m) => r == Err::<Vec<AudioDevice>, String>(m),
            Ok(mics) => r matches Ok(all) && all@ == mics@ + match system {
                Ok(s) => s@,
                Err(_) => Seq::empty(),
            },
        },
{
    let mut all = match microphones {
        Ok(m) => m,
        Err(e) => return Err(e),
    };
    match system {
        Ok(mut s) => {
            all.append(&mut s);
        },
        Err(_) => {},
    }
    Ok(all)
}

/// Index of the first device named `name`.
pub fn find_device(names: &Vec<Option<String>>, name: &str) -> (r: Option<usize>)
    ensures
        match r {
            Some(i) => i < names.len() && opt_view(names@[i as int]) == Some(name@) && forall|k: int|
                0 <= k < i ==> opt_view(#[trigger] names@[k]) != Some(name@),
            None => forall|k: int| 0 <= k < names.len() ==> opt_view(#[trigger] names@[k]) != Some(name@),
        },
{
    let mut i: usize = 0;
    while i < names.len()
        invariant
            i <= names.len(),
            forall|k: int| 0 <= k < i ==> opt_view(#[trigger] names@[k]) != Some(name@),
        decreases names.len() - i,
    {
        match &names[i] {
            Some(n) => {
                if text_eq(n.as_str(), name) {
                    return Some(i);
                }
            },
            None => {},
        }
        i = i + 1;
    }
    None
}

/// The message of a device that is not there.
pub open spec fn missing_device_message(name: Seq<char>, t: DeviceType) -> Seq<char> {
    match t {
        DeviceType::Input => "Input device '"@ + name + "' not found"@,
        DeviceType::System => "System audio device '"@ + name + "' not found"@,
    }
}

/// The error of a device that is not there.
pub fn missing_device(name: &str, t: DeviceType) -> (r: String)
    ensures
        r@ == missing_device_message(name@, t),
{
    let mut s = match t {
        DeviceType::Input => String::from_str("Input device '"),
        DeviceType::System => String::from_str("System audio device '"),
    };
    s.append(name);
    s.append("' not found");
    s
}

} // verus!
