use quick_capture::audio::{
    find_device, list_input_devices, microphone_devices, missing_device, system_audio_devices,
    AudioDevice, DeviceType,
};

fn dev(name: &str, t: DeviceType, is_default: bool) -> AudioDevice {
    AudioDevice { name: name.into(), device_type: t, is_default }
}

#[test]
fn microphones_mark_the_default_and_skip_unnamed() {
    let names = vec![Some("Built-in".to_string()), None, Some("USB".to_string())];
    assert_eq!(
        microphone_devices(&names, Some("USB")),
        vec![dev("Built-in", DeviceType::Input, false), dev("USB", DeviceType::Input, true)]
    );
    assert_eq!(microphone_devices(&names, None), vec![dev("Built-in", DeviceType::Input, false), dev("USB", DeviceType::Input, false)]);
}

#[test]
fn system_sources_are_never_default() {
    let names = vec![Some("Display".to_string())];
    assert_eq!(system_audio_devices(&names), vec![dev("Display", DeviceType::System, false)]);
}

#[test]
fn list_concatenates_and_ignores_system_failure() {
    let mics = vec![dev("Mic", DeviceType::Input, true)];
    let sys = vec![dev("Display", DeviceType::System, false)];
    assert_eq!(
        list_input_devices(Ok(mics.clone()), Ok(sys)),
        Ok(vec![dev("Mic", DeviceType::Input, true), dev("Display", DeviceType::System, false)])
    );
    assert_eq!(list_input_devices(Ok(mics.clone()), Err("no sck".into())), Ok(mics));
    assert_eq!(list_input_devices(Err("no host".into()), Ok(vec![])), Err("no host".to_string()));
}

#[test]
fn find_device_picks_the_first_match() {
    let names = vec![None, Some("A".to_string()), Some("B".to_string()), Some("A".to_string())];
    assert_eq!(find_device(&names, "A"), Some(1));
    assert_eq!(find_device(&names, "C"), None);
    assert_eq!(missing_device("C", DeviceType::Input), "Input device 'C' not found");
    assert_eq!(missing_device("C", DeviceType::System), "System audio device 'C' not found");
}
