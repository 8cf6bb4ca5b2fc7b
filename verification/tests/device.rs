use scene_renderer::device::{create_device, DeviceChoice, DeviceInfo};

fn device(is_removable: bool, is_low_power: bool) -> DeviceInfo {
    DeviceInfo { is_removable, is_low_power, has_unified_memory: false, supports_apple1: false }
}

#[test]
fn built_in_low_power_devices_are_preferred() {
    let removable = device(true, true);
    let discrete = device(false, false);
    let integrated = device(false, true);
    assert_eq!(
        create_device(&vec![removable, discrete, integrated]),
        DeviceChoice::Listed(2)
    );
    assert_eq!(create_device(&vec![removable, discrete]), DeviceChoice::Listed(1));
    assert_eq!(create_device(&vec![device(true, false), removable]), DeviceChoice::Listed(1));
    assert_eq!(create_device(&vec![device(true, false)]), DeviceChoice::Listed(0));
}

#[test]
fn the_first_of_equals_is_taken() {
    let integrated = device(false, true);
    assert_eq!(
        create_device(&vec![device(false, false), integrated, integrated]),
        DeviceChoice::Listed(1)
    );
}

#[test]
fn without_a_list_the_default_is_taken() {
    assert_eq!(create_device(&vec![]), DeviceChoice::SystemDefault);
}
