use rome_link::device::DeviceSettings;
use rome_link::device_detector::detect_device;
use rome_link::device_detector::list_potential_devices;
use rome_link::device_detector::needs_detection;
use rome_link::device_detector::safe_detect_device;
use rome_link::device_detector::DeviceDetectorSettings;
use rome_link::device_detector::PortInfo;
use rome_link::device_detector::PortKind;
use rome_link::error::Error;

fn port(name: &str, port_type: PortKind) -> PortInfo {
    PortInfo { port_name: name.to_string(), port_type }
}

fn settings(name: Option<&str>) -> DeviceDetectorSettings {
    DeviceDetectorSettings {
        port: name.map(|name| name.to_string()),
        device_settings: DeviceSettings::default(),
    }
}

#[test]
fn only_usb_ports_may_hold_the_device() {
    let ports = vec![
        port("COM1", PortKind::Pci),
        port("COM7", PortKind::Usb),
        port("COM3", PortKind::Bluetooth),
        port("COM9", PortKind::Unknown),
        port("COM2", PortKind::Usb),
    ];
    assert_eq!(
        list_potential_devices(&ports),
        vec![port("COM7", PortKind::Usb), port("COM2", PortKind::Usb)]
    );
    assert_eq!(list_potential_devices(&vec![]), vec![]);
}

#[test]
fn the_only_usb_port_is_the_device() {
    let ports = vec![port("COM1", PortKind::Pci), port("COM7", PortKind::Usb)];
    assert_eq!(safe_detect_device(&ports), Ok("COM7".to_string()));
}

#[test]
fn no_usb_port_is_no_device() {
    let ports = vec![port("COM1", PortKind::Pci), port("COM3", PortKind::Unknown)];
    assert_eq!(safe_detect_device(&ports), Err(Error::NoDevice));
    assert_eq!(safe_detect_device(&vec![]), Err(Error::NoDevice));
}

#[test]
fn two_usb_ports_are_one_too_many() {
    let ports = vec![
        port("COM7", PortKind::Usb),
        port("COM1", PortKind::Pci),
        port("COM8", PortKind::Usb),
    ];
    assert_eq!(safe_detect_device(&ports), Err(Error::AmbiguousDevice));
}

#[test]
fn a_named_port_is_taken_as_it_is() {
    let two = vec![port("COM7", PortKind::Usb), port("COM8", PortKind::Usb)];
    assert!(!needs_detection(&settings(Some("COM1"))));
    assert_eq!(detect_device(&settings(Some("COM1")), &two), Ok("COM1".to_string()));
    assert_eq!(detect_device(&settings(Some("COM1")), &vec![]), Ok("COM1".to_string()));
}

#[test]
fn without_a_name_the_port_is_detected() {
    let one = vec![port("COM1", PortKind::Pci), port("COM7", PortKind::Usb)];
    let two = vec![port("COM7", PortKind::Usb), port("COM8", PortKind::Usb)];
    assert!(needs_detection(&settings(None)));
    assert_eq!(detect_device(&settings(None), &one), Ok("COM7".to_string()));
    assert_eq!(detect_device(&settings(None), &two), Err(Error::AmbiguousDevice));
    assert_eq!(detect_device(&settings(None), &vec![]), Err(Error::NoDevice));
}

#[test]
fn detector_settings_can_be_copied() {
    let named = settings(Some("COM4"));
    assert_eq!(named.clone(), named);
}
