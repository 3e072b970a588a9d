//! Finding the port that the device is on.
//!
//! The ports themselves are listed by the owner of the links; what is
//! decided here is which of them, if any, is taken for the device.

use vstd::prelude::*;
use crate::device::DeviceSettings;
use crate::error::Error;
use crate::error::ErrorView;

verus! {

/// Where to look for the device, and how to talk to it.
#[derive(Debug, PartialEq, Eq)]
pub struct DeviceDetectorSettings {
    /// The name of the port to use, where it is known. Without it the
    /// port is detected.
    pub port: Option<String>,
    pub device_settings: DeviceSettings,
}

impl Clone for DeviceDetectorSettings {
    fn clone(&self) -> (copy: DeviceDetectorSettings)
        ensures
            copy == *self,
    {
        DeviceDetectorSettings {
            port: match &self.port {
                Some(name) => Some(name.clone()),
                None => None,
            },
            device_settings: self.device_settings,
        }
    }
}

/// What kind of port a serial port is.
#[derive(Clone, Copy, Debug, PartialEq, Eq)]
pub enum PortKind {
    Usb,
    Pci,
    Bluetooth,
    Unknown,
}

/// A serial port of this machine.
#[derive(Debug, PartialEq, Eq)]
pub struct PortInfo {
    pub port_name: String,
    pub port_type: PortKind,
}

/// Whether the device may be on `port`: it is a USB device.
pub open spec fn is_potential_device(port: PortInfo) -> bool {
    port.port_type == PortKind::Usb
}

/// The ports among `ports` that the device may be on, in their order.
pub open spec fn potential_devices(ports: Seq<PortInfo>) -> Seq<PortInfo> {
    ports.filter(|port: PortInfo| is_potential_device(port))
}

/// What the detection among `candidates` comes to: the name of the only
/// one, or an error where there is none, or more than one.
pub open spec fn only_candidate(candidates: Seq<PortInfo>) -> Result<String, ErrorView> {
    if candidates.len() > 1 {
        Err(ErrorView::AmbiguousDevice)
    } else if candidates.len() == 1 {
        Ok(candidates[0].port_name)
    } else {
        Err(ErrorView::NoDevice)
    }
}

/// The view of a port name that may not have been found.
pub open spec fn name_result(r: Result<String, Error>) -> Result<String, ErrorView> {
    match r {
        Ok(name) => Ok(name),
        Err(e) => Err(e@),
    }
}

/// Picks the ports that the device may be on: the USB ports.
pub fn list_potential_devices(ports: &Vec<PortInfo>) -> (candidates: Vec<PortInfo>)
    ensures
        candidates@ == potential_devices(ports@),
{
    let ghost pred = |port: PortInfo| is_potential_device(port);
    let mut candidates: Vec<PortInfo> = Vec::new();
    let mut i: usize = 0;
    proof {
        reveal(Seq::filter);
    }
    while i < ports.len()
        invariant
            i <= ports.len(),
            pred == (|port: PortInfo| is_potential_device(port)),
            candidates@ == ports@.take(i as int).filter(pred),
        decreases ports.len() - i,
    {
        let port: &PortInfo = &ports[i];
        proof {
            reveal(Seq::filter);
            assert(ports@.take(i as int + 1).drop_last() =~= ports@.take(i as int));
        }
        match port.port_type {
            PortKind::Usb => {
                candidates.push(
                    PortInfo { port_name: port.port_name.clone(), port_type: port.port_type },
                );
            },
            _ => {},
        }
        i += 1;
    }
    assert(ports@.take(i as int) =~= ports@);
    candidates
}

/// Detects the device among `ports`: it is on the only USB port.
///
/// Fails with `AmbiguousDevice` where there is more than one USB port,
/// and with `NoDevice` where there is none.
pub fn safe_detect_device(ports: &Vec<PortInfo>) -> (port: Result<String, Error>)
    ensures
        name_result(port) == only_candidate(potential_devices(ports@)),
{
    let candidates: Vec<PortInfo> = list_potential_devices(ports);
    if candidates.len() > 1 {
        Err(Error::AmbiguousDevice)
    } else if candidates.len() == 1 {
        Ok(candidates[0].port_name.clone())
    } else {
        Err(Error::NoDevice)
    }
}

/// Whether the port has to be detected: none is named in `settings`.
pub fn needs_detection(settings: &DeviceDetectorSettings) -> (needed: bool)
    ensures
        needed == (settings.port is None),
{
    settings.port.is_none()
}

/// The port to open: the one that `settings` names or, without one, the
/// one that is detected among `ports`.
pub fn detect_device(settings: &DeviceDetectorSettings, ports: &Vec<PortInfo>) -> (port: Result<
    String,
    Error,
>)
    ensures
        name_result(port) == match settings.port {
            Some(name) => Ok(name),
            None => only_candidate(potential_devices(ports@)),
        },
{
    match &settings.port {
        Some(name) => Ok(name.clone()),
        None => safe_detect_device(ports),
    }
}

} // verus!
