//! A registry of named audio devices, kept in insertion order.
use vstd::prelude::*;

verus! {

/// A handle to an audio device.
pub struct Device {
    pub name: String,
}

/// A device together with the identifier it was registered under.
pub struct DeviceEntry {
    pub id: String,
    pub device: Device,
}

/// The devices known to the application, in the order they were added.
///
/// Identifiers are not required to be unique.
pub struct DeviceHandler {
    pub devices: Vec<DeviceEntry>,
}

impl DeviceHandler {
    /// Register `device` under `id`, after every device registered so far.
    pub fn add_device(&mut self, id: String, device: Device)
        ensures
            final(self).devices@ == old(self).devices@.push(DeviceEntry { id, device }),
    {
        self.devices.push(DeviceEntry { id, device });
    }

    /// The registered devices, in insertion order.
    pub fn devices(self) -> (r: Vec<DeviceEntry>)
        ensures
            r@ == self.devices@,
    {
        self.devices
    }
}

} // verus!
