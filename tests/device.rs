use blerp::device::{Device, DeviceHandler};

#[test]
fn devices_keep_insertion_order() {
    let mut h = DeviceHandler { devices: Vec::new() };
    h.add_device("b".to_string(), Device { name: "Speakers".to_string() });
    h.add_device("a".to_string(), Device { name: "Headphones".to_string() });
    h.add_device("b".to_string(), Device { name: "Again".to_string() });
    let d = h.devices();
    assert_eq!(d.len(), 3);
    assert_eq!(d[0].id, "b");
    assert_eq!(d[0].device.name, "Speakers");
    assert_eq!(d[1].id, "a");
    assert_eq!(d[2].device.name, "Again");
}

#[test]
fn empty_registry_has_no_devices() {
    let h = DeviceHandler { devices: Vec::new() };
    assert!(h.devices().is_empty());
}
