use cast_away::device::{find_device, DeviceInfo};

fn dev(name: &str, address: &str, port: u16) -> DeviceInfo {
    DeviceInfo::new(name.to_string(), address.to_string(), port)
}

#[test]
fn device_info_keeps_its_fields() {
    let d = dev("Living room", "192.168.1.20", 8009);
    assert_eq!(d.name(), "Living room");
    assert_eq!(d.address(), "192.168.1.20");
    assert_eq!(d.port(), 8009);
    let c = d.clone();
    assert_eq!(c.name(), "Living room");
    assert_eq!(c.address(), "192.168.1.20");
    assert_eq!(c.port(), 8009);
}

#[test]
fn resolved_service_prefers_friendly_name() {
    let d = DeviceInfo::from_resolved_service(
        Some("Kitchen TV".to_string()),
        "Chromecast-abc._googlecast._tcp.local.".to_string(),
        vec!["10.0.0.5".to_string(), "fe80::1".to_string()],
        8009,
    )
    .unwrap();
    assert_eq!(d.name(), "Kitchen TV");
    assert_eq!(d.address(), "10.0.0.5");
    assert_eq!(d.port(), 8009);
}

#[test]
fn resolved_service_falls_back_to_full_name() {
    let d = DeviceInfo::from_resolved_service(
        None,
        "Chromecast-abc._googlecast._tcp.local.".to_string(),
        vec!["10.0.0.6".to_string()],
        8010,
    )
    .unwrap();
    assert_eq!(d.name(), "Chromecast-abc._googlecast._tcp.local.");
    assert_eq!(d.address(), "10.0.0.6");
    assert_eq!(d.port(), 8010);
}

#[test]
fn resolved_service_without_address_gives_no_device() {
    let d = DeviceInfo::from_resolved_service(Some("TV".to_string()), "x".to_string(), vec![], 8009);
    assert!(d.is_none());
}

#[test]
fn find_device_returns_the_first_of_a_name() {
    let devices = vec![dev("a", "1.1.1.1", 1), dev("b", "2.2.2.2", 2), dev("a", "3.3.3.3", 3)];
    let found = find_device(&devices, "a").unwrap();
    assert_eq!(found.address(), "1.1.1.1");
    assert_eq!(found.port(), 1);
    let found = find_device(&devices, "b").unwrap();
    assert_eq!(found.address(), "2.2.2.2");
    assert!(find_device(&devices, "c").is_none());
    assert!(find_device(&Vec::new(), "a").is_none());
}

#[test]
fn appending_a_device_keeps_earlier_lookups() {
    let mut devices = vec![dev("a", "1.1.1.1", 1)];
    devices.push(dev("a", "9.9.9.9", 9));
    assert_eq!(find_device(&devices, "a").unwrap().address(), "1.1.1.1");
    devices.push(dev("new", "5.5.5.5", 5));
    assert_eq!(find_device(&devices, "new").unwrap().address(), "5.5.5.5");
}
