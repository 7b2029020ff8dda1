use crosspoint_api::{CrossPointClient, Device, Error};

#[test]
fn default_address() {
    let c = CrossPointClient::new(None).unwrap();
    assert_eq!(c.build_url("api/status").unwrap(), "http://crosspoint.local/api/status");
}

#[test]
fn given_address() {
    let c = CrossPointClient::new(Some("http://192.168.4.1".to_string())).unwrap();
    assert_eq!(c.build_url("mkdir").unwrap(), "http://192.168.4.1/mkdir");
}

#[test]
fn endpoint_replaces_last_path_segment() {
    let c = CrossPointClient::new(Some("http://device.local/a/b".to_string())).unwrap();
    assert_eq!(c.build_url("upload").unwrap(), "http://device.local/a/upload");
    let c = CrossPointClient::new(Some("http://device.local/a/b/".to_string())).unwrap();
    assert_eq!(c.build_url("upload").unwrap(), "http://device.local/a/b/upload");
}

#[test]
fn invalid_address_is_refused() {
    assert!(matches!(CrossPointClient::new(Some("not a url".to_string())), Err(Error::Url(_))));
    assert!(matches!(CrossPointClient::new(Some("http://".to_string())), Err(Error::Url(_))));
}

#[test]
fn device_holds_its_fields() {
    let d = Device {
        version: "1.0.0".to_string(),
        ip: [192, 168, 4, 1],
        mode: "AP".to_string(),
        rssi: 0,
        free_heap: 123456,
        uptime: 42,
        device: "CrossPoint".to_string(),
    };
    let e = d.clone();
    assert_eq!(e.ip, [192, 168, 4, 1]);
    assert_eq!(e.mode, "AP");
    assert_eq!(e.free_heap, 123456);
}
