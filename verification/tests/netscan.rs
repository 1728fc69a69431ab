use rootcause::models::{NetworkDevice, PersistenceChange, Severity, Timestamp};
use rootcause::netscan::{
    classify_device, device_from_watch_item, device_key, device_watch_items, display_name, ip_sort_key,
    new_device_event, normalize_mac, scan_from_json, scan_from_raw, vendor_from_mac, RawNeighbor, RawNetworkScan,
};

fn now() -> Timestamp {
    let t = chrono::Utc::now();
    Timestamp { secs: t.timestamp(), nanos: t.timestamp_subsec_nanos() }
}

fn sample() -> RawNetworkScan {
    RawNetworkScan {
        adapter: "Wi-Fi".to_owned(),
        local_ip: "192.168.1.15".to_owned(),
        local_mac: "aa:bb:cc:dd:ee:ff".to_owned(),
        prefix: "192.168.1".to_owned(),
        gateway: "192.168.1.1".to_owned(),
        devices: vec![
            RawNeighbor {
                ip: "192.168.1.1".to_owned(),
                mac: "11-22-33-44-55-66".to_owned(),
                state: "Reachable".to_owned(),
                host: "router.local".to_owned(),
            },
            RawNeighbor {
                ip: "192.168.1.42".to_owned(),
                mac: "B8-27-EB-00-11-22".to_owned(),
                state: "Stale".to_owned(),
                host: "".to_owned(),
            },
        ],
    }
}

const SAMPLE: &str = r#"{
        "adapter": "Wi-Fi",
        "localIp": "192.168.1.15",
        "localMac": "aa:bb:cc:dd:ee:ff",
        "prefix": "192.168.1",
        "gateway": "192.168.1.1",
        "devices": [
            {"ip":"192.168.1.1","mac":"11-22-33-44-55-66","state":"Reachable","host":"router.local"},
            {"ip":"192.168.1.42","mac":"B8-27-EB-00-11-22","state":"Stale","host":""}
        ]
    }"#;

#[test]
fn parsea_y_marca_self_y_gateway() {
    let scan = scan_from_json(SAMPLE, false, "2026-07-15T00:00:00Z");
    assert_eq!(scan.local_ip, "192.168.1.15");
    assert_eq!(scan.subnet_prefix, "192.168.1");
    assert_eq!(scan.devices.len(), 3);
    assert_eq!(scan.total_devices, 2);
    assert!(scan.devices.iter().any(|d| d.is_self));
    assert!(scan.devices.iter().any(|d| d.is_gateway && d.ip == "192.168.1.1"));
    assert!(scan.devices.iter().any(|d| d.ip == "192.168.1.42" && d.vendor == "Raspberry Pi"));
}

#[test]
fn json_invalido_no_paniquea() {
    let scan = scan_from_json("", false, "t");
    assert!(scan.devices.is_empty());
    assert!(!scan.limitations.is_empty());
}

#[test]
fn normaliza_mac() {
    assert_eq!(normalize_mac("aa:bb:cc:dd:ee:ff"), "AA-BB-CC-DD-EE-FF");
    assert_eq!(normalize_mac(" 11-22-33 "), "11-22-33");
}

#[test]
fn dispositivo_nuevo_genera_evento_y_removido_no() {
    let mut nuevo = NetworkDevice {
        ip: "192.168.1.77".to_owned(),
        mac: "DE-AD-BE-EF-00-01".to_owned(),
        change_status: PersistenceChange::Added,
        ..Default::default()
    };
    classify_device(&mut nuevo);
    assert_eq!(nuevo.severity, Severity::Warning);
    let now = now();
    assert!(new_device_event(now, &nuevo).is_some());

    let mut ido = NetworkDevice {
        ip: "192.168.1.78".to_owned(),
        change_status: PersistenceChange::Removed,
        ..Default::default()
    };
    classify_device(&mut ido);
    assert!(new_device_event(now, &ido).is_none());
}

#[test]
fn watch_item_roundtrip_de_removido() {
    let raw = sample();
    let scan = scan_from_raw(Some(&raw), false, "t");
    let items = device_watch_items(&scan.devices);
    assert_eq!(items.len(), 2);
    let reconstruido = device_from_watch_item(&items[0]);
    assert_eq!(reconstruido.change_status, PersistenceChange::Removed);
    assert!(!reconstruido.ip.is_empty());
}

#[test]
fn scan_orders_self_then_gateway() {
    let raw = sample();
    let scan = scan_from_raw(Some(&raw), true, "t");
    assert!(scan.deep);
    assert!(scan.devices[0].is_self);
    assert!(scan.devices[1].is_gateway);
    assert_eq!(scan.devices[2].ip, "192.168.1.42");
    assert_eq!(scan.devices[0].mac, "AA-BB-CC-DD-EE-FF");
    assert_eq!(scan.new_devices, 0);
}

#[test]
fn watch_item_roundtrip_keeps_identity() {
    let device = NetworkDevice {
        ip: "10.0.0.9".to_owned(),
        mac: "00-11-22-33-44-55".to_owned(),
        hostname: "printer".to_owned(),
        vendor: "Acme".to_owned(),
        ..Default::default()
    };
    let items = device_watch_items(std::slice::from_ref(&device));
    assert_eq!(items.len(), 1);
    assert_eq!(items[0].key, "00-11-22-33-44-55");
    assert_eq!(items[0].label, "printer");
    let back = device_from_watch_item(&items[0]);
    assert_eq!(back.ip, "10.0.0.9");
    assert_eq!(back.mac, "00-11-22-33-44-55");
    assert_eq!(back.vendor, "Acme");
    assert_eq!(back.hostname, "printer");
}

#[test]
fn keys_names_and_vendors() {
    let mut d = NetworkDevice { ip: "192.168.1.5".to_owned(), ..Default::default() };
    assert_eq!(device_key(&d), "ip:192.168.1.5");
    assert_eq!(display_name(&d), "192.168.1.5");
    d.is_self = true;
    assert_eq!(display_name(&d), "Este equipo");
    assert_eq!(vendor_from_mac("B8-27-EB-00-11-22"), "Raspberry Pi");
    assert_eq!(ip_sort_key("192.168.1.42"), 0xC0A8012A);
}

#[test]
fn gateway_with_new_identity_is_critical() {
    let mut gw = NetworkDevice {
        ip: "192.168.1.1".to_owned(),
        is_gateway: true,
        change_status: PersistenceChange::Added,
        ..Default::default()
    };
    classify_device(&mut gw);
    assert_eq!(gw.severity, Severity::Critical);
}

#[test]
fn normalizing_twice_changes_nothing() {
    for mac in ["aa:bb:cc:dd:ee:ff", " 11-22-33 ", "", "Ab:1c"] {
        let once = normalize_mac(mac);
        assert_eq!(normalize_mac(&once), once);
    }
}

#[test]
fn raw_scan_matches_its_json() {
    let from_raw = scan_from_raw(Some(&sample()), false, "t");
    let from_json = scan_from_json(SAMPLE, false, "t");
    assert_eq!(from_raw.devices.len(), from_json.devices.len());
    assert_eq!(from_raw.adapter_name, from_json.adapter_name);
    let empty = scan_from_raw(None, false, "t");
    assert!(empty.devices.is_empty());
    assert!(!empty.limitations.is_empty());
}

#[test]
fn null_and_odd_fields_read_as_empty() {
    let raw = r#"{"adapter":null,"localIp":"10.0.0.5","localMac":7,"gateway":"10.0.0.1",
        "devices":[{"ip":"10.0.0.1","mac":null,"state":"Reachable"},{"ip":null,"mac":"AA-BB"}]}"#;
    let scan = scan_from_json(raw, false, "t");
    assert_eq!(scan.adapter_name, "");
    assert_eq!(scan.local_mac, "");
    assert_eq!(scan.devices.len(), 2);
    assert!(scan.devices.iter().any(|d| d.is_gateway && d.mac.is_empty()));
    let no_list = scan_from_json(r#"{"localIp":"10.0.0.5","devices":"none"}"#, false, "t");
    assert_eq!(no_list.devices.len(), 1);
}
