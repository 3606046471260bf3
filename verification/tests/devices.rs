use fastsp::audio::{find_device, level_event_due, list_input_devices, select_device, HostDevice};

fn dev(name: &str, usable: bool) -> HostDevice {
    HostDevice { name: name.to_string(), usable }
}

#[test]
fn devices_with_the_same_name_are_numbered() {
    let devs = vec![dev("Mic", true), dev("Speaker", false), dev("Mic", true), dev("USB", true), dev("Mic", true)];
    let listed = list_input_devices(&devs, "Mic");
    let ids: Vec<&str> = listed.iter().map(|d| d.id.as_str()).collect();
    assert_eq!(ids, vec!["Mic", "Mic (2)", "USB", "Mic (3)"]);
    let defaults: Vec<bool> = listed.iter().map(|d| d.is_default).collect();
    assert_eq!(defaults, vec![true, false, false, false]);
    assert_eq!(listed[1].name, "Mic");
}

#[test]
fn listed_ids_find_their_devices() {
    let devs = vec![dev("Mic", true), dev("Speaker", false), dev("Mic", true), dev("USB", true)];
    assert_eq!(find_device(&devs, "Mic"), Some(0));
    assert_eq!(find_device(&devs, "Mic (2)"), Some(2));
    assert_eq!(find_device(&devs, "USB"), Some(3));
    assert_eq!(find_device(&devs, "Speaker"), None);
    assert_eq!(select_device(&devs, "Headset"), Err("Device not found: Headset".to_string()));
}

#[test]
fn level_events_are_throttled() {
    assert!(!level_event_due(1_010, 1_000));
    assert!(level_event_due(1_016, 1_000));
    assert!(!level_event_due(900, 1_000));
}
