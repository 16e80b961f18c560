use jester::commands::{filter_type_from_name, select_device, SessionState};
use jester::j2534::J2534Device;

fn device(name: &str, compatible: bool) -> J2534Device {
    J2534Device {
        name: name.to_string(),
        vendor: String::new(),
        dll_path: format!("C:\\{}.dll", name),
        can_iso15765: false,
        can_iso11898: true,
        compatible,
    }
}

#[test]
fn filter_names() {
    assert_eq!(filter_type_from_name("pass").unwrap(), 1);
    assert_eq!(filter_type_from_name("block").unwrap(), 2);
    assert_eq!(filter_type_from_name("flow_control").unwrap(), 3);
    assert_eq!(
        filter_type_from_name("Pass").unwrap_err(),
        "ERR_INVALID_FILTER_TYPE: Must be 'pass', 'block', or 'flow_control'"
    );
    for code in 1..=3 {
        let name = jester::j2534_unified::filter_type_name(code).unwrap();
        assert_eq!(filter_type_from_name(name).unwrap(), code);
    }
}

#[test]
fn device_selection() {
    let devices = vec![device("A", true), device("B (incompatible)", false), device("A", false)];
    assert_eq!(select_device(&devices, "A").unwrap(), 0);
    assert_eq!(
        select_device(&devices, "B (incompatible)").unwrap_err(),
        "ERR_J2534_INCOMPATIBLE: Device DLL is not compatible with this process architecture"
    );
    assert_eq!(select_device(&devices, "C").unwrap_err(), "ERR_J2534_DEVICE_NOT_FOUND: C");
}

#[test]
fn session_bookkeeping() {
    let mut s = SessionState::new();
    let st = s.status();
    assert!(!st.connected);
    assert_eq!(st.baud_rate, 500000);
    assert_eq!(st.device_name, "");
    assert_eq!(s.require_connected().unwrap_err(), "ERR_NOT_CONNECTED: No active connection");
    assert_eq!(s.disconnect().unwrap_err(), "ERR_NOT_CONNECTED: No active connection");
    s.connected_to("Openport".to_string(), 250000);
    assert!(s.require_connected().is_ok());
    s.record_sent();
    s.record_sent();
    s.record_received(5);
    let st = s.status();
    assert!(st.connected);
    assert_eq!(st.device_name, "Openport");
    assert_eq!(st.baud_rate, 250000);
    assert_eq!(st.messages_sent, 2);
    assert_eq!(st.messages_received, 5);
    assert!(s.disconnect().is_ok());
    assert!(!s.status().connected);
    assert_eq!(s.status().messages_sent, 2);
    s.connected_to("Other".to_string(), 500000);
    assert_eq!(s.status().messages_sent, 0);
    assert_eq!(s.status().messages_received, 0);
}
