use jester::j2534::{connect_flags, numbered_message, open_step, OpenAction, OpenEvent, J2534Progress};
use jester::j2534::{
    c_string_field, check_call, cleanup_after, collect_received, devices_from_registry,
    encode_can_frame, encode_filter_msg, is_dll_compatible, loopback_config_value,
    loopback_from_config, loopback_report, missing_function_error, pass_all_filter_msg,
    EchoTracker, J2534Call, PassThruMsg, RegistryDevice, CAN_29BIT_ID, PASSTHRU_DATA_SIZE,
    PROTOCOL_CAN, RX_CAN_29BIT_ID, TX_MSG_TYPE,
};
use jester::j2534_unified::{dll_bitness, process_bitness};

fn pe_image(offset: u32, signature: [u8; 4], machine: u16, len: usize) -> Vec<u8> {
    let mut image = vec![0u8; len];
    image[0] = b'M';
    image[1] = b'Z';
    image[0x3C..0x40].copy_from_slice(&offset.to_le_bytes());
    let o = offset as usize;
    if o + 6 <= len {
        image[o..o + 4].copy_from_slice(&signature);
        image[o + 4..o + 6].copy_from_slice(&machine.to_le_bytes());
    }
    image
}

#[test]
fn dll_bitness_from_pe_header() {
    assert_eq!(dll_bitness(&pe_image(0x80, *b"PE\0\0", 0x014c, 0x100)), Some(32));
    assert_eq!(dll_bitness(&pe_image(0x80, *b"PE\0\0", 0x8664, 0x100)), Some(64));
    assert_eq!(dll_bitness(&pe_image(0x80, *b"PE\0\0", 0xAA64, 0x100)), Some(64));
    assert_eq!(dll_bitness(&pe_image(0x80, *b"PE\0\0", 0x0200, 0x100)), None);
    assert_eq!(dll_bitness(&pe_image(0x80, *b"PE\0\x01", 0x8664, 0x100)), None);
    assert_eq!(dll_bitness(&pe_image(0xFC, *b"PE\0\0", 0x8664, 0x100)), None);
    assert_eq!(dll_bitness(&pe_image(0xFA, *b"PE\0\0", 0x8664, 0x100)), Some(64));
    let mut not_mz = pe_image(0x80, *b"PE\0\0", 0x8664, 0x100);
    not_mz[0] = b'N';
    assert_eq!(dll_bitness(&not_mz), None);
    assert_eq!(dll_bitness(&[b'M', b'Z']), None);
}

#[test]
fn dll_compatibility_from_pe_header() {
    let bits = process_bitness();
    assert_eq!(bits as usize, std::mem::size_of::<usize>() * 8);
    let native = if bits == 64 { 0x8664 } else { 0x014c };
    let foreign = if bits == 64 { 0x014c } else { 0x8664 };
    assert!(is_dll_compatible(&pe_image(0x40, *b"PE\0\0", native, 0x80)));
    assert!(!is_dll_compatible(&pe_image(0x40, *b"PE\0\0", foreign, 0x80)));
    assert!(is_dll_compatible(&pe_image(0x40, *b"PEXY", native, 0x80)));
    assert!(!is_dll_compatible(&pe_image(0x40, *b"PF\0\0", native, 0x80)));
    assert!(!is_dll_compatible(&pe_image(0x7C, *b"PE\0\0", native, 0x80)));
    assert!(!is_dll_compatible(&[0u8; 10]));
}

#[test]
fn can_frame_encoding() {
    let m = encode_can_frame(0x18DAF110, &[1, 2, 3, 4, 5, 6, 7, 8, 9, 10], true);
    assert_eq!(m.protocol_id, PROTOCOL_CAN);
    assert_eq!(m.tx_flags, CAN_29BIT_ID);
    assert_eq!(m.data_size, 12);
    assert_eq!(&m.data[..12], &[0x18, 0xDA, 0xF1, 0x10, 1, 2, 3, 4, 5, 6, 7, 8]);
    assert_eq!(m.data.len(), PASSTHRU_DATA_SIZE);
    assert!(m.data[12..].iter().all(|&b| b == 0));
    let s = encode_can_frame(0x7E0, &[0x02, 0x10, 0x03], false);
    assert_eq!(s.tx_flags, 0);
    assert_eq!(s.data_size, 7);
    assert_eq!(&s.data[..7], &[0, 0, 0x07, 0xE0, 0x02, 0x10, 0x03]);
}

#[test]
fn filter_message_encoding() {
    let m = encode_filter_msg(&[0xFF, 0xFF, 0x07, 0xFF, 0xAA], true);
    assert_eq!(m.data_size, 4);
    assert_eq!(m.tx_flags, CAN_29BIT_ID);
    assert_eq!(&m.data[..5], &[0xFF, 0xFF, 0x07, 0xFF, 0]);
    let p = encode_filter_msg(&[0x07], false);
    assert_eq!(&p.data[..4], &[0x07, 0, 0, 0]);
    let all = pass_all_filter_msg();
    assert_eq!(all.data_size, 4);
    assert_eq!(all.protocol_id, PROTOCOL_CAN);
    assert!(all.data.iter().all(|&b| b == 0));
}

fn received(arb: u32, payload: &[u8], rx_status: u32, timestamp: u32) -> PassThruMsg {
    let mut m = encode_can_frame(arb, payload, false);
    m.tx_flags = 0;
    m.rx_status = rx_status;
    m.timestamp = timestamp;
    m
}

#[test]
fn frames_read_back_as_sent() {
    let sent = encode_can_frame(0x1ABCDEF0, &[9, 8, 7], true);
    let mut echo = sent.clone();
    echo.rx_status = sent.tx_flags;
    let mut tracker = EchoTracker::new();
    let out = collect_received(&vec![echo], 1, true, &mut tracker, &[0; 16], 1000);
    assert_eq!(out.len(), 1);
    assert_eq!(out[0].arb_id, 0x1ABCDEF0);
    assert_eq!(out[0].data, vec![9, 8, 7]);
    assert!(out[0].extended);
    assert_eq!(out[0].timestamp_us, 1000);
}

#[test]
fn read_skips_transmitted_and_short_messages() {
    let mut tracker = EchoTracker::new();
    let mut short = received(0x100, &[], 0, 0);
    short.data_size = 3;
    let msgs = vec![
        received(0x7E8, &[0x06, 0x50, 0x03], 0, 5),
        received(0x7E0, &[0x02, 0x10, 0x03], TX_MSG_TYPE, 6),
        short,
        received(0x18DAF110, &[1], RX_CAN_29BIT_ID, 7),
    ];
    let out = collect_received(&msgs, 4, false, &mut tracker, &[0; 16], 100);
    assert_eq!(out.len(), 2);
    assert_eq!(out[0].arb_id, 0x7E8);
    assert_eq!(out[0].timestamp_us, 105);
    assert!(!out[0].extended);
    assert_eq!(out[1].arb_id, 0x18DAF110);
    assert!(out[1].extended);
    let with_loopback = collect_received(&msgs, 4, true, &mut tracker, &[0; 16], 100);
    assert_eq!(with_loopback.len(), 3);
    assert_eq!(with_loopback[1].arb_id, 0x7E0);
    let first_two = collect_received(&msgs, 1, false, &mut tracker, &[0; 16], 100);
    assert_eq!(first_two.len(), 1);
}

#[test]
fn echoes_of_sent_frames_are_dropped_once() {
    let mut tracker = EchoTracker::new();
    tracker.record_sent(0x7E0, &[0x02, 0x10, 0x03], 1_000_000);
    tracker.record_sent(0x7E0, &[0x02, 0x10, 0x03], 1_000_100);
    assert_eq!(tracker.len(), 2);
    let msgs = vec![
        received(0x7E0, &[0x02, 0x10, 0x03], 0, 1),
        received(0x7E0, &[0x02, 0x10, 0x03], 0, 2),
        received(0x7E0, &[0x02, 0x10, 0x03], 0, 3),
    ];
    let out = collect_received(&msgs, 3, false, &mut tracker, &[1_200_000; 16], 0);
    assert_eq!(out.len(), 1);
    assert_eq!(out[0].timestamp_us, 3);
    assert_eq!(tracker.len(), 0);
}

#[test]
fn echo_window_expires() {
    let mut tracker = EchoTracker::new();
    tracker.record_sent(0x7E0, &[1, 2, 3, 4, 5, 6, 7, 8, 9], 0);
    tracker.record_sent(0x7E1, &[1], 400_000);
    let msgs = vec![received(0x7E0, &[1, 2, 3, 4, 5, 6, 7, 8], 0, 0)];
    let out = collect_received(&msgs, 1, false, &mut tracker, &[500_000; 16], 0);
    assert_eq!(out.len(), 1);
    assert_eq!(tracker.len(), 1);
    tracker.prune(900_000);
    assert_eq!(tracker.len(), 0);
}

#[test]
fn echo_matches_truncated_payload() {
    let mut tracker = EchoTracker::new();
    tracker.record_sent(0x7E0, &[1, 2, 3, 4, 5, 6, 7, 8, 9], 0);
    let msgs = vec![received(0x7E0, &[1, 2, 3, 4, 5, 6, 7, 8], 0, 0)];
    let out = collect_received(&msgs, 1, false, &mut tracker, &[499_999; 16], 0);
    assert!(out.is_empty());
}

#[test]
fn call_status_checks() {
    assert!(check_call(J2534Call::WriteMsgs, 0).is_ok());
    assert_eq!(
        check_call(J2534Call::WriteMsgs, 7).unwrap_err(),
        "ERR_J2534_WRITE_FAILED: error code 7 [ERR_FAILED]"
    );
    assert!(check_call(J2534Call::ReadMsgs, 0x10).is_ok());
    assert!(check_call(J2534Call::ReadMsgs, 0x09).is_ok());
    assert_eq!(check_call(J2534Call::ReadMsgs, 8).unwrap_err(), "ERR_J2534_READ_FAILED: error code 8");
    assert!(check_call(J2534Call::GetConfig, 0x10).is_err());
    assert_eq!(
        check_call(J2534Call::GetConfig, 0x05).unwrap_err(),
        "ERR_J2534_GET_CONFIG_FAILED: error code 5 (ERR_INVALID_IOCTL_VALUE)"
    );
    assert_eq!(check_call(J2534Call::Open, -1).unwrap_err(), "ERR_J2534_OPEN_FAILED: error code -1");
    assert_eq!(
        check_call(J2534Call::ClearRxBuffer, 2).unwrap_err(),
        "ERR_J2534_IOCTL_FAILED: CLEAR_RX_BUFFER error code 2"
    );
    assert_eq!(
        check_call(J2534Call::ReadBatteryVoltage, 99).unwrap_err(),
        "ERR_J2534_READ_VBATT_FAILED: error code 99 (UNKNOWN_ERROR)"
    );
    assert_eq!(
        missing_function_error("PassThruIoctl", "symbol not found"),
        "ERR_J2534_FUNC_NOT_FOUND: PassThruIoctl - symbol not found"
    );
}

#[test]
fn cleanup_after_failed_open_steps() {
    let c = cleanup_after(J2534Call::Open);
    assert!(!c.close_device && !c.disconnect_channel);
    let c = cleanup_after(J2534Call::Connect);
    assert!(c.close_device && !c.disconnect_channel);
    let c = cleanup_after(J2534Call::PassAllFilter);
    assert!(c.close_device && c.disconnect_channel);
    let c = cleanup_after(J2534Call::WriteMsgs);
    assert!(!c.close_device && !c.disconnect_channel);
}

#[test]
fn loopback_setting() {
    assert_eq!(loopback_config_value(true), 1);
    assert_eq!(loopback_config_value(false), 0);
    assert!(loopback_from_config(1));
    assert!(loopback_from_config(7));
    assert!(!loopback_from_config(0));
    for b in [true, false] {
        assert_eq!(loopback_from_config(loopback_config_value(b)), b);
    }
    assert_eq!(loopback_report(&Ok(()), &Ok(false)), "Loopback reported OFF");
    assert_eq!(
        loopback_report(&Ok(()), &Err("ERR_X".to_string())),
        "Loopback set ok; readback failed: ERR_X"
    );
    assert_eq!(
        loopback_report(&Err("E1".to_string()), &Ok(true)),
        "Loopback set failed: E1; device reports ON"
    );
    assert_eq!(
        loopback_report(&Err("E1".to_string()), &Err("E2".to_string())),
        "Loopback set failed: E1; readback failed: E2"
    );
}

#[test]
fn c_string_fields() {
    let mut field = [0i8; 80];
    for (i, b) in b"04.04".iter().enumerate() {
        field[i] = *b as i8;
    }
    assert_eq!(c_string_field(&field), "04.04");
    assert_eq!(c_string_field(&[0i8; 80]), "");
    assert_eq!(c_string_field(&[b'a' as i8, b'b' as i8]), "ab");
    assert_eq!(c_string_field(&[-1i8, 0]), "\u{FFFD}");
}

fn entry(key: &str, name: Option<&str>, dll: Option<&str>, compatible: bool) -> RegistryDevice {
    RegistryDevice {
        key_name: key.to_string(),
        name: name.map(|s| s.to_string()),
        vendor: Some("Vendor".to_string()),
        function_library: dll.map(|s| s.to_string()),
        iso15765: Some(1),
        can: None,
        compatible,
    }
}

#[test]
fn registry_device_list() {
    let entries = vec![
        entry("Tactrix", Some("Openport 2.0"), Some("C:\\op20pt32.dll"), true),
        entry("NoDll", Some("Broken"), None, true),
        entry("Empty", Some("Broken"), Some(""), true),
        entry("Other", None, Some("C:\\other.dll"), false),
        entry("Tactrix", Some("Openport 2.0 again"), Some("C:\\op20pt32.dll"), true),
    ];
    let devices = devices_from_registry(&entries);
    assert_eq!(devices.len(), 2);
    assert_eq!(devices[0].name, "Openport 2.0");
    assert_eq!(devices[0].vendor, "Vendor");
    assert!(devices[0].can_iso15765);
    assert!(!devices[0].can_iso11898);
    assert!(devices[0].compatible);
    assert_eq!(devices[1].name, "Other (incompatible)");
    assert_eq!(devices[1].dll_path, "C:\\other.dll");
    assert!(!devices[1].compatible);
}

#[test]
fn one_send_suppresses_one_frame() {
    let mut tracker = EchoTracker::new();
    tracker.record_sent(0x123, &[0xAA, 0xBB], 10);
    let msgs = vec![received(0x123, &[0xAA, 0xBB], 0, 1), received(0x123, &[0xAA, 0xBB], 0, 2)];
    let out = collect_received(&msgs, 2, false, &mut tracker, &[20; 16], 0);
    assert_eq!(out.len(), 1);
    assert_eq!(out[0].timestamp_us, 2);
    assert_eq!(out[0].data, vec![0xAA, 0xBB]);
    assert_eq!(tracker.len(), 0);
}

#[test]
fn connect_flags_and_progress_text() {
    assert_eq!(connect_flags(true), CAN_29BIT_ID);
    assert_eq!(connect_flags(false), 0);
    assert_eq!(numbered_message("Baud rate: ", 500000, " bps"), "Baud rate: 500000 bps");
    assert_eq!(numbered_message("Device ID: ", 0, ""), "Device ID: 0");
}

fn report_parts(p: &J2534Progress) -> (String, String, Option<String>) {
    (p.step.clone(), p.status.clone(), p.message.clone())
}

fn parts(step: &str, status: &str, message: Option<&str>) -> (String, String, Option<String>) {
    (step.to_string(), status.to_string(), message.map(|m| m.to_string()))
}

#[test]
fn opening_steps_report_progress_in_order() {
    let path = "C:\\PassThru\\op20pt32.dll";
    let begin = open_step(OpenEvent::Begin, path, 500000, false);
    assert_eq!(begin.next, OpenAction::LoadDll);
    let got: Vec<_> = begin.reports.iter().map(report_parts).collect();
    assert_eq!(got, vec![parts("load_dll", "in_progress", Some(path))]);

    let loaded = open_step(OpenEvent::DllLoaded, path, 500000, false);
    assert_eq!(loaded.next, OpenAction::OpenDevice);
    let got: Vec<_> = loaded.reports.iter().map(report_parts).collect();
    assert_eq!(got, vec![parts("load_dll", "success", None), parts("open_device", "in_progress", None)]);

    let opened = open_step(OpenEvent::DeviceOpened { device_id: 3 }, path, 250000, true);
    assert_eq!(opened.next, OpenAction::Connect { flags: CAN_29BIT_ID, baud_rate: 250000 });
    let got: Vec<_> = opened.reports.iter().map(report_parts).collect();
    assert_eq!(
        got,
        vec![
            parts("open_device", "success", Some("Device ID: 3")),
            parts("connect_channel", "in_progress", Some("Baud rate: 250000 bps")),
        ]
    );

    let connected = open_step(OpenEvent::ChannelConnected { channel_id: 12 }, path, 500000, false);
    assert_eq!(connected.next, OpenAction::StartPassAllFilter);
    let got: Vec<_> = connected.reports.iter().map(report_parts).collect();
    assert_eq!(
        got,
        vec![parts("connect_channel", "success", Some("Channel ID: 12")), parts("set_filter", "in_progress", None)]
    );

    let filtered = open_step(OpenEvent::FilterSet, path, 500000, false);
    assert_eq!(filtered.next, OpenAction::CheckLoopback);
    let got: Vec<_> = filtered.reports.iter().map(report_parts).collect();
    assert_eq!(
        got,
        vec![
            parts("set_filter", "success", None),
            parts("loopback", "in_progress", Some("Disabling loopback (if supported)")),
        ]
    );

    let done = open_step(
        OpenEvent::LoopbackChecked { report: "Loopback reported OFF".to_string() },
        path,
        500000,
        false,
    );
    assert_eq!(done.next, OpenAction::Finish);
    let got: Vec<_> = done.reports.iter().map(report_parts).collect();
    assert_eq!(
        got,
        vec![
            parts("loopback", "success", Some("Loopback reported OFF")),
            parts("complete", "success", Some("Connection established")),
        ]
    );
}

#[test]
fn lossy_text_fields() {
    assert_eq!(c_string_field(&[0xFFu8 as i8, b'A' as i8, 0, b'B' as i8]), "\u{FFFD}A");
    let e_acute = "é".as_bytes();
    assert_eq!(c_string_field(&[e_acute[0] as i8, e_acute[1] as i8, 0]), "é");
}

#[test]
fn echo_window_checked_per_message() {
    let mut tracker = EchoTracker::new();
    tracker.record_sent(0x7E0, &[1], 0);
    tracker.record_sent(0x7E0, &[1], 100_000);
    let msgs = vec![received(0x7E0, &[1], 0, 1), received(0x7E0, &[1], 0, 2)];
    // The first message is handled while both sends are recent; the second
    // after the first send has left the window, but the second is still in it.
    let out = collect_received(&msgs, 2, false, &mut tracker, &[450_000, 550_000], 0);
    assert!(out.is_empty());
    assert_eq!(tracker.len(), 0);
    let mut late = EchoTracker::new();
    late.record_sent(0x7E0, &[1], 0);
    let out = collect_received(&msgs, 2, false, &mut late, &[100, 600_000], 0);
    assert_eq!(out.len(), 1);
    assert_eq!(out[0].timestamp_us, 2);
}
