use jester::bridge_client::{
    self, bridge_exe_name, bridge_target_triple, check_response_id, dev_build_type, frame_line,
    pipe_name, BridgeSession, ResponseData, Response,
};
use jester::j2534::J2534Device;
use jester::j2534_unified::{
    add_filter_request, bridge_start_message, expect_bool, expect_done, expect_float_bits,
    expect_messages, expect_number, expect_text, expect_version, extend_device,
    filter_type_name,
};
use jester::protocol;

fn failure() -> Response {
    Response::Error { code: 7, message: "ERR_FAILED".to_string() }
}

fn ok(data: ResponseData) -> Response {
    Response::Success { data }
}

#[test]
fn pipe_and_executable_names() {
    assert_eq!(pipe_name(4242), "\\\\.\\pipe\\jester-j2534-4242");
    assert_eq!(bridge_exe_name(32), "j2534-bridge-32.exe");
    assert_eq!(bridge_exe_name(64), "j2534-bridge-64.exe");
    assert_eq!(bridge_target_triple(32), "i686-pc-windows-msvc");
    assert_eq!(bridge_target_triple(64), "x86_64-pc-windows-msvc");
    assert_eq!(dev_build_type(0), "release");
    assert_eq!(dev_build_type(1), "debug");
    assert_eq!(frame_line("{\"id\":1}"), "{\"id\":1}\n");
}

#[test]
fn response_ids_must_match() {
    assert!(check_response_id(5, 5).is_ok());
    assert_eq!(check_response_id(5, 6).unwrap_err(), "Response ID mismatch: expected 5, got 6");
}

#[test]
fn bridge_session_lifecycle() {
    let mut s = BridgeSession::new();
    assert!(!s.is_running());
    assert_eq!(s.next_request_id().unwrap_err(), "Bridge not connected");
    assert!(s.check_can_start().is_ok());
    s.process_started();
    assert_eq!(s.check_can_start().unwrap_err(), "Bridge already running");
    assert!(!s.is_running());
    s.pipe_opened();
    assert!(s.is_running());
    assert_eq!(s.next_request_id().unwrap(), 1);
    assert_eq!(s.next_request_id().unwrap(), 2);
    let plan = s.stop_plan();
    assert!(plan.send_shutdown && plan.kill_process);
    s.stopped();
    assert!(!s.is_running());
    let again = s.stop_plan();
    assert!(!again.send_shutdown && !again.kill_process);
    assert!(s.check_can_start().is_ok());
}

#[test]
fn replies_without_data() {
    assert!(expect_done(ok(ResponseData::Nothing)).is_ok());
    assert!(expect_done(ok(ResponseData::Number(3))).is_ok());
    assert_eq!(expect_done(failure()).unwrap_err(), "ERR_FAILED");
}

#[test]
fn replies_with_frames() {
    let frames = vec![bridge_client::CanMessage { timestamp_us: 9, arb_id: 0x7E8, extended: false, data: vec![1, 2] }];
    let got = expect_messages(ok(ResponseData::Messages(frames))).unwrap();
    assert_eq!(got.len(), 1);
    assert_eq!(got[0].arb_id, 0x7E8);
    assert_eq!(got[0].data, vec![1, 2]);
    assert_eq!(got[0].timestamp_us, 9);
    assert!(expect_messages(ok(ResponseData::Nothing)).unwrap().is_empty());
    assert_eq!(expect_messages(failure()).unwrap_err(), "ERR_FAILED");
}

#[test]
fn replies_with_values() {
    let v = bridge_client::VersionInfo {
        firmware_version: "1.0".to_string(),
        dll_version: "2.0".to_string(),
        api_version: "04.04".to_string(),
    };
    let got = expect_version(ok(ResponseData::Version(v))).unwrap();
    assert_eq!(got.api_version, "04.04");
    assert_eq!(expect_version(ok(ResponseData::Nothing)).unwrap_err(), "Unexpected response type");
    assert_eq!(expect_text(ok(ResponseData::String("no error".to_string()))).unwrap(), "no error");
    assert_eq!(expect_text(ok(ResponseData::Bool(true))).unwrap(), "");
    assert_eq!(expect_float_bits(ok(ResponseData::Float(12.5f64.to_bits()))).unwrap(), 12.5f64.to_bits());
    assert_eq!(expect_float_bits(ok(ResponseData::Number(12500))).unwrap_err(), "Unexpected response type");
    assert_eq!(expect_number(ok(ResponseData::Number(42))).unwrap(), 42);
    assert_eq!(expect_number(failure()).unwrap_err(), "ERR_FAILED");
    assert!(expect_bool(ok(ResponseData::Bool(true))).unwrap());
    assert_eq!(expect_bool(ok(ResponseData::Connected)).unwrap_err(), "Unexpected response type");
}

#[test]
fn filter_types_and_requests() {
    assert_eq!(filter_type_name(1).unwrap(), "pass");
    assert_eq!(filter_type_name(2).unwrap(), "block");
    assert_eq!(filter_type_name(3).unwrap(), "flow_control");
    assert_eq!(filter_type_name(4).unwrap_err(), "Invalid filter type");
    match add_filter_request(3, &[0xFF], &[0x07], true).unwrap() {
        bridge_client::Request::AddFilter { filter_type, mask, pattern, extended } => {
            assert_eq!(filter_type, "flow_control");
            assert_eq!(mask, vec![0xFF]);
            assert_eq!(pattern, vec![0x07]);
            assert!(extended);
        }
        other => panic!("unexpected request {:?}", other),
    }
    assert_eq!(add_filter_request(0, &[], &[], false).unwrap_err(), "Invalid filter type");
}

#[test]
fn devices_gain_bitness() {
    let d = J2534Device {
        name: "Openport  2.0 (32-bit)".to_string(),
        vendor: "Tactrix".to_string(),
        dll_path: "C:\\op.dll".to_string(),
        can_iso15765: true,
        can_iso11898: false,
        compatible: false,
    };
    let e = extend_device(d.clone(), Some(32), 64);
    assert_eq!(e.name, "Openport 2.0");
    assert_eq!(e.bitness, 32);
    assert!(!e.native);
    assert!(e.compatible);
    let f = extend_device(d, None, 64);
    assert_eq!(f.bitness, 64);
    assert!(f.native);
    assert_eq!(bridge_start_message(32), "Starting 32-bit bridge process");
}

#[test]
fn protocol_responses() {
    assert!(matches!(protocol::Response::ok_none(), protocol::Response::Success { data: protocol::ResponseData::Nothing }));
    assert!(matches!(
        protocol::Response::ok(protocol::ResponseData::Number(3)),
        protocol::Response::Success { data: protocol::ResponseData::Number(3) }
    ));
    match protocol::Response::error(8, "ERR_DEVICE_NOT_CONNECTED".to_string()) {
        protocol::Response::Error { code, message } => {
            assert_eq!(code, 8);
            assert_eq!(message, "ERR_DEVICE_NOT_CONNECTED");
        }
        _ => panic!("expected an error"),
    }
}

#[test]
fn pipe_names_differ_per_process() {
    let names: std::collections::HashSet<String> = [0u32, 1, 10, 100, 101, 1010, u32::MAX].iter().map(|&p| pipe_name(p)).collect();
    assert_eq!(names.len(), 7);
}

#[test]
fn kth_request_carries_id_k() {
    let mut s = BridgeSession::new();
    s.process_started();
    s.pipe_opened();
    for k in 1..=5u64 {
        assert_eq!(s.next_request_id().unwrap(), k);
    }
    s.stopped();
    assert!(s.next_request_id().is_err());
    s.pipe_opened();
    assert_eq!(s.next_request_id().unwrap(), 6);
}
