use jester::j2534::{error_code_to_string, protocol_id_to_string};
use jester::j2534_unified::clean_device_name;
use jester::bridge_client::{check_response_id, pipe_name};
use jester::j2534::{check_call, J2534Call};
use jester::text::{is_whitespace, str_equal};

#[test]
fn decimal_numbers_in_messages() {
    assert_eq!(pipe_name(0), "\\\\.\\pipe\\jester-j2534-0");
    assert_eq!(pipe_name(u32::MAX), "\\\\.\\pipe\\jester-j2534-4294967295");
    assert_eq!(
        check_response_id(u64::MAX, 1234567890).unwrap_err(),
        "Response ID mismatch: expected 18446744073709551615, got 1234567890"
    );
    assert_eq!(
        check_call(J2534Call::Open, i32::MIN).unwrap_err(),
        "ERR_J2534_OPEN_FAILED: error code -2147483648"
    );
    assert_eq!(check_call(J2534Call::Connect, 26).unwrap_err(), "ERR_J2534_CONNECT_FAILED: error code 26");
}

#[test]
fn whitespace_matches_std() {
    for u in 0u32..0x3100 {
        if let Some(c) = char::from_u32(u) {
            assert_eq!(is_whitespace(c), c.is_whitespace(), "char {:#x}", u);
        }
    }
}

#[test]
fn string_equality() {
    assert!(str_equal("pass", "pass"));
    assert!(!str_equal("pass", "pas"));
    assert!(!str_equal("block", "blocK"));
    assert!(str_equal("", ""));
}

#[test]
fn clean_name_removes_markers() {
    assert_eq!(clean_device_name("Scanmatik 2 PRO (64-bit)"), "Scanmatik 2 PRO");
    assert_eq!(clean_device_name("(x86) Tactrix  Openport 2.0 (incompatible)"), "Tactrix Openport 2.0");
    assert_eq!(clean_device_name("  VCX\tNano (32 bit)\n"), "VCX Nano");
    assert_eq!(clean_device_name("(compatible)(x64)"), "");
    assert_eq!(clean_device_name(""), "");
}

#[test]
fn clean_name_matches_replace_and_split() {
    let markers = [
        "(64-bit)", "(32-bit)", "(64 bit)", "(32 bit)", "(incompatible)", "(compatible)", "(x64)",
        "(x86)",
    ];
    let samples = [
        "Mongoose Pro GM II (64 bit)",
        "a(64-(32-bit)bit)b",
        "x (64\u{2003}bit) y",
        "\u{a0}Drew\u{2028}Tech\u{3000}",
        "(((x64)x86))",
        "Cardaq  Plus 3   (x64)   J2534",
    ];
    for s in samples {
        let mut expected = s.to_string();
        for m in markers {
            expected = expected.replace(m, "");
        }
        let expected = expected.split_whitespace().collect::<Vec<_>>().join(" ");
        assert_eq!(clean_device_name(s), expected, "input {:?}", s);
    }
}

#[test]
fn clean_name_leaves_clean_names() {
    for s in ["Tactrix Openport 2.0", "A", "VCM II"] {
        assert_eq!(clean_device_name(s), s);
    }
    let once = clean_device_name("  Foo   (x64)  Bar ");
    assert_eq!(clean_device_name(&once), once);
}

#[test]
fn status_code_names() {
    assert_eq!(error_code_to_string(0), "STATUS_NOERROR");
    assert_eq!(error_code_to_string(0x07), "ERR_FAILED");
    assert_eq!(error_code_to_string(0x10), "ERR_BUFFER_EMPTY");
    assert_eq!(error_code_to_string(0x1A), "ERR_INVALID_DEVICE_ID");
    assert_eq!(error_code_to_string(0x1B), "UNKNOWN_ERROR");
    assert_eq!(error_code_to_string(-1), "UNKNOWN_ERROR");
}

#[test]
fn status_code_names_distinct() {
    let mut seen = std::collections::HashSet::new();
    for code in 0..=0x1A {
        let name = error_code_to_string(code);
        assert_ne!(name, "UNKNOWN_ERROR");
        assert!(seen.insert(name), "duplicate {}", name);
    }
}

#[test]
fn protocol_names() {
    assert_eq!(protocol_id_to_string(5), "CAN");
    assert_eq!(protocol_id_to_string(6), "ISO15765");
    assert_eq!(protocol_id_to_string(1), "J1850VPW");
    assert_eq!(protocol_id_to_string(10), "SCI_B_TRANS");
    assert_eq!(protocol_id_to_string(0), "UNKNOWN");
    assert_eq!(protocol_id_to_string(11), "UNKNOWN");
}
