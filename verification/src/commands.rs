//! The commands that the front end invokes: their arguments, and the
//! decisions and bookkeeping around each call to the adapter.

use vstd::prelude::*;
use vstd::string::StringExecFns;
use crate::j2534::{
    BLOCK_FILTER, ConnectionStatus, FLOW_CONTROL_FILTER, J2534Device, PASS_FILTER, DeviceRecord,
};
use crate::text::push_str;

verus! {

/// A CAN frame to send.
#[derive(Debug, Clone)]
pub struct SendMessageRequest {
    pub arb_id: u32,
    pub data: Vec<u8>,
    pub extended: bool,
}

/// The operating system and processor architecture the application runs on.
#[derive(Debug, Clone)]
pub struct PlatformInfo {
    pub platform: String,
    pub arch: String,
}

/// A periodic message to start.
#[derive(Debug, Clone)]
pub struct PeriodicMessageRequest {
    pub arb_id: u32,
    pub data: Vec<u8>,
    pub interval_ms: u32,
    pub extended: bool,
}

/// A message filter to add; `filter_type` is `pass`, `block` or
/// `flow_control`.
#[derive(Debug, Clone)]
pub struct FilterRequest {
    pub filter_type: String,
    pub mask: Vec<u8>,
    pub pattern: Vec<u8>,
    pub extended: bool,
}

/// A configuration parameter to read, or to set when a value is given.
#[derive(Debug, Clone)]
pub struct ConfigRequest {
    pub parameter: u32,
    pub value: Option<u32>,
}

/// The J2534 filter type that a front-end filter name stands for.
pub open spec fn filter_type_code(name: Seq<char>) -> Option<u32> {
    if name == "pass"@ {
        Some(PASS_FILTER)
    } else if name == "block"@ {
        Some(BLOCK_FILTER)
    } else if name == "flow_control"@ {
        Some(FLOW_CONTROL_FILTER)
    } else {
        None
    }
}

/// The error for an unknown filter name.
pub open spec fn invalid_filter_type_text() -> Seq<char> {
    "ERR_INVALID_FILTER_TYPE: Must be 'pass', 'block', or 'flow_control'"@
}

/// Maps a front-end filter name to its J2534 filter type.
pub fn filter_type_from_name(name: &str) -> (r: Result<u32, String>)
    ensures
        r is Ok <==> filter_type_code(name@) is Some,
        r matches Ok(code) ==> filter_type_code(name@) == Some(code),
        r matches Err(e) ==> e@ == invalid_filter_type_text(),
{
    if crate::text::str_equal(name, "pass") {
        Ok(PASS_FILTER)
    } else if crate::text::str_equal(name, "block") {
        Ok(BLOCK_FILTER)
    } else if crate::text::str_equal(name, "flow_control") {
        Ok(FLOW_CONTROL_FILTER)
    } else {
        Err(String::from_str("ERR_INVALID_FILTER_TYPE: Must be 'pass', 'block', or 'flow_control'"))
    }
}

/// The error for a command that needs a connection when there is none.
pub open spec fn not_connected_text() -> Seq<char> {
    "ERR_NOT_CONNECTED: No active connection"@
}

fn not_connected() -> (e: String)
    ensures
        e@ == not_connected_text(),
{
    String::from_str("ERR_NOT_CONNECTED: No active connection")
}

/// Whether some device in the list has the given name.
pub open spec fn names_device(devices: Seq<DeviceRecord>, name: Seq<char>) -> bool {
    exists|i: int| 0 <= i < devices.len() && (#[trigger] devices[i]).name == name
}

/// Whether `i` is the first position of a device with the given name.
pub open spec fn is_first_named(devices: Seq<DeviceRecord>, i: int, name: Seq<char>) -> bool {
    &&& 0 <= i < devices.len()
    &&& devices[i].name == name
    &&& forall|j: int| 0 <= j < i ==> (#[trigger] devices[j]).name != name
}

/// The first position of a device with the given name, when there is one.
pub open spec fn first_named(devices: Seq<DeviceRecord>, name: Seq<char>) -> int {
    choose|i: int| #[trigger] is_first_named(devices, i, name)
}

/// The error for a device name that no device has.
pub open spec fn device_not_found_text(name: Seq<char>) -> Seq<char> {
    "ERR_J2534_DEVICE_NOT_FOUND: "@ + name
}

/// The error for a device whose DLL cannot load into this process.
pub open spec fn incompatible_text() -> Seq<char> {
    "ERR_J2534_INCOMPATIBLE: Device DLL is not compatible with this process architecture"@
}

/// Picks the device to connect to: the first with the given name, which
/// must be compatible with this process.
pub fn select_device(devices: &Vec<J2534Device>, name: &str) -> (r: Result<usize, String>)
    ensures
        r is Ok <==> names_device(devices@.map_values(|d: J2534Device| d@), name@) && devices@[
            first_named(devices@.map_values(|d: J2534Device| d@), name@)].compatible,
        r matches Ok(i) ==> is_first_named(devices@.map_values(|d: J2534Device| d@), i as int, name@),
        r matches Err(e) ==> e@ == (if names_device(
            devices@.map_values(|d: J2534Device| d@),
            name@,
        ) {
            incompatible_text()
        } else {
            device_not_found_text(name@)
        }),
{
    let ghost v = devices@.map_values(|d: J2534Device| d@);
    let mut i: usize = 0;
    while i < devices.len()
        invariant
            v == devices@.map_values(|d: J2534Device| d@),
            i <= devices.len(),
            forall|j: int| 0 <= j < i ==> (#[trigger] v[j]).name != name@,
        decreases devices.len() - i,
    {
        proof {
            assert(v[i as int] == devices@[i as int]@);
        }
        if crate::text::str_equal(devices[i].name.as_str(), name) {
            proof {
                assert(is_first_named(v, i as int, name@));
                assert(names_device(v, name@));
                let k = first_named(v, name@);
                assert(k == i) by {
                    if k < i {
                        assert(v[k].name != name@);
                    }
                    if k > i {
                        assert(v[i as int].name != name@);
                    }
                }
            }
            if !devices[i].compatible {
                return Err(
                    String::from_str(
                        "ERR_J2534_INCOMPATIBLE: Device DLL is not compatible with this process architecture",
                    ),
                );
            }
            return Ok(i);
        }
        i = i + 1;
    }
    let mut e = String::from_str("ERR_J2534_DEVICE_NOT_FOUND: ");
    push_str(&mut e, name);
    Err(e)
}

/// What the front end knows of its connection: whether one is open, the
/// device and baud rate it was opened with, and how many frames were sent
/// and received on it.
pub struct SessionState {
    pub connected: bool,
    pub device_name: String,
    pub baud_rate: u32,
    pub messages_sent: u64,
    pub messages_received: u64,
}

/// The baud rate shown before any connection was made.
pub const DEFAULT_BAUD_RATE: u32 = 500000;

impl SessionState {
    /// The state before any connection: not connected, no device, the
    /// default baud rate and no frames.
    pub fn new() -> (s: Self)
        ensures
            !s.connected,
            s.device_name@ == Seq::<char>::empty(),
            s.baud_rate == DEFAULT_BAUD_RATE,
            s.messages_sent == 0,
            s.messages_received == 0,
    {
        SessionState {
            connected: false,
            device_name: String::new(),
            baud_rate: DEFAULT_BAUD_RATE,
            messages_sent: 0,
            messages_received: 0,
        }
    }

    /// Records a connection just opened: its device and baud rate, and no
    /// frames yet.
    pub fn connected_to(&mut self, device_name: String, baud_rate: u32)
        ensures
            final(self).connected,
            final(self).device_name@ == device_name@,
            final(self).baud_rate == baud_rate,
            final(self).messages_sent == 0,
            final(self).messages_received == 0,
    {
        self.connected = true;
        self.device_name = device_name;
        self.baud_rate = baud_rate;
        self.messages_sent = 0;
        self.messages_received = 0;
    }

    /// Checks that a connection is open.
    pub fn require_connected(&self) -> (r: Result<(), String>)
        ensures
            r is Ok <==> self.connected,
            r matches Err(e) ==> e@ == not_connected_text(),
    {
        if self.connected {
            Ok(())
        } else {
            Err(not_connected())
        }
    }

    /// Closes the connection; fails when there is none. The device, baud
    /// rate and counts stay as they were.
    pub fn disconnect(&mut self) -> (r: Result<(), String>)
        ensures
            r is Ok <==> old(self).connected,
            r matches Err(e) ==> e@ == not_connected_text(),
            !final(self).connected,
            final(self).device_name@ == old(self).device_name@,
            final(self).baud_rate == old(self).baud_rate,
            final(self).messages_sent == old(self).messages_sent,
            final(self).messages_received == old(self).messages_received,
    {
        if !self.connected {
            return Err(not_connected());
        }
        self.connected = false;
        Ok(())
    }

    /// Counts one frame sent.
    pub fn record_sent(&mut self)
        requires
            old(self).messages_sent < u64::MAX,
        ensures
            final(self).messages_sent == old(self).messages_sent + 1,
            final(self).messages_received == old(self).messages_received,
            final(self).connected == old(self).connected,
            final(self).device_name@ == old(self).device_name@,
            final(self).baud_rate == old(self).baud_rate,
    {
        self.messages_sent = self.messages_sent + 1;
    }

    /// Counts `count` frames received.
    pub fn record_received(&mut self, count: u64)
        requires
            old(self).messages_received + count <= u64::MAX,
        ensures
            final(self).messages_received == old(self).messages_received + count,
            final(self).messages_sent == old(self).messages_sent,
            final(self).connected == old(self).connected,
            final(self).device_name@ == old(self).device_name@,
            final(self).baud_rate == old(self).baud_rate,
    {
        self.messages_received = self.messages_received + count;
    }

    /// The status shown by the front end.
    pub fn status(&self) -> (st: ConnectionStatus)
        ensures
            st.connected == self.connected,
            st.device_name@ == self.device_name@,
            st.baud_rate == self.baud_rate,
            st.messages_sent == self.messages_sent,
            st.messages_received == self.messages_received,
    {
        ConnectionStatus {
            connected: self.connected,
            device_name: self.device_name.clone(),
            baud_rate: self.baud_rate,
            messages_sent: self.messages_sent,
            messages_received: self.messages_received,
        }
    }
}

} // verus!
