//! The protocol between the application and the J2534 bridge process.
//!
//! Requests and responses travel over a named pipe as JSON objects, one per
//! line; each is wrapped in a `Message` that carries the ID that pairs a
//! response with its request.

use vstd::prelude::*;

verus! {

/// A request from the application to the bridge.
#[derive(Debug, Clone)]
pub enum Request {
    /// List the J2534 devices.
    EnumerateDevices,
    /// Open a connection to a device.
    Open { dll_path: String, protocol_id: u32, baud_rate: u32, use_extended_id: bool },
    /// Close the connection.
    Close,
    /// Send one CAN frame.
    SendMessage { arb_id: u32, data: Vec<u8>, extended: bool },
    /// Send several CAN frames with a single `PassThruWriteMsgs` call.
    SendMessagesBatch { messages: Vec<BatchMessage> },
    /// Read frames, waiting at most `timeout_ms`.
    ReadMessages { timeout_ms: u32 },
    /// Read frames including the echoes of sent ones, for sanity tests.
    ReadMessagesWithLoopback { timeout_ms: u32 },
    /// Clear the transmit and receive buffers.
    ClearBuffers,
    /// Read the version strings.
    ReadVersion,
    /// Get the DLL's last error text.
    GetLastError,
    /// Read the battery voltage.
    ReadBatteryVoltage,
    /// Read the programming voltage.
    ReadProgrammingVoltage,
    /// Start a periodic message.
    StartPeriodicMessage { arb_id: u32, data: Vec<u8>, interval_ms: u32, extended: bool },
    /// Stop a periodic message.
    StopPeriodicMessage { msg_id: u32 },
    /// Stop all periodic messages.
    ClearPeriodicMessages,
    /// Add a message filter.
    AddFilter { filter_type: String, mask: Vec<u8>, pattern: Vec<u8>, extended: bool },
    /// Remove a message filter.
    RemoveFilter { filter_id: u32 },
    /// Remove all message filters.
    ClearFilters,
    /// Read a configuration parameter.
    GetConfig { parameter: u32 },
    /// Set a configuration parameter.
    SetConfig { parameter: u32, value: u32 },
    /// Read the loopback setting.
    GetLoopback,
    /// Switch loopback on or off.
    SetLoopback { enabled: bool },
    /// Read the data rate.
    GetDataRate,
    /// Shut the bridge process down.
    Shutdown,
}

/// A response from the bridge to the application.
#[derive(Debug, Clone)]
pub enum Response {
    /// Success, with its data (`ok` on the wire).
    Success { data: ResponseData },
    /// Failure, with a J2534 status code and a message (`error` on the
    /// wire).
    Error { code: i32, message: String },
}

/// The data of a successful response.
#[derive(Debug, Clone)]
pub enum ResponseData {
    /// Nothing, for operations without a result (`null` on the wire).
    Nothing,
    /// The J2534 devices.
    Devices(Vec<DeviceInfo>),
    /// A connection was opened.
    Connected,
    /// Frames read from the bus.
    Messages(Vec<CanMessage>),
    /// Version strings.
    Version(VersionInfo),
    /// A text, such as the last error.
    String(String),
    /// A number, such as a voltage in millivolts, a filter ID or a message
    /// ID.
    Number(u32),
    /// A real number, such as a voltage in volts, held as the bits of its
    /// IEEE 754 double.
    Float(u64),
    /// A truth value.
    Bool(bool),
}

/// A J2534 device as the bridge reports it.
#[derive(Debug, Clone)]
pub struct DeviceInfo {
    pub name: String,
    pub vendor: String,
    pub dll_path: String,
    pub can_iso15765: bool,
    pub can_iso11898: bool,
    pub compatible: bool,
    /// 32 or 64.
    pub bitness: u8,
}

/// A CAN frame.
#[derive(Debug, Clone)]
pub struct CanMessage {
    pub timestamp_us: u64,
    pub arb_id: u32,
    pub extended: bool,
    pub data: Vec<u8>,
}

/// One frame of a batch to send.
#[derive(Debug, Clone)]
pub struct BatchMessage {
    pub arb_id: u32,
    pub data: Vec<u8>,
    pub extended: bool,
}

/// Version strings.
#[derive(Debug, Clone)]
pub struct VersionInfo {
    pub firmware_version: String,
    pub dll_version: String,
    pub api_version: String,
}

/// A progress update, sent while a connection is being opened.
#[derive(Debug, Clone)]
pub struct ProgressUpdate {
    pub step: String,
    pub status: String,
    pub message: Option<String>,
}

/// A request or response together with the ID that pairs them.
#[derive(Debug, Clone)]
pub struct Message<T> {
    pub id: u64,
    pub payload: T,
}

impl Response {
    /// A successful response with the given data.
    pub fn ok(data: ResponseData) -> (r: Self)
        ensures
            r == (Response::Success { data }),
    {
        Response::Success { data }
    }

    /// A successful response without data.
    pub fn ok_none() -> (r: Self)
        ensures
            r == (Response::Success { data: ResponseData::Nothing }),
    {
        Response::Success { data: ResponseData::Nothing }
    }

    /// A failure with the given code and message.
    pub fn error(code: i32, message: String) -> (r: Self)
        ensures
            r == (Response::Error { code, message }),
    {
        Response::Error { code, message }
    }
}

} // verus!
