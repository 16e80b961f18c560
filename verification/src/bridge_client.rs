//! The application's side of the bridge protocol: the messages it sends and
//! receives, and the bookkeeping of the bridge process and its pipe.

use vstd::prelude::*;
use vstd::string::StringExecFns;
use crate::text::{decimal, push_decimal, push_str};

verus! {

/// A request to the bridge.
#[derive(Debug, Clone)]
pub enum Request {
    EnumerateDevices,
    Open { dll_path: String, protocol_id: u32, baud_rate: u32, use_extended_id: bool },
    Close,
    SendMessage { arb_id: u32, data: Vec<u8>, extended: bool },
    ReadMessages { timeout_ms: u32 },
    /// Read frames including the echoes of sent ones.
    ReadMessagesWithLoopback { timeout_ms: u32 },
    ClearBuffers,
    ReadVersion,
    GetLastError,
    ReadBatteryVoltage,
    ReadProgrammingVoltage,
    StartPeriodicMessage { arb_id: u32, data: Vec<u8>, interval_ms: u32, extended: bool },
    StopPeriodicMessage { msg_id: u32 },
    ClearPeriodicMessages,
    AddFilter { filter_type: String, mask: Vec<u8>, pattern: Vec<u8>, extended: bool },
    RemoveFilter { filter_id: u32 },
    ClearFilters,
    GetConfig { parameter: u32 },
    SetConfig { parameter: u32, value: u32 },
    GetLoopback,
    SetLoopback { enabled: bool },
    GetDataRate,
    Shutdown,
}

/// A response from the bridge.
#[derive(Debug, Clone)]
pub enum Response {
    /// Success (`ok` on the wire).
    Success { data: ResponseData },
    /// Failure (`error` on the wire).
    Error { code: i32, message: String },
}

/// The data of a successful response.
#[derive(Debug, Clone)]
pub enum ResponseData {
    /// No data (`null` on the wire).
    Nothing,
    Devices(Vec<DeviceInfo>),
    Connected,
    Messages(Vec<CanMessage>),
    Version(VersionInfo),
    String(String),
    Number(u32),
    /// A real number, held as the bits of its IEEE 754 double.
    Float(u64),
    Bool(bool),
}

/// A device as the bridge reports it.
#[derive(Debug, Clone)]
pub struct DeviceInfo {
    pub name: String,
    pub vendor: String,
    pub dll_path: String,
    pub can_iso15765: bool,
    pub can_iso11898: bool,
    pub compatible: bool,
    pub bitness: u8,
}

/// A CAN frame as the bridge reports it.
#[derive(Debug, Clone)]
pub struct CanMessage {
    pub timestamp_us: u64,
    pub arb_id: u32,
    pub extended: bool,
    pub data: Vec<u8>,
}

/// Version strings as the bridge reports them.
#[derive(Debug, Clone)]
pub struct VersionInfo {
    pub firmware_version: String,
    pub dll_version: String,
    pub api_version: String,
}

/// A request or response with its ID.
#[derive(Debug, Clone)]
pub struct Message<T> {
    pub id: u64,
    pub payload: T,
}

/// The name of the pipe of the bridge that serves the process `pid`.
pub open spec fn pipe_name_text(pid: u32) -> Seq<char> {
    "\\\\.\\pipe\\jester-j2534-"@ + decimal(pid as nat)
}

/// Builds the name of the pipe of the bridge that serves the process `pid`.
pub fn pipe_name(pid: u32) -> (r: String)
    ensures
        r@ == pipe_name_text(pid),
{
    let mut s = String::from_str("\\\\.\\pipe\\jester-j2534-");
    push_decimal(&mut s, pid as u64);
    s
}

proof fn lemma_decimal_len(n: nat)
    ensures
        decimal(n).len() >= 1,
        decimal(n).len() == 1 <==> n < 10,
    decreases n,
{
    if n >= 10 {
        lemma_decimal_len(n / 10);
    }
}

proof fn lemma_decimal_injective(a: nat, b: nat)
    requires
        decimal(a) == decimal(b),
    ensures
        a == b,
    decreases a + b,
{
    lemma_decimal_len(a);
    lemma_decimal_len(b);
    if a >= 10 && b >= 10 {
        let da = decimal(a);
        let db = decimal(b);
        assert(da.drop_last() =~= decimal(a / 10));
        assert(db.drop_last() =~= decimal(b / 10));
        lemma_decimal_injective(a / 10, b / 10);
        assert(da.last() == db.last());
        assert((48 + a % 10) as char == (48 + b % 10) as char);
        assert(a % 10 == b % 10);
    } else if a < 10 && b < 10 {
        assert(decimal(a) == seq![crate::text::digit_char(a)]);
        assert(decimal(b) == seq![crate::text::digit_char(b)]);
        assert(decimal(a)[0] == crate::text::digit_char(a));
        assert(decimal(b)[0] == crate::text::digit_char(b));
    }
}

/// Each process has a pipe of its own: different process IDs give
/// different pipe names.
pub proof fn lemma_pipe_names_distinct(pid1: u32, pid2: u32)
    requires
        pid1 != pid2,
    ensures
        pipe_name_text(pid1) != pipe_name_text(pid2),
{
    let prefix = "\\\\.\\pipe\\jester-j2534-"@;
    if pipe_name_text(pid1) == pipe_name_text(pid2) {
        assert(pipe_name_text(pid1).skip(prefix.len() as int) =~= decimal(pid1 as nat));
        assert(pipe_name_text(pid2).skip(prefix.len() as int) =~= decimal(pid2 as nat));
        lemma_decimal_injective(pid1 as nat, pid2 as nat);
    }
}

/// The file name of the bridge executable for DLLs of the given bitness.
pub open spec fn bridge_exe_name_text(bitness: u8) -> Seq<char> {
    if bitness == 32 {
        "j2534-bridge-32.exe"@
    } else {
        "j2534-bridge-64.exe"@
    }
}

/// Gets the file name of the bridge executable for DLLs of the given
/// bitness, as installed next to the application.
pub fn bridge_exe_name(bitness: u8) -> (r: &'static str)
    ensures
        r@ == bridge_exe_name_text(bitness),
{
    if bitness == 32 {
        "j2534-bridge-32.exe"
    } else {
        "j2534-bridge-64.exe"
    }
}

/// The target triple under which a development build of the bridge for the
/// given bitness lies.
pub open spec fn bridge_target_triple_text(bitness: u8) -> Seq<char> {
    if bitness == 32 {
        "i686-pc-windows-msvc"@
    } else {
        "x86_64-pc-windows-msvc"@
    }
}

/// Gets the target triple of a development build of the bridge.
pub fn bridge_target_triple(bitness: u8) -> (r: &'static str)
    ensures
        r@ == bridge_target_triple_text(bitness),
{
    if bitness == 32 {
        "i686-pc-windows-msvc"
    } else {
        "x86_64-pc-windows-msvc"
    }
}

/// The build types of the development builds that are looked for, in
/// order: `release`, then `debug`.
pub open spec fn dev_build_type_text(i: int) -> Seq<char> {
    if i == 0 {
        "release"@
    } else {
        "debug"@
    }
}

/// Gets the `i`-th build type to look for.
pub fn dev_build_type(i: usize) -> (r: &'static str)
    requires
        i < 2,
    ensures
        r@ == dev_build_type_text(i as int),
{
    if i == 0 {
        "release"
    } else {
        "debug"
    }
}

/// The error of a response whose ID is not that of its request.
pub open spec fn id_mismatch_text(expected: u64, got: u64) -> Seq<char> {
    "Response ID mismatch: expected "@ + decimal(expected as nat) + ", got "@ + decimal(
        got as nat,
    )
}

/// Accepts a response only when it carries the ID of the request.
pub fn check_response_id(expected: u64, got: u64) -> (r: Result<(), String>)
    ensures
        r is Ok <==> expected == got,
        r matches Err(e) ==> e@ == id_mismatch_text(expected, got),
{
    if expected == got {
        return Ok(());
    }
    let mut e = String::from_str("Response ID mismatch: expected ");
    push_decimal(&mut e, expected);
    push_str(&mut e, ", got ");
    push_decimal(&mut e, got);
    Err(e)
}

/// One line of the pipe protocol: a JSON text and a newline.
pub fn frame_line(json: &str) -> (r: String)
    ensures
        r@ == json@.push('\n'),
{
    let mut s = String::from_str(json);
    crate::text::push_char(&mut s, '\n');
    s
}

/// What the application knows of its bridge: whether the bridge process is
/// running, whether its pipe is connected, the ID of the next request, and
/// how many requests were issued so far.
pub struct BridgeSession {
    process_running: bool,
    pipe_connected: bool,
    next_id: u64,
    issued: Ghost<nat>,
}

/// What a `BridgeSession` holds.
pub struct SessionRecord {
    pub process_running: bool,
    pub pipe_connected: bool,
    pub next_id: u64,
    /// How many request IDs were handed out since the session began.
    pub issued: nat,
}

impl View for BridgeSession {
    type V = SessionRecord;

    closed spec fn view(&self) -> SessionRecord {
        SessionRecord {
            process_running: self.process_running,
            pipe_connected: self.pipe_connected,
            next_id: self.next_id,
            issued: self.issued@,
        }
    }
}

/// The ID that the `k`-th request of a session carries, counting from one:
/// `k` itself, wrapping around to zero after `u64::MAX`.
pub open spec fn request_id(k: nat) -> u64 {
    (k % 0x1_0000_0000_0000_0000) as u64
}

/// The ID after `id`: one more, or zero after `u64::MAX`.
pub open spec fn following_id(id: u64) -> u64 {
    if id == u64::MAX {
        0
    } else {
        (id + 1) as u64
    }
}

proof fn lemma_request_id_step(k: nat)
    ensures
        following_id(request_id(k)) == request_id(k + 1),
{
    let m: int = 0x1_0000_0000_0000_0000;
    let x: int = k as int;
    assert(x % m == m - 1 ==> (x + 1) % m == 0) by (nonlinear_arith)
        requires
            m == 0x1_0000_0000_0000_0000int,
            x >= 0,
    ;
    assert(x % m != m - 1 ==> (x + 1) % m == x % m + 1) by (nonlinear_arith)
        requires
            m == 0x1_0000_0000_0000_0000int,
            x >= 0,
    ;
}

/// What stopping the bridge takes.
pub struct StopPlan {
    /// Ask the bridge to shut down first, ignoring how that goes.
    pub send_shutdown: bool,
    /// Then kill the process and wait for it.
    pub kill_process: bool,
}

impl BridgeSession {
    /// The next ID is always that of the request after those issued.
    #[verifier::type_invariant]
    spec fn ids_in_order(self) -> bool {
        self.next_id == request_id(self.issued@ + 1)
    }

    /// A session before any bridge was started; no request was issued, so
    /// the first carries ID one.
    pub fn new() -> (s: Self)
        ensures
            !s@.process_running,
            !s@.pipe_connected,
            s@.next_id == 1,
            s@.issued == 0,
    {
        BridgeSession {
            process_running: false,
            pipe_connected: false,
            next_id: 1,
            issued: Ghost(0),
        }
    }

    /// Checks that a bridge may be started: none is running yet.
    pub fn check_can_start(&self) -> (r: Result<(), String>)
        ensures
            r is Ok <==> !self@.process_running,
            r matches Err(e) ==> e@ == "Bridge already running"@,
    {
        if self.process_running {
            Err(String::from_str("Bridge already running"))
        } else {
            Ok(())
        }
    }

    /// Notes that the bridge process was spawned.
    pub fn process_started(&mut self)
        ensures
            final(self)@.process_running,
            final(self)@.pipe_connected == old(self)@.pipe_connected,
            final(self)@.next_id == old(self)@.next_id,
            final(self)@.issued == old(self)@.issued,
    {
        proof {
            use_type_invariant(&*self);
        }
        self.process_running = true;
    }

    /// Notes that the pipe to the bridge is open.
    pub fn pipe_opened(&mut self)
        ensures
            final(self)@.pipe_connected,
            final(self)@.process_running == old(self)@.process_running,
            final(self)@.next_id == old(self)@.next_id,
            final(self)@.issued == old(self)@.issued,
    {
        proof {
            use_type_invariant(&*self);
        }
        self.pipe_connected = true;
    }

    /// Whether the bridge runs and its pipe is open.
    pub fn is_running(&self) -> (b: bool)
        ensures
            b == (self@.process_running && self@.pipe_connected),
    {
        self.process_running && self.pipe_connected
    }

    /// What stopping the bridge takes: a shutdown request while the pipe is
    /// open, then killing the process if one was started.
    pub fn stop_plan(&self) -> (plan: StopPlan)
        ensures
            plan.send_shutdown == self@.pipe_connected,
            plan.kill_process == self@.process_running,
    {
        StopPlan { send_shutdown: self.pipe_connected, kill_process: self.process_running }
    }

    /// Notes that the pipe was closed and the process is gone.
    pub fn stopped(&mut self)
        ensures
            !final(self)@.process_running,
            !final(self)@.pipe_connected,
            final(self)@.next_id == old(self)@.next_id,
            final(self)@.issued == old(self)@.issued,
    {
        proof {
            use_type_invariant(&*self);
        }
        self.pipe_connected = false;
        self.process_running = false;
    }

    /// Takes the ID of the next request; fails when the pipe is not open.
    /// The `k`-th ID handed out since the session began is `k`, wrapping
    /// around after `u64::MAX`.
    pub fn next_request_id(&mut self) -> (r: Result<u64, String>)
        ensures
            r is Ok <==> old(self)@.pipe_connected,
            r matches Ok(id) ==> {
                &&& id == old(self)@.next_id
                &&& id == request_id(old(self)@.issued + 1)
                &&& final(self)@.next_id == following_id(id)
                &&& final(self)@.issued == old(self)@.issued + 1
            },
            r matches Err(e) ==> {
                &&& e@ == "Bridge not connected"@
                &&& final(self)@.next_id == old(self)@.next_id
                &&& final(self)@.issued == old(self)@.issued
            },
            final(self)@.process_running == old(self)@.process_running,
            final(self)@.pipe_connected == old(self)@.pipe_connected,
    {
        proof {
            use_type_invariant(&*self);
        }
        if !self.pipe_connected {
            return Err(String::from_str("Bridge not connected"));
        }
        let id = self.next_id;
        let next: u64 = if id == u64::MAX {
            0
        } else {
            id + 1
        };
        proof {
            lemma_request_id_step(self.issued@ + 1);
        }
        *self = BridgeSession {
            process_running: self.process_running,
            pipe_connected: self.pipe_connected,
            next_id: next,
            issued: Ghost(self.issued@ + 1),
        };
        Ok(id)
    }
}

} // verus!
