//! The J2534 PassThru API as this tool uses it: its constants, the names of
//! its codes, the layout of the messages exchanged with a PassThru DLL, and
//! the decisions taken around each DLL call.

use vstd::prelude::*;
use vstd::string::StringExecFns;
use vstd::string::StrSliceExecFns;
use vstd::utf8::{decode_utf8, valid_utf8};
use crate::text::{decimal, push_decimal, lossy_utf8, concat, push_signed_decimal, push_str, signed_decimal, utf8_lossy};

verus! {

// Protocol IDs. Only CAN is driven by this tool; the others are optional in
// the J2534 standard and adapters support them unevenly.
pub const PROTOCOL_J1850VPW: u32 = 1;
pub const PROTOCOL_J1850PWM: u32 = 2;
pub const PROTOCOL_ISO9141: u32 = 3;
pub const PROTOCOL_ISO14230: u32 = 4;
pub const PROTOCOL_CAN: u32 = 5;
pub const PROTOCOL_ISO15765: u32 = 6;
pub const PROTOCOL_SCI_A_ENGINE: u32 = 7;
pub const PROTOCOL_SCI_A_TRANS: u32 = 8;
pub const PROTOCOL_SCI_B_ENGINE: u32 = 9;
pub const PROTOCOL_SCI_B_TRANS: u32 = 10;

// Connect flags.
pub const CAN_29BIT_ID: u32 = 0x100;
pub const ISO9141_NO_CHECKSUM: u32 = 0x200;
pub const CAN_ID_BOTH: u32 = 0x800;
pub const ISO9141_K_LINE_ONLY: u32 = 0x1000;

// Filter types.
pub const PASS_FILTER: u32 = 1;
pub const BLOCK_FILTER: u32 = 2;
pub const FLOW_CONTROL_FILTER: u32 = 3;

// IOCTL IDs.
pub const GET_CONFIG: u32 = 0x01;
pub const SET_CONFIG: u32 = 0x02;
pub const READ_VBATT: u32 = 0x03;
pub const FIVE_BAUD_INIT: u32 = 0x04;
pub const FAST_INIT: u32 = 0x05;
pub const CLEAR_TX_BUFFER: u32 = 0x07;
pub const CLEAR_RX_BUFFER: u32 = 0x08;
pub const CLEAR_PERIODIC_MSGS: u32 = 0x09;
pub const CLEAR_MSG_FILTERS: u32 = 0x0A;
pub const CLEAR_FUNCT_MSG_LOOKUP_TABLE: u32 = 0x0B;
pub const ADD_TO_FUNCT_MSG_LOOKUP_TABLE: u32 = 0x0C;
pub const DELETE_FROM_FUNCT_MSG_LOOKUP_TABLE: u32 = 0x0D;
pub const READ_PROG_VOLTAGE: u32 = 0x0E;

// Configuration parameter IDs.
pub const DATA_RATE: u32 = 0x01;
pub const LOOPBACK: u32 = 0x03;
pub const NODE_ADDRESS: u32 = 0x04;
pub const NETWORK_LINE: u32 = 0x05;
pub const P1_MIN: u32 = 0x06;
pub const P1_MAX: u32 = 0x07;
pub const P2_MIN: u32 = 0x08;
pub const P2_MAX: u32 = 0x09;
pub const P3_MIN: u32 = 0x0A;
pub const P3_MAX: u32 = 0x0B;
pub const P4_MIN: u32 = 0x0C;
pub const P4_MAX: u32 = 0x0D;
pub const W1: u32 = 0x0E;
pub const W2: u32 = 0x0F;
pub const W3: u32 = 0x10;
pub const W4: u32 = 0x11;
pub const W5: u32 = 0x12;
pub const TIDLE: u32 = 0x13;
pub const TINIL: u32 = 0x14;
pub const TWUP: u32 = 0x15;
pub const PARITY: u32 = 0x16;
pub const BIT_SAMPLE_POINT: u32 = 0x17;
pub const SYNC_JUMP_WIDTH: u32 = 0x18;
pub const W0: u32 = 0x19;
pub const T1_MAX: u32 = 0x1A;
pub const T2_MAX: u32 = 0x1B;
pub const T4_MAX: u32 = 0x1C;
pub const T5_MAX: u32 = 0x1D;
pub const ISO15765_BS: u32 = 0x1E;
pub const ISO15765_STMIN: u32 = 0x1F;
pub const DATA_BITS: u32 = 0x20;
pub const FIVE_BAUD_MOD: u32 = 0x21;
pub const BS_TX: u32 = 0x22;
pub const STMIN_TX: u32 = 0x23;
pub const T3_MAX: u32 = 0x24;
pub const ISO15765_WFT_MAX: u32 = 0x25;

// Status and error codes.
pub const STATUS_NOERROR: i32 = 0x00;
pub const ERR_NOT_SUPPORTED: i32 = 0x01;
pub const ERR_INVALID_CHANNEL_ID: i32 = 0x02;
pub const ERR_INVALID_PROTOCOL_ID: i32 = 0x03;
pub const ERR_NULL_PARAMETER: i32 = 0x04;
pub const ERR_INVALID_IOCTL_VALUE: i32 = 0x05;
pub const ERR_INVALID_FLAGS: i32 = 0x06;
pub const ERR_FAILED: i32 = 0x07;
pub const ERR_DEVICE_NOT_CONNECTED: i32 = 0x08;
pub const ERR_TIMEOUT: i32 = 0x09;
pub const ERR_INVALID_MSG: i32 = 0x0A;
pub const ERR_INVALID_TIME_INTERVAL: i32 = 0x0B;
pub const ERR_EXCEEDED_LIMIT: i32 = 0x0C;
pub const ERR_INVALID_MSG_ID: i32 = 0x0D;
pub const ERR_DEVICE_IN_USE: i32 = 0x0E;
pub const ERR_INVALID_IOCTL_ID: i32 = 0x0F;
pub const ERR_BUFFER_EMPTY: i32 = 0x10;
pub const ERR_BUFFER_FULL: i32 = 0x11;
pub const ERR_BUFFER_OVERFLOW: i32 = 0x12;
pub const ERR_PIN_INVALID: i32 = 0x13;
pub const ERR_CHANNEL_IN_USE: i32 = 0x14;
pub const ERR_MSG_PROTOCOL_ID: i32 = 0x15;
pub const ERR_INVALID_FILTER_ID: i32 = 0x16;
pub const ERR_NO_FLOW_CONTROL: i32 = 0x17;
pub const ERR_NOT_UNIQUE: i32 = 0x18;
pub const ERR_INVALID_BAUDRATE: i32 = 0x19;
pub const ERR_INVALID_DEVICE_ID: i32 = 0x1A;

// Receive status and transmit flags.
pub const RX_CAN_29BIT_ID: u32 = 0x100;
pub const TX_MSG_TYPE: u32 = 0x01;

/// Bytes in the data field of a PassThru message.
pub const PASSTHRU_DATA_SIZE: usize = 4128;

/// Data bytes that one classic CAN frame carries at most.
pub const CAN_MAX_DATA: usize = 8;

/// A PassThru message (`PASSTHRU_MSG`), the record that carries a frame to
/// and from a PassThru DLL. `data` holds `PASSTHRU_DATA_SIZE` bytes, of which
/// the first `data_size` are in use.
#[derive(Debug, Clone)]
pub struct PassThruMsg {
    pub protocol_id: u32,
    pub rx_status: u32,
    pub tx_flags: u32,
    pub timestamp: u32,
    pub data_size: u32,
    pub extra_data_index: u32,
    pub data: Vec<u8>,
}

impl PassThruMsg {
    /// Whether the data field has its fixed size.
    pub open spec fn wf(&self) -> bool {
        self.data@.len() == PASSTHRU_DATA_SIZE
    }
}

/// `n` zero bytes.
pub open spec fn zeros(n: nat) -> Seq<u8> {
    Seq::new(n, |i: int| 0u8)
}

impl Default for PassThruMsg {
    /// A message with every field zero.
    fn default() -> (m: Self)
        ensures
            m.wf(),
            m.protocol_id == 0,
            m.rx_status == 0,
            m.tx_flags == 0,
            m.timestamp == 0,
            m.data_size == 0,
            m.extra_data_index == 0,
            m.data@ == zeros(PASSTHRU_DATA_SIZE as nat),
    {
        let mut data: Vec<u8> = Vec::new();
        let mut i: usize = 0;
        while i < PASSTHRU_DATA_SIZE
            invariant
                i <= PASSTHRU_DATA_SIZE,
                data@ == zeros(i as nat),
            decreases PASSTHRU_DATA_SIZE - i,
        {
            data.push(0);
            i = i + 1;
            proof {
                assert(data@ =~= zeros(i as nat));
            }
        }
        PassThruMsg {
            protocol_id: 0,
            rx_status: 0,
            tx_flags: 0,
            timestamp: 0,
            data_size: 0,
            extra_data_index: 0,
            data,
        }
    }
}

/// The four bytes of a CAN arbitration ID, most significant first, as they
/// lead the data of a CAN PassThru message.
pub open spec fn arb_id_bytes(arb_id: u32) -> Seq<u8> {
    seq![(arb_id >> 24) as u8, (arb_id >> 16) as u8, (arb_id >> 8) as u8, arb_id as u8]
}

/// The arbitration ID that the first four bytes of `d` spell, most
/// significant first.
pub open spec fn arb_id_of(d: Seq<u8>) -> u32 {
    ((d[0] as u32) << 24) | ((d[1] as u32) << 16) | ((d[2] as u32) << 8) | (d[3] as u32)
}

/// The transmit flags of a CAN frame: `CAN_29BIT_ID` for an extended ID.
pub open spec fn can_tx_flags(extended: bool) -> u32 {
    if extended {
        CAN_29BIT_ID
    } else {
        0
    }
}

/// Gets the connect flags of a CAN channel: `CAN_29BIT_ID` for extended
/// IDs.
pub fn connect_flags(use_extended_id: bool) -> (flags: u32)
    ensures
        flags == can_tx_flags(use_extended_id),
{
    if use_extended_id {
        CAN_29BIT_ID
    } else {
        0
    }
}

/// A progress message made of a label, a number and a unit, such as
/// `Baud rate: 500000 bps`.
pub open spec fn numbered_text(label: Seq<char>, n: u64, unit: Seq<char>) -> Seq<char> {
    label + decimal(n as nat) + unit
}

/// Builds a progress message made of a label, a number and a unit.
pub fn numbered_message(label: &str, n: u64, unit: &str) -> (r: String)
    ensures
        r@ == numbered_text(label@, n, unit@),
{
    let mut s = String::from_str(label);
    push_decimal(&mut s, n);
    push_str(&mut s, unit);
    s
}

/// How many payload bytes of `len` fit a message that carries at most
/// `max` of them.
pub open spec fn clamp_len(len: nat, max: nat) -> nat {
    if len < max {
        len
    } else {
        max
    }
}

/// The data field of a CAN message: the arbitration ID, then at most eight
/// payload bytes, then zeros.
pub open spec fn can_frame_data(arb_id: u32, payload: Seq<u8>) -> Seq<u8> {
    let p = payload.take(clamp_len(payload.len(), CAN_MAX_DATA as nat) as int);
    arb_id_bytes(arb_id) + p + zeros((PASSTHRU_DATA_SIZE - 4 - p.len()) as nat)
}

/// Builds the PassThru message that sends a CAN frame: the arbitration ID in
/// the first four bytes, then the payload cut to eight bytes.
pub fn encode_can_frame(arb_id: u32, payload: &[u8], extended: bool) -> (m: PassThruMsg)
    ensures
        m.wf(),
        m.protocol_id == PROTOCOL_CAN,
        m.tx_flags == can_tx_flags(extended),
        m.rx_status == 0,
        m.timestamp == 0,
        m.extra_data_index == 0,
        m.data_size == 4 + clamp_len(payload@.len(), CAN_MAX_DATA as nat),
        m.data@ == can_frame_data(arb_id, payload@),
{
    let mut m = PassThruMsg::default();
    m.protocol_id = PROTOCOL_CAN;
    m.tx_flags = if extended {
        CAN_29BIT_ID
    } else {
        0
    };
    m.data.set(0, ((arb_id >> 24) & 0xFF) as u8);
    m.data.set(1, ((arb_id >> 16) & 0xFF) as u8);
    m.data.set(2, ((arb_id >> 8) & 0xFF) as u8);
    m.data.set(3, (arb_id & 0xFF) as u8);
    proof {
        assert(((arb_id >> 24) & 0xFF) as u8 == (arb_id >> 24) as u8) by (bit_vector);
        assert(((arb_id >> 16) & 0xFF) as u8 == (arb_id >> 16) as u8) by (bit_vector);
        assert(((arb_id >> 8) & 0xFF) as u8 == (arb_id >> 8) as u8) by (bit_vector);
        assert((arb_id & 0xFF) as u8 == arb_id as u8) by (bit_vector);
    }
    let n: usize = if payload.len() < CAN_MAX_DATA {
        payload.len()
    } else {
        CAN_MAX_DATA
    };
    let mut i: usize = 0;
    while i < n
        invariant
            n <= CAN_MAX_DATA,
            n <= payload@.len(),
            i <= n,
            m.protocol_id == PROTOCOL_CAN,
            m.tx_flags == can_tx_flags(extended),
            m.rx_status == 0,
            m.timestamp == 0,
            m.extra_data_index == 0,
            m.data@.len() == PASSTHRU_DATA_SIZE,
            m.data@.take(4) == arb_id_bytes(arb_id),
            m.data@.subrange(4, 4 + i) == payload@.take(i as int),
            m.data@.skip(4 + i) == zeros((PASSTHRU_DATA_SIZE - 4 - i) as nat),
        decreases n - i,
    {
        let ghost before = m.data@;
        m.data.set(4 + i, payload[i]);
        i = i + 1;
        proof {
            assert forall|j: int| 0 <= j < m.data@.skip(4 + i).len() implies #[trigger] m.data@.skip(
                4 + i,
            )[j] == 0u8 by {
                assert(m.data@.skip(4 + i)[j] == before.skip(4 + i - 1)[j + 1]);
            }
            assert(m.data@.take(4) =~= arb_id_bytes(arb_id));
            assert(m.data@.subrange(4, 4 + i) =~= payload@.take(i as int));
            assert(m.data@.skip(4 + i) =~= zeros((PASSTHRU_DATA_SIZE - 4 - i) as nat));
        }
    }
    m.data_size = (4 + n) as u32;
    proof {
        let p = payload@.take(clamp_len(payload@.len(), CAN_MAX_DATA as nat) as int);
        assert(m.data@ =~= m.data@.take(4) + m.data@.subrange(4, 4 + n) + m.data@.skip(4 + n));
        assert(p =~= payload@.take(n as int));
    }
    m
}

/// The filter-message data for a mask or a pattern: its first four bytes,
/// cut off after four, then zeros.
pub open spec fn filter_data(bytes: Seq<u8>) -> Seq<u8> {
    let p = bytes.take(clamp_len(bytes.len(), 4) as int);
    p + zeros((PASSTHRU_DATA_SIZE - p.len()) as nat)
}

/// Builds the mask or pattern message of a message filter: CAN protocol,
/// at most the first four bytes, and a data size of four.
pub fn encode_filter_msg(bytes: &[u8], extended: bool) -> (m: PassThruMsg)
    ensures
        m.wf(),
        m.protocol_id == PROTOCOL_CAN,
        m.tx_flags == can_tx_flags(extended),
        m.rx_status == 0,
        m.timestamp == 0,
        m.extra_data_index == 0,
        m.data_size == 4,
        m.data@ == filter_data(bytes@),
{
    let mut m = PassThruMsg::default();
    m.protocol_id = PROTOCOL_CAN;
    m.tx_flags = if extended {
        CAN_29BIT_ID
    } else {
        0
    };
    let n: usize = if bytes.len() < 4 {
        bytes.len()
    } else {
        4
    };
    let mut i: usize = 0;
    while i < n
        invariant
            n <= 4,
            n <= bytes@.len(),
            i <= n,
            m.protocol_id == PROTOCOL_CAN,
            m.tx_flags == can_tx_flags(extended),
            m.rx_status == 0,
            m.timestamp == 0,
            m.extra_data_index == 0,
            m.data@.len() == PASSTHRU_DATA_SIZE,
            m.data@.take(i as int) == bytes@.take(i as int),
            forall|j: int| i <= j < PASSTHRU_DATA_SIZE ==> #[trigger] m.data@[j] == 0u8,
        decreases n - i,
    {
        m.data.set(i, bytes[i]);
        i = i + 1;
        proof {
            assert(m.data@.take(i as int) =~= bytes@.take(i as int));
        }
    }
    m.data_size = 4;
    proof {
        assert(m.data@ =~= filter_data(bytes@));
    }
    m
}

/// The filter that lets every CAN frame through: mask and pattern all
/// zero.
pub fn pass_all_filter_msg() -> (m: PassThruMsg)
    ensures
        m.wf(),
        m.protocol_id == PROTOCOL_CAN,
        m.tx_flags == 0,
        m.data_size == 4,
        m.data@ == zeros(PASSTHRU_DATA_SIZE as nat),
{
    let empty: Vec<u8> = Vec::new();
    let m = encode_filter_msg(empty.as_slice(), false);
    proof {
        assert(m.data@ =~= zeros(PASSTHRU_DATA_SIZE as nat));
    }
    m
}

/// A CAN frame read from or written to the bus.
#[derive(Debug, Clone)]
pub struct CANMessage {
    pub timestamp_us: u64,
    pub arb_id: u32,
    pub extended: bool,
    pub data: Vec<u8>,
}

/// What a `CANMessage` holds, with its data as a sequence.
pub struct CanFrame {
    pub timestamp_us: u64,
    pub arb_id: u32,
    pub extended: bool,
    pub data: Seq<u8>,
}

impl View for CANMessage {
    type V = CanFrame;

    open spec fn view(&self) -> CanFrame {
        CanFrame {
            timestamp_us: self.timestamp_us,
            arb_id: self.arb_id,
            extended: self.extended,
            data: self.data@,
        }
    }
}

/// How long a sent frame is remembered to recognise its echo, in
/// microseconds.
pub const ECHO_WINDOW_US: u64 = 500_000;

/// A frame sent a short while ago, remembered to recognise its echo.
#[derive(Debug, Clone)]
pub struct SentMessage {
    pub arb_id: u32,
    pub data: Vec<u8>,
    pub timestamp_us: u64,
}

/// What a `SentMessage` holds.
pub struct SentFrame {
    pub arb_id: u32,
    pub data: Seq<u8>,
    pub timestamp_us: u64,
}

impl View for SentMessage {
    type V = SentFrame;

    open spec fn view(&self) -> SentFrame {
        SentFrame { arb_id: self.arb_id, data: self.data@, timestamp_us: self.timestamp_us }
    }
}

/// Whether a sent frame is still within the echo window at `now_us`.
pub open spec fn still_recent(m: SentFrame, now_us: u64) -> bool {
    m.timestamp_us + ECHO_WINDOW_US > now_us
}

/// The sent frames that are still within the echo window at `now_us`, in
/// the order in which they were sent.
pub open spec fn pruned(s: Seq<SentFrame>, now_us: u64) -> Seq<SentFrame> {
    s.filter(|m: SentFrame| still_recent(m, now_us))
}

/// Whether sent frame `m` has the given ID and data.
pub open spec fn same_frame(m: SentFrame, arb_id: u32, data: Seq<u8>) -> bool {
    m.arb_id == arb_id && m.data == data
}

/// Whether `k` is the first position in `s` of a frame with the given ID
/// and data.
pub open spec fn is_first_match(s: Seq<SentFrame>, k: int, arb_id: u32, data: Seq<u8>) -> bool {
    &&& 0 <= k < s.len()
    &&& same_frame(s[k], arb_id, data)
    &&& forall|j: int| 0 <= j < k ==> !same_frame(#[trigger] s[j], arb_id, data)
}

/// Whether `s` holds a frame with the given ID and data.
pub open spec fn has_match(s: Seq<SentFrame>, arb_id: u32, data: Seq<u8>) -> bool {
    exists|k: int| 0 <= k < s.len() && same_frame(#[trigger] s[k], arb_id, data)
}

/// The sent frames after an echo of (`arb_id`, `data`) was looked for in
/// `s`: the first matching frame is gone, if there was one.
pub open spec fn after_echo(s: Seq<SentFrame>, arb_id: u32, data: Seq<u8>) -> Seq<SentFrame> {
    if has_match(s, arb_id, data) {
        s.remove(choose|k: int| is_first_match(s, k, arb_id, data))
    } else {
        s
    }
}

/// The record of recently sent frames that lets the reader drop echoes of
/// them, which some drivers return without marking them as transmitted.
pub struct EchoTracker {
    sent: Vec<SentMessage>,
}

impl View for EchoTracker {
    type V = Seq<SentFrame>;

    closed spec fn view(&self) -> Seq<SentFrame> {
        self.sent@.map_values(|m: SentMessage| m@)
    }
}

/// Whether two byte vectors hold the same bytes.
fn bytes_equal(a: &Vec<u8>, b: &Vec<u8>) -> (r: bool)
    ensures
        r == (a@ == b@),
{
    if a.len() != b.len() {
        return false;
    }
    let mut i: usize = 0;
    while i < a.len()
        invariant
            a@.len() == b@.len(),
            i <= a.len(),
            forall|j: int| 0 <= j < i ==> a@[j] == b@[j],
        decreases a.len() - i,
    {
        if a[i] != b[i] {
            return false;
        }
        i = i + 1;
    }
    proof {
        assert(a@ =~= b@);
    }
    true
}

/// A copy of a byte vector.
fn copy_bytes(v: &Vec<u8>) -> (r: Vec<u8>)
    ensures
        r@ == v@,
{
    let mut r: Vec<u8> = Vec::new();
    let mut i: usize = 0;
    while i < v.len()
        invariant
            i <= v.len(),
            r@ == v@.take(i as int),
        decreases v.len() - i,
    {
        r.push(v[i]);
        i = i + 1;
        proof {
            assert(r@ =~= v@.take(i as int));
        }
    }
    proof {
        assert(v@.take(v.len() as int) =~= v@);
    }
    r
}

/// A copy of a remembered frame.
fn copy_sent(m: &SentMessage) -> (r: SentMessage)
    ensures
        r@ == m@,
{
    SentMessage { arb_id: m.arb_id, data: copy_bytes(&m.data), timestamp_us: m.timestamp_us }
}

impl EchoTracker {
    /// A tracker that remembers nothing.
    pub fn new() -> (t: Self)
        ensures
            t@ == Seq::<SentFrame>::empty(),
    {
        let t = EchoTracker { sent: Vec::new() };
        proof {
            assert(t@ =~= Seq::<SentFrame>::empty());
        }
        t
    }

    /// How many sent frames are remembered.
    pub fn len(&self) -> (n: usize)
        ensures
            n == self@.len(),
    {
        self.sent.len()
    }

    /// Forgets the frames sent before the echo window that ends at `now_us`.
    pub fn prune(&mut self, now_us: u64)
        ensures
            final(self)@ == pruned(old(self)@, now_us),
    {
        let ghost f = |m: SentFrame| still_recent(m, now_us);
        let ghost orig = self@;
        let mut kept: Vec<SentMessage> = Vec::new();
        let mut i: usize = 0;
        while i < self.sent.len()
            invariant
                orig == self.sent@.map_values(|m: SentMessage| m@),
                orig == old(self)@,
                f == (|m: SentFrame| still_recent(m, now_us)),
                i <= self.sent.len(),
                kept@.map_values(|m: SentMessage| m@) == orig.take(i as int).filter(f),
            decreases self.sent.len() - i,
        {
            let ghost old_kept = kept@.map_values(|m: SentMessage| m@);
            proof {
                reveal_with_fuel(Seq::<_>::filter, 1);
                assert(orig.take(i + 1).drop_last() =~= orig.take(i as int));
                assert(orig[i as int] == self.sent@[i as int]@);
                assert(orig.take(i + 1).last() == orig[i as int]);
            }
            let m = &self.sent[i];
            let recent = m.timestamp_us >= now_us || now_us - m.timestamp_us < ECHO_WINDOW_US;
            proof {
                assert(m.timestamp_us == orig[i as int].timestamp_us);
                assert(recent == still_recent(orig[i as int], now_us));
                assert(recent == f(orig[i as int]));
                assert(orig.take(i + 1).filter(f) == if f(orig[i as int]) {
                    orig.take(i as int).filter(f).push(orig[i as int])
                } else {
                    orig.take(i as int).filter(f)
                });
            }
            if recent {
                kept.push(copy_sent(m));
                proof {
                    assert(kept@.map_values(|m: SentMessage| m@) =~= old_kept.push(orig[i as int]));
                }
            }
            i = i + 1;
        }
        proof {
            assert(orig.take(i as int) =~= orig);
        }
        self.sent = kept;
    }

    /// Remembers a frame sent at `now_us`, after forgetting those that are
    /// too old; of the payload, the eight bytes that went out are kept.
    pub fn record_sent(&mut self, arb_id: u32, payload: &[u8], now_us: u64)
        ensures
            final(self)@ == pruned(old(self)@, now_us).push(
                SentFrame {
                    arb_id,
                    data: payload@.take(clamp_len(payload@.len(), CAN_MAX_DATA as nat) as int),
                    timestamp_us: now_us,
                },
            ),
    {
        self.prune(now_us);
        let n: usize = if payload.len() < CAN_MAX_DATA {
            payload.len()
        } else {
            CAN_MAX_DATA
        };
        let mut data: Vec<u8> = Vec::new();
        let mut i: usize = 0;
        while i < n
            invariant
                n <= payload@.len(),
                i <= n,
                data@ == payload@.take(i as int),
            decreases n - i,
        {
            data.push(payload[i]);
            i = i + 1;
            proof {
                assert(data@ =~= payload@.take(i as int));
            }
        }
        let ghost before = self@;
        self.sent.push(SentMessage { arb_id, data, timestamp_us: now_us });
        proof {
            assert(self@ =~= before.push(self.sent@.last()@));
        }
    }

    /// Looks for an echo of (`arb_id`, `data`) among the frames still in the
    /// echo window at `now_us`; when one is there, forgets the earliest and
    /// answers `true`.
    pub fn take_echo(&mut self, arb_id: u32, data: &Vec<u8>, now_us: u64) -> (found: bool)
        ensures
            found == has_match(pruned(old(self)@, now_us), arb_id, data@),
            final(self)@ == after_echo(pruned(old(self)@, now_us), arb_id, data@),
    {
        self.prune(now_us);
        let ghost s = self@;
        let mut i: usize = 0;
        while i < self.sent.len()
            invariant
                s == self.sent@.map_values(|m: SentMessage| m@),
                s == pruned(old(self)@, now_us),
                i <= self.sent.len(),
                forall|j: int| 0 <= j < i ==> !same_frame(#[trigger] s[j], arb_id, data@),
            decreases self.sent.len() - i,
        {
            proof {
                assert(s[i as int] == self.sent@[i as int]@);
            }
            if self.sent[i].arb_id == arb_id && bytes_equal(&self.sent[i].data, data) {
                proof {
                    assert(is_first_match(s, i as int, arb_id, data@));
                    assert(has_match(s, arb_id, data@));
                    let k = choose|k: int| is_first_match(s, k, arb_id, data@);
                    assert(k == i) by {
                        if k < i {
                            assert(!same_frame(s[k], arb_id, data@));
                        }
                        if k > i {
                            assert(!same_frame(s[i as int], arb_id, data@));
                        }
                    }
                }
                self.sent.remove(i);
                proof {
                    assert(self@ =~= s.remove(i as int));
                }
                return true;
            }
            i = i + 1;
        }
        proof {
            assert(!has_match(s, arb_id, data@));
        }
        false
    }
}

/// The frame that a received message carries: the ID from its first four
/// bytes, the rest of its used bytes as payload, the extended flag from its
/// receive status, and its timestamp added to `base_us`.
pub open spec fn received_frame(msg: PassThruMsg, base_us: u64) -> CanFrame {
    CanFrame {
        timestamp_us: (base_us + msg.timestamp) as u64,
        arb_id: arb_id_of(msg.data@),
        extended: msg.rx_status & RX_CAN_29BIT_ID != 0,
        data: msg.data@.subrange(4, msg.data_size as int),
    }
}

/// What one received message yields, and the remembered sent frames after
/// it. A message marked as transmitted is dropped unless loopback frames are
/// wanted; one shorter than an ID is dropped; otherwise, unless loopback
/// frames are wanted, the sent frames are pruned to the echo window and a
/// frame equal to one of them is taken as its echo and dropped.
pub open spec fn receive_one(
    msg: PassThruMsg,
    include_loopback: bool,
    sent: Seq<SentFrame>,
    now_us: u64,
    base_us: u64,
) -> (Option<CanFrame>, Seq<SentFrame>) {
    let f = received_frame(msg, base_us);
    let p = pruned(sent, now_us);
    if !include_loopback && msg.rx_status & TX_MSG_TYPE != 0 {
        (None, sent)
    } else if msg.data_size < 4 {
        (None, sent)
    } else if include_loopback {
        (Some(f), sent)
    } else if has_match(p, f.arb_id, f.data) {
        (None, after_echo(p, f.arb_id, f.data))
    } else {
        (Some(f), p)
    }
}

/// The frames that a batch of received messages yields, in order, and the
/// remembered sent frames after them; the `i`-th message is handled at time
/// `clock_us[i]` on the clock of the echo tracker.
pub open spec fn receive_all(
    msgs: Seq<PassThruMsg>,
    include_loopback: bool,
    sent: Seq<SentFrame>,
    clock_us: Seq<u64>,
    base_us: u64,
) -> (Seq<CanFrame>, Seq<SentFrame>)
    decreases msgs.len(),
{
    if msgs.len() == 0 {
        (Seq::empty(), sent)
    } else {
        let (out, s) = receive_all(msgs.drop_last(), include_loopback, sent, clock_us, base_us);
        let (f, s2) = receive_one(
            msgs.last(),
            include_loopback,
            s,
            clock_us[msgs.len() - 1],
            base_us,
        );
        (
            match f {
                Some(x) => out.push(x),
                None => out,
            },
            s2,
        )
    }
}

/// Whether a received message can be decoded without running past its data
/// or overflowing its timestamp.
pub open spec fn receivable(msg: PassThruMsg, base_us: u64) -> bool {
    &&& msg.wf()
    &&& msg.data_size <= PASSTHRU_DATA_SIZE
    &&& base_us + msg.timestamp <= u64::MAX
}

/// Turns the first `count` messages that a PassThru read filled in into CAN
/// frames, as `receive_all` describes; `clock_us[i]` is the time on the
/// clock of the echo tracker at which the `i`-th message is handled, and
/// `base_us` the wall-clock time in microseconds that the timestamps are
/// added to.
pub fn collect_received(
    msgs: &Vec<PassThruMsg>,
    count: usize,
    include_loopback: bool,
    tracker: &mut EchoTracker,
    clock_us: &[u64],
    base_us: u64,
) -> (r: Vec<CANMessage>)
    requires
        count <= msgs@.len(),
        count <= clock_us@.len(),
        forall|i: int| 0 <= i < count ==> receivable(#[trigger] msgs@[i], base_us),
    ensures
        (r@.map_values(|m: CANMessage| m@), final(tracker)@) == receive_all(
            msgs@.take(count as int),
            include_loopback,
            old(tracker)@,
            clock_us@,
            base_us,
        ),
        include_loopback ==> r@.map_values(|m: CANMessage| m@) == frames_with_id(
            msgs@.take(count as int),
            base_us,
        ),
        include_loopback ==> final(tracker)@ == old(tracker)@,
{
    let mut out: Vec<CANMessage> = Vec::new();
    let mut i: usize = 0;
    while i < count
        invariant
            count <= msgs@.len(),
            count <= clock_us@.len(),
            forall|j: int| 0 <= j < count ==> receivable(#[trigger] msgs@[j], base_us),
            i <= count,
            (out@.map_values(|m: CANMessage| m@), tracker@) == receive_all(
                msgs@.take(i as int),
                include_loopback,
                old(tracker)@,
                clock_us@,
                base_us,
            ),
        decreases count - i,
    {
        let ghost before = out@.map_values(|m: CANMessage| m@);
        let ghost sent_before = tracker@;
        let msg = &msgs[i];
        proof {
            assert(msgs@.take(i + 1).drop_last() =~= msgs@.take(i as int));
            assert(msgs@.take(i + 1).last() == msgs@[i as int]);
            assert(receivable(msgs@[i as int], base_us));
        }
        if !include_loopback && (msg.rx_status & TX_MSG_TYPE) != 0 {
            i = i + 1;
            continue;
        }
        if msg.data_size < 4 {
            i = i + 1;
            continue;
        }
        let arb_id: u32 = ((msg.data[0] as u32) << 24) | ((msg.data[1] as u32) << 16) | ((
        msg.data[2] as u32) << 8) | (msg.data[3] as u32);
        let end: usize = msg.data_size as usize;
        let mut data: Vec<u8> = Vec::new();
        let mut k: usize = 4;
        while k < end
            invariant
                4 <= k <= end,
                end <= msg.data@.len(),
                data@ == msg.data@.subrange(4, k as int),
            decreases end - k,
        {
            data.push(msg.data[k]);
            k = k + 1;
            proof {
                assert(data@ =~= msg.data@.subrange(4, k as int));
            }
        }
        let extended = (msg.rx_status & RX_CAN_29BIT_ID) != 0;
        let is_echo = if include_loopback {
            false
        } else {
            tracker.take_echo(arb_id, &data, clock_us[i])
        };
        if !is_echo {
            out.push(
                CANMessage {
                    timestamp_us: base_us + msg.timestamp as u64,
                    arb_id,
                    extended,
                    data,
                },
            );
            proof {
                assert(out@.map_values(|m: CANMessage| m@) =~= before.push(
                    received_frame(msgs@[i as int], base_us),
                ));
            }
        }
        i = i + 1;
    }
    proof {
        lemma_loopback_keeps_every_frame(msgs@.take(count as int), old(tracker)@, clock_us@, base_us);
    }
    out
}

/// What a CAN frame's PassThru message carries comes back out of it: the
/// arbitration ID from the first four bytes, at most eight payload bytes
/// after them, and the extended flag from the `CAN_29BIT_ID` bit, which has
/// the same place in the transmit flags and in the receive status; the
/// transmit flags never mark the frame as an echo.
pub proof fn lemma_frame_roundtrip(arb_id: u32, payload: Seq<u8>, extended: bool)
    ensures
        arb_id_of(can_frame_data(arb_id, payload)) == arb_id,
        can_frame_data(arb_id, payload).len() == PASSTHRU_DATA_SIZE,
        can_frame_data(arb_id, payload).subrange(
            4,
            4 + clamp_len(payload.len(), CAN_MAX_DATA as nat) as int,
        ) == payload.take(clamp_len(payload.len(), CAN_MAX_DATA as nat) as int),
        (can_tx_flags(extended) & RX_CAN_29BIT_ID != 0) == extended,
        can_tx_flags(extended) & TX_MSG_TYPE == 0,
{
    let d = can_frame_data(arb_id, payload);
    let n = clamp_len(payload.len(), CAN_MAX_DATA as nat);
    assert(d[0] == (arb_id >> 24) as u8);
    assert(d[1] == (arb_id >> 16) as u8);
    assert(d[2] == (arb_id >> 8) as u8);
    assert(d[3] == arb_id as u8);
    let (b0, b1, b2, b3) = (d[0], d[1], d[2], d[3]);
    assert(((b0 as u32) << 24) | ((b1 as u32) << 16) | ((b2 as u32) << 8) | (b3 as u32) == arb_id)
        by (bit_vector)
        requires
            b0 == (arb_id >> 24) as u8,
            b1 == (arb_id >> 16) as u8,
            b2 == (arb_id >> 8) as u8,
            b3 == arb_id as u8,
    ;
    assert(d.subrange(4, 4 + n as int) =~= payload.take(n as int));
    assert(0x100u32 & 0x100u32 != 0) by (bit_vector);
    assert(0u32 & 0x100u32 == 0) by (bit_vector);
    assert(0x100u32 & 0x01u32 == 0) by (bit_vector);
    assert(0u32 & 0x01u32 == 0) by (bit_vector);
}

/// A frame read back as sent comes out as sent: a received message that
/// carries the data of a sent frame, with its flags in the receive status
/// and its used length, yields the frame's ID, payload and extended flag.
pub proof fn lemma_receive_sent_frame(
    msg: PassThruMsg,
    arb_id: u32,
    payload: Seq<u8>,
    extended: bool,
    base_us: u64,
)
    requires
        msg.data@ == can_frame_data(arb_id, payload),
        msg.rx_status == can_tx_flags(extended),
        msg.data_size == 4 + clamp_len(payload.len(), CAN_MAX_DATA as nat),
    ensures
        received_frame(msg, base_us).arb_id == arb_id,
        received_frame(msg, base_us).extended == extended,
        received_frame(msg, base_us).data == payload.take(
            clamp_len(payload.len(), CAN_MAX_DATA as nat) as int,
        ),
        receive_one(msg, true, Seq::empty(), 0, base_us).0 == Some(received_frame(msg, base_us)),
{
    lemma_frame_roundtrip(arb_id, payload, extended);
}

/// An echo of a frame sent within the echo window is dropped once: the read
/// yields nothing for it and the tracker forgets one remembered frame.
pub proof fn lemma_echo_dropped_once(
    sent: Seq<SentFrame>,
    msg: PassThruMsg,
    now_us: u64,
    base_us: u64,
)
    requires
        msg.data_size >= 4,
        msg.rx_status & TX_MSG_TYPE == 0,
        has_match(
            pruned(sent, now_us),
            received_frame(msg, base_us).arb_id,
            received_frame(msg, base_us).data,
        ),
    ensures
        receive_one(msg, false, sent, now_us, base_us).0 is None,
        receive_one(msg, false, sent, now_us, base_us).1.len() + 1 == pruned(sent, now_us).len(),
{
    let f = received_frame(msg, base_us);
    let p = pruned(sent, now_us);
    let k = choose|k: int| 0 <= k < p.len() && same_frame(#[trigger] p[k], f.arb_id, f.data);
    lemma_first_match_exists(p, f.arb_id, f.data, k);
}

/// When some frame matches, there is a first one.
proof fn lemma_first_match_exists(s: Seq<SentFrame>, arb_id: u32, data: Seq<u8>, k: int)
    requires
        0 <= k < s.len(),
        same_frame(s[k], arb_id, data),
    ensures
        exists|f: int| is_first_match(s, f, arb_id, data),
    decreases k,
{
    if exists|j: int| 0 <= j < k && same_frame(#[trigger] s[j], arb_id, data) {
        let j = choose|j: int| 0 <= j < k && same_frame(#[trigger] s[j], arb_id, data);
        lemma_first_match_exists(s, arb_id, data, j);
    } else {
        assert(is_first_match(s, k, arb_id, data));
    }
}

/// Whether exactly the `k`-th of the sent frames matches (`arb_id`, `data`).
pub open spec fn only_match(s: Seq<SentFrame>, k: int, arb_id: u32, data: Seq<u8>) -> bool {
    &&& is_first_match(s, k, arb_id, data)
    &&& forall|j: int| 0 <= j < s.len() && j != k ==> !same_frame(#[trigger] s[j], arb_id, data)
}

/// The first of the frames is taken as the echo of the only match.
proof fn lemma_first_frame_is_echo(
    sent: Seq<SentFrame>,
    m1: PassThruMsg,
    k: int,
    clock_us: Seq<u64>,
    now_us: u64,
    base_us: u64,
)
    requires
        clock_us.len() >= 1,
        clock_us[0] == now_us,
        m1.data_size >= 4,
        m1.rx_status & TX_MSG_TYPE == 0,
        only_match(
            pruned(sent, now_us),
            k,
            received_frame(m1, base_us).arb_id,
            received_frame(m1, base_us).data,
        ),
    ensures
        receive_all(seq![m1], false, sent, clock_us, base_us) == (
            Seq::<CanFrame>::empty(),
            pruned(sent, now_us).remove(k),
        ),
{
    let a = received_frame(m1, base_us).arb_id;
    let d = received_frame(m1, base_us).data;
    let p = pruned(sent, now_us);
    assert(seq![m1].drop_last() =~= Seq::<PassThruMsg>::empty());
    assert(seq![m1].last() == m1);
    assert(has_match(p, a, d));
    let c = choose|c: int| is_first_match(p, c, a, d);
    assert(is_first_match(p, c, a, d));
    assert(c == k) by {
        if c < k {
            assert(!same_frame(p[c], a, d));
        }
        if c > k {
            assert(!same_frame(p[k], a, d));
        }
    }
    assert(after_echo(p, a, d) == p.remove(k));
    assert(receive_one(m1, false, sent, now_us, base_us) == (None::<CanFrame>, p.remove(k)));
    assert(receive_all(Seq::<PassThruMsg>::empty(), false, sent, clock_us, base_us) == (
        Seq::<CanFrame>::empty(),
        sent,
    ));
}

/// A frame that pruning keeps was there before.
proof fn lemma_pruned_subset(s: Seq<SentFrame>, now_us: u64, j: int)
    requires
        0 <= j < pruned(s, now_us).len(),
    ensures
        s.contains(pruned(s, now_us)[j]),
{
    let f = |m: SentFrame| still_recent(m, now_us);
    assert(pruned(s, now_us).contains(pruned(s, now_us)[j]));
    s.lemma_filter_contains_rev(f, pruned(s, now_us)[j]);
}

/// Once the only match is gone, no frame matches.
proof fn lemma_no_match_left(s: Seq<SentFrame>, k: int, arb_id: u32, data: Seq<u8>)
    requires
        only_match(s, k, arb_id, data),
    ensures
        !has_match(s.remove(k), arb_id, data),
{
    let rest = s.remove(k);
    if has_match(rest, arb_id, data) {
        let j = choose|j: int| 0 <= j < rest.len() && same_frame(#[trigger] rest[j], arb_id, data);
        if j < k {
            assert(rest[j] == s[j]);
        } else {
            assert(rest[j] == s[j + 1]);
        }
    }
}

/// One send suppresses at most one received frame: when exactly one
/// remembered frame within the echo window matches, of two received frames
/// equal to it the first is dropped as its echo and the second is kept,
/// whenever each is handled; the matching frame is forgotten.
pub proof fn lemma_one_echo_per_send(
    sent: Seq<SentFrame>,
    m1: PassThruMsg,
    m2: PassThruMsg,
    k: int,
    t1_us: u64,
    t2_us: u64,
    base_us: u64,
)
    requires
        m1.data_size >= 4,
        m2.data_size >= 4,
        m1.rx_status & TX_MSG_TYPE == 0,
        m2.rx_status & TX_MSG_TYPE == 0,
        received_frame(m2, base_us).arb_id == received_frame(m1, base_us).arb_id,
        received_frame(m2, base_us).data == received_frame(m1, base_us).data,
        only_match(
            pruned(sent, t1_us),
            k,
            received_frame(m1, base_us).arb_id,
            received_frame(m1, base_us).data,
        ),
    ensures
        receive_all(seq![m1, m2], false, sent, seq![t1_us, t2_us], base_us).0 == seq![
            received_frame(m2, base_us),
        ],
        receive_all(seq![m1, m2], false, sent, seq![t1_us, t2_us], base_us).1 == pruned(
            pruned(sent, t1_us).remove(k),
            t2_us,
        ),
{
    let a = received_frame(m1, base_us).arb_id;
    let d = received_frame(m1, base_us).data;
    let clock = seq![t1_us, t2_us];
    let rest = pruned(sent, t1_us).remove(k);
    lemma_first_frame_is_echo(sent, m1, k, clock, t1_us, base_us);
    lemma_no_match_left(pruned(sent, t1_us), k, a, d);
    assert(!has_match(pruned(rest, t2_us), a, d)) by {
        if has_match(pruned(rest, t2_us), a, d) {
            let j = choose|j: int|
                0 <= j < pruned(rest, t2_us).len() && same_frame(
                    #[trigger] pruned(rest, t2_us)[j],
                    a,
                    d,
                );
            lemma_pruned_subset(rest, t2_us, j);
            let x = pruned(rest, t2_us)[j];
            let i = choose|i: int| 0 <= i < rest.len() && rest[i] == x;
            assert(same_frame(rest[i], a, d));
        }
    }
    assert(seq![m1, m2].drop_last() =~= seq![m1]);
    assert(seq![m1, m2].last() == m2);
    assert(clock[1] == t2_us);
    assert(receive_one(m2, false, rest, t2_us, base_us) == (
        Some(received_frame(m2, base_us)),
        pruned(rest, t2_us),
    ));
    assert(Seq::<CanFrame>::empty().push(received_frame(m2, base_us)) =~= seq![
        received_frame(m2, base_us),
    ]);
}

/// The frames of the messages that hold at least an ID, in order.
pub open spec fn frames_with_id(msgs: Seq<PassThruMsg>, base_us: u64) -> Seq<CanFrame> {
    msgs.filter_map(
        |m: PassThruMsg|
            if m.data_size >= 4 {
                Some(received_frame(m, base_us))
            } else {
                None
            },
    )
}

/// With loopback frames asked for, a read yields the frame of every message
/// that holds at least an ID, echoes and frames marked as transmitted
/// included, in order, whatever sent frames are remembered; and it forgets
/// none of them.
pub proof fn lemma_loopback_keeps_every_frame(
    msgs: Seq<PassThruMsg>,
    sent: Seq<SentFrame>,
    clock_us: Seq<u64>,
    base_us: u64,
)
    ensures
        receive_all(msgs, true, sent, clock_us, base_us).0 == frames_with_id(msgs, base_us),
        receive_all(msgs, true, sent, clock_us, base_us).1 == sent,
    decreases msgs.len(),
{
    if msgs.len() > 0 {
        lemma_loopback_keeps_every_frame(msgs.drop_last(), sent, clock_us, base_us);
        let prev = frames_with_id(msgs.drop_last(), base_us);
        let m = msgs.last();
        if m.data_size >= 4 {
            assert(frames_with_id(msgs, base_us) == prev + seq![received_frame(m, base_us)]);
            assert(prev.push(received_frame(m, base_us)) =~= prev + seq![received_frame(m, base_us)]);
        } else {
            assert(frames_with_id(msgs, base_us) == prev);
        }
    }
}

/// Without loopback frames, a read while no sent frame is remembered yields
/// the frame of every message that holds an ID and is not marked as
/// transmitted, in order, and still remembers nothing.
pub proof fn lemma_nothing_sent_keeps_received(
    msgs: Seq<PassThruMsg>,
    clock_us: Seq<u64>,
    base_us: u64,
)
    ensures
        receive_all(msgs, false, Seq::empty(), clock_us, base_us).0 == msgs.filter_map(
            |m: PassThruMsg|
                if m.rx_status & TX_MSG_TYPE == 0 && m.data_size >= 4 {
                    Some(received_frame(m, base_us))
                } else {
                    None
                },
        ),
        receive_all(msgs, false, Seq::empty(), clock_us, base_us).1 == Seq::<SentFrame>::empty(),
    decreases msgs.len(),
{
    if msgs.len() > 0 {
        let rest = msgs.drop_last();
        lemma_nothing_sent_keeps_received(rest, clock_us, base_us);
        let none = Seq::<SentFrame>::empty();
        let now = clock_us[msgs.len() - 1];
        none.lemma_filter_len(|m: SentFrame| still_recent(m, now));
        assert(pruned(none, now) =~= none);
        let m = msgs.last();
        let f = received_frame(m, base_us);
        assert(!has_match(none, f.arb_id, f.data));
        let prev = receive_all(rest, false, none, clock_us, base_us).0;
        if m.rx_status & TX_MSG_TYPE == 0 && m.data_size >= 4 {
            assert(prev.push(f) =~= prev + seq![f]);
        }
    }
}

/// Whether `f` is the frame of one of `msgs` that holds an ID and is not
/// marked as transmitted.
pub open spec fn frame_of_received(f: CanFrame, msgs: Seq<PassThruMsg>, base_us: u64) -> bool {
    exists|j: int|
        0 <= j < msgs.len() && (#[trigger] msgs[j]).rx_status & TX_MSG_TYPE == 0
            && msgs[j].data_size >= 4 && f == received_frame(msgs[j], base_us)
}

/// Without loopback frames, every frame a read yields is that of a received
/// message that holds an ID and is not marked as transmitted; and the read
/// forgets sent frames but never remembers one it was not given.
pub proof fn lemma_frames_come_from_received(
    msgs: Seq<PassThruMsg>,
    sent: Seq<SentFrame>,
    clock_us: Seq<u64>,
    base_us: u64,
)
    ensures
        receive_all(msgs, false, sent, clock_us, base_us).0.len() <= msgs.len(),
        forall|i: int|
            0 <= i < receive_all(msgs, false, sent, clock_us, base_us).0.len()
                ==> frame_of_received(
                #[trigger] receive_all(msgs, false, sent, clock_us, base_us).0[i],
                msgs,
                base_us,
            ),
        forall|i: int|
            0 <= i < receive_all(msgs, false, sent, clock_us, base_us).1.len() ==> sent.contains(
                #[trigger] receive_all(msgs, false, sent, clock_us, base_us).1[i],
            ),
    decreases msgs.len(),
{
    if msgs.len() > 0 {
        let rest = msgs.drop_last();
        lemma_frames_come_from_received(rest, sent, clock_us, base_us);
        let out = receive_all(rest, false, sent, clock_us, base_us).0;
        let s = receive_all(rest, false, sent, clock_us, base_us).1;
        let m = msgs.last();
        let now = clock_us[msgs.len() - 1];
        let f = received_frame(m, base_us);
        let p = pruned(s, now);
        let out2 = receive_all(msgs, false, sent, clock_us, base_us).0;
        let s2 = receive_all(msgs, false, sent, clock_us, base_us).1;
        assert forall|i: int| 0 <= i < out2.len() implies frame_of_received(
            #[trigger] out2[i],
            msgs,
            base_us,
        ) by {
            if i < out.len() {
                assert(out2[i] == out[i]);
                assert(frame_of_received(out[i], rest, base_us));
                let j = choose|j: int|
                    0 <= j < rest.len() && (#[trigger] rest[j]).rx_status & TX_MSG_TYPE == 0
                        && rest[j].data_size >= 4 && out[i] == received_frame(rest[j], base_us);
                assert(rest[j] == msgs[j]);
            } else {
                assert(msgs[msgs.len() - 1] == m);
                assert(receive_one(m, false, s, now, base_us).0 == Some(f));
                assert(out2[i] == f);
            }
        }
        assert forall|i: int| 0 <= i < s2.len() implies sent.contains(#[trigger] s2[i]) by {
            if m.rx_status & TX_MSG_TYPE != 0 || m.data_size < 4 {
                assert(s2 == s);
            } else {
                let x = s2[i];
                if has_match(p, f.arb_id, f.data) {
                    let k0 = choose|k: int| 0 <= k < p.len() && same_frame(#[trigger] p[k], f.arb_id, f.data);
                    lemma_first_match_exists(p, f.arb_id, f.data, k0);
                    let k = choose|k: int| is_first_match(p, k, f.arb_id, f.data);
                    assert(s2 == p.remove(k));
                    let y = if i < k { i } else { i + 1 };
                    assert(p[y] == x);
                    lemma_pruned_subset(s, now, y);
                } else {
                    assert(s2 == p);
                    lemma_pruned_subset(s, now, i);
                }
                let w = choose|w: int| 0 <= w < s.len() && s[w] == x;
                assert(sent.contains(s[w]));
            }
        }
    }
}

/// A frame sent at `sent_us` is still within the echo window at any time
/// up to, but not including, `sent_us + ECHO_WINDOW_US`, so its echo read in
/// that time finds it.
pub proof fn lemma_recent_frame_matches(
    sent: Seq<SentFrame>,
    frame: SentFrame,
    now_us: u64,
)
    requires
        now_us < frame.timestamp_us + ECHO_WINDOW_US,
    ensures
        has_match(pruned(sent.push(frame), now_us), frame.arb_id, frame.data),
{
    let f = |m: SentFrame| still_recent(m, now_us);
    let s2 = sent.push(frame);
    reveal_with_fuel(Seq::<_>::filter, 1);
    assert(s2.drop_last() =~= sent);
    let p = pruned(s2, now_us);
    assert(p == sent.filter(f).push(frame));
    assert(same_frame(p[p.len() - 1], frame.arb_id, frame.data));
}

/// The name of a J2534 status code.
pub open spec fn error_code_name(code: i32) -> Seq<char> {
    if code == STATUS_NOERROR {
        "STATUS_NOERROR"@
    } else if code == ERR_NOT_SUPPORTED {
        "ERR_NOT_SUPPORTED"@
    } else if code == ERR_INVALID_CHANNEL_ID {
        "ERR_INVALID_CHANNEL_ID"@
    } else if code == ERR_INVALID_PROTOCOL_ID {
        "ERR_INVALID_PROTOCOL_ID"@
    } else if code == ERR_NULL_PARAMETER {
        "ERR_NULL_PARAMETER"@
    } else if code == ERR_INVALID_IOCTL_VALUE {
        "ERR_INVALID_IOCTL_VALUE"@
    } else if code == ERR_INVALID_FLAGS {
        "ERR_INVALID_FLAGS"@
    } else if code == ERR_FAILED {
        "ERR_FAILED"@
    } else if code == ERR_DEVICE_NOT_CONNECTED {
        "ERR_DEVICE_NOT_CONNECTED"@
    } else if code == ERR_TIMEOUT {
        "ERR_TIMEOUT"@
    } else if code == ERR_INVALID_MSG {
        "ERR_INVALID_MSG"@
    } else if code == ERR_INVALID_TIME_INTERVAL {
        "ERR_INVALID_TIME_INTERVAL"@
    } else if code == ERR_EXCEEDED_LIMIT {
        "ERR_EXCEEDED_LIMIT"@
    } else if code == ERR_INVALID_MSG_ID {
        "ERR_INVALID_MSG_ID"@
    } else if code == ERR_DEVICE_IN_USE {
        "ERR_DEVICE_IN_USE"@
    } else if code == ERR_INVALID_IOCTL_ID {
        "ERR_INVALID_IOCTL_ID"@
    } else if code == ERR_BUFFER_EMPTY {
        "ERR_BUFFER_EMPTY"@
    } else if code == ERR_BUFFER_FULL {
        "ERR_BUFFER_FULL"@
    } else if code == ERR_BUFFER_OVERFLOW {
        "ERR_BUFFER_OVERFLOW"@
    } else if code == ERR_PIN_INVALID {
        "ERR_PIN_INVALID"@
    } else if code == ERR_CHANNEL_IN_USE {
        "ERR_CHANNEL_IN_USE"@
    } else if code == ERR_MSG_PROTOCOL_ID {
        "ERR_MSG_PROTOCOL_ID"@
    } else if code == ERR_INVALID_FILTER_ID {
        "ERR_INVALID_FILTER_ID"@
    } else if code == ERR_NO_FLOW_CONTROL {
        "ERR_NO_FLOW_CONTROL"@
    } else if code == ERR_NOT_UNIQUE {
        "ERR_NOT_UNIQUE"@
    } else if code == ERR_INVALID_BAUDRATE {
        "ERR_INVALID_BAUDRATE"@
    } else if code == ERR_INVALID_DEVICE_ID {
        "ERR_INVALID_DEVICE_ID"@
    } else {
        "UNKNOWN_ERROR"@
    }
}

/// Gets the name of a J2534 status code, or `UNKNOWN_ERROR`.
pub fn error_code_to_string(code: i32) -> (r: &'static str)
    ensures
        r@ == error_code_name(code),
{
    if code == STATUS_NOERROR {
        "STATUS_NOERROR"
    } else if code == ERR_NOT_SUPPORTED {
        "ERR_NOT_SUPPORTED"
    } else if code == ERR_INVALID_CHANNEL_ID {
        "ERR_INVALID_CHANNEL_ID"
    } else if code == ERR_INVALID_PROTOCOL_ID {
        "ERR_INVALID_PROTOCOL_ID"
    } else if code == ERR_NULL_PARAMETER {
        "ERR_NULL_PARAMETER"
    } else if code == ERR_INVALID_IOCTL_VALUE {
        "ERR_INVALID_IOCTL_VALUE"
    } else if code == ERR_INVALID_FLAGS {
        "ERR_INVALID_FLAGS"
    } else if code == ERR_FAILED {
        "ERR_FAILED"
    } else if code == ERR_DEVICE_NOT_CONNECTED {
        "ERR_DEVICE_NOT_CONNECTED"
    } else if code == ERR_TIMEOUT {
        "ERR_TIMEOUT"
    } else if code == ERR_INVALID_MSG {
        "ERR_INVALID_MSG"
    } else if code == ERR_INVALID_TIME_INTERVAL {
        "ERR_INVALID_TIME_INTERVAL"
    } else if code == ERR_EXCEEDED_LIMIT {
        "ERR_EXCEEDED_LIMIT"
    } else if code == ERR_INVALID_MSG_ID {
        "ERR_INVALID_MSG_ID"
    } else if code == ERR_DEVICE_IN_USE {
        "ERR_DEVICE_IN_USE"
    } else if code == ERR_INVALID_IOCTL_ID {
        "ERR_INVALID_IOCTL_ID"
    } else if code == ERR_BUFFER_EMPTY {
        "ERR_BUFFER_EMPTY"
    } else if code == ERR_BUFFER_FULL {
        "ERR_BUFFER_FULL"
    } else if code == ERR_BUFFER_OVERFLOW {
        "ERR_BUFFER_OVERFLOW"
    } else if code == ERR_PIN_INVALID {
        "ERR_PIN_INVALID"
    } else if code == ERR_CHANNEL_IN_USE {
        "ERR_CHANNEL_IN_USE"
    } else if code == ERR_MSG_PROTOCOL_ID {
        "ERR_MSG_PROTOCOL_ID"
    } else if code == ERR_INVALID_FILTER_ID {
        "ERR_INVALID_FILTER_ID"
    } else if code == ERR_NO_FLOW_CONTROL {
        "ERR_NO_FLOW_CONTROL"
    } else if code == ERR_NOT_UNIQUE {
        "ERR_NOT_UNIQUE"
    } else if code == ERR_INVALID_BAUDRATE {
        "ERR_INVALID_BAUDRATE"
    } else if code == ERR_INVALID_DEVICE_ID {
        "ERR_INVALID_DEVICE_ID"
    } else {
        "UNKNOWN_ERROR"
    }
}

/// The name of a J2534 protocol ID.
pub open spec fn protocol_name(id: u32) -> Seq<char> {
    if id == PROTOCOL_J1850VPW {
        "J1850VPW"@
    } else if id == PROTOCOL_J1850PWM {
        "J1850PWM"@
    } else if id == PROTOCOL_ISO9141 {
        "ISO9141"@
    } else if id == PROTOCOL_ISO14230 {
        "ISO14230"@
    } else if id == PROTOCOL_CAN {
        "CAN"@
    } else if id == PROTOCOL_ISO15765 {
        "ISO15765"@
    } else if id == PROTOCOL_SCI_A_ENGINE {
        "SCI_A_ENGINE"@
    } else if id == PROTOCOL_SCI_A_TRANS {
        "SCI_A_TRANS"@
    } else if id == PROTOCOL_SCI_B_ENGINE {
        "SCI_B_ENGINE"@
    } else if id == PROTOCOL_SCI_B_TRANS {
        "SCI_B_TRANS"@
    } else {
        "UNKNOWN"@
    }
}

/// Gets the name of a J2534 protocol ID, or `UNKNOWN`.
pub fn protocol_id_to_string(id: u32) -> (r: &'static str)
    ensures
        r@ == protocol_name(id),
{
    if id == PROTOCOL_J1850VPW {
        "J1850VPW"
    } else if id == PROTOCOL_J1850PWM {
        "J1850PWM"
    } else if id == PROTOCOL_ISO9141 {
        "ISO9141"
    } else if id == PROTOCOL_ISO14230 {
        "ISO14230"
    } else if id == PROTOCOL_CAN {
        "CAN"
    } else if id == PROTOCOL_ISO15765 {
        "ISO15765"
    } else if id == PROTOCOL_SCI_A_ENGINE {
        "SCI_A_ENGINE"
    } else if id == PROTOCOL_SCI_A_TRANS {
        "SCI_A_TRANS"
    } else if id == PROTOCOL_SCI_B_ENGINE {
        "SCI_B_ENGINE"
    } else if id == PROTOCOL_SCI_B_TRANS {
        "SCI_B_TRANS"
    } else {
        "UNKNOWN"
    }
}

/// The little-endian 16-bit value at `i`.
pub open spec fn le16(b: Seq<u8>, i: int) -> int {
    b[i] + 256 * b[i + 1]
}

/// The little-endian 32-bit value at `i`.
pub open spec fn le32(b: Seq<u8>, i: int) -> int {
    b[i] + 256 * b[i + 1] + 65536 * b[i + 2] + 16777216 * b[i + 3]
}

/// Whether an image starts with the DOS header signature `MZ` and is long
/// enough to hold a DOS header.
pub open spec fn has_dos_header(image: Seq<u8>) -> bool {
    image.len() >= 64 && image[0] == 0x4D && image[1] == 0x5A
}

/// Where the PE header starts, as the DOS header records it.
pub open spec fn pe_header_offset(image: Seq<u8>) -> int {
    le32(image, 0x3C)
}

/// The machine type that a DLL must have to load into a process whose
/// pointers have `pointer_bits` bits: AMD64 for 64, i386 for 32.
pub open spec fn native_machine(pointer_bits: int) -> int {
    if pointer_bits == 64 {
        0x8664
    } else {
        0x014c
    }
}

/// Whether a DLL image, read from its first byte on, has a DOS header, the
/// letters `PE` where the DOS header points, and the machine type of a
/// process with `pointer_bits`-bit pointers.
pub open spec fn image_compatible(image: Seq<u8>, pointer_bits: int) -> bool {
    let off = pe_header_offset(image);
    &&& has_dos_header(image)
    &&& off + 6 <= image.len()
    &&& image[off] == 0x50
    &&& image[off + 1] == 0x45
    &&& le16(image, off + 4) == native_machine(pointer_bits)
}

/// Reads a little-endian 16-bit value.
fn read_le16(b: &[u8], i: usize) -> (r: u16)
    requires
        i + 2 <= b@.len(),
    ensures
        r as int == le16(b@, i as int),
{
    let lo: u16 = b[i] as u16;
    let hi: u16 = b[i + 1] as u16;
    lo + 256 * hi
}

/// Reads a little-endian 32-bit value.
fn read_le32(b: &[u8], i: usize) -> (r: u32)
    requires
        i + 4 <= b@.len(),
    ensures
        r as int == le32(b@, i as int),
{
    let b0: u32 = b[i] as u32;
    let b1: u32 = b[i + 1] as u32;
    let b2: u32 = b[i + 2] as u32;
    let b3: u32 = b[i + 3] as u32;
    b0 + 256 * b1 + 65536 * b2 + 16777216 * b3
}

/// Reads the PE header offset of an image that has a DOS header.
pub fn read_pe_header_offset(image: &[u8]) -> (r: u32)
    requires
        has_dos_header(image@),
    ensures
        r as int == pe_header_offset(image@),
{
    read_le32(image, 0x3C)
}

/// Checks that a DLL matches the bitness of this process, from the bytes of
/// the DLL file read from its start.
pub fn is_dll_compatible(image: &[u8]) -> (b: bool)
    ensures
        b == image_compatible(image@, usize::BITS as int),
{
    if image.len() < 64 || image[0] != 0x4D || image[1] != 0x5A {
        return false;
    }
    let off: u32 = read_pe_header_offset(image);
    let off64: u64 = off as u64;
    if (image.len() as u64) < off64 + 6 {
        return false;
    }
    let o: usize = off as usize;
    if image[o] != 0x50 || image[o + 1] != 0x45 {
        return false;
    }
    let machine: u16 = read_le16(image, o + 4);
    if usize::BITS == 64 {
        machine == 0x8664
    } else {
        machine == 0x014c
    }
}

/// A status code has the name `UNKNOWN_ERROR` exactly when it is none of
/// the codes that J2534 defines.
pub proof fn lemma_unknown_error_code(code: i32)
    ensures
        error_code_name(code) == "UNKNOWN_ERROR"@ <==> !(STATUS_NOERROR <= code
            <= ERR_INVALID_DEVICE_ID),
{
    reveal_strlit("ERR_BUFFER_EMPTY");
    reveal_strlit("ERR_BUFFER_FULL");
    reveal_strlit("ERR_BUFFER_OVERFLOW");
    reveal_strlit("ERR_CHANNEL_IN_USE");
    reveal_strlit("ERR_DEVICE_IN_USE");
    reveal_strlit("ERR_DEVICE_NOT_CONNECTED");
    reveal_strlit("ERR_EXCEEDED_LIMIT");
    reveal_strlit("ERR_FAILED");
    reveal_strlit("ERR_INVALID_BAUDRATE");
    reveal_strlit("ERR_INVALID_CHANNEL_ID");
    reveal_strlit("ERR_INVALID_DEVICE_ID");
    reveal_strlit("ERR_INVALID_FILTER_ID");
    reveal_strlit("ERR_INVALID_FLAGS");
    reveal_strlit("ERR_INVALID_IOCTL_ID");
    reveal_strlit("ERR_INVALID_IOCTL_VALUE");
    reveal_strlit("ERR_INVALID_MSG");
    reveal_strlit("ERR_INVALID_MSG_ID");
    reveal_strlit("ERR_INVALID_PROTOCOL_ID");
    reveal_strlit("ERR_INVALID_TIME_INTERVAL");
    reveal_strlit("ERR_MSG_PROTOCOL_ID");
    reveal_strlit("ERR_NOT_SUPPORTED");
    reveal_strlit("ERR_NOT_UNIQUE");
    reveal_strlit("ERR_NO_FLOW_CONTROL");
    reveal_strlit("ERR_NULL_PARAMETER");
    reveal_strlit("ERR_PIN_INVALID");
    reveal_strlit("ERR_TIMEOUT");
    reveal_strlit("STATUS_NOERROR");
    reveal_strlit("UNKNOWN_ERROR");
    if STATUS_NOERROR <= code <= ERR_INVALID_DEVICE_ID {
        assert(error_code_name(code).len() != 13);
    }
}

/// A protocol ID has the name `UNKNOWN` exactly when it is none of the
/// protocols that J2534 defines.
pub proof fn lemma_unknown_protocol_id(id: u32)
    ensures
        protocol_name(id) == "UNKNOWN"@ <==> !(PROTOCOL_J1850VPW <= id <= PROTOCOL_SCI_B_TRANS),
{
    reveal_strlit("CAN");
    reveal_strlit("ISO14230");
    reveal_strlit("ISO15765");
    reveal_strlit("ISO9141");
    reveal_strlit("J1850PWM");
    reveal_strlit("J1850VPW");
    reveal_strlit("SCI_A_ENGINE");
    reveal_strlit("SCI_A_TRANS");
    reveal_strlit("SCI_B_ENGINE");
    reveal_strlit("SCI_B_TRANS");
    reveal_strlit("UNKNOWN");
    if PROTOCOL_J1850VPW <= id <= PROTOCOL_SCI_B_TRANS {
        assert(protocol_name(id) != "UNKNOWN"@) by {
            if protocol_name(id).len() == 7 {
                assert(protocol_name(id)[0] != 'U');
            }
        }
    }
}

/// A PassThru DLL call whose status code the tool checks.
#[derive(Debug, Clone, Copy, PartialEq, Eq, Structural)]
pub enum J2534Call {
    /// PassThruOpen
    Open,
    /// PassThruConnect
    Connect,
    /// PassThruStartMsgFilter while connecting
    PassAllFilter,
    /// PassThruWriteMsgs
    WriteMsgs,
    /// PassThruReadMsgs
    ReadMsgs,
    /// The CLEAR_TX_BUFFER IOCTL
    ClearTxBuffer,
    /// The CLEAR_RX_BUFFER IOCTL
    ClearRxBuffer,
    /// PassThruReadVersion
    ReadVersion,
    /// The READ_VBATT IOCTL
    ReadBatteryVoltage,
    /// The READ_PROG_VOLTAGE IOCTL
    ReadProgrammingVoltage,
    /// PassThruStartPeriodicMsg
    StartPeriodicMsg,
    /// PassThruStopPeriodicMsg
    StopPeriodicMsg,
    /// The CLEAR_PERIODIC_MSGS IOCTL
    ClearPeriodicMsgs,
    /// PassThruStartMsgFilter
    StartMsgFilter,
    /// PassThruStopMsgFilter
    StopMsgFilter,
    /// The CLEAR_MSG_FILTERS IOCTL
    ClearMsgFilters,
    /// The GET_CONFIG IOCTL
    GetConfig,
    /// The SET_CONFIG IOCTL
    SetConfig,
}

/// Where the error of a failed call puts the name of its status code.
#[derive(Debug, Clone, Copy, PartialEq, Eq, Structural)]
pub enum NameStyle {
    /// Not at all.
    Plain,
    /// After the number, in square brackets.
    Bracketed,
    /// After the number, in parentheses.
    Parenthesized,
}

/// Whether a call's status code counts as success: only `STATUS_NOERROR`,
/// except that a read also accepts an empty buffer and a timeout, after
/// which some adapters still deliver messages.
pub open spec fn call_succeeded(call: J2534Call, code: i32) -> bool {
    ||| code == STATUS_NOERROR
    ||| call == J2534Call::ReadMsgs && (code == ERR_BUFFER_EMPTY || code == ERR_TIMEOUT)
}

/// The error of a call that failed with `code`.
pub open spec fn call_error_message(call: J2534Call, code: i32) -> Seq<char> {
    let head = call_error_head(call) + signed_decimal(code as int);
    match call_name_style(call) {
        NameStyle::Plain => head,
        NameStyle::Bracketed => head + " ["@ + error_code_name(code) + "]"@,
        NameStyle::Parenthesized => head + " ("@ + error_code_name(code) + ")"@,
    }
}

/// Every call but a read succeeds exactly when it returns `STATUS_NOERROR`
/// (0); a read also succeeds on `ERR_BUFFER_EMPTY` (0x10) and `ERR_TIMEOUT`
/// (0x09), and on nothing else.
pub proof fn lemma_only_reads_accept_empty_or_timeout(call: J2534Call, code: i32)
    ensures
        call != J2534Call::ReadMsgs ==> (call_succeeded(call, code) <==> code == 0),
        call_succeeded(J2534Call::ReadMsgs, code) <==> (code == 0 || code == 0x10 || code == 0x09),
{
}

/// The error of a failed call gives its status code in decimal right after
/// the call's own head; the opening calls, a read and the buffer clears stop
/// there, a write adds the code's name in square brackets, and every other
/// call adds it in parentheses.
pub proof fn lemma_error_names_code(call: J2534Call, code: i32)
    ensures
        (call == J2534Call::Open || call == J2534Call::Connect || call == J2534Call::PassAllFilter
            || call == J2534Call::ReadMsgs || call == J2534Call::ClearTxBuffer || call
            == J2534Call::ClearRxBuffer) ==> call_error_message(call, code) == call_error_head(call)
            + signed_decimal(code as int),
        call == J2534Call::WriteMsgs ==> call_error_message(call, code) == call_error_head(call)
            + signed_decimal(code as int) + " ["@ + error_code_name(code) + "]"@,
        !(call == J2534Call::Open || call == J2534Call::Connect || call == J2534Call::PassAllFilter
            || call == J2534Call::ReadMsgs || call == J2534Call::ClearTxBuffer || call
            == J2534Call::ClearRxBuffer || call == J2534Call::WriteMsgs) ==> call_error_message(
            call,
            code,
        ) == call_error_head(call) + signed_decimal(code as int) + " ("@ + error_code_name(code)
            + ")"@,
{
}

/// Checks the status code that a PassThru call returned.
pub fn check_call(call: J2534Call, code: i32) -> (r: Result<(), String>)
    ensures
        r is Ok <==> call_succeeded(call, code),
        r matches Err(e) ==> e@ == call_error_message(call, code),
        call != J2534Call::ReadMsgs ==> (r is Ok <==> code == STATUS_NOERROR),
        call == J2534Call::ReadMsgs ==> (r is Ok <==> (code == STATUS_NOERROR || code
            == ERR_BUFFER_EMPTY || code == ERR_TIMEOUT)),
{
    let accepted = code == STATUS_NOERROR || (call == J2534Call::ReadMsgs && (code
        == ERR_BUFFER_EMPTY || code == ERR_TIMEOUT));
    if accepted {
        return Ok(());
    }
    let mut msg = String::from_str(error_head(call));
    push_signed_decimal(&mut msg, code);
    match name_style(call) {
        NameStyle::Plain => {},
        NameStyle::Bracketed => {
            push_str(&mut msg, " [");
            push_str(&mut msg, error_code_to_string(code));
            push_str(&mut msg, "]");
        },
        NameStyle::Parenthesized => {
            push_str(&mut msg, " (");
            push_str(&mut msg, error_code_to_string(code));
            push_str(&mut msg, ")");
        },
    }
    Err(msg)
}

/// What has to be closed again after a step of opening a connection failed.
pub struct Cleanup {
    /// Disconnect the channel.
    pub disconnect_channel: bool,
    /// Close the device.
    pub close_device: bool,
}

/// What to close after `call` failed while a connection was being opened:
/// nothing after `PassThruOpen`, the device after `PassThruConnect`, and the
/// channel and then the device after the pass-all filter. A failed call of
/// an open connection leaves it open.
pub fn cleanup_after(call: J2534Call) -> (c: Cleanup)
    ensures
        c.close_device == (call == J2534Call::Connect || call == J2534Call::PassAllFilter),
        c.disconnect_channel == (call == J2534Call::PassAllFilter),
{
    match call {
        J2534Call::Connect => Cleanup { disconnect_channel: false, close_device: true },
        J2534Call::PassAllFilter => Cleanup { disconnect_channel: true, close_device: true },
        _ => Cleanup { disconnect_channel: false, close_device: false },
    }
}

/// The error of a PassThru function that the DLL does not export.
pub open spec fn missing_function_message(symbol: Seq<char>, detail: Seq<char>) -> Seq<char> {
    "ERR_J2534_FUNC_NOT_FOUND: "@ + symbol + " - "@ + detail
}

/// Builds the error of a PassThru function that the DLL does not export;
/// `detail` is what the loader said.
pub fn missing_function_error(symbol: &str, detail: &str) -> (r: String)
    ensures
        r@ == missing_function_message(symbol@, detail@),
{
    let mut msg = String::from_str("ERR_J2534_FUNC_NOT_FOUND: ");
    push_str(&mut msg, symbol);
    push_str(&mut msg, " - ");
    push_str(&mut msg, detail);
    msg
}
/// The text of the error of a failed call, up to its status code.
pub open spec fn call_error_head(call: J2534Call) -> Seq<char> {
    match call {
        J2534Call::Open => "ERR_J2534_OPEN_FAILED: error code "@,
        J2534Call::Connect => "ERR_J2534_CONNECT_FAILED: error code "@,
        J2534Call::PassAllFilter => "ERR_J2534_FILTER_FAILED: error code "@,
        J2534Call::WriteMsgs => "ERR_J2534_WRITE_FAILED: error code "@,
        J2534Call::ReadMsgs => "ERR_J2534_READ_FAILED: error code "@,
        J2534Call::ClearTxBuffer => "ERR_J2534_IOCTL_FAILED: CLEAR_TX_BUFFER error code "@,
        J2534Call::ClearRxBuffer => "ERR_J2534_IOCTL_FAILED: CLEAR_RX_BUFFER error code "@,
        J2534Call::ReadVersion => "ERR_J2534_READ_VERSION_FAILED: error code "@,
        J2534Call::ReadBatteryVoltage => "ERR_J2534_READ_VBATT_FAILED: error code "@,
        J2534Call::ReadProgrammingVoltage => "ERR_J2534_READ_PROG_VOLTAGE_FAILED: error code "@,
        J2534Call::StartPeriodicMsg => "ERR_J2534_START_PERIODIC_FAILED: error code "@,
        J2534Call::StopPeriodicMsg => "ERR_J2534_STOP_PERIODIC_FAILED: error code "@,
        J2534Call::ClearPeriodicMsgs => "ERR_J2534_CLEAR_PERIODIC_FAILED: error code "@,
        J2534Call::StartMsgFilter => "ERR_J2534_ADD_FILTER_FAILED: error code "@,
        J2534Call::StopMsgFilter => "ERR_J2534_REMOVE_FILTER_FAILED: error code "@,
        J2534Call::ClearMsgFilters => "ERR_J2534_CLEAR_FILTERS_FAILED: error code "@,
        J2534Call::GetConfig => "ERR_J2534_GET_CONFIG_FAILED: error code "@,
        J2534Call::SetConfig => "ERR_J2534_SET_CONFIG_FAILED: error code "@,
    }
}
/// The text of the error of a failed call, up to its status code.
fn error_head(call: J2534Call) -> (r: &'static str)
    ensures
        r@ == call_error_head(call),
{
    match call {
        J2534Call::Open => "ERR_J2534_OPEN_FAILED: error code ",
        J2534Call::Connect => "ERR_J2534_CONNECT_FAILED: error code ",
        J2534Call::PassAllFilter => "ERR_J2534_FILTER_FAILED: error code ",
        J2534Call::WriteMsgs => "ERR_J2534_WRITE_FAILED: error code ",
        J2534Call::ReadMsgs => "ERR_J2534_READ_FAILED: error code ",
        J2534Call::ClearTxBuffer => "ERR_J2534_IOCTL_FAILED: CLEAR_TX_BUFFER error code ",
        J2534Call::ClearRxBuffer => "ERR_J2534_IOCTL_FAILED: CLEAR_RX_BUFFER error code ",
        J2534Call::ReadVersion => "ERR_J2534_READ_VERSION_FAILED: error code ",
        J2534Call::ReadBatteryVoltage => "ERR_J2534_READ_VBATT_FAILED: error code ",
        J2534Call::ReadProgrammingVoltage => "ERR_J2534_READ_PROG_VOLTAGE_FAILED: error code ",
        J2534Call::StartPeriodicMsg => "ERR_J2534_START_PERIODIC_FAILED: error code ",
        J2534Call::StopPeriodicMsg => "ERR_J2534_STOP_PERIODIC_FAILED: error code ",
        J2534Call::ClearPeriodicMsgs => "ERR_J2534_CLEAR_PERIODIC_FAILED: error code ",
        J2534Call::StartMsgFilter => "ERR_J2534_ADD_FILTER_FAILED: error code ",
        J2534Call::StopMsgFilter => "ERR_J2534_REMOVE_FILTER_FAILED: error code ",
        J2534Call::ClearMsgFilters => "ERR_J2534_CLEAR_FILTERS_FAILED: error code ",
        J2534Call::GetConfig => "ERR_J2534_GET_CONFIG_FAILED: error code ",
        J2534Call::SetConfig => "ERR_J2534_SET_CONFIG_FAILED: error code ",
    }
}
/// How the error of a failed call names its status code after the number.
pub open spec fn call_name_style(call: J2534Call) -> NameStyle {
    match call {
        J2534Call::Open => NameStyle::Plain,
        J2534Call::Connect => NameStyle::Plain,
        J2534Call::PassAllFilter => NameStyle::Plain,
        J2534Call::WriteMsgs => NameStyle::Bracketed,
        J2534Call::ReadMsgs => NameStyle::Plain,
        J2534Call::ClearTxBuffer => NameStyle::Plain,
        J2534Call::ClearRxBuffer => NameStyle::Plain,
        J2534Call::ReadVersion => NameStyle::Parenthesized,
        J2534Call::ReadBatteryVoltage => NameStyle::Parenthesized,
        J2534Call::ReadProgrammingVoltage => NameStyle::Parenthesized,
        J2534Call::StartPeriodicMsg => NameStyle::Parenthesized,
        J2534Call::StopPeriodicMsg => NameStyle::Parenthesized,
        J2534Call::ClearPeriodicMsgs => NameStyle::Parenthesized,
        J2534Call::StartMsgFilter => NameStyle::Parenthesized,
        J2534Call::StopMsgFilter => NameStyle::Parenthesized,
        J2534Call::ClearMsgFilters => NameStyle::Parenthesized,
        J2534Call::GetConfig => NameStyle::Parenthesized,
        J2534Call::SetConfig => NameStyle::Parenthesized,
    }
}
/// How the error of a failed call names its status code.
fn name_style(call: J2534Call) -> (r: NameStyle)
    ensures
        r == call_name_style(call),
{
    match call {
        J2534Call::Open => NameStyle::Plain,
        J2534Call::Connect => NameStyle::Plain,
        J2534Call::PassAllFilter => NameStyle::Plain,
        J2534Call::WriteMsgs => NameStyle::Bracketed,
        J2534Call::ReadMsgs => NameStyle::Plain,
        J2534Call::ClearTxBuffer => NameStyle::Plain,
        J2534Call::ClearRxBuffer => NameStyle::Plain,
        J2534Call::ReadVersion => NameStyle::Parenthesized,
        J2534Call::ReadBatteryVoltage => NameStyle::Parenthesized,
        J2534Call::ReadProgrammingVoltage => NameStyle::Parenthesized,
        J2534Call::StartPeriodicMsg => NameStyle::Parenthesized,
        J2534Call::StopPeriodicMsg => NameStyle::Parenthesized,
        J2534Call::ClearPeriodicMsgs => NameStyle::Parenthesized,
        J2534Call::StartMsgFilter => NameStyle::Parenthesized,
        J2534Call::StopMsgFilter => NameStyle::Parenthesized,
        J2534Call::ClearMsgFilters => NameStyle::Parenthesized,
        J2534Call::GetConfig => NameStyle::Parenthesized,
        J2534Call::SetConfig => NameStyle::Parenthesized,
    }
}

/// The bytes of a NUL-terminated C string field: those before the first
/// zero, or all of them when there is none.
pub open spec fn until_nul(s: Seq<i8>) -> Seq<u8>
    decreases s.len(),
{
    if s.len() == 0 || s[0] == 0 {
        Seq::empty()
    } else {
        seq![s[0] as u8] + until_nul(s.skip(1))
    }
}

/// Reads a NUL-terminated text field that a PassThru DLL filled in, such as
/// a version or the last error. Invalid UTF-8 becomes U+FFFD.
pub fn c_string_field(field: &[i8]) -> (r: String)
    ensures
        r@ == lossy_utf8(until_nul(field@)),
        valid_utf8(until_nul(field@)) ==> r@ == decode_utf8(until_nul(field@)),
{
    let mut bytes: Vec<u8> = Vec::new();
    let mut i: usize = 0;
    proof {
        assert(field@.skip(0) =~= field@);
        assert(bytes@ + until_nul(field@) =~= until_nul(field@));
    }
    while i < field.len() && field[i] != 0
        invariant
            i <= field.len(),
            bytes@ + until_nul(field@.skip(i as int)) == until_nul(field@),
        decreases field.len() - i,
    {
        proof {
            assert(field@.skip(i as int).skip(1) =~= field@.skip(i + 1));
            assert(bytes@.push(field@[i as int] as u8) + until_nul(field@.skip(i + 1)) =~= bytes@
                + (seq![field@[i as int] as u8] + until_nul(field@.skip(i + 1))));
        }
        bytes.push(field[i] as u8);
        i = i + 1;
    }
    proof {
        assert(until_nul(field@.skip(i as int)) =~= Seq::<u8>::empty());
        assert(bytes@ + Seq::<u8>::empty() =~= bytes@);
    }
    utf8_lossy(bytes.as_slice())
}

/// Whether a `LOOPBACK` configuration value means loopback is on.
pub open spec fn loopback_on(value: u32) -> bool {
    value != 0
}

/// Reads a `LOOPBACK` configuration value: anything but zero is on.
pub fn loopback_from_config(value: u32) -> (on: bool)
    ensures
        on == loopback_on(value),
{
    value != 0
}

/// The `LOOPBACK` configuration value that switches loopback on or off.
pub fn loopback_config_value(enabled: bool) -> (value: u32)
    ensures
        value == (if enabled {
            1u32
        } else {
            0u32
        }),
{
    if enabled {
        1
    } else {
        0
    }
}

/// Switching loopback on or off writes a value that reads back as the
/// same setting.
pub proof fn lemma_loopback_roundtrip(enabled: bool)
    ensures
        loopback_on(if enabled {
            1u32
        } else {
            0u32
        }) == enabled,
{
}

/// `ON` or `OFF`.
pub open spec fn on_off(state: bool) -> Seq<char> {
    if state {
        "ON"@
    } else {
        "OFF"@
    }
}

/// What the connect step reports after switching loopback off and reading
/// it back.
pub open spec fn loopback_report_text(
    set: Result<(), Seq<char>>,
    readback: Result<bool, Seq<char>>,
) -> Seq<char> {
    match (set, readback) {
        (Ok(_), Ok(state)) => "Loopback reported "@ + on_off(state),
        (Ok(_), Err(e)) => "Loopback set ok; readback failed: "@ + e,
        (Err(e), Ok(state)) => "Loopback set failed: "@ + e + "; device reports "@ + on_off(state),
        (Err(e), Err(e2)) => "Loopback set failed: "@ + e + "; readback failed: "@ + e2,
    }
}

/// The view of a result whose error is a string.
pub open spec fn result_text<T>(r: Result<T, String>) -> Result<T, Seq<char>> {
    match r {
        Ok(v) => Ok(v),
        Err(e) => Err(e@),
    }
}

fn on_off_text(state: bool) -> (r: &'static str)
    ensures
        r@ == on_off(state),
{
    if state {
        "ON"
    } else {
        "OFF"
    }
}

/// Describes how switching loopback off went, from the result of setting it
/// and the result of reading it back.
pub fn loopback_report(set: &Result<(), String>, readback: &Result<bool, String>) -> (r: String)
    ensures
        r@ == loopback_report_text(result_text(*set), result_text(*readback)),
{
    match (set, readback) {
        (Ok(()), Ok(state)) => concat("Loopback reported ", on_off_text(*state)),
        (Ok(()), Err(err)) => concat("Loopback set ok; readback failed: ", err.as_str()),
        (Err(err), Ok(state)) => {
            let mut msg = concat("Loopback set failed: ", err.as_str());
            push_str(&mut msg, "; device reports ");
            push_str(&mut msg, on_off_text(*state));
            msg
        },
        (Err(err), Err(err2)) => {
            let mut msg = concat("Loopback set failed: ", err.as_str());
            push_str(&mut msg, "; readback failed: ");
            push_str(&mut msg, err2.as_str());
            msg
        },
    }
}

/// What the last step of opening a connection brought back: the start, the
/// loaded DLL, the opened device, the connected channel, the pass-all
/// filter, and the report on loopback.
pub enum OpenEvent {
    Begin,
    DllLoaded,
    DeviceOpened { device_id: u32 },
    ChannelConnected { channel_id: u32 },
    FilterSet,
    LoopbackChecked { report: String },
}

/// The call that opening a connection makes next.
#[derive(PartialEq, Eq, Structural, Debug, Clone, Copy)]
pub enum OpenAction {
    LoadDll,
    OpenDevice,
    Connect { flags: u32, baud_rate: u32 },
    StartPassAllFilter,
    CheckLoopback,
    Finish,
}

/// The progress reports to send, in order, and the call to make next.
pub struct OpenStep {
    pub reports: Vec<J2534Progress>,
    pub next: OpenAction,
}

/// A progress report as text: its step, its status and its message.
pub open spec fn report_text(p: J2534Progress) -> (Seq<char>, Seq<char>, Option<Seq<char>>) {
    (
        p.step@,
        p.status@,
        match p.message {
            Some(m) => Some(m@),
            None => None,
        },
    )
}

/// The reports that opening a connection sends after each event: the step
/// just done succeeded, and the next one is in progress; the loopback report
/// is followed by `Connection established`.
pub open spec fn open_reports(event: OpenEvent, dll_path: Seq<char>, baud_rate: u32) -> Seq<
    (Seq<char>, Seq<char>, Option<Seq<char>>),
> {
    match event {
        OpenEvent::Begin => seq![("load_dll"@, "in_progress"@, Some(dll_path))],
        OpenEvent::DllLoaded => seq![
            ("load_dll"@, "success"@, None),
            ("open_device"@, "in_progress"@, None),
        ],
        OpenEvent::DeviceOpened { device_id } => seq![
            ("open_device"@, "success"@, Some(numbered_text("Device ID: "@, device_id as u64, ""@))),
            (
                "connect_channel"@,
                "in_progress"@,
                Some(numbered_text("Baud rate: "@, baud_rate as u64, " bps"@)),
            ),
        ],
        OpenEvent::ChannelConnected { channel_id } => seq![
            (
                "connect_channel"@,
                "success"@,
                Some(numbered_text("Channel ID: "@, channel_id as u64, ""@)),
            ),
            ("set_filter"@, "in_progress"@, None),
        ],
        OpenEvent::FilterSet => seq![
            ("set_filter"@, "success"@, None),
            ("loopback"@, "in_progress"@, Some("Disabling loopback (if supported)"@)),
        ],
        OpenEvent::LoopbackChecked { report } => seq![
            ("loopback"@, "success"@, Some(report@)),
            ("complete"@, "success"@, Some("Connection established"@)),
        ],
    }
}

/// The call that follows each event of opening a connection: the channel
/// is connected as CAN at the asked baud rate, with 29-bit IDs if asked.
pub open spec fn open_next(event: OpenEvent, baud_rate: u32, use_extended_id: bool) -> OpenAction {
    match event {
        OpenEvent::Begin => OpenAction::LoadDll,
        OpenEvent::DllLoaded => OpenAction::OpenDevice,
        OpenEvent::DeviceOpened { .. } => OpenAction::Connect {
            flags: can_tx_flags(use_extended_id),
            baud_rate,
        },
        OpenEvent::ChannelConnected { .. } => OpenAction::StartPassAllFilter,
        OpenEvent::FilterSet => OpenAction::CheckLoopback,
        OpenEvent::LoopbackChecked { .. } => OpenAction::Finish,
    }
}

/// Where an event comes in the sequence of opening a connection.
pub open spec fn event_rank(e: OpenEvent) -> nat {
    match e {
        OpenEvent::Begin => 0,
        OpenEvent::DllLoaded => 1,
        OpenEvent::DeviceOpened { .. } => 2,
        OpenEvent::ChannelConnected { .. } => 3,
        OpenEvent::FilterSet => 4,
        OpenEvent::LoopbackChecked { .. } => 5,
    }
}

/// Opening a connection reports each step twice: the step that one event
/// leaves in progress is the one that the next event first reports as a
/// success; the first event reports loading the DLL in progress, and the
/// last ends with `complete`, a success.
pub proof fn lemma_each_step_completes(
    e1: OpenEvent,
    e2: OpenEvent,
    dll_path: Seq<char>,
    baud_rate: u32,
)
    requires
        event_rank(e2) == event_rank(e1) + 1,
    ensures
        open_reports(e1, dll_path, baud_rate).len() > 0,
        open_reports(e2, dll_path, baud_rate).len() > 0,
        open_reports(e1, dll_path, baud_rate).last().1 == "in_progress"@,
        open_reports(e2, dll_path, baud_rate)[0].1 == "success"@,
        open_reports(e2, dll_path, baud_rate)[0].0 == open_reports(
            e1,
            dll_path,
            baud_rate,
        ).last().0,
        e1 is Begin ==> open_reports(e1, dll_path, baud_rate)[0] == (
            "load_dll"@,
            "in_progress"@,
            Some(dll_path),
        ),
        e2 is LoopbackChecked ==> open_reports(e2, dll_path, baud_rate).last().0 == "complete"@
            && open_reports(e2, dll_path, baud_rate).last().1 == "success"@,
{
}

/// Once the device is open, the channel is connected as asked: at the asked
/// baud rate, with `CAN_29BIT_ID` (0x100) in the flags exactly when 29-bit
/// IDs are asked for, and no flag otherwise.
pub proof fn lemma_connect_as_asked(device_id: u32, baud_rate: u32, use_extended_id: bool)
    ensures
        open_next(OpenEvent::DeviceOpened { device_id }, baud_rate, use_extended_id) == (
        OpenAction::Connect {
            flags: if use_extended_id {
                0x100
            } else {
                0
            },
            baud_rate,
        }),
{
}

fn progress_report(step: &str, status: &str, message: Option<String>) -> (p: J2534Progress)
    ensures
        report_text(p) == (step@, status@, match message {
            Some(m) => Some(m@),
            None => None::<Seq<char>>,
        }),
{
    J2534Progress { step: String::from_str(step), status: String::from_str(status), message }
}

/// Decides the next step of opening a connection from what the last one
/// brought back: which progress reports to send and which call to make.
pub fn open_step(event: OpenEvent, dll_path: &str, baud_rate: u32, use_extended_id: bool) -> (r: OpenStep)
    ensures
        r.next == open_next(event, baud_rate, use_extended_id),
        event is DeviceOpened ==> r.next == (OpenAction::Connect {
            flags: if use_extended_id {
                CAN_29BIT_ID
            } else {
                0
            },
            baud_rate,
        }),
        r.reports.len() == open_reports(event, dll_path@, baud_rate).len(),
        forall|i: int|
            0 <= i < r.reports.len() ==> report_text(#[trigger] r.reports@[i])
                == open_reports(event, dll_path@, baud_rate)[i],
{
    let ghost expected = open_reports(event, dll_path@, baud_rate);
    let mut reports: Vec<J2534Progress> = Vec::new();
    let next = match event {
        OpenEvent::Begin => {
            reports.push(progress_report("load_dll", "in_progress", Some(String::from_str(dll_path))));
            OpenAction::LoadDll
        },
        OpenEvent::DllLoaded => {
            reports.push(progress_report("load_dll", "success", None));
            reports.push(progress_report("open_device", "in_progress", None));
            OpenAction::OpenDevice
        },
        OpenEvent::DeviceOpened { device_id } => {
            reports.push(progress_report("open_device", "success", Some(numbered_message("Device ID: ", device_id as u64, ""))));
            reports.push(progress_report("connect_channel", "in_progress", Some(numbered_message("Baud rate: ", baud_rate as u64, " bps"))));
            OpenAction::Connect { flags: connect_flags(use_extended_id), baud_rate }
        },
        OpenEvent::ChannelConnected { channel_id } => {
            reports.push(progress_report("connect_channel", "success", Some(numbered_message("Channel ID: ", channel_id as u64, ""))));
            reports.push(progress_report("set_filter", "in_progress", None));
            OpenAction::StartPassAllFilter
        },
        OpenEvent::FilterSet => {
            reports.push(progress_report("set_filter", "success", None));
            reports.push(progress_report("loopback", "in_progress", Some(String::from_str("Disabling loopback (if supported)"))));
            OpenAction::CheckLoopback
        },
        OpenEvent::LoopbackChecked { report } => {
            reports.push(progress_report("loopback", "success", Some(report)));
            reports.push(progress_report("complete", "success", Some(String::from_str("Connection established"))));
            OpenAction::Finish
        },
    };
    OpenStep { reports, next }
}

/// A J2534 device as registered in Windows.
#[derive(Debug, Clone)]
pub struct J2534Device {
    pub name: String,
    pub vendor: String,
    pub dll_path: String,
    pub can_iso15765: bool,
    pub can_iso11898: bool,
    pub compatible: bool,
}

/// What a `J2534Device` holds.
pub struct DeviceRecord {
    pub name: Seq<char>,
    pub vendor: Seq<char>,
    pub dll_path: Seq<char>,
    pub can_iso15765: bool,
    pub can_iso11898: bool,
    pub compatible: bool,
}

impl View for J2534Device {
    type V = DeviceRecord;

    open spec fn view(&self) -> DeviceRecord {
        DeviceRecord {
            name: self.name@,
            vendor: self.vendor@,
            dll_path: self.dll_path@,
            can_iso15765: self.can_iso15765,
            can_iso11898: self.can_iso11898,
            compatible: self.compatible,
        }
    }
}

/// The values of one device key under `PassThruSupport.04.04`, as read from
/// the registry (`None` where a value is missing or unreadable), and whether
/// its DLL matches the bitness of this process.
#[derive(Debug, Clone)]
pub struct RegistryDevice {
    pub key_name: String,
    pub name: Option<String>,
    pub vendor: Option<String>,
    pub function_library: Option<String>,
    pub iso15765: Option<u32>,
    pub can: Option<u32>,
    pub compatible: bool,
}

/// The text of an optional registry string, or `default`.
pub open spec fn text_or(v: Option<String>, default: Seq<char>) -> Seq<char> {
    match v {
        Some(s) => s@,
        None => default,
    }
}

/// An optional registry number, or zero.
pub open spec fn number_or_zero(v: Option<u32>) -> u32 {
    match v {
        Some(n) => n,
        None => 0,
    }
}

/// The DLL path that a registry entry names; empty when it names none.
pub open spec fn entry_dll_path(e: RegistryDevice) -> Seq<char> {
    text_or(e.function_library, Seq::empty())
}

/// The device that a registry entry describes: its `Name` (or the key's
/// name), marked ` (incompatible)` when its DLL cannot load here.
pub open spec fn entry_device(e: RegistryDevice) -> DeviceRecord {
    let name = text_or(e.name, e.key_name@);
    DeviceRecord {
        name: if e.compatible {
            name
        } else {
            name + " (incompatible)"@
        },
        vendor: text_or(e.vendor, Seq::empty()),
        dll_path: entry_dll_path(e),
        can_iso15765: number_or_zero(e.iso15765) != 0,
        can_iso11898: number_or_zero(e.can) != 0,
        compatible: e.compatible,
    }
}

/// Whether a device with the given DLL path is in the list.
pub open spec fn lists_dll(devices: Seq<DeviceRecord>, dll_path: Seq<char>) -> bool {
    exists|i: int| 0 <= i < devices.len() && (#[trigger] devices[i]).dll_path == dll_path
}

/// The devices that a sequence of registry entries yields, in order: an
/// entry without a DLL path is skipped, as is one whose DLL path an earlier
/// device already has.
pub open spec fn registry_devices(entries: Seq<RegistryDevice>) -> Seq<DeviceRecord>
    decreases entries.len(),
{
    if entries.len() == 0 {
        Seq::empty()
    } else {
        let prev = registry_devices(entries.drop_last());
        let e = entries.last();
        if entry_dll_path(e).len() == 0 || lists_dll(prev, entry_dll_path(e)) {
            prev
        } else {
            prev.push(entry_device(e))
        }
    }
}

/// Every device in the list has a DLL path, and no two devices share one:
/// a device seen in both registry views is listed once.
pub proof fn lemma_registry_devices_unique(entries: Seq<RegistryDevice>)
    ensures
        forall|i: int|
            0 <= i < registry_devices(entries).len() ==> (#[trigger] registry_devices(
                entries,
            )[i]).dll_path.len() > 0,
        forall|i: int, j: int|
            0 <= i < j < registry_devices(entries).len() ==> (#[trigger] registry_devices(
                entries,
            )[i]).dll_path != (#[trigger] registry_devices(entries)[j]).dll_path,
    decreases entries.len(),
{
    if entries.len() > 0 {
        lemma_registry_devices_unique(entries.drop_last());
        let prev = registry_devices(entries.drop_last());
        let e = entries.last();
        let cur = registry_devices(entries);
        if !(entry_dll_path(e).len() == 0 || lists_dll(prev, entry_dll_path(e))) {
            assert(cur == prev.push(entry_device(e)));
            assert forall|i: int, j: int| 0 <= i < j < cur.len() implies (#[trigger] cur[i]).dll_path
                != (#[trigger] cur[j]).dll_path by {
                if j == cur.len() - 1 {
                    assert(cur[i] == prev[i]);
                    if cur[i].dll_path == cur[j].dll_path {
                        assert(lists_dll(prev, entry_dll_path(e)));
                    }
                } else {
                    assert(cur[i] == prev[i] && cur[j] == prev[j]);
                }
            }
            assert forall|i: int| 0 <= i < cur.len() implies (#[trigger] cur[i]).dll_path.len()
                > 0 by {
                if i < cur.len() - 1 {
                    assert(cur[i] == prev[i]);
                }
            }
        }
    }
}

/// Whether device `d` is what registry entry `e` describes: the entry
/// names the device's DLL; the device bears the entry's `Name` (or, without
/// one, the key's name), marked ` (incompatible)` exactly when its DLL
/// cannot load here, and the entry's vendor (or none); a capability holds
/// exactly when the entry's value for it is present and non-zero.
pub open spec fn described_by(d: DeviceRecord, e: RegistryDevice) -> bool {
    &&& (e.function_library matches Some(p) && p@ == d.dll_path)
    &&& d.name == (match e.name {
        Some(n) => n@,
        None => e.key_name@,
    }) + (if e.compatible {
        Seq::<char>::empty()
    } else {
        " (incompatible)"@
    })
    &&& d.vendor == (match e.vendor {
        Some(v) => v@,
        None => Seq::<char>::empty(),
    })
    &&& d.can_iso15765 == (e.iso15765 matches Some(n) && n != 0)
    &&& d.can_iso11898 == (e.can matches Some(n) && n != 0)
    &&& d.compatible == e.compatible
}

/// Whether registry entry `e` names the DLL at `path`.
pub open spec fn names_dll(e: RegistryDevice, path: Seq<char>) -> bool {
    e.function_library matches Some(p) && p@ == path
}

/// Every DLL that a registry entry names is listed: nothing registered with
/// a DLL path is lost.
pub proof fn lemma_every_registered_dll_listed(entries: Seq<RegistryDevice>)
    ensures
        forall|j: int, path: Seq<char>|
            0 <= j < entries.len() && path.len() > 0 && #[trigger] names_dll(entries[j], path)
                ==> exists|i: int|
                0 <= i < registry_devices(entries).len() && (#[trigger] registry_devices(
                    entries,
                )[i]).dll_path == path,
    decreases entries.len(),
{
    if entries.len() > 0 {
        let rest = entries.drop_last();
        lemma_every_registered_dll_listed(rest);
        let prev = registry_devices(rest);
        let cur = registry_devices(entries);
        let e = entries.last();
        assert forall|j: int, path: Seq<char>|
            0 <= j < entries.len() && path.len() > 0 && #[trigger] names_dll(entries[j], path)
            implies exists|i: int|
            0 <= i < cur.len() && (#[trigger] cur[i]).dll_path == path by {
            if j < rest.len() {
                assert(rest[j] == entries[j]);
                let i = choose|i: int| 0 <= i < prev.len() && (#[trigger] prev[i]).dll_path == path;
                assert(cur[i] == prev[i]);
            } else {
                assert(entries[j] == e);
                assert(entry_dll_path(e) == path);
                if lists_dll(prev, path) {
                    let i = choose|i: int| 0 <= i < prev.len() && (#[trigger] prev[i]).dll_path == path;
                    assert(cur[i] == prev[i]);
                } else {
                    assert(cur[cur.len() - 1] == entry_device(e));
                }
            }
        }
    }
}

/// Every listed device is what a registry entry describes, and that entry
/// is the first to name its DLL: of a device seen in both registry views,
/// the first view read wins. In particular it supports ISO 15765 and raw
/// CAN (ISO 11898) exactly when that entry's value for each is present and
/// non-zero.
pub proof fn lemma_listed_device_capabilities(entries: Seq<RegistryDevice>)
    ensures
        forall|i: int|
            0 <= i < registry_devices(entries).len() ==> exists|j: int|
                0 <= j < entries.len() && described_by(
                    #[trigger] registry_devices(entries)[i],
                    #[trigger] entries[j],
                ) && forall|k: int|
                    0 <= k < j ==> !names_dll(
                        #[trigger] entries[k],
                        registry_devices(entries)[i].dll_path,
                    ),
    decreases entries.len(),
{
    if entries.len() > 0 {
        let rest = entries.drop_last();
        lemma_listed_device_capabilities(rest);
        lemma_every_registered_dll_listed(rest);
        let prev = registry_devices(rest);
        let e = entries.last();
        let cur = registry_devices(entries);
        assert forall|i: int| 0 <= i < cur.len() implies exists|j: int|
            0 <= j < entries.len() && described_by(#[trigger] cur[i], #[trigger] entries[j])
                && forall|k: int| 0 <= k < j ==> !names_dll(#[trigger] entries[k], cur[i].dll_path) by {
            if i < prev.len() {
                assert(cur[i] == prev[i]);
                let j = choose|j: int|
                    0 <= j < rest.len() && described_by(prev[i], rest[j]) && forall|k: int|
                        0 <= k < j ==> !names_dll(#[trigger] rest[k], prev[i].dll_path);
                assert(rest[j] == entries[j]);
                assert forall|k: int| 0 <= k < j implies !names_dll(
                    #[trigger] entries[k],
                    cur[i].dll_path,
                ) by {
                    assert(rest[k] == entries[k]);
                }
            } else {
                let last = entries.len() - 1;
                assert(cur[i] == entry_device(e));
                assert(entries[last] == e);
                assert(entry_dll_path(e).len() > 0);
                assert(!lists_dll(prev, entry_dll_path(e)));
                let name = match e.name {
                    Some(n) => n@,
                    None => e.key_name@,
                };
                assert(name + Seq::<char>::empty() =~= name);
                assert(described_by(cur[i], entries[last]));
                assert forall|k: int| 0 <= k < last implies !names_dll(
                    #[trigger] entries[k],
                    cur[i].dll_path,
                ) by {
                    assert(rest[k] == entries[k]);
                    if names_dll(entries[k], cur[i].dll_path) {
                        assert(names_dll(rest[k], entry_dll_path(e)));
                        let x = choose|x: int|
                            0 <= x < prev.len() && (#[trigger] prev[x]).dll_path == entry_dll_path(e);
                        assert(lists_dll(prev, entry_dll_path(e)));
                    }
                }
            }
        }
    }
}

/// A copy of a string.
fn copy_string(s: &String) -> (r: String)
    ensures
        r@ == s@,
{
    s.clone()
}

/// The text of an optional registry string, or the given default.
fn text_or_default(v: &Option<String>, default: &String) -> (r: String)
    ensures
        r@ == text_or(*v, default@),
{
    match v {
        Some(s) => copy_string(s),
        None => copy_string(default),
    }
}

/// Builds the device that a registry entry describes.
pub fn device_from_entry(e: &RegistryDevice) -> (d: J2534Device)
    ensures
        d@ == entry_device(*e),
        d.can_iso15765 == (e.iso15765 matches Some(n) && n != 0),
        d.can_iso11898 == (e.can matches Some(n) && n != 0),
        d.compatible == e.compatible,
{
    let empty = String::new();
    let name = text_or_default(&e.name, &e.key_name);
    let name = if e.compatible {
        name
    } else {
        let mut n = name;
        push_str(&mut n, " (incompatible)");
        n
    };
    let iso15765: u32 = match e.iso15765 {
        Some(n) => n,
        None => 0,
    };
    let can: u32 = match e.can {
        Some(n) => n,
        None => 0,
    };
    J2534Device {
        name,
        vendor: text_or_default(&e.vendor, &empty),
        dll_path: text_or_default(&e.function_library, &empty),
        can_iso15765: iso15765 != 0,
        can_iso11898: can != 0,
        compatible: e.compatible,
    }
}

/// Builds the device list from the registry entries of both registry views,
/// in the order read.
pub fn devices_from_registry(entries: &Vec<RegistryDevice>) -> (r: Vec<J2534Device>)
    ensures
        r@.map_values(|d: J2534Device| d@) == registry_devices(entries@),
{
    let mut devices: Vec<J2534Device> = Vec::new();
    let mut i: usize = 0;
    while i < entries.len()
        invariant
            i <= entries.len(),
            devices@.map_values(|d: J2534Device| d@) == registry_devices(entries@.take(i as int)),
        decreases entries.len() - i,
    {
        let ghost prev = devices@.map_values(|d: J2534Device| d@);
        proof {
            assert(entries@.take(i + 1).drop_last() =~= entries@.take(i as int));
            assert(entries@.take(i + 1).last() == entries@[i as int]);
        }
        let e = &entries[i];
        let empty = String::new();
        let dll_path = text_or_default(&e.function_library, &empty);
        let mut listed = false;
        if dll_path.unicode_len() != 0 {
            let mut k: usize = 0;
            while k < devices.len()
                invariant
                    k <= devices.len(),
                    prev == devices@.map_values(|d: J2534Device| d@),
                    listed == exists|j: int| 0 <= j < k && (#[trigger] prev[j]).dll_path
                        == dll_path@,
                decreases devices.len() - k,
            {
                proof {
                    assert(prev[k as int] == devices@[k as int]@);
                }
                if devices[k].dll_path == dll_path {
                    listed = true;
                }
                k = k + 1;
            }
        }
        if dll_path.unicode_len() != 0 && !listed {
            devices.push(device_from_entry(e));
            proof {
                assert(devices@.map_values(|d: J2534Device| d@) =~= prev.push(
                    entry_device(entries@[i as int]),
                ));
            }
        }
        i = i + 1;
    }
    proof {
        assert(entries@.take(entries.len() as int) =~= entries@);
    }
    devices
}

/// A connection request from the front end.
#[derive(Debug, Clone)]
pub struct J2534Config {
    pub device_name: String,
    pub baud_rate: u32,
    pub protocol: String,
    pub use_extended_id: bool,
}

/// A step of connecting, as reported to the front end. `status` is one of
/// `pending`, `in_progress`, `success` and `error`.
#[derive(Debug, Clone)]
pub struct J2534Progress {
    pub step: String,
    pub status: String,
    pub message: Option<String>,
}

/// The state of the connection, as shown by the front end.
#[derive(Debug, Clone)]
pub struct ConnectionStatus {
    pub connected: bool,
    pub device_name: String,
    pub baud_rate: u32,
    pub messages_sent: u64,
    pub messages_received: u64,
}

/// Version strings of an adapter, its DLL and the API it implements.
#[derive(Debug, Clone)]
pub struct J2534VersionInfo {
    pub firmware_version: String,
    pub dll_version: String,
    pub api_version: String,
}

/// The outcome of one tested API function.
#[derive(Debug, Clone)]
pub struct J2534TestResult {
    pub function_name: String,
    pub success: bool,
    pub error_code: i32,
    pub error_name: String,
    pub message: String,
    pub duration_ms: u64,
}

/// A periodic message that an adapter is sending.
#[derive(Debug, Clone)]
pub struct J2534PeriodicMsg {
    pub msg_id: u32,
    pub arb_id: u32,
    pub data: Vec<u8>,
    pub interval_ms: u32,
}

/// A message filter set on an adapter.
#[derive(Debug, Clone)]
pub struct J2534FilterInfo {
    pub filter_id: u32,
    pub filter_type: u32,
    pub mask: Vec<u8>,
    pub pattern: Vec<u8>,
}

/// One parameter of a `GET_CONFIG` or `SET_CONFIG` IOCTL (`SCONFIG`).
#[derive(Debug, Clone, Copy)]
pub struct SConfig {
    pub parameter: u32,
    pub value: u32,
}

} // verus!
