//! Devices and calls that go through the bridge process: device names,
//! DLL bitness, and how each reply of the bridge becomes a result.

use vstd::prelude::*;
use crate::j2534::{image_compatible, has_dos_header, le16, pe_header_offset, read_pe_header_offset};
use vstd::string::StringExecFns;
use crate::bridge_client::{self, Request, Response, ResponseData};
use crate::j2534::{CANMessage, CanFrame, J2534Device, J2534VersionInfo};
use crate::text::{push_decimal, push_str, decimal, is_white_space, is_whitespace, str_chars, string_from_chars};

verus! {

/// `s` with every occurrence of `pat` removed, scanning from the left and
/// never letting two removed occurrences overlap (what `str::replace` with an
/// empty replacement does).
pub open spec fn remove_all(s: Seq<char>, pat: Seq<char>) -> Seq<char>
    decreases s.len(),
{
    if pat.len() == 0 || s.len() < pat.len() {
        s
    } else if s.take(pat.len() as int) == pat {
        remove_all(s.skip(pat.len() as int), pat)
    } else {
        seq![s[0]] + remove_all(s.skip(1), pat)
    }
}

/// The legacy bitness and compatibility markers, in the order in which they
/// are taken out of a device name.
pub open spec fn name_marker(i: int) -> Seq<char> {
    if i == 0 {
        "(64-bit)"@
    } else if i == 1 {
        "(32-bit)"@
    } else if i == 2 {
        "(64 bit)"@
    } else if i == 3 {
        "(32 bit)"@
    } else if i == 4 {
        "(incompatible)"@
    } else if i == 5 {
        "(compatible)"@
    } else if i == 6 {
        "(x64)"@
    } else {
        "(x86)"@
    }
}

/// How many markers there are.
pub open spec fn num_name_markers() -> int {
    8
}

/// `s` after the markers from index `i` on have been removed, one after the
/// other.
pub open spec fn strip_markers_from(s: Seq<char>, i: int) -> Seq<char>
    decreases num_name_markers() - i,
{
    if i >= num_name_markers() {
        s
    } else {
        strip_markers_from(remove_all(s, name_marker(i)), i + 1)
    }
}

/// `s` with all markers removed.
pub open spec fn strip_markers(s: Seq<char>) -> Seq<char> {
    strip_markers_from(s, 0)
}

/// The words of `s` joined by single spaces, given the output `acc` so far
/// and whether whitespace has been seen since its last word (`gap`).
pub open spec fn squeeze(s: Seq<char>, acc: Seq<char>, gap: bool) -> Seq<char>
    decreases s.len(),
{
    if s.len() == 0 {
        acc
    } else if is_white_space(s[0]) {
        squeeze(s.skip(1), acc, true)
    } else if gap && acc.len() > 0 {
        squeeze(s.skip(1), acc.push(' ').push(s[0]), false)
    } else {
        squeeze(s.skip(1), acc.push(s[0]), false)
    }
}

/// The whitespace-separated words of `s` joined by single spaces, as
/// `split_whitespace` followed by `join(" ")` gives them.
pub open spec fn collapse_whitespace(s: Seq<char>) -> Seq<char> {
    squeeze(s, Seq::empty(), false)
}

/// Whether a text has the shape of a cleaned name: its only whitespace is
/// single spaces, each between two other characters.
pub open spec fn is_squeezed(t: Seq<char>) -> bool {
    forall|i: int|
        0 <= i < t.len() && is_white_space(#[trigger] t[i]) ==> t[i] == ' ' && 0 < i && i + 1
            < t.len() && !is_white_space(t[i - 1]) && !is_white_space(t[i + 1])
}

/// Whether `pat` occurs nowhere in `t`.
pub open spec fn free_of(t: Seq<char>, pat: Seq<char>) -> bool {
    forall|i: int| 0 <= i && i + pat.len() <= t.len() ==> #[trigger] t.subrange(i, i + pat.len()) != pat
}

proof fn lemma_squeeze_shape(s: Seq<char>, acc: Seq<char>, gap: bool)
    requires
        is_squeezed(acc),
        acc.len() > 0 ==> !is_white_space(acc.last()),
    ensures
        is_squeezed(squeeze(s, acc, gap)),
    decreases s.len(),
{
    if s.len() > 0 {
        let c = s[0];
        if is_white_space(c) {
            lemma_squeeze_shape(s.skip(1), acc, true);
        } else if gap && acc.len() > 0 {
            let a2 = acc.push(' ').push(c);
            assert(is_white_space(' '));
            assert forall|i: int| 0 <= i < a2.len() && is_white_space(#[trigger] a2[i]) implies a2[i]
                == ' ' && 0 < i && i + 1 < a2.len() && !is_white_space(a2[i - 1]) && !is_white_space(
                a2[i + 1],
            ) by {
                if i < acc.len() {
                    assert(a2[i] == acc[i]);
                    assert(i + 1 < acc.len());
                    assert(a2[i - 1] == acc[i - 1] && a2[i + 1] == acc[i + 1]);
                } else if i == acc.len() {
                    assert(a2[i - 1] == acc.last());
                }
            }
            lemma_squeeze_shape(s.skip(1), a2, false);
        } else {
            let a2 = acc.push(c);
            assert forall|i: int| 0 <= i < a2.len() && is_white_space(#[trigger] a2[i]) implies a2[i]
                == ' ' && 0 < i && i + 1 < a2.len() && !is_white_space(a2[i - 1]) && !is_white_space(
                a2[i + 1],
            ) by {
                assert(i < acc.len());
                assert(a2[i] == acc[i]);
                assert(a2[i - 1] == acc[i - 1]);
                if i + 1 < acc.len() {
                    assert(a2[i + 1] == acc[i + 1]);
                }
            }
            lemma_squeeze_shape(s.skip(1), a2, false);
        }
    }
}

/// A cleaned name has the shape of one: no whitespace at either end, and
/// nothing but single spaces between its words.
pub proof fn lemma_collapsed_is_squeezed(s: Seq<char>)
    ensures
        is_squeezed(collapse_whitespace(s)),
{
    lemma_squeeze_shape(s, Seq::empty(), false);
}

proof fn lemma_squeeze_keeps(t: Seq<char>, k: int)
    requires
        is_squeezed(t),
        0 <= k <= t.len(),
        k > 0 ==> !is_white_space(t[k - 1]),
    ensures
        squeeze(t.skip(k), t.take(k), false) == t,
    decreases t.len() - k,
{
    if k == t.len() {
        assert(t.take(k) =~= t);
    } else {
        let rest = t.skip(k);
        assert(rest[0] == t[k]);
        if is_white_space(t[k]) {
            assert(t[k] == ' ' && k + 1 < t.len() && !is_white_space(t[k + 1]));
            assert(rest.skip(1) =~= t.skip(k + 1));
            let r2 = t.skip(k + 1);
            assert(r2[0] == t[k + 1]);
            assert(r2.skip(1) =~= t.skip(k + 2));
            assert(t.take(k).push(' ').push(t[k + 1]) =~= t.take(k + 2));
            assert(t.take(k).len() > 0);
            assert(squeeze(rest, t.take(k), false) == squeeze(r2, t.take(k), true));
            assert(squeeze(r2, t.take(k), true) == squeeze(
                r2.skip(1),
                t.take(k).push(' ').push(r2[0]),
                false,
            ));
            lemma_squeeze_keeps(t, k + 2);
        } else {
            assert(rest.skip(1) =~= t.skip(k + 1));
            assert(t.take(k).push(t[k]) =~= t.take(k + 1));
            assert(squeeze(rest, t.take(k), false) == squeeze(
                rest.skip(1),
                t.take(k).push(rest[0]),
                false,
            ));
            lemma_squeeze_keeps(t, k + 1);
        }
    }
}

proof fn lemma_remove_absent(t: Seq<char>, pat: Seq<char>)
    requires
        free_of(t, pat),
    ensures
        remove_all(t, pat) == t,
    decreases t.len(),
{
    if pat.len() > 0 && t.len() >= pat.len() {
        assert(t.subrange(0int, 0int + pat.len()) != pat);
        assert(t.take(pat.len() as int) =~= t.subrange(0, pat.len() as int));
        let r = t.skip(1);
        assert forall|i: int| 0 <= i && i + pat.len() <= r.len() implies #[trigger] r.subrange(
            i,
            i + pat.len(),
        ) != pat by {
            assert(r.subrange(i, i + pat.len()) =~= t.subrange(i + 1, i + 1 + pat.len()));
        }
        lemma_remove_absent(r, pat);
        assert(seq![t[0]] + r =~= t);
    }
}

proof fn lemma_strip_absent(t: Seq<char>, i: int)
    requires
        0 <= i,
        forall|k: int| 0 <= k < num_name_markers() ==> free_of(t, #[trigger] name_marker(k)),
    ensures
        strip_markers_from(t, i) == t,
    decreases num_name_markers() - i,
{
    if i < num_name_markers() {
        lemma_remove_absent(t, name_marker(i));
        lemma_strip_absent(t, i + 1);
    }
}

/// Cleaning leaves a name alone that is already clean: one without markers
/// whose only whitespace is single spaces between words.
pub proof fn lemma_clean_name_unchanged(t: Seq<char>)
    requires
        is_squeezed(t),
        forall|k: int| 0 <= k < num_name_markers() ==> free_of(t, #[trigger] name_marker(k)),
    ensures
        collapse_whitespace(strip_markers(t)) == t,
{
    lemma_strip_absent(t, 0);
    assert(t.skip(0) =~= t);
    assert(t.take(0) =~= Seq::<char>::empty());
    lemma_squeeze_keeps(t, 0);
}

/// The text of marker `i`.
fn marker_text(i: usize) -> (m: &'static str)
    requires
        i < 8,
    ensures
        m@ == name_marker(i as int),
        m@.len() > 0,
{
    proof {
        reveal_strlit("(64-bit)");
        reveal_strlit("(32-bit)");
        reveal_strlit("(64 bit)");
        reveal_strlit("(32 bit)");
        reveal_strlit("(incompatible)");
        reveal_strlit("(compatible)");
        reveal_strlit("(x64)");
        reveal_strlit("(x86)");
    }
    if i == 0 {
        "(64-bit)"
    } else if i == 1 {
        "(32-bit)"
    } else if i == 2 {
        "(64 bit)"
    } else if i == 3 {
        "(32 bit)"
    } else if i == 4 {
        "(incompatible)"
    } else if i == 5 {
        "(compatible)"
    } else if i == 6 {
        "(x64)"
    } else {
        "(x86)"
    }
}

/// Whether `pat` occurs in `s` at position `i`.
fn occurs_at(s: &Vec<char>, i: usize, pat: &Vec<char>) -> (b: bool)
    requires
        i <= s.len(),
    ensures
        b == (pat.len() <= s.len() - i && s@.subrange(i as int, i + pat.len()) == pat@),
{
    if pat.len() > s.len() - i {
        return false;
    }
    let mut k: usize = 0;
    while k < pat.len()
        invariant
            i + pat.len() <= s.len(),
            k <= pat.len(),
            forall|j: int| 0 <= j < k ==> s@[i + j] == pat@[j],
        decreases pat.len() - k,
    {
        if s[i + k] != pat[k] {
            proof {
                assert(s@.subrange(i as int, i + pat.len())[k as int] != pat@[k as int]);
            }
            return false;
        }
        k = k + 1;
    }
    proof {
        assert(s@.subrange(i as int, i + pat.len()) =~= pat@);
    }
    true
}

/// `s` with every occurrence of `pat` removed.
fn remove_occurrences(s: &Vec<char>, pat: &Vec<char>) -> (r: Vec<char>)
    requires
        pat.len() > 0,
    ensures
        r@ == remove_all(s@, pat@),
{
    let mut out: Vec<char> = Vec::new();
    let mut i: usize = 0;
    proof {
        assert(s@.skip(0) =~= s@);
        assert(out@ + remove_all(s@, pat@) =~= remove_all(s@, pat@));
    }
    while i < s.len()
        invariant
            pat.len() > 0,
            i <= s.len(),
            out@ + remove_all(s@.skip(i as int), pat@) == remove_all(s@, pat@),
        decreases s.len() - i,
    {
        let rest = Ghost(s@.skip(i as int));
        if occurs_at(s, i, pat) {
            proof {
                assert(rest@.take(pat.len() as int) =~= s@.subrange(i as int, i + pat.len()));
                assert(rest@.skip(pat.len() as int) =~= s@.skip(i + pat.len()));
            }
            i = i + pat.len();
        } else {
            proof {
                if rest@.len() >= pat.len() {
                    assert(rest@.take(pat.len() as int) =~= s@.subrange(i as int, i + pat.len()));
                }
                assert(rest@.skip(1) =~= s@.skip(i + 1));
                assert(out@.push(s@[i as int]) + remove_all(s@.skip(i + 1), pat@) =~= out@ + (
                seq![rest@[0]] + remove_all(rest@.skip(1), pat@)));
            }
            out.push(s[i]);
            i = i + 1;
        }
    }
    proof {
        assert(s@.skip(i as int).len() == 0);
        assert(out@ + s@.skip(i as int) =~= out@);
    }
    out
}

/// `s` with its whitespace runs squeezed to single spaces and its ends
/// trimmed.
fn collapse(s: &Vec<char>) -> (r: Vec<char>)
    ensures
        r@ == collapse_whitespace(s@),
{
    let mut out: Vec<char> = Vec::new();
    let mut gap = false;
    let mut i: usize = 0;
    proof {
        assert(s@.skip(0) =~= s@);
    }
    while i < s.len()
        invariant
            i <= s.len(),
            squeeze(s@.skip(i as int), out@, gap) == collapse_whitespace(s@),
        decreases s.len() - i,
    {
        let c = s[i];
        proof {
            assert(s@.skip(i as int)[0] == c);
            assert(s@.skip(i as int).skip(1) =~= s@.skip(i + 1));
        }
        if is_whitespace(c) {
            gap = true;
        } else {
            if gap && out.len() > 0 {
                out.push(' ');
            }
            out.push(c);
            gap = false;
        }
        i = i + 1;
    }
    out
}

/// Cleans up a device name: removes the legacy bitness and compatibility
/// markers, then squeezes each run of whitespace to one space and trims both
/// ends.
pub fn clean_device_name(name: &str) -> (r: String)
    ensures
        r@ == collapse_whitespace(strip_markers(name@)),
        is_squeezed(r@),
{
    proof {
        lemma_collapsed_is_squeezed(strip_markers(name@));
    }
    let mut clean = str_chars(name);
    let mut i: usize = 0;
    while i < 8
        invariant
            i <= 8,
            strip_markers_from(clean@, i as int) == strip_markers(name@),
        decreases 8 - i,
    {
        let m = str_chars(marker_text(i));
        clean = remove_occurrences(&clean, &m);
        i = i + 1;
    }
    let collapsed = collapse(&clean);
    string_from_chars(&collapsed)
}

/// The bitness of a DLL image from the machine type in its PE header: i386
/// is 32-bit, AMD64 and ARM64 are 64-bit; anything else, or an image without
/// a DOS header and a `PE\0\0` signature where the DOS header points, has
/// none.
pub open spec fn image_bitness(image: Seq<u8>) -> Option<u8> {
    let off = pe_header_offset(image);
    if !has_dos_header(image) || off + 6 > image.len() {
        None
    } else if image[off] != 0x50 || image[off + 1] != 0x45 || image[off + 2] != 0 || image[off
        + 3] != 0 {
        None
    } else if le16(image, off + 4) == 0x014c {
        Some(32u8)
    } else if le16(image, off + 4) == 0x8664 || le16(image, off + 4) == 0xAA64 {
        Some(64u8)
    } else {
        None
    }
}

/// Determines the bitness of a DLL from the bytes of its file, read from
/// the start.
pub fn dll_bitness(image: &[u8]) -> (r: Option<u8>)
    ensures
        r == image_bitness(image@),
{
    if image.len() < 64 || image[0] != 0x4D || image[1] != 0x5A {
        return None;
    }
    let off: u32 = read_pe_header_offset(image);
    if (image.len() as u64) < off as u64 + 6 {
        return None;
    }
    let o: usize = off as usize;
    if image[o] != 0x50 || image[o + 1] != 0x45 || image[o + 2] != 0 || image[o + 3] != 0 {
        return None;
    }
    let lo: u16 = image[o + 4] as u16;
    let hi: u16 = image[o + 5] as u16;
    let machine: u16 = lo + 256 * hi;
    if machine == 0x014c {
        Some(32)
    } else if machine == 0x8664 || machine == 0xAA64 {
        Some(64)
    } else {
        None
    }
}

/// A DLL has bitness 32 or 64 or none; and a DLL whose full `PE\0\0`
/// signature is in place and that is compatible with a process of
/// `pointer_bits`-bit pointers has exactly that bitness, so the bridge that
/// the bitness selects is one that can load it.
pub proof fn lemma_bitness_agrees_with_compatibility(image: Seq<u8>, pointer_bits: int)
    requires
        pointer_bits == 32 || pointer_bits == 64,
    ensures
        image_bitness(image) matches Some(b) ==> b == 32 || b == 64,
        image_compatible(image, pointer_bits) && image[pe_header_offset(image) + 2] == 0
            && image[pe_header_offset(image) + 3] == 0 ==> image_bitness(image) == Some(
            pointer_bits as u8,
        ),
{
}

/// The bitness of this process: the width of its pointers.
pub fn process_bitness() -> (b: u8)
    ensures
        b as int == usize::BITS,
{
    if usize::BITS == 64 {
        64
    } else {
        32
    }
}

/// A J2534 device with the bitness of its DLL.
#[derive(Debug, Clone)]
pub struct J2534DeviceExt {
    pub name: String,
    pub vendor: String,
    pub dll_path: String,
    pub can_iso15765: bool,
    pub can_iso11898: bool,
    pub compatible: bool,
    /// 32 or 64.
    pub bitness: u8,
    /// Whether the DLL has the bitness of this process; it is loaded in a
    /// bridge process all the same.
    pub native: bool,
}

/// Adds the bitness to a registered device: the bitness of its DLL, or that
/// of this process when the DLL's cannot be told. Every device counts as
/// compatible, since a bridge of the right bitness loads it; the name is
/// cleaned of legacy markers.
pub fn extend_device(d: J2534Device, dll_bits: Option<u8>, process_bits: u8) -> (r:
    J2534DeviceExt)
    ensures
        r.name@ == collapse_whitespace(strip_markers(d.name@)),
        r.vendor@ == d.vendor@,
        r.dll_path@ == d.dll_path@,
        r.can_iso15765 == d.can_iso15765,
        r.can_iso11898 == d.can_iso11898,
        r.compatible,
        r.bitness == (match dll_bits {
            Some(b) => b,
            None => process_bits,
        }),
        r.native == (r.bitness == process_bits),
{
    let bitness = match dll_bits {
        Some(b) => b,
        None => process_bits,
    };
    let name = clean_device_name(d.name.as_str());
    J2534DeviceExt {
        name,
        vendor: d.vendor,
        dll_path: d.dll_path,
        can_iso15765: d.can_iso15765,
        can_iso11898: d.can_iso11898,
        compatible: true,
        bitness,
        native: bitness == process_bits,
    }
}

/// The progress message shown while the bridge for a DLL starts.
pub open spec fn bridge_start_text(bits: u8) -> Seq<char> {
    "Starting "@ + decimal(bits as nat) + "-bit bridge process"@
}

/// Builds the progress message shown while the bridge for a DLL of the given
/// bitness starts.
pub fn bridge_start_message(bits: u8) -> (r: String)
    ensures
        r@ == bridge_start_text(bits),
{
    let mut s = String::from_str("Starting ");
    push_decimal(&mut s, bits as u64);
    push_str(&mut s, "-bit bridge process");
    s
}

/// The error of a reply whose data is not of the kind the request asks for.
pub open spec fn unexpected_text() -> Seq<char> {
    "Unexpected response type"@
}

fn unexpected() -> (e: String)
    ensures
        e@ == unexpected_text(),
{
    String::from_str("Unexpected response type")
}

/// Whether a response reports success.
pub open spec fn is_success(r: Response) -> bool {
    r is Success
}

/// The message of a failure response.
pub open spec fn failure_text(r: Response) -> Seq<char> {
    match r {
        Response::Error { message, .. } => message@,
        _ => Seq::empty(),
    }
}

/// A reply counts as a success exactly when the bridge sent `ok`; a failed
/// reply is answered with the bridge's own message, whatever its code; and a
/// successful reply of the wrong kind is answered `Unexpected response type`.
pub proof fn lemma_failure_is_bridge_message(resp: Response)
    ensures
        is_success(resp) <==> resp is Success,
        resp matches Response::Error { message, .. } ==> failure_text(resp) == message@,
        unexpected_text() == "Unexpected response type"@,
{
}

/// The result of a request without data: success whatever data came back,
/// or the bridge's message.
pub fn expect_done(resp: Response) -> (r: Result<(), String>)
    ensures
        r is Ok <==> is_success(resp),
        r matches Err(e) ==> e@ == failure_text(resp),
{
    match resp {
        Response::Success { .. } => Ok(()),
        Response::Error { message, .. } => Err(message),
    }
}

/// The frame that a bridge frame stands for.
pub open spec fn bridge_frame(m: bridge_client::CanMessage) -> CanFrame {
    CanFrame { timestamp_us: m.timestamp_us, arb_id: m.arb_id, extended: m.extended, data: m.data@ }
}

/// The frames of a `Messages` reply are the bridge's frames, one for one
/// and in order, each with the timestamp, arbitration ID, extended flag and
/// data that the bridge sent.
pub proof fn lemma_reply_frames_kept(msgs: Seq<bridge_client::CanMessage>)
    ensures
        msgs.map_values(|m: bridge_client::CanMessage| bridge_frame(m)).len() == msgs.len(),
        forall|i: int|
            0 <= i < msgs.len() ==> {
                let f = msgs.map_values(|m: bridge_client::CanMessage| bridge_frame(m))[i];
                &&& f.timestamp_us == (#[trigger] msgs[i]).timestamp_us
                &&& f.arb_id == msgs[i].arb_id
                &&& f.extended == msgs[i].extended
                &&& f.data == msgs[i].data@
            },
{
}

/// The result of a read: the frames of a `Messages` reply, no frames for
/// any other successful reply, or the bridge's message.
pub fn expect_messages(resp: Response) -> (r: Result<Vec<CANMessage>, String>)
    ensures
        r is Ok <==> is_success(resp),
        r matches Err(e) ==> e@ == failure_text(resp),
        r matches Ok(v) ==> match resp {
            Response::Success { data: ResponseData::Messages(msgs) } => v@.map_values(
                |m: CANMessage| m@,
            ) == msgs@.map_values(|m: bridge_client::CanMessage| bridge_frame(m)),
            _ => v@.len() == 0,
        },
        r matches Ok(v) ==> match resp {
            Response::Success { data: ResponseData::Messages(msgs) } => {
                &&& v@.len() == msgs@.len()
                &&& forall|i: int|
                    0 <= i < v@.len() ==> {
                        &&& (#[trigger] v@[i]).timestamp_us == msgs@[i].timestamp_us
                        &&& v@[i].arb_id == msgs@[i].arb_id
                        &&& v@[i].extended == msgs@[i].extended
                        &&& v@[i].data@ == msgs@[i].data@
                    }
            },
            _ => true,
        },
{
    match resp {
        Response::Success { data: ResponseData::Messages(msgs) } => {
            let ghost src = msgs@.map_values(|m: bridge_client::CanMessage| bridge_frame(m));
            let mut out: Vec<CANMessage> = Vec::new();
            let mut rest = msgs;
            let mut taken: Vec<bridge_client::CanMessage> = Vec::new();
            let mut i: usize = 0;
            let n = rest.len();
            while i < n
                invariant
                    n == src.len(),
                    i <= n,
                    rest@.len() == n,
                    src == rest@.map_values(|m: bridge_client::CanMessage| bridge_frame(m)),
                    out@.map_values(|m: CANMessage| m@) == src.take(i as int),
                decreases n - i,
            {
                let m = &rest[i];
                let mut data: Vec<u8> = Vec::new();
                let mut k: usize = 0;
                while k < m.data.len()
                    invariant
                        k <= m.data@.len(),
                        data@ == m.data@.take(k as int),
                    decreases m.data.len() - k,
                {
                    data.push(m.data[k]);
                    k = k + 1;
                    proof {
                        assert(data@ =~= m.data@.take(k as int));
                    }
                }
                proof {
                    assert(m.data@.take(m.data@.len() as int) =~= m.data@);
                }
                let ghost before = out@.map_values(|m: CANMessage| m@);
                out.push(
                    CANMessage {
                        timestamp_us: m.timestamp_us,
                        arb_id: m.arb_id,
                        extended: m.extended,
                        data,
                    },
                );
                proof {
                    assert(src[i as int] == bridge_frame(rest@[i as int]));
                    assert(out@.map_values(|m: CANMessage| m@) =~= before.push(src[i as int]));
                    assert(src.take(i + 1) =~= src.take(i as int).push(src[i as int]));
                }
                i = i + 1;
            }
            proof {
                assert(src.take(n as int) =~= src);
                lemma_reply_frames_kept(rest@);
                assert forall|i: int| 0 <= i < out@.len() implies {
                    &&& (#[trigger] out@[i]).timestamp_us == rest@[i].timestamp_us
                    &&& out@[i].arb_id == rest@[i].arb_id
                    &&& out@[i].extended == rest@[i].extended
                    &&& out@[i].data@ == rest@[i].data@
                } by {
                    assert(out@.map_values(|m: CANMessage| m@)[i] == out@[i]@);
                }
            }
            Ok(out)
        },
        Response::Success { .. } => Ok(Vec::new()),
        Response::Error { message, .. } => Err(message),
    }
}

/// The result of reading the version: the strings of a `Version` reply,
/// `Unexpected response type` for any other successful reply, or the
/// bridge's message.
pub fn expect_version(resp: Response) -> (r: Result<J2534VersionInfo, String>)
    ensures
        r is Ok <==> resp matches Response::Success { data: ResponseData::Version(_) },
        r matches Ok(v) ==> resp matches Response::Success { data: ResponseData::Version(w) }
            && v.firmware_version@ == w.firmware_version@ && v.dll_version@ == w.dll_version@
            && v.api_version@ == w.api_version@,
        r matches Err(e) ==> e@ == (if is_success(resp) {
            unexpected_text()
        } else {
            failure_text(resp)
        }),
{
    match resp {
        Response::Success { data: ResponseData::Version(v) } => Ok(
            J2534VersionInfo {
                firmware_version: v.firmware_version,
                dll_version: v.dll_version,
                api_version: v.api_version,
            },
        ),
        Response::Success { .. } => Err(unexpected()),
        Response::Error { message, .. } => Err(message),
    }
}

/// The result of asking for the last error: the text of a `String` reply,
/// an empty text for any other successful reply, or the bridge's message.
pub fn expect_text(resp: Response) -> (r: Result<String, String>)
    ensures
        r is Ok <==> is_success(resp),
        r matches Ok(t) ==> t@ == (match resp {
            Response::Success { data: ResponseData::String(s) } => s@,
            _ => Seq::empty(),
        }),
        r matches Err(e) ==> e@ == failure_text(resp),
{
    match resp {
        Response::Success { data: ResponseData::String(s) } => Ok(s),
        Response::Success { .. } => Ok(String::new()),
        Response::Error { message, .. } => Err(message),
    }
}

/// The result of reading a voltage: the bits of the double of a `Float`
/// reply, `Unexpected response type` for any other successful reply, or the
/// bridge's message.
pub fn expect_float_bits(resp: Response) -> (r: Result<u64, String>)
    ensures
        r is Ok <==> resp matches Response::Success { data: ResponseData::Float(_) },
        r matches Ok(v) ==> resp == (Response::Success { data: ResponseData::Float(v) }),
        r matches Err(e) ==> e@ == (if is_success(resp) {
            unexpected_text()
        } else {
            failure_text(resp)
        }),
{
    match resp {
        Response::Success { data: ResponseData::Float(v) } => Ok(v),
        Response::Success { .. } => Err(unexpected()),
        Response::Error { message, .. } => Err(message),
    }
}

/// The result of a request for a number: the number of a `Number` reply,
/// `Unexpected response type` for any other successful reply, or the
/// bridge's message.
pub fn expect_number(resp: Response) -> (r: Result<u32, String>)
    ensures
        r is Ok <==> resp matches Response::Success { data: ResponseData::Number(_) },
        r matches Ok(v) ==> resp == (Response::Success { data: ResponseData::Number(v) }),
        r matches Err(e) ==> e@ == (if is_success(resp) {
            unexpected_text()
        } else {
            failure_text(resp)
        }),
{
    match resp {
        Response::Success { data: ResponseData::Number(v) } => Ok(v),
        Response::Success { .. } => Err(unexpected()),
        Response::Error { message, .. } => Err(message),
    }
}

/// The result of a request for a truth value: the value of a `Bool` reply,
/// `Unexpected response type` for any other successful reply, or the
/// bridge's message.
pub fn expect_bool(resp: Response) -> (r: Result<bool, String>)
    ensures
        r is Ok <==> resp matches Response::Success { data: ResponseData::Bool(_) },
        r matches Ok(v) ==> resp == (Response::Success { data: ResponseData::Bool(v) }),
        r matches Err(e) ==> e@ == (if is_success(resp) {
            unexpected_text()
        } else {
            failure_text(resp)
        }),
{
    match resp {
        Response::Success { data: ResponseData::Bool(v) } => Ok(v),
        Response::Success { .. } => Err(unexpected()),
        Response::Error { message, .. } => Err(message),
    }
}

/// The protocol name of a J2534 filter type.
pub open spec fn filter_type_text(filter_type: u32) -> Option<Seq<char>> {
    if filter_type == 1 {
        Some("pass"@)
    } else if filter_type == 2 {
        Some("block"@)
    } else if filter_type == 3 {
        Some("flow_control"@)
    } else {
        None
    }
}

/// Gets the protocol name of a J2534 filter type: `pass`, `block` or
/// `flow_control`; any other type is refused.
pub fn filter_type_name(filter_type: u32) -> (r: Result<&'static str, String>)
    ensures
        r is Ok <==> filter_type_text(filter_type) is Some,
        r matches Ok(n) ==> filter_type_text(filter_type) == Some(n@),
        r matches Err(e) ==> e@ == "Invalid filter type"@,
{
    if filter_type == 1 {
        Ok("pass")
    } else if filter_type == 2 {
        Ok("block")
    } else if filter_type == 3 {
        Ok("flow_control")
    } else {
        Err(String::from_str("Invalid filter type"))
    }
}

/// A filter type and its protocol name stand for each other: the front end's
/// names, read as J2534 filter types, are named back the same way, and each
/// named filter type reads back as itself.
pub proof fn lemma_filter_names_roundtrip(filter_type: u32, name: Seq<char>)
    ensures
        crate::commands::filter_type_code(name) == Some(filter_type) ==> filter_type_text(
            filter_type,
        ) == Some(name),
        filter_type_text(filter_type) == Some(name) ==> crate::commands::filter_type_code(name)
            == Some(filter_type),
{
    reveal_strlit("pass");
    reveal_strlit("block");
    reveal_strlit("flow_control");
    assert("pass"@ != "block"@) by {
        assert("pass"@.len() != "block"@.len());
    }
    assert("pass"@ != "flow_control"@) by {
        assert("pass"@.len() != "flow_control"@.len());
    }
    assert("block"@ != "flow_control"@) by {
        assert("block"@.len() != "flow_control"@.len());
    }
}

/// Builds the request that adds a message filter, or refuses an unknown
/// filter type before anything is sent.
pub fn add_filter_request(filter_type: u32, mask: &[u8], pattern: &[u8], extended: bool) -> (r:
    Result<Request, String>)
    ensures
        r is Ok <==> filter_type_text(filter_type) is Some,
        r matches Ok(req) ==> req matches Request::AddFilter { filter_type: ft, mask: m, pattern: p, extended: x }
            && Some(ft@) == filter_type_text(filter_type) && m@ == mask@ && p@ == pattern@
            && x == extended,
        r matches Err(e) ==> e@ == "Invalid filter type"@,
{
    let name = filter_type_name(filter_type)?;
    Ok(
        Request::AddFilter {
            filter_type: String::from_str(name),
            mask: vstd::slice::slice_to_vec(mask),
            pattern: vstd::slice::slice_to_vec(pattern),
            extended,
        },
    )
}

} // verus!
