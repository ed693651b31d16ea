use vstd::prelude::*;
use vstd::string::StringSliceAdditionalSpecFns;
use crate::text::{decimal_digits, decimal_string, decimal_text, push_decimal_bytes};

verus! {

/// Which way captured bytes travelled.
pub enum Direction {
    Request,
    Response,
}

impl Direction {
    /// The direction as it is written into a capture comment.
    pub fn as_str(&self) -> (s: &'static str)
        ensures
            s@ == match self {
                Direction::Request => "req"@,
                Direction::Response => "resp"@,
            },
    {
        match self {
            Direction::Request => "req",
            Direction::Response => "resp",
        }
    }
}

/// The `n` low bytes of `x`, least significant first (what `to_le_bytes` writes
/// for an `n`-byte integer holding `x` modulo `256^n`).
pub open spec fn le_bytes(x: nat, n: nat) -> Seq<u8>
    decreases n,
{
    if n == 0 {
        Seq::empty()
    } else {
        seq![(x % 256) as u8] + le_bytes(x / 256, (n - 1) as nat)
    }
}

/// `n` zero bytes.
pub open spec fn zeros(n: nat) -> Seq<u8> {
    Seq::new(n, |i: int| 0u8)
}

/// The pcapng Section Header Block: little-endian, version 1.0, section length
/// unknown (-1), 28 bytes long.
pub open spec fn section_header_block() -> Seq<u8> {
    le_bytes(0x0A0D0D0A, 4) + le_bytes(28, 4) + le_bytes(0x1A2B3C4D, 4) + le_bytes(1, 2)
        + le_bytes(0, 2) + le_bytes(0xFFFF_FFFF_FFFF_FFFF, 8) + le_bytes(28, 4)
}

/// The pcapng Interface Description Block: link type 147 (user-defined), no snap
/// length limit, 20 bytes long.
pub open spec fn interface_description_block() -> Seq<u8> {
    le_bytes(1, 4) + le_bytes(20, 4) + le_bytes(147, 2) + le_bytes(0, 2) + le_bytes(0, 4)
        + le_bytes(20, 4)
}

/// The bytes needed to pad `len` up to a multiple of four.
pub open spec fn pad_to_four(len: nat) -> nat {
    ((4 - len % 4) % 4) as nat
}

/// The comment attached to each captured packet: `"<direction> conn=<id>"`.
pub open spec fn packet_comment(direction: Seq<u8>, connection_id: u64) -> Seq<u8> {
    direction + seq![32u8, 99u8, 111u8, 110u8, 110u8, 61u8] + decimal_digits(connection_id as nat)
}

/// The total length field of an Enhanced Packet Block (before its truncation to 32
/// bits, which `le_bytes(.., 4)` performs).
pub open spec fn packet_block_len(data_len: nat, comment_len: nat) -> nat {
    32 + data_len + pad_to_four(data_len) + 4 + comment_len + pad_to_four(comment_len) + 4
}

/// A pcapng Enhanced Packet Block carrying `data`, with the timestamp split into
/// its high and low 32 bits, the lengths truncated to 32 bits, the data and the
/// comment option zero-padded to four bytes, and an end-of-options marker.
pub open spec fn enhanced_packet_block(
    interface_id: u32,
    timestamp_us: u64,
    data: Seq<u8>,
    direction: Seq<u8>,
    connection_id: u64,
) -> Seq<u8> {
    let comment = packet_comment(direction, connection_id);
    let total = packet_block_len(data.len(), comment.len());
    le_bytes(6, 4) + le_bytes(total, 4) + le_bytes(interface_id as nat, 4) + le_bytes(
        timestamp_us as nat / 0x1_0000_0000,
        4,
    ) + le_bytes(timestamp_us as nat % 0x1_0000_0000, 4) + le_bytes(data.len(), 4) + le_bytes(
        data.len(),
        4,
    ) + data + zeros(pad_to_four(data.len())) + le_bytes(1, 2) + le_bytes(comment.len(), 2)
        + comment + zeros(pad_to_four(comment.len())) + le_bytes(0, 2) + le_bytes(0, 2) + le_bytes(
        total,
        4,
    )
}

/// Appends the `n` low bytes of `x`, least significant first.
fn push_le(w: &mut Vec<u8>, x: u64, n: usize)
    ensures
        final(w)@ == old(w)@ + le_bytes(x as nat, n as nat),
    decreases n,
{
    if n > 0 {
        w.push((x % 256) as u8);
        push_le(w, x / 256, n - 1);
        assert(le_bytes(x as nat, n as nat) == seq![(x % 256) as u8] + le_bytes(
            (x / 256) as nat,
            (n - 1) as nat,
        ));
    }
}

fn push_zeros(w: &mut Vec<u8>, n: usize)
    ensures
        final(w)@ == old(w)@ + zeros(n as nat),
{
    let mut i: usize = 0;
    while i < n
        invariant
            i <= n,
            w@ == old(w)@ + zeros(i as nat),
        decreases n - i,
    {
        w.push(0u8);
        assert(zeros(i as nat + 1) == zeros(i as nat).push(0u8));
        i = i + 1;
    }
}

fn push_slice(w: &mut Vec<u8>, data: &[u8])
    ensures
        final(w)@ == old(w)@ + data@,
{
    let mut i: usize = 0;
    while i < data.len()
        invariant
            i <= data@.len(),
            w@ == old(w)@ + data@.take(i as int),
        decreases data@.len() - i,
    {
        w.push(data[i]);
        assert(data@.take(i as int + 1) == data@.take(i as int).push(data@[i as int]));
        i = i + 1;
    }
    assert(data@.take(data@.len() as int) == data@);
}

/// Writes the Section Header Block that opens a pcapng file.
pub fn write_shb(w: &mut Vec<u8>)
    ensures
        final(w)@ == old(w)@ + section_header_block(),
{
    let block_type: u32 = 0x0A0D0D0A;
    let total_length: u32 = 28;
    let byte_order_magic: u32 = 0x1A2B3C4D;
    let major_version: u16 = 1;
    let minor_version: u16 = 0;
    let section_length: u64 = 0xFFFF_FFFF_FFFF_FFFF;

    push_le(w, block_type as u64, 4);
    push_le(w, total_length as u64, 4);
    push_le(w, byte_order_magic as u64, 4);
    push_le(w, major_version as u64, 2);
    push_le(w, minor_version as u64, 2);
    push_le(w, section_length, 8);
    push_le(w, total_length as u64, 4);
}

/// Writes the Interface Description Block of the single capture interface.
pub fn write_idb(w: &mut Vec<u8>)
    ensures
        final(w)@ == old(w)@ + interface_description_block(),
{
    let block_type: u32 = 0x00000001;
    let total_length: u32 = 20;
    let link_type: u16 = 147;
    let reserved: u16 = 0;
    let snap_len: u32 = 0;

    push_le(w, block_type as u64, 4);
    push_le(w, total_length as u64, 4);
    push_le(w, link_type as u64, 2);
    push_le(w, reserved as u64, 2);
    push_le(w, snap_len as u64, 4);
    push_le(w, total_length as u64, 4);
}

/// The fixed-size head of an Enhanced Packet Block: type, total length,
/// interface, timestamp halves and the two length fields.
pub open spec fn packet_block_head(
    total: nat,
    interface_id: u32,
    timestamp_us: u64,
    data_len: nat,
) -> Seq<u8> {
    le_bytes(6, 4) + le_bytes(total, 4) + le_bytes(interface_id as nat, 4) + le_bytes(
        timestamp_us as nat / 0x1_0000_0000,
        4,
    ) + le_bytes(timestamp_us as nat % 0x1_0000_0000, 4) + le_bytes(data_len, 4) + le_bytes(
        data_len,
        4,
    )
}

/// The comment option of an Enhanced Packet Block, the end-of-options marker and
/// the trailing total length.
pub open spec fn packet_block_tail(comment: Seq<u8>, total: nat) -> Seq<u8> {
    le_bytes(1, 2) + le_bytes(comment.len(), 2) + comment + zeros(pad_to_four(comment.len()))
        + le_bytes(0, 2) + le_bytes(0, 2) + le_bytes(total, 4)
}

pub proof fn lemma_enhanced_packet_block_parts(
    interface_id: u32,
    timestamp_us: u64,
    data: Seq<u8>,
    direction: Seq<u8>,
    connection_id: u64,
)
    ensures
        ({
            let comment = packet_comment(direction, connection_id);
            let total = packet_block_len(data.len(), comment.len());
            enhanced_packet_block(interface_id, timestamp_us, data, direction, connection_id)
                == packet_block_head(total, interface_id, timestamp_us, data.len()) + data + zeros(
                pad_to_four(data.len()),
            ) + packet_block_tail(comment, total)
        }),
{
    let comment = packet_comment(direction, connection_id);
    let total = packet_block_len(data.len(), comment.len());
    let head = packet_block_head(total, interface_id, timestamp_us, data.len());
    let z = zeros(pad_to_four(data.len()));
    let tail = packet_block_tail(comment, total);
    assert(enhanced_packet_block(interface_id, timestamp_us, data, direction, connection_id)
        =~= head + data + z + tail);
}

fn push_packet_head(
    w: &mut Vec<u8>,
    total: u64,
    interface_id: u32,
    timestamp_us: u64,
    data_len: u64,
)
    ensures
        final(w)@ == old(w)@ + packet_block_head(
            total as nat,
            interface_id,
            timestamp_us,
            data_len as nat,
        ),
{
    let ghost w0 = w@;
    push_le(w, 6, 4);
    push_le(w, total, 4);
    push_le(w, interface_id as u64, 4);
    push_le(w, timestamp_us / 0x1_0000_0000, 4);
    push_le(w, timestamp_us % 0x1_0000_0000, 4);
    push_le(w, data_len, 4);
    push_le(w, data_len, 4);
    assert(w@ =~= w0 + packet_block_head(total as nat, interface_id, timestamp_us, data_len as nat));
}

fn push_packet_tail(w: &mut Vec<u8>, comment: &Vec<u8>, total: u64)
    requires
        comment@.len() <= usize::MAX - 3,
    ensures
        final(w)@ == old(w)@ + packet_block_tail(comment@, total as nat),
{
    let ghost w0 = w@;
    push_le(w, 1, 2);
    push_le(w, comment.len() as u64, 2);
    push_slice(w, comment.as_slice());
    let comment_pad = (4 - (comment.len() % 4)) % 4;
    if comment_pad > 0 {
        push_zeros(w, comment_pad);
    } else {
        assert(zeros(0) =~= Seq::<u8>::empty());
    }
    push_le(w, 0, 2);
    push_le(w, 0, 2);
    push_le(w, total, 4);
    assert(w@ =~= w0 + packet_block_tail(comment@, total as nat));
}

/// Writes one Enhanced Packet Block carrying `data`, commented with its direction
/// and connection.
pub fn write_epb(
    w: &mut Vec<u8>,
    interface_id: u32,
    timestamp_us: u64,
    data: &[u8],
    direction: &str,
    connection_id: u64,
)
    requires
        data@.len() + direction.spec_bytes().len() <= isize::MAX,
    ensures
        final(w)@ == old(w)@ + enhanced_packet_block(
            interface_id,
            timestamp_us,
            data@,
            direction.spec_bytes(),
            connection_id,
        ),
{
    let ghost w0 = w@;
    let captured_len = data.len();
    let pad = (4 - (data.len() % 4)) % 4;
    let padded_data_len = data.len() + pad;

    let mut comment: Vec<u8> = Vec::new();
    push_slice(&mut comment, direction.as_bytes());
    push_slice(&mut comment, " conn=".as_bytes());
    proof {
        broadcast use vstd::string::is_ascii_spec_bytes;

        reveal_strlit(" conn=");
        assert(vstd::string::is_ascii(" conn="));
        assert(" conn=".spec_bytes() =~= seq![32u8, 99u8, 111u8, 110u8, 110u8, 61u8]);
    }
    push_decimal_bytes(&mut comment, connection_id);
    proof {
        crate::text::lemma_u64_decimal_len(connection_id);
        assert(comment@ == packet_comment(direction.spec_bytes(), connection_id));
    }
    let comment_pad = (4 - (comment.len() % 4)) % 4;
    let padded_comment_len = comment.len() + comment_pad;
    let options_len = 4 + padded_comment_len + 4;
    let total_length = 32 + padded_data_len + options_len;
    assert(total_length == packet_block_len(data@.len(), comment@.len()));

    push_packet_head(w, total_length as u64, interface_id, timestamp_us, captured_len as u64);
    let ghost w1 = w@;
    push_slice(w, data);
    if pad > 0 {
        push_zeros(w, pad);
    } else {
        assert(zeros(0) =~= Seq::<u8>::empty());
    }
    let ghost w2 = w@;
    assert(w2 =~= w1 + data@ + zeros(pad_to_four(data@.len())));
    push_packet_tail(w, &comment, total_length as u64);
    proof {
        lemma_enhanced_packet_block_parts(
            interface_id,
            timestamp_us,
            data@,
            direction.spec_bytes(),
            connection_id,
        );
        assert(w@ =~= w0 + enhanced_packet_block(
            interface_id,
            timestamp_us,
            data@,
            direction.spec_bytes(),
            connection_id,
        ));
    }
}

/// The name of a capture file: the turnout's name, the time it was opened (as
/// written by the caller) and its index among the files of this capture.
pub open spec fn capture_file_name_text(turnout: Seq<char>, timestamp: Seq<char>, index: u32) -> Seq<char> {
    "railscale-"@ + turnout + "-"@ + timestamp + "-"@ + decimal_text(index as nat) + ".pcapng"@
}

/// Names a capture file.
pub fn capture_file_name(turnout: &str, timestamp: &str, index: u32) -> (s: String)
    ensures
        s@ == capture_file_name_text(turnout@, timestamp@, index),
{
    let mut s = String::from_str("railscale-");
    s.append(turnout);
    s.append("-");
    s.append(timestamp);
    s.append("-");
    let n = decimal_string(index as u64);
    s.append(n.as_str());
    s.append(".pcapng");
    s
}

/// After how many requests a capture file is closed (at the next response).
pub const REQUESTS_PER_FILE: u32 = 10;

/// Counts the requests written into the current capture file.
pub struct CaptureRotation {
    request_count: u32,
}

/// `a` reads exactly as `b`.
fn same_text(a: &str, b: &str) -> (r: bool)
    ensures
        r == (a.spec_bytes() == b.spec_bytes()),
{
    let x = a.as_bytes();
    let y = b.as_bytes();
    if x.len() != y.len() {
        return false;
    }
    let mut i: usize = 0;
    while i < x.len()
        invariant
            x@ == a.spec_bytes(),
            y@ == b.spec_bytes(),
            x@.len() == y@.len(),
            i <= x@.len(),
            forall|k: int| 0 <= k < i ==> x@[k] == y@[k],
        decreases x@.len() - i,
    {
        if x[i] != y[i] {
            assert(x@[i as int] != y@[i as int]);
            return false;
        }
        i = i + 1;
    }
    assert(x@ =~= y@);
    true
}

impl CaptureRotation {
    pub fn new() -> (r: Self)
        ensures
            r.requests() == 0,
    {
        CaptureRotation { request_count: 0 }
    }

    pub closed spec fn requests(&self) -> u32 {
        self.request_count
    }

    /// The requests written into the current file so far.
    pub fn request_count(&self) -> (n: u32)
        ensures
            n == self.requests(),
    {
        self.request_count
    }

    /// Notes one packet written in `direction`; `true` when the file is to be
    /// closed now (a response after ten or more requests), which starts the count
    /// again.
    pub fn after_packet(&mut self, direction: &str) -> (close: bool)
        requires
            direction.spec_bytes() == "req".spec_bytes() ==> old(self).requests() < u32::MAX,
        ensures
            ({
                let counted = if direction.spec_bytes() == "req".spec_bytes() {
                    old(self).requests() + 1
                } else {
                    old(self).requests() as int
                };
                &&& close == (direction.spec_bytes() == "resp".spec_bytes() && counted >= 10)
                &&& final(self).requests() == if close {
                    0
                } else {
                    counted
                }
            }),
    {
        if same_text(direction, "req") {
            self.request_count = self.request_count + 1;
        }
        if same_text(direction, "resp") && self.request_count >= REQUESTS_PER_FILE {
            self.request_count = 0;
            return true;
        }
        false
    }
}

} // verus!
