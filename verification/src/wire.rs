//! Big-endian integers and the headers of the wire protocol.
use vstd::arithmetic::power::{lemma_pow0, lemma_pow_positive, pow};
use vstd::prelude::*;

verus! {

/// The version that the stream header announces.
pub const PROTOCOL_VERSION: u16 = 2;

/// The flag in the stream header that says that touch messages are wanted.
pub const STREAM_FLAG_TOUCH: u16 = 1;

/// The length of the stream header.
pub const STREAM_HEADER_SIZE: usize = 20;

/// The length of the header before each access unit.
pub const FRAME_HEADER_SIZE: usize = 24;

/// The bytes `NAMD`, with which a stream begins.
pub open spec fn magic() -> Seq<u8> {
    seq![0x4e, 0x41, 0x4d, 0x44]
}

/// The last `width` base-256 digits of `value`, the most significant first.
pub open spec fn be_bytes(value: nat, width: nat) -> Seq<u8>
    decreases width,
{
    if width == 0 {
        Seq::empty()
    } else {
        be_bytes(value / 256, (width - 1) as nat).push((value % 256) as u8)
    }
}

/// The number whose base-256 digits are `bytes`, the most significant first.
pub open spec fn be_value(bytes: Seq<u8>) -> nat
    decreases bytes.len(),
{
    if bytes.len() == 0 {
        0
    } else {
        be_value(bytes.drop_last()) * 256 + bytes.last() as nat
    }
}

/// A number that fits into `width` bytes is read back as it was written.
pub proof fn law_be_round_trip(value: nat, width: nat)
    requires
        value < pow(256, width),
    ensures
        be_bytes(value, width).len() == width,
        be_value(be_bytes(value, width)) == value,
    decreases width,
{
    if width == 0 {
        lemma_pow0(256);
    } else {
        let less = (width - 1) as nat;
        assert(pow(256, width) == 256 * pow(256, less)) by {
            vstd::arithmetic::power::lemma_pow1(256);
            vstd::arithmetic::power::lemma_pow_adds(256, 1, less);
        }
        lemma_pow_positive(256, less);
        assert(value / 256 < pow(256, less));
        law_be_round_trip(value / 256, less);
        let head = be_bytes(value / 256, less);
        assert(head.push((value % 256) as u8).drop_last() =~= head);
    }
}

/// Bytes count by their place: a byte alone is its own value, and bytes in front of `low` count
/// 256 times for every byte of `low`.
pub proof fn law_bytes_count_by_place(high: Seq<u8>, low: Seq<u8>)
    ensures
        be_value(high + low) == be_value(high) * pow(256, low.len()) + be_value(low),
        low.len() == 1 ==> be_value(low) == low[0],
        low.len() == 2 ==> be_value(low) == low[0] * 256 + low[1],
        low.len() == 4 ==> be_value(low) == low[0] * 0x100_0000 + low[1] * 0x1_0000 + low[2] * 0x100
            + low[3],
    decreases low.len(),
{
    reveal_with_fuel(be_value, 5);
    if low.len() == 0 {
        lemma_pow0(256);
        assert(high + low =~= high);
    } else {
        let less = low.drop_last();
        law_bytes_count_by_place(high, less);
        assert((high + low).drop_last() =~= high + less);
        assert(pow(256, low.len()) == pow(256, less.len()) * 256) by {
            vstd::arithmetic::power::lemma_pow1(256);
            vstd::arithmetic::power::lemma_pow_adds(256, less.len(), 1);
        }
        let h = be_value(high) as int;
        let p = pow(256, less.len());
        assert((h * p) * 256 == h * (p * 256)) by (nonlinear_arith);
        if low.len() == 2 {
            assert(less.drop_last().len() == 0);
        }
        if low.len() == 4 {
            assert(less.drop_last().drop_last().drop_last().len() == 0);
        }
    }
}

/// How many bytes a number takes does not depend on its value.
pub proof fn lemma_be_len(value: nat, width: nat)
    ensures
        be_bytes(value, width).len() == width,
    decreases width,
{
    if width > 0 {
        lemma_be_len(value / 256, (width - 1) as nat);
    }
}

/// Appends the last `width` bytes of `value`, the most significant first.
pub fn push_be(out: &mut Vec<u8>, value: u64, width: usize)
    ensures
        final(out)@ == old(out)@ + be_bytes(value as nat, width as nat),
    decreases width,
{
    if width > 0 {
        push_be(out, value / 256, width - 1);
        out.push((value % 256) as u8);
        assert(out@ =~= old(out)@ + be_bytes(value as nat, width as nat));
    } else {
        assert(out@ =~= old(out)@ + be_bytes(value as nat, width as nat));
    }
}

/// Reads the four bytes at `at` as a big-endian number.
pub fn read_be_u32(bytes: &[u8], at: usize) -> (value: u32)
    requires
        at + 4 <= bytes@.len(),
    ensures
        value == be_value(bytes@.subrange(at as int, at + 4)),
{
    let value: u32 = bytes[at] as u32 * 0x100_0000 + bytes[at + 1] as u32 * 0x1_0000
        + bytes[at + 2] as u32 * 0x100 + bytes[at + 3] as u32;
    proof {
        let s = bytes@.subrange(at as int, at + 4);
        reveal_with_fuel(be_value, 5);
        assert(s.drop_last().drop_last().drop_last().drop_last().len() == 0);
        assert(be_value(s) == ((s[0] * 256 + s[1]) * 256 + s[2]) * 256 + s[3]);
    }
    value
}

/// The stream header: the magic, the version, the flags, the size in pixels and the frame rate in
/// thousandths of a frame per second.
pub open spec fn stream_header_bytes(touch: bool, width: u32, height: u32, fps: nat) -> Seq<u8> {
    magic() + be_bytes(PROTOCOL_VERSION as nat, 2) + be_bytes(
        if touch {
            STREAM_FLAG_TOUCH as nat
        } else {
            0
        },
        2,
    ) + be_bytes(width as nat, 4) + be_bytes(height as nat, 4) + be_bytes(fps * 1000, 4)
}

/// The header of an access unit: its length, its time, its number and whether it holds a key frame.
pub open spec fn frame_header_bytes(length: nat, pts_us: u64, sequence: u64, key: bool) -> Seq<u8> {
    be_bytes(length, 4) + be_bytes(pts_us as nat, 8) + be_bytes(sequence as nat, 8) + be_bytes(
        if key {
            1
        } else {
            0
        },
        4,
    )
}

/// Builds the stream header.
pub fn stream_header(touch: bool, width: u32, height: u32, fps: u32) -> (header: Vec<u8>)
    requires
        fps * 1000 <= u32::MAX,
    ensures
        header@ == stream_header_bytes(touch, width, height, fps as nat),
        header@.len() == STREAM_HEADER_SIZE,
{
    let flags: u16 = if touch {
        STREAM_FLAG_TOUCH
    } else {
        0
    };
    let mut header: Vec<u8> = Vec::with_capacity(STREAM_HEADER_SIZE);
    header.push(0x4e);
    header.push(0x41);
    header.push(0x4d);
    header.push(0x44);
    assert(header@ =~= magic());
    push_be(&mut header, PROTOCOL_VERSION as u64, 2);
    push_be(&mut header, flags as u64, 2);
    push_be(&mut header, width as u64, 4);
    push_be(&mut header, height as u64, 4);
    push_be(&mut header, (fps * 1000) as u64, 4);
    proof {
        law_stream_header_reads_back(touch, width, height, fps);
    }
    header
}

/// Builds the header of an access unit.
pub fn frame_header(length: u32, pts_us: u64, sequence: u64, key: bool) -> (header: Vec<u8>)
    ensures
        header@ == frame_header_bytes(length as nat, pts_us, sequence, key),
        header@.len() == FRAME_HEADER_SIZE,
{
    let flags: u64 = if key {
        1
    } else {
        0
    };
    let mut header: Vec<u8> = Vec::with_capacity(FRAME_HEADER_SIZE);
    push_be(&mut header, length as u64, 4);
    push_be(&mut header, pts_us, 8);
    push_be(&mut header, sequence, 8);
    push_be(&mut header, flags, 4);
    proof {
        law_frame_header_reads_back(length, pts_us, sequence, key);
        assert(header@ =~= frame_header_bytes(length as nat, pts_us, sequence, key));
    }
    header
}

/// Powers of 256 that bound the fields.
pub proof fn lemma_field_bounds()
    ensures
        pow(256, 2) == 0x1_0000,
        pow(256, 4) == 0x1_0000_0000,
        pow(256, 8) == 0x1_0000_0000_0000_0000,
{
    assert(pow(256, 2) == 0x1_0000) by {
        reveal_with_fuel(pow, 3);
    }
    vstd::arithmetic::power::lemma_pow_adds(256, 2, 2);
    vstd::arithmetic::power::lemma_pow_adds(256, 4, 4);
    let four = pow(256, 4);
    assert(four * four == 0x1_0000_0000_0000_0000) by (nonlinear_arith)
        requires
            four == 0x1_0000_0000,
    ;
}

/// A reader of the stream header finds each field where the protocol puts it, with the value that
/// was written.
pub proof fn law_stream_header_reads_back(touch: bool, width: u32, height: u32, fps: u32)
    requires
        fps * 1000 <= u32::MAX,
    ensures
        ({
            let h = stream_header_bytes(touch, width, height, fps as nat);
            &&& h.len() == 20
            &&& h.subrange(0, 4) == seq![0x4eu8, 0x41, 0x4d, 0x44]
            &&& be_value(h.subrange(4, 6)) == 2
            &&& be_value(h.subrange(6, 8)) == if touch {
                1nat
            } else {
                0
            }
            &&& be_value(h.subrange(8, 12)) == width
            &&& be_value(h.subrange(12, 16)) == height
            &&& be_value(h.subrange(16, 20)) == fps * 1000
        }),
{
    let flags: nat = if touch {
        STREAM_FLAG_TOUCH as nat
    } else {
        0
    };
    lemma_field_bounds();
    law_be_round_trip(PROTOCOL_VERSION as nat, 2);
    law_be_round_trip(flags, 2);
    law_be_round_trip(width as nat, 4);
    law_be_round_trip(height as nat, 4);
    law_be_round_trip(fps as nat * 1000, 4);
    let h = stream_header_bytes(touch, width, height, fps as nat);
    assert(h.subrange(0, 4) =~= magic());
    assert(h.subrange(4, 6) =~= be_bytes(PROTOCOL_VERSION as nat, 2));
    assert(h.subrange(6, 8) =~= be_bytes(flags, 2));
    assert(h.subrange(8, 12) =~= be_bytes(width as nat, 4));
    assert(h.subrange(12, 16) =~= be_bytes(height as nat, 4));
    assert(h.subrange(16, 20) =~= be_bytes(fps as nat * 1000, 4));
}

/// A reader of a frame header finds each field where the protocol puts it, with the value that was
/// written.
pub proof fn law_frame_header_reads_back(length: u32, pts_us: u64, sequence: u64, key: bool)
    ensures
        ({
            let h = frame_header_bytes(length as nat, pts_us, sequence, key);
            &&& h.len() == 24
            &&& be_value(h.subrange(0, 4)) == length
            &&& be_value(h.subrange(4, 12)) == pts_us
            &&& be_value(h.subrange(12, 20)) == sequence
            &&& be_value(h.subrange(20, 24)) == if key {
                1nat
            } else {
                0
            }
        }),
{
    let flags: nat = if key {
        1
    } else {
        0
    };
    lemma_field_bounds();
    law_be_round_trip(length as nat, 4);
    law_be_round_trip(pts_us as nat, 8);
    law_be_round_trip(sequence as nat, 8);
    law_be_round_trip(flags, 4);
    let h = frame_header_bytes(length as nat, pts_us, sequence, key);
    assert(h.subrange(0, 4) =~= be_bytes(length as nat, 4));
    assert(h.subrange(4, 12) =~= be_bytes(pts_us as nat, 8));
    assert(h.subrange(12, 20) =~= be_bytes(sequence as nat, 8));
    assert(h.subrange(20, 24) =~= be_bytes(flags, 4));
}

} // verus!
