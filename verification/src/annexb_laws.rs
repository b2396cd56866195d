//! What splitting a stream into NAL units keeps, however the stream is cut into chunks.
use vstd::prelude::*;

use crate::annexb::{
    code_at, code_width, find_code, first_nal_type, from_first_code, has_nal_type, is_first_code,
    lemma_find_code, lemma_found, short_code_at, split_first,
};

verus! {

/// The bytes `00 00 01` stand right before `h`, so that `h` is where the byte after them is, if there
/// is one.
pub open spec fn code_ends_at(s: Seq<u8>, h: int) -> bool {
    3 <= h <= s.len() && s[h - 3] == 0 && s[h - 2] == 0 && s[h - 1] == 1
}

/// The byte at `h` is the first one behind the first `00 00 01` of `s`.
pub open spec fn follows_first_code(s: Seq<u8>, h: int) -> bool {
    h < s.len() && code_ends_at(s, h) && forall|g: int| g < h ==> !#[trigger] code_ends_at(s, g)
}

/// A start code is found where the bytes `00 00 01` stand, with a zero before them if there is one:
/// the first such place is found, and nothing is found only where there is none.
pub proof fn law_start_codes_are_found(s: Seq<u8>, from: int)
    requires
        0 <= from,
    ensures
        match find_code(s, from) {
            Some(p) => {
                let w = code_width(s, p);
                &&& from <= p
                &&& w == 3 || w == 4 && s[p] == 0
                &&& code_ends_at(s, p + w)
                &&& forall|h: int| from + 3 <= h < p + w ==> !#[trigger] code_ends_at(s, h)
                &&& w == 3 && p > from ==> s[p - 1] != 0
            },
            None => forall|h: int| from + 3 <= h ==> !#[trigger] code_ends_at(s, h),
        },
{
    lemma_find_code(s, from);
    match find_code(s, from) {
        Some(p) => {
            let w = code_width(s, p);
            assert forall|h: int| from + 3 <= h < p + w implies !#[trigger] code_ends_at(s, h) by {
                if code_ends_at(s, h) {
                    assert(short_code_at(s, h - 3));
                    assert(code_at(s, h - 3));
                }
            }
            if w == 3 && p > from && s[p - 1] == 0 {
                assert(code_at(s, p - 1));
            }
        },
        None => {
            assert forall|h: int| from + 3 <= h implies !#[trigger] code_ends_at(s, h) by {
                if code_ends_at(s, h) {
                    assert(short_code_at(s, h - 3));
                    assert(code_at(s, h - 3));
                }
            }
        },
    }
}

/// The type of a NAL unit is the remainder by 32 of the byte behind its start code, and there is no
/// type where there is no such byte.
pub proof fn law_type_is_the_remainder_by_32(s: Seq<u8>)
    ensures
        forall|h: int|
            #[trigger] follows_first_code(s, h) ==> first_nal_type(s) == Some((s[h] % 32) as u8),
        first_nal_type(s) is Some ==> exists|h: int| #[trigger] follows_first_code(s, h),
{
    law_start_codes_are_found(s, 0);
    if let Some(p) = find_code(s, 0) {
        let header = p + code_width(s, p);
        if header < s.len() {
            assert(follows_first_code(s, header));
            let b = s[header];
            assert(b & 0x1f == b % 32) by (bit_vector);
        }
        assert forall|h: int| #[trigger] follows_first_code(s, h) implies h == header by {
            assert(code_ends_at(s, header));
            assert(code_ends_at(s, h));
        }
    } else {
        assert forall|h: int| !#[trigger] follows_first_code(s, h) by {
            assert(!code_ends_at(s, h));
        }
    }
}

/// A type is found in a series of NAL units exactly when, behind some `00 00 01`, there is a byte
/// whose remainder by 32 it is.
pub proof fn law_types_are_found_behind_start_codes(s: Seq<u8>, wanted: u8)
    ensures
        has_nal_type(s, wanted) <==> exists|h: int|
            #[trigger] code_ends_at(s, h) && h < s.len() && s[h] % 32 == wanted,
{
    if has_nal_type(s, wanted) {
        let i = choose|i: int|
            #[trigger] short_code_at(s, i) && i + 3 < s.len() && crate::annexb::type_of_byte(
                s[i + 3],
            ) == wanted;
        let b = s[i + 3];
        assert(b & 0x1f == b % 32) by (bit_vector);
        assert(code_ends_at(s, i + 3));
    }
    if exists|h: int| #[trigger] code_ends_at(s, h) && h < s.len() && s[h] % 32 == wanted {
        let h = choose|h: int|
            #[trigger] code_ends_at(s, h) && h < s.len() && s[h] % 32 == wanted;
        let b = s[h];
        assert(b & 0x1f == b % 32) by (bit_vector);
        assert(short_code_at(s, h - 3));
        assert(s[h - 3 + 3] == b);
    }
}

/// Every complete NAL unit of `b` in order, and the bytes left behind them.
pub open spec fn split_all(b: Seq<u8>) -> (Seq<Seq<u8>>, Seq<u8>)
    decreases b.len(),
{
    match split_first(b) {
        Some((unit, rest)) => {
            proof {
                lemma_split_first(b);
            }
            let (units, left) = split_all(rest);
            (seq![unit] + units, left)
        },
        None => (Seq::empty(), from_first_code(b)),
    }
}

/// The units that come out of a parser that holds `pending`, when the chunks are pushed one after
/// the other and every complete unit is taken out after each push; and what it then holds.
pub open spec fn feed(pending: Seq<u8>, chunks: Seq<Seq<u8>>) -> (Seq<Seq<u8>>, Seq<u8>)
    decreases chunks.len(),
{
    if chunks.len() == 0 {
        (Seq::empty(), pending)
    } else {
        let (units, left) = split_all(pending + chunks.first());
        let (more, end) = feed(left, chunks.drop_first());
        (units + more, end)
    }
}

/// What a first split looks like: it takes at least a start code off the front.
pub proof fn lemma_split_first(b: Seq<u8>)
    ensures
        find_code(b, 0) is Some ==> {
            let c = from_first_code(b);
            &&& find_code(c, 0) == Some(0int)
            &&& is_first_code(c, 0, 0)
            &&& c.len() <= b.len()
        },
        split_first(b) matches Some((unit, rest)) ==> {
            let c = from_first_code(b);
            let n = unit.len() as int;
            &&& is_first_code(c, code_width(c, 0), n)
            &&& 3 <= code_width(c, 0) <= n < c.len()
            &&& unit + rest == c
            &&& unit == c.take(n)
            &&& rest == c.skip(n)
            &&& rest.len() < b.len()
        },
{
    lemma_find_code(b, 0);
    if let Some(p) = find_code(b, 0) {
        let c = b.skip(p);
        assert(code_at(c, 0));
        lemma_found(c, 0, 0);
        lemma_find_code(c, code_width(c, 0));
        if let Some(n) = find_code(c, code_width(c, 0)) {
            assert(c.take(n) + c.skip(n) =~= c);
        }
    }
}

/// Whether a start code stands at a place is decided by the four bytes there.
proof fn lemma_code_is_local(b: Seq<u8>, d: Seq<u8>, j: int)
    ensures
        code_at(b, j) ==> code_at(b + d, j) && code_width(b + d, j) == code_width(b, j),
        j + 4 <= b.len() ==> code_at(b, j) == code_at(b + d, j),
{
    if 0 <= j && j + 3 <= b.len() {
        assert((b + d)[j] == b[j]);
        assert((b + d)[j + 1] == b[j + 1]);
        assert((b + d)[j + 2] == b[j + 2]);
        if j + 4 <= b.len() {
            assert((b + d)[j + 3] == b[j + 3]);
        }
    }
}

/// A start code that was found stays the first one when more bytes arrive.
pub proof fn lemma_find_is_stable(b: Seq<u8>, d: Seq<u8>, from: int)
    ensures
        find_code(b, from) matches Some(p) ==> {
            &&& find_code(b + d, from) == Some(p)
            &&& code_width(b + d, p) == code_width(b, p)
        },
{
    lemma_find_code(b, from);
    if let Some(p) = find_code(b, from) {
        lemma_code_is_local(b, d, p);
        assert forall|j: int| from <= j < p implies !#[trigger] code_at(b + d, j) by {
            assert(!code_at(b, j));
            lemma_code_is_local(b, d, j);
        }
        lemma_found(b + d, from, p);
    }
}

/// A complete unit stays what it is when more bytes arrive.
proof fn lemma_split_first_is_stable(b: Seq<u8>, d: Seq<u8>)
    ensures
        find_code(b, 0) is Some ==> from_first_code(b + d) == from_first_code(b) + d,
        split_first(b) matches Some((unit, rest)) ==> split_first(b + d) == Some((unit, rest + d)),
{
    lemma_find_is_stable(b, d, 0);
    lemma_split_first(b);
    lemma_find_code(b, 0);
    if let Some(p) = find_code(b, 0) {
        let c = b.skip(p);
        assert((b + d).skip(p) =~= c + d);
        lemma_code_is_local(c, d, 0);
        lemma_find_is_stable(c, d, code_width(c, 0));
        lemma_find_code(c, code_width(c, 0));
        if let Some(n) = find_code(c, code_width(c, 0)) {
            assert((c + d).take(n) =~= c.take(n));
            assert((c + d).skip(n) =~= c.skip(n) + d);
        }
    }
}

/// Dropping what precedes the first start code does not change what is split off later.
proof fn lemma_split_ignores_lead(b: Seq<u8>, d: Seq<u8>)
    ensures
        split_all(b + d) == split_all(from_first_code(b) + d),
{
    if find_code(b, 0) is Some {
        let c = from_first_code(b);
        lemma_split_first(b);
        lemma_split_first_is_stable(b, d);
        lemma_split_first_is_stable(c, d);
        assert(c.skip(0) =~= c);
        assert(from_first_code(c) == c);
        assert(from_first_code(b + d) == from_first_code(c + d));
        lemma_find_is_stable(b, d, 0);
        lemma_find_is_stable(c, d, 0);
        assert(split_first(b + d) == split_first(c + d));
    }
}

/// Splitting what has arrived and then what is left together with `d` gives what splitting it all
/// at once gives.
proof fn lemma_split_in_two(b: Seq<u8>, d: Seq<u8>)
    ensures
        split_all(b + d) == ({
            let (units, left) = split_all(b);
            let (more, end) = split_all(left + d);
            (units + more, end)
        }),
    decreases b.len(),
{
    lemma_split_first(b);
    match split_first(b) {
        Some((unit, rest)) => {
            lemma_split_first_is_stable(b, d);
            lemma_split_in_two(rest, d);
            let (units, left) = split_all(rest);
            let (more, end) = split_all(left + d);
            assert(seq![unit] + (units + more) =~= (seq![unit] + units) + more);
        },
        None => {
            lemma_split_ignores_lead(b, d);
            let (more, end) = split_all(from_first_code(b) + d);
            assert(Seq::<Seq<u8>>::empty() + more =~= more);
        },
    }
}

/// Chunking does not matter: whatever chunks a stream arrives in, the units that come out and the
/// bytes left over are those of the whole stream.
pub proof fn law_chunking_does_not_matter(chunks: Seq<Seq<u8>>)
    ensures
        feed(Seq::empty(), chunks) == split_all(chunks.flatten()),
{
    lemma_feed(Seq::empty(), chunks);
    assert(Seq::<u8>::empty() + chunks.flatten() =~= chunks.flatten());
}

/// The same for a parser that already holds bytes in which no unit is complete.
proof fn lemma_feed(pending: Seq<u8>, chunks: Seq<Seq<u8>>)
    requires
        pending.len() == 0 || split_all(pending) == (Seq::<Seq<u8>>::empty(), pending),
    ensures
        feed(pending, chunks) == split_all(pending + chunks.flatten()),
    decreases chunks.len(),
{
    if chunks.len() == 0 {
        assert(pending + chunks.flatten() =~= pending);
        if pending.len() == 0 {
            lemma_split_first(pending);
            lemma_find_code(pending, 0);
        }
    } else {
        let c = chunks.first();
        let tail = chunks.drop_first().flatten();
        let (units, left) = split_all(pending + c);
        lemma_left_is_settled(pending + c);
        lemma_feed(left, chunks.drop_first());
        lemma_split_in_two(pending + c, tail);
        assert((pending + c) + tail =~= pending + chunks.flatten());
    }
}

/// No unit is complete in what is left over.
proof fn lemma_left_is_settled(b: Seq<u8>)
    ensures
        split_all(split_all(b).1) == (Seq::<Seq<u8>>::empty(), split_all(b).1),
    decreases b.len(),
{
    lemma_split_first(b);
    match split_first(b) {
        Some((_, rest)) => lemma_left_is_settled(rest),
        None => {
            let c = from_first_code(b);
            assert(c.skip(0) =~= c);
            assert(split_first(c) is None);
        },
    }
}

/// Taking units one by one until none is complete gives every unit of the buffer in order, and
/// leaves what is left over.
pub proof fn law_units_come_one_by_one(b: Seq<u8>)
    ensures
        match split_first(b) {
            Some((unit, rest)) => {
                &&& split_all(b).0 == seq![unit] + split_all(rest).0
                &&& split_all(b).1 == split_all(rest).1
                &&& rest.len() < b.len()
            },
            None => split_all(b) == (Seq::<Seq<u8>>::empty(), from_first_code(b)),
        },
{
    lemma_split_first(b);
}

/// Nothing is lost and nothing is moved: the units, joined, and the bytes left over are the stream
/// from its first start code on.
pub proof fn law_units_join_to_the_stream(b: Seq<u8>)
    ensures
        split_all(b).0.flatten() + split_all(b).1 == from_first_code(b),
    decreases b.len(),
{
    lemma_split_first(b);
    match split_first(b) {
        Some((unit, rest)) => {
            law_units_join_to_the_stream(rest);
            let (units, left) = split_all(rest);
            let all = seq![unit] + units;
            assert(all.drop_first() =~= units);
            lemma_rest_begins_with_code(b);
            assert(rest.skip(0) =~= rest);
            assert(all.flatten() + left =~= unit + (units.flatten() + left));
        },
        None => {
            assert(split_all(b).0.flatten() + split_all(b).1 =~= from_first_code(b));
        },
    }
}

/// What is behind a complete unit begins with a start code.
pub proof fn lemma_rest_begins_with_code(b: Seq<u8>)
    ensures
        split_first(b) matches Some((_, rest)) ==> is_first_code(rest, 0, 0) && find_code(rest, 0)
            == Some(0int),
{
    lemma_split_first(b);
    if let Some((unit, rest)) = split_first(b) {
        assert(code_at(rest, 0));
        lemma_found(rest, 0, 0);
    }
}

/// Every unit begins with a start code and holds no other one behind it.
pub proof fn law_each_unit_has_one_start_code(b: Seq<u8>, i: int)
    requires
        0 <= i < split_all(b).0.len(),
    ensures
        find_code(split_all(b).0[i], 0) == Some(0int),
        find_code(split_all(b).0[i], code_width(split_all(b).0[i], 0)) is None,
    decreases b.len(),
{
    lemma_split_first(b);
    if let Some((unit, rest)) = split_first(b) {
        if i > 0 {
            law_each_unit_has_one_start_code(rest, i - 1);
            assert(split_all(b).0[i] == split_all(rest).0[i - 1]);
        } else {
            let c = from_first_code(b);
            let n = unit.len() as int;
            assert(unit + rest =~= c);
            lemma_code_is_local(unit, rest, 0);
            assert(code_at(unit, 0)) by {
                assert(code_at(c, 0));
                assert(c[0] == unit[0] && c[1] == unit[1] && c[2] == unit[2]);
                if code_width(c, 0) == 4 {
                    assert(c[3] == unit[3]);
                }
            }
            lemma_found(unit, 0, 0);
            let w = code_width(unit, 0);
            lemma_find_code(unit, w);
            if let Some(q) = find_code(unit, w) {
                lemma_code_is_local(unit, rest, q);
                assert(code_at(c, q));
                assert(q < n);
            }
        }
    }
}

/// Every unit that is handed out begins with `00 00 01` or `00 00 00 01` and holds `00 00 01` nowhere
/// else.
pub proof fn law_units_hold_one_start_code_in_bytes(b: Seq<u8>, i: int)
    requires
        0 <= i < split_all(b).0.len(),
    ensures
        ({
            let unit = split_all(b).0[i];
            ||| code_ends_at(unit, 3) && forall|h: int| #[trigger] code_ends_at(unit, h) ==> h == 3
            ||| unit[0] == 0 && code_ends_at(unit, 4) && forall|h: int| #[trigger]
                code_ends_at(unit, h) ==> h == 4
        }),
{
    let unit = split_all(b).0[i];
    law_each_unit_has_one_start_code(b, i);
    law_start_codes_are_found(unit, 0);
    let w = code_width(unit, 0);
    law_start_codes_are_found(unit, w);
    assert forall|h: int| #[trigger] code_ends_at(unit, h) implies h == w by {
        if h > w && h < w + 3 {
            assert(unit[w - 1] == 1);
            assert(h - 3 <= w - 1 <= h - 1);
            assert(unit[h - 1] == 1);
        }
    }
}

/// No complete unit is held back: what is left over begins with its only start code, or there was no
/// start code at all and nothing was handed out.
pub proof fn law_no_complete_unit_is_held_back(b: Seq<u8>)
    ensures
        ({
            let (units, left) = split_all(b);
            match find_code(left, 0) {
                Some(p) => p == 0 && find_code(left, code_width(left, 0)) is None,
                None => units.len() == 0 && left == b,
            }
        }),
    decreases b.len(),
{
    lemma_split_first(b);
    match split_first(b) {
        Some((unit, rest)) => {
            lemma_rest_begins_with_code(b);
            law_no_complete_unit_is_held_back(rest);
            if find_code(split_all(rest).1, 0) is None {
                assert(split_all(rest).1 == rest);
            }
        },
        None => {
            lemma_find_code(b, 0);
        },
    }
}

/// What is kept of a stream begins with its first start code: with the first `00 00 01`, or with a zero
/// right before that. A stream without one is kept whole.
pub proof fn law_streams_are_kept_from_the_first_code(b: Seq<u8>)
    ensures
        forall|h: int|
            #[trigger] code_ends_at(b, h) && (forall|g: int| g < h ==> !#[trigger] code_ends_at(b, g))
                ==> from_first_code(b) == b.skip(
                if h >= 4 && b[h - 4] == 0 {
                    h - 4
                } else {
                    h - 3
                },
            ),
        (forall|h: int| !#[trigger] code_ends_at(b, h)) ==> from_first_code(b) == b,
{
    law_start_codes_are_found(b, 0);
    if let Some(p) = find_code(b, 0) {
        let w = code_width(b, p);
        assert forall|h: int|
            #[trigger] code_ends_at(b, h) && (forall|g: int| g < h ==> !#[trigger] code_ends_at(b, g))
            implies from_first_code(b) == b.skip(
            if h >= 4 && b[h - 4] == 0 {
                h - 4
            } else {
                h - 3
            },
        ) by {
            assert(code_ends_at(b, p + w));
            assert(h == p + w);
        }
    }
}

} // verus!
