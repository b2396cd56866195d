//! What forwarding a stream keeps: its bytes, their order, and the numbers and times of the frames.
use vstd::prelude::*;

use crate::access_unit::{
    accepts, consumed, consumes, ends_unit, flushed, frame_carries, header_of, next_pts, no_units,
    sent_before, sent_now, within_limit, AccessUnitsView, Frame, Sent, NAL_ACCESS_UNIT_DELIMITER,
};
use crate::annexb::{
    code_width, find_code, first_nal_type, from_first_code, lemma_find_code, split_first,
};
use crate::annexb_laws::{
    code_ends_at, feed, follows_first_code, law_chunking_does_not_matter,
    law_each_unit_has_one_start_code, law_type_is_the_remainder_by_32,
    law_types_are_found_behind_start_codes, law_units_join_to_the_stream, lemma_find_is_stable,
    lemma_rest_begins_with_code, lemma_split_first, split_all,
};
use crate::wire::{be_value, law_frame_header_reads_back};

verus! {

/// `nal` is an access unit delimiter: the byte behind its start code is 9 modulo 32.
pub open spec fn is_delimiter(nal: Seq<u8>) -> bool {
    exists|h: int| #[trigger] follows_first_code(nal, h) && nal[h] % 32 == 9
}

/// `unit` holds a slice of a key frame: a byte that is 5 modulo 32 behind some start code.
pub open spec fn holds_key_slice(unit: Seq<u8>) -> bool {
    exists|h: int| #[trigger] code_ends_at(unit, h) && h < unit.len() && unit[h] % 32 == 5
}

/// Delimiters are what is taken for one.
proof fn lemma_delimiter(nal: Seq<u8>)
    ensures
        is_delimiter(nal) <==> first_nal_type(nal) == Some(NAL_ACCESS_UNIT_DELIMITER),
{
    law_type_is_the_remainder_by_32(nal);
}

/// What comes of adding NAL units one after the other, the `i`-th after `times[i]`, up to the first
/// that there is no room for: what is then held, what was sent, and whether all of them fitted.
pub open spec fn consume_all(
    a: AccessUnitsView,
    nals: Seq<Seq<u8>>,
    times: Seq<nat>,
) -> (AccessUnitsView, Seq<Sent>, bool)
    decreases nals.len(),
{
    if nals.len() == 0 {
        (a, Seq::empty(), true)
    } else {
        let now = match sent_before(a, nals.first(), times.first()) {
            Some(sent) => seq![sent],
            None => Seq::empty(),
        };
        let b = consumed(a, nals.first(), times.first());
        if accepts(a, nals.first(), times.first()) {
            let (end, later, all) = consume_all(b, nals.drop_first(), times.drop_first());
            (end, now + later, all)
        } else {
            (b, now, false)
        }
    }
}

/// The access units in the order in which they were sent.
pub open spec fn payloads(sent: Seq<Sent>) -> Seq<Seq<u8>> {
    sent.map_values(|s: Sent| s.unit)
}

/// As long as there is room, what was sent and what is still held are the NAL units, joined.
pub proof fn law_payloads_join_to_the_units(
    a: AccessUnitsView,
    nals: Seq<Seq<u8>>,
    times: Seq<nat>,
)
    requires
        times.len() == nals.len(),
        consume_all(a, nals, times).2,
    ensures
        payloads(consume_all(a, nals, times).1).flatten() + consume_all(a, nals, times).0.unit
            == a.unit + nals.flatten(),
    decreases nals.len(),
{
    let (end, sent, _) = consume_all(a, nals, times);
    if nals.len() == 0 {
        assert(payloads(sent) =~= Seq::empty());
        assert(payloads(sent).flatten() + end.unit =~= a.unit + nals.flatten());
    } else {
        let nal = nals.first();
        let b = consumed(a, nal, times.first());
        law_payloads_join_to_the_units(b, nals.drop_first(), times.drop_first());
        let (_, later, _) = consume_all(b, nals.drop_first(), times.drop_first());
        let rest = nals.drop_first().flatten();
        assert(nals.flatten() =~= nal + rest);
        if ends_unit(a, nal) {
            assert(payloads(sent) =~= seq![a.unit] + payloads(later));
            assert((seq![a.unit] + payloads(later)).drop_first() =~= payloads(later));
            assert(payloads(sent).flatten() =~= a.unit + payloads(later).flatten());
            assert(b.unit =~= nal);
            assert(payloads(later).flatten() + end.unit == nal + rest);
            assert(payloads(sent).flatten() + end.unit =~= a.unit + (payloads(later).flatten()
                + end.unit));
        } else {
            assert(sent =~= later);
            assert(b.unit + rest =~= a.unit + (nal + rest));
        }
    }
}

/// Frames are numbered without a gap, from the number that was next.
pub proof fn law_frames_are_numbered_in_order(
    a: AccessUnitsView,
    nals: Seq<Seq<u8>>,
    times: Seq<nat>,
)
    requires
        times.len() == nals.len(),
        a.sequence + nals.len() <= u64::MAX,
    ensures
        ({
            let (end, sent, _) = consume_all(a, nals, times);
            &&& end.sequence == a.sequence + sent.len()
            &&& sent.len() <= nals.len()
            &&& forall|i: int| 0 <= i < sent.len() ==> (#[trigger] sent[i]).sequence == a.sequence
                + i
        }),
    decreases nals.len(),
{
    if nals.len() > 0 {
        let nal = nals.first();
        let b = consumed(a, nal, times.first());
        let (end, sent, _) = consume_all(a, nals, times);
        if accepts(a, nal, times.first()) {
            law_frames_are_numbered_in_order(b, nals.drop_first(), times.drop_first());
            let (_, later, _) = consume_all(b, nals.drop_first(), times.drop_first());
            assert forall|i: int| 0 <= i < sent.len() implies (#[trigger] sent[i]).sequence
                == a.sequence + i by {
                if ends_unit(a, nal) {
                    if i > 0 {
                        assert(sent[i] == later[i - 1]);
                    }
                } else {
                    assert(sent[i] == later[i]);
                }
            }
        }
    }
}

/// Time stamps never go back, and they move on with every frame until the largest one is reached.
pub proof fn law_time_stamps_are_monotonic(
    a: AccessUnitsView,
    nals: Seq<Seq<u8>>,
    times: Seq<nat>,
    i: int,
    j: int,
)
    requires
        times.len() == nals.len(),
        0 <= i < j < consume_all(a, nals, times).1.len(),
    ensures
        ({
            let sent = consume_all(a, nals, times).1;
            &&& sent[i].pts_us <= sent[j].pts_us
            &&& sent[i].pts_us < u64::MAX ==> sent[i].pts_us < sent[j].pts_us
        }),
    decreases nals.len(),
{
    let nal = nals.first();
    let b = consumed(a, nal, times.first());
    let sent = consume_all(a, nals, times).1;
    let later = consume_all(b, nals.drop_first(), times.drop_first()).1;
    if ends_unit(a, nal) {
        assert(sent[j] == later[j - 1]);
        if i == 0 {
            lemma_time_stamps_follow(b, nals.drop_first(), times.drop_first(), j - 1);
        } else {
            assert(sent[i] == later[i - 1]);
            law_time_stamps_are_monotonic(b, nals.drop_first(), times.drop_first(), i - 1, j - 1);
        }
    } else {
        assert(sent =~= later);
        law_time_stamps_are_monotonic(b, nals.drop_first(), times.drop_first(), i, j);
    }
}

/// A frame's time stamp is later than the one given out before it began to be gathered.
proof fn lemma_time_stamps_follow(a: AccessUnitsView, nals: Seq<Seq<u8>>, times: Seq<nat>, j: int)
    requires
        times.len() == nals.len(),
        0 <= j < consume_all(a, nals, times).1.len(),
    ensures
        ({
            let pts = consume_all(a, nals, times).1[j].pts_us;
            &&& a.last_pts <= pts
            &&& a.last_pts < u64::MAX ==> a.last_pts < pts
        }),
    decreases nals.len(),
{
    let nal = nals.first();
    let b = consumed(a, nal, times.first());
    let sent = consume_all(a, nals, times).1;
    let later = consume_all(b, nals.drop_first(), times.drop_first()).1;
    if ends_unit(a, nal) {
        if j > 0 {
            assert(sent[j] == later[j - 1]);
            lemma_time_stamps_follow(b, nals.drop_first(), times.drop_first(), j - 1);
        }
    } else {
        assert(sent =~= later);
        lemma_time_stamps_follow(b, nals.drop_first(), times.drop_first(), j);
    }
}

/// Every access unit but the first begins with a delimiter: each one sent after the first and, once
/// one was sent, the one still held, which is what is sent at the end of the stream. The one still
/// held is never empty then, unless a NAL unit was too long.
pub proof fn law_units_begin_with_a_delimiter(
    a: AccessUnitsView,
    nals: Seq<Seq<u8>>,
    times: Seq<nat>,
)
    requires
        times.len() == nals.len(),
    ensures
        ({
            let (end, sent, all) = consume_all(a, nals, times);
            &&& forall|i: int| 0 < i < sent.len() ==> is_delimiter((#[trigger] sent[i]).unit)
            &&& sent.len() > 0 && end.unit.len() > 0 ==> is_delimiter(end.unit)
            &&& sent.len() > 0 && all ==> end.unit.len() > 0
        }),
{
    lemma_units_begin_with_a_delimiter(a, nals, times);
    let (end, sent, all) = consume_all(a, nals, times);
    assert forall|i: int| 0 < i < sent.len() implies is_delimiter((#[trigger] sent[i]).unit) by {
        lemma_delimiter(sent[i].unit);
    }
    lemma_delimiter(end.unit);
}

/// The same by the types that the units are taken to have.
proof fn lemma_units_begin_with_a_delimiter(
    a: AccessUnitsView,
    nals: Seq<Seq<u8>>,
    times: Seq<nat>,
)
    requires
        times.len() == nals.len(),
    ensures
        ({
            let (end, sent, all) = consume_all(a, nals, times);
            &&& forall|i: int|
                0 < i < sent.len() ==> first_nal_type((#[trigger] sent[i]).unit) == Some(
                    NAL_ACCESS_UNIT_DELIMITER,
                )
            &&& sent.len() > 0 && end.unit.len() > 0 ==> first_nal_type(end.unit) == Some(
                NAL_ACCESS_UNIT_DELIMITER,
            )
            &&& sent.len() > 0 && all ==> end.unit.len() > 0
        }),
    decreases nals.len(),
{
    if nals.len() > 0 {
        let nal = nals.first();
        let b = consumed(a, nal, times.first());
        let (_, sent, _) = consume_all(a, nals, times);
        if accepts(a, nal, times.first()) {
            let (_, later, _) = consume_all(b, nals.drop_first(), times.drop_first());
            if ends_unit(a, nal) {
                assert(b.unit =~= nal);
                lemma_delimiter_stays(b, nals.drop_first(), times.drop_first());
                assert forall|i: int| 0 < i < sent.len() implies first_nal_type(
                    (#[trigger] sent[i]).unit,
                ) == Some(NAL_ACCESS_UNIT_DELIMITER) by {
                    assert(sent[i] == later[i - 1]);
                }
            } else {
                assert(sent =~= later);
                lemma_units_begin_with_a_delimiter(b, nals.drop_first(), times.drop_first());
            }
        }
    }
}

/// Where the unit that is held begins with a delimiter, so does every unit after it.
proof fn lemma_delimiter_stays(a: AccessUnitsView, nals: Seq<Seq<u8>>, times: Seq<nat>)
    requires
        times.len() == nals.len(),
        first_nal_type(a.unit) == Some(NAL_ACCESS_UNIT_DELIMITER),
    ensures
        ({
            let (end, sent, all) = consume_all(a, nals, times);
            &&& forall|i: int|
                0 <= i < sent.len() ==> first_nal_type((#[trigger] sent[i]).unit) == Some(
                    NAL_ACCESS_UNIT_DELIMITER,
                )
            &&& end.unit.len() > 0 ==> first_nal_type(end.unit) == Some(NAL_ACCESS_UNIT_DELIMITER)
            &&& all ==> end.unit.len() > 0
        }),
    decreases nals.len(),
{
    lemma_find_code(a.unit, 0);
    if nals.len() > 0 {
        let nal = nals.first();
        let b = consumed(a, nal, times.first());
        let (_, sent, _) = consume_all(a, nals, times);
        if accepts(a, nal, times.first()) {
            let (_, later, _) = consume_all(b, nals.drop_first(), times.drop_first());
            if ends_unit(a, nal) {
                assert(b.unit =~= nal);
            } else {
                lemma_type_is_stable(a.unit, nal);
            }
            lemma_delimiter_stays(b, nals.drop_first(), times.drop_first());
            assert forall|i: int| 0 <= i < sent.len() implies first_nal_type(
                (#[trigger] sent[i]).unit,
            ) == Some(NAL_ACCESS_UNIT_DELIMITER) by {
                if ends_unit(a, nal) {
                    if i > 0 {
                        assert(sent[i] == later[i - 1]);
                    }
                } else {
                    assert(sent[i] == later[i]);
                }
            }
        }
    }
}

/// The type of the first NAL unit does not change when bytes are added.
proof fn lemma_type_is_stable(b: Seq<u8>, d: Seq<u8>)
    ensures
        first_nal_type(b) is Some ==> first_nal_type(b + d) == first_nal_type(b),
{
    lemma_find_is_stable(b, d, 0);
    lemma_find_code(b, 0);
    if let Some(p) = find_code(b, 0) {
        let header = p + code_width(b, p);
        if header < b.len() {
            assert((b + d)[header] == b[header]);
        }
    }
}

/// The NAL units of a stream that arrived in `chunks` and has ended: those that were complete, and
/// what was left at the end if a start code is in it.
pub open spec fn all_nals(chunks: Seq<Seq<u8>>) -> Seq<Seq<u8>> {
    let (units, left) = feed(Seq::empty(), chunks);
    if find_code(left, 0) is Some {
        units.push(left)
    } else {
        units
    }
}

/// The NAL units of each access unit of a stream, where those in `held` are the first of the first
/// one: a delimiter begins the next access unit.
pub open spec fn grouped(held: Seq<Seq<u8>>, nals: Seq<Seq<u8>>) -> Seq<Seq<Seq<u8>>>
    decreases nals.len(),
{
    if nals.len() == 0 {
        if held.len() == 0 {
            Seq::empty()
        } else {
            seq![held]
        }
    } else if is_delimiter(nals.first()) && held.len() > 0 {
        seq![held] + grouped(seq![nals.first()], nals.drop_first())
    } else {
        grouped(held.push(nals.first()), nals.drop_first())
    }
}

/// The access units of a stream that arrived in `chunks` and has ended, each as its NAL units.
pub open spec fn access_units(chunks: Seq<Seq<u8>>) -> Seq<Seq<Seq<u8>>> {
    grouped(Seq::empty(), all_nals(chunks))
}

/// A delimiter begins an access unit and stands nowhere else in one: the access units of a stream
/// are its NAL units in order, none is without a NAL unit, no NAL unit of one but its first is a
/// delimiter, and the first NAL unit of each but the first access unit is one.
pub proof fn law_delimiters_begin_access_units(chunks: Seq<Seq<u8>>)
    ensures
        access_units(chunks).flatten() == all_nals(chunks),
        forall|g: int|
            0 <= g < access_units(chunks).len() ==> (#[trigger] access_units(chunks)[g]).len() > 0,
        forall|g: int, k: int|
            0 <= g < access_units(chunks).len() && 0 < k < access_units(chunks)[g].len()
                ==> !is_delimiter(#[trigger] access_units(chunks)[g][k]),
        forall|g: int|
            0 < g < access_units(chunks).len() ==> is_delimiter(
                (#[trigger] access_units(chunks)[g])[0],
            ),
{
    lemma_grouped(Seq::empty(), all_nals(chunks));
    assert(Seq::<Seq<u8>>::empty() + all_nals(chunks) =~= all_nals(chunks));
}

/// The same where some NAL units of the first access unit are already there.
proof fn lemma_grouped(held: Seq<Seq<u8>>, nals: Seq<Seq<u8>>)
    requires
        forall|k: int| 0 < k < held.len() ==> !is_delimiter(#[trigger] held[k]),
    ensures
        ({
            let groups = grouped(held, nals);
            &&& groups.flatten() == held + nals
            &&& forall|g: int| 0 <= g < groups.len() ==> (#[trigger] groups[g]).len() > 0
            &&& forall|g: int, k: int|
                0 <= g < groups.len() && 0 < k < groups[g].len() ==> !is_delimiter(
                    #[trigger] groups[g][k],
                )
            &&& forall|g: int| 0 < g < groups.len() ==> is_delimiter((#[trigger] groups[g])[0])
            &&& held.len() > 0 ==> groups.len() > 0 && groups[0][0] == held[0]
        }),
    decreases nals.len(),
{
    let groups = grouped(held, nals);
    if nals.len() == 0 {
        if held.len() == 0 {
            assert(groups.flatten() =~= held + nals);
        } else {
            assert(groups =~= Seq::empty().push(held));
            Seq::<Seq<Seq<u8>>>::empty().lemma_flatten_push(held);
            assert(groups.flatten() =~= held + nals);
        }
    } else {
        let nal = nals.first();
        let rest = nals.drop_first();
        if is_delimiter(nal) && held.len() > 0 {
            let later = grouped(seq![nal], rest);
            lemma_grouped(seq![nal], rest);
            assert(groups.drop_first() =~= later);
            assert(groups.flatten() =~= held + later.flatten());
            assert(held + (seq![nal] + rest) =~= held + nals);
            assert forall|g: int| 0 <= g < groups.len() implies (#[trigger] groups[g]).len() > 0 by {
                if g > 0 {
                    assert(groups[g] == later[g - 1]);
                }
            }
            assert forall|g: int, k: int|
                0 <= g < groups.len() && 0 < k < groups[g].len() implies !is_delimiter(
                #[trigger] groups[g][k],
            ) by {
                if g > 0 {
                    assert(groups[g][k] == later[g - 1][k]);
                }
            }
            assert forall|g: int| 0 < g < groups.len() implies is_delimiter(
                (#[trigger] groups[g])[0],
            ) by {
                assert(groups[g] == later[g - 1]);
            }
        } else {
            assert forall|k: int| 0 < k < held.push(nal).len() implies !is_delimiter(
                #[trigger] held.push(nal)[k],
            ) by {
                if k < held.len() {
                    assert(held.push(nal)[k] == held[k]);
                }
            }
            lemma_grouped(held.push(nal), rest);
            assert(held.push(nal) + rest =~= held + nals);
        }
    }
}

/// Each frame is one access unit of the stream, in order, and no frame is empty. That holds of every
/// frame that is sent before the stream ends; where no access unit is too long, what is then still
/// held, and sent at the end, is the last access unit, so that every one of them is sent.
pub proof fn law_frames_are_the_access_units(chunks: Seq<Seq<u8>>, times: Seq<nat>)
    requires
        times.len() == all_nals(chunks).len(),
    ensures
        ({
            let (end, sent, all) = consume_all(no_units(), all_nals(chunks), times);
            let units = access_units(chunks);
            &&& sent.len() <= units.len()
            &&& forall|i: int|
                0 <= i < sent.len() ==> (#[trigger] sent[i]).unit == units[i].flatten()
                    && sent[i].unit.len() > 0
            &&& all && end.unit.len() > 0 ==> units.len() == sent.len() + 1 && end.unit
                == units.last().flatten()
            &&& all && end.unit.len() == 0 ==> units.len() == 0 && sent.len() == 0
        }),
{
    let nals = all_nals(chunks);
    lemma_no_unit_is_empty(chunks);
    assert(Seq::<Seq<u8>>::empty().flatten() =~= Seq::empty());
    lemma_frames_are_groups(no_units(), Seq::empty(), nals, times);
    law_units_begin_with_a_delimiter(no_units(), nals, times);
}

/// The same where some NAL units of the first access unit are already held.
proof fn lemma_frames_are_groups(
    a: AccessUnitsView,
    held: Seq<Seq<u8>>,
    nals: Seq<Seq<u8>>,
    times: Seq<nat>,
)
    requires
        times.len() == nals.len(),
        a.unit == held.flatten(),
        held.len() > 0 <==> a.unit.len() > 0,
        forall|i: int| 0 <= i < nals.len() ==> (#[trigger] nals[i]).len() > 0,
    ensures
        ({
            let (end, sent, all) = consume_all(a, nals, times);
            let groups = grouped(held, nals);
            &&& sent.len() <= groups.len()
            &&& forall|i: int|
                0 <= i < sent.len() ==> (#[trigger] sent[i]).unit == groups[i].flatten()
                    && sent[i].unit.len() > 0
            &&& all && end.unit.len() > 0 ==> groups.len() == sent.len() + 1 && end.unit
                == groups.last().flatten()
            &&& all && end.unit.len() == 0 ==> groups.len() == sent.len()
        }),
    decreases nals.len(),
{
    let (_, sent, _) = consume_all(a, nals, times);
    let groups = grouped(held, nals);
    if nals.len() > 0 {
        let nal = nals.first();
        assert(nals[0].len() > 0);
        lemma_delimiter(nal);
        let rest = nals.drop_first();
        let b = consumed(a, nal, times.first());
        assert forall|i: int| 0 <= i < rest.len() implies (#[trigger] rest[i]).len() > 0 by {
            assert(rest[i] == nals[i + 1]);
        }
        let next = if ends_unit(a, nal) {
            seq![nal]
        } else {
            held.push(nal)
        };
        if accepts(a, nal, times.first()) {
            if ends_unit(a, nal) {
                assert(next =~= Seq::empty().push(nal));
                Seq::<Seq<u8>>::empty().lemma_flatten_push(nal);
                assert(Seq::<Seq<u8>>::empty().flatten() =~= Seq::empty());
                assert(b.unit =~= next.flatten());
            } else {
                held.lemma_flatten_push(nal);
                assert(b.unit =~= next.flatten());
            }
            lemma_frames_are_groups(b, next, rest, times.drop_first());
            let (_, later, _) = consume_all(b, rest, times.drop_first());
            let more = grouped(next, rest);
            if ends_unit(a, nal) {
                assert forall|i: int| 0 <= i < sent.len() implies (#[trigger] sent[i]).unit
                    == groups[i].flatten() && sent[i].unit.len() > 0 by {
                    if i > 0 {
                        assert(sent[i] == later[i - 1]);
                        assert(groups[i] == more[i - 1]);
                    }
                }
            } else {
                assert(sent =~= later);
            }
        }
    }
}

/// A stream is not split into empty NAL units.
proof fn lemma_no_unit_is_empty(chunks: Seq<Seq<u8>>)
    ensures
        forall|i: int|
            0 <= i < all_nals(chunks).len() ==> (#[trigger] all_nals(chunks)[i]).len() > 0,
{
    law_chunking_does_not_matter(chunks);
    let (units, left) = split_all(chunks.flatten());
    assert forall|i: int| 0 <= i < all_nals(chunks).len() implies (#[trigger] all_nals(
        chunks,
    )[i]).len() > 0 by {
        if i < units.len() {
            law_each_unit_has_one_start_code(chunks.flatten(), i);
            lemma_find_code(units[i], 0);
        } else {
            lemma_find_code(left, 0);
        }
    }
}

/// From the encoder to the peer no byte is lost, added or moved: as long as no access unit is too
/// long, the frames of a stream, the one that is flushed at its end included, carry exactly its
/// bytes from the first start code on, whatever chunks it arrived in and whenever.
pub proof fn law_forwarding_keeps_the_stream(chunks: Seq<Seq<u8>>, times: Seq<nat>)
    requires
        times.len() == all_nals(chunks).len(),
        consume_all(no_units(), all_nals(chunks), times).2,
    ensures
        ({
            let (end, sent, _) = consume_all(no_units(), all_nals(chunks), times);
            let stream = chunks.flatten();
            payloads(sent).flatten() + end.unit == if find_code(stream, 0) is Some {
                from_first_code(stream)
            } else {
                Seq::empty()
            }
        }),
{
    let stream = chunks.flatten();
    let nals = all_nals(chunks);
    law_payloads_join_to_the_units(no_units(), nals, times);
    law_chunking_does_not_matter(chunks);
    law_units_join_to_the_stream(stream);
    let (units, left) = split_all(stream);
    assert(no_units().unit + nals.flatten() =~= nals.flatten());
    lemma_left_has_code(stream);
    if find_code(left, 0) is Some {
        units.lemma_flatten_push(left);
        assert(nals.flatten() == units.flatten() + left);
    } else {
        lemma_split_first(stream);
        assert(units =~= Seq::empty());
    }
}

/// A start code is left over exactly when the stream has one.
proof fn lemma_left_has_code(b: Seq<u8>)
    ensures
        find_code(split_all(b).1, 0) is Some == find_code(b, 0) is Some,
    decreases b.len(),
{
    lemma_split_first(b);
    if let Some((_, rest)) = split_first(b) {
        lemma_rest_begins_with_code(b);
        lemma_left_has_code(rest);
    }
}

/// What is flushed at the end of a stream is the unit still held, under the next number and a time
/// stamp that has not gone back.
pub proof fn law_flush_completes_the_stream(a: AccessUnitsView, elapsed_us: nat)
    ensures
        sent_now(a, elapsed_us).unit == a.unit,
        sent_now(a, elapsed_us).sequence == a.sequence,
        sent_now(a, elapsed_us).pts_us >= a.last_pts,
        a.last_pts < u64::MAX ==> sent_now(a, elapsed_us).pts_us > a.last_pts,
        elapsed_us <= u64::MAX ==> sent_now(a, elapsed_us).pts_us >= elapsed_us,
{
}

/// No frame carries more than an access unit may hold.
pub proof fn law_frames_are_within_the_limit(
    a: AccessUnitsView,
    nals: Seq<Seq<u8>>,
    times: Seq<nat>,
)
    requires
        times.len() == nals.len(),
        within_limit(a),
    ensures
        within_limit(consume_all(a, nals, times).0),
        forall|i: int|
            0 <= i < consume_all(a, nals, times).1.len() ==> (#[trigger] consume_all(
                a,
                nals,
                times,
            ).1[i]).unit.len() <= 16 * 1024 * 1024,
    decreases nals.len(),
{
    if nals.len() > 0 {
        let nal = nals.first();
        let b = consumed(a, nal, times.first());
        let sent = consume_all(a, nals, times).1;
        if accepts(a, nal, times.first()) {
            law_frames_are_within_the_limit(b, nals.drop_first(), times.drop_first());
            let later = consume_all(b, nals.drop_first(), times.drop_first()).1;
            assert forall|i: int| 0 <= i < sent.len() implies (#[trigger] sent[i]).unit.len()
                <= 16 * 1024 * 1024 by {
                if ends_unit(a, nal) {
                    if i > 0 {
                        assert(sent[i] == later[i - 1]);
                    }
                } else {
                    assert(sent[i] == later[i]);
                }
            }
        }
    }
}

/// What goes over the wire for a series of frames: each header with its unit behind it.
pub open spec fn on_the_wire(sent: Seq<Sent>) -> Seq<u8>
    decreases sent.len(),
{
    if sent.len() == 0 {
        Seq::empty()
    } else {
        header_of(sent.first()) + sent.first().unit + on_the_wire(sent.drop_first())
    }
}

/// What the peer makes of bytes that begin with a frame: the unit, the time and the number that it
/// reads, and whether the header says that there is a key frame. `None` where the bytes end within
/// a frame.
pub open spec fn read_frames(bytes: Seq<u8>) -> Option<Seq<(Sent, bool)>>
    decreases bytes.len(),
{
    if bytes.len() == 0 {
        Some(Seq::empty())
    } else if bytes.len() < 24 {
        None
    } else {
        let end = 24 + be_value(bytes.subrange(0, 4)) as int;
        if bytes.len() < end {
            None
        } else {
            let frame = Sent {
                unit: bytes.subrange(24, end),
                pts_us: be_value(bytes.subrange(4, 12)) as u64,
                sequence: be_value(bytes.subrange(12, 20)) as u64,
            };
            let key = be_value(bytes.subrange(20, 24)) == 1;
            match read_frames(bytes.skip(end)) {
                Some(more) => Some(seq![(frame, key)] + more),
                None => None,
            }
        }
    }
}

/// The peer reads exactly the frames that were sent: the units with their boundaries, the times and
/// the numbers, and as key frames those units that hold a slice of one.
pub proof fn law_peer_reads_what_was_sent(sent: Seq<Sent>)
    requires
        forall|i: int| 0 <= i < sent.len() ==> (#[trigger] sent[i]).unit.len() <= u32::MAX,
    ensures
        read_frames(on_the_wire(sent)) == Some(
            sent.map_values(|s: Sent| (s, holds_key_slice(s.unit))),
        ),
    decreases sent.len(),
{
    let told = |s: Sent| (s, holds_key_slice(s.unit));
    let bytes = on_the_wire(sent);
    if sent.len() == 0 {
        assert(sent.map_values(told) =~= Seq::empty());
    } else {
        let s = sent.first();
        assert(sent[0].unit.len() <= u32::MAX);
        let rest = sent.drop_first();
        assert forall|i: int| 0 <= i < rest.len() implies (#[trigger] rest[i]).unit.len()
            <= u32::MAX by {
            assert(rest[i] == sent[i + 1]);
        }
        law_peer_reads_what_was_sent(rest);
        let key = holds_key_slice(s.unit);
        let h = header_of(s);
        law_types_are_found_behind_start_codes(s.unit, 5);
        law_frame_header_reads_back(s.unit.len() as u32, s.pts_us, s.sequence, key);
        assert(bytes.subrange(0, 4) =~= h.subrange(0, 4));
        assert(bytes.subrange(4, 12) =~= h.subrange(4, 12));
        assert(bytes.subrange(12, 20) =~= h.subrange(12, 20));
        assert(bytes.subrange(20, 24) =~= h.subrange(20, 24));
        let end = 24 + s.unit.len();
        assert(bytes.subrange(24, end as int) =~= s.unit);
        assert(bytes.skip(end as int) =~= on_the_wire(rest));
        assert(seq![(s, key)] + rest.map_values(told) =~= sent.map_values(told));
    }
}

/// `pts` is the time stamp of a frame that is sent after `elapsed_us` and after a frame with the time
/// stamp `last`: the measured time where it is later, else the next one after `last`. The largest
/// number stands for any later time.
pub open spec fn is_time_stamp(pts: nat, elapsed_us: nat, last: u64) -> bool {
    &&& last < elapsed_us <= u64::MAX ==> pts == elapsed_us
    &&& elapsed_us <= last < u64::MAX ==> pts == last + 1
    &&& elapsed_us > u64::MAX || last == u64::MAX ==> pts == u64::MAX
}

/// Time stamps are measured times: the time since the stream began in microseconds, moved on by one
/// only where the clock has not moved.
pub proof fn law_time_stamps_are_measured(elapsed_us: nat, last: u64)
    ensures
        is_time_stamp(next_pts(elapsed_us, last) as nat, elapsed_us, last),
{
}

/// `frame` carries `unit` behind a header of 24 bytes: the length of the unit, a time stamp for
/// `elapsed_us` after `last`, the number, and whether the unit holds a slice of a key frame.
pub open spec fn is_frame_of(
    frame: Frame,
    unit: Seq<u8>,
    sequence: u64,
    elapsed_us: nat,
    last: u64,
) -> bool {
    let h = frame.header@;
    &&& frame.payload@ == unit
    &&& h.len() == 24
    &&& be_value(h.subrange(0, 4)) == unit.len()
    &&& is_time_stamp(be_value(h.subrange(4, 12)), elapsed_us, last)
    &&& be_value(h.subrange(12, 20)) == sequence
    &&& be_value(h.subrange(20, 24)) == if holds_key_slice(unit) {
        1nat
    } else {
        0
    }
}

/// What comes of one NAL unit. A frame is sent exactly when the unit is a delimiter and something is
/// held, and it carries what is held, under the next number; then nothing is held and the number
/// moves on. The unit is added to what is held unless that would exceed 16 MiB, which is the error.
pub proof fn law_delimiters_send_what_is_held(
    a: AccessUnitsView,
    nal: Seq<u8>,
    elapsed_us: nat,
    after: AccessUnitsView,
    step: (Option<Frame>, Result<(), String>),
)
    requires
        consumes(a, nal, elapsed_us, after, step),
        a.unit.len() <= 16 * 1024 * 1024,
        a.sequence < u64::MAX,
    ensures
        step.0 is Some <==> is_delimiter(nal) && a.unit.len() > 0,
        match step.0 {
            Some(frame) => {
                &&& is_frame_of(frame, a.unit, a.sequence, elapsed_us, a.last_pts)
                &&& after.sequence == a.sequence + 1
                &&& after.last_pts == be_value(frame.header@.subrange(4, 12))
                &&& step.1 is Ok <==> nal.len() <= 16 * 1024 * 1024
                &&& after.unit == if step.1 is Ok {
                    nal
                } else {
                    Seq::empty()
                }
            },
            None => {
                &&& after.sequence == a.sequence
                &&& after.last_pts == a.last_pts
                &&& step.1 is Ok <==> a.unit.len() + nal.len() <= 16 * 1024 * 1024
                &&& after.unit == if step.1 is Ok {
                    a.unit + nal
                } else {
                    a.unit
                }
            },
        },
{
    lemma_delimiter(nal);
    law_types_are_found_behind_start_codes(a.unit, 5);
    if let Some(frame) = step.0 {
        let sent = sent_now(a, elapsed_us);
        law_frame_header_reads_back(
            a.unit.len() as u32,
            sent.pts_us,
            a.sequence,
            holds_key_slice(a.unit),
        );
        assert(Seq::<u8>::empty() + nal =~= nal);
    }
}

/// What is sent at the end of the stream is a frame of what is held, under the next number, and then
/// nothing is held.
pub proof fn law_flush_sends_what_is_held(a: AccessUnitsView, elapsed_us: nat, frame: Option<Frame>)
    requires
        frame_carries(frame, Some(sent_now(a, elapsed_us))),
        a.unit.len() <= 16 * 1024 * 1024,
    ensures
        frame matches Some(f) && is_frame_of(f, a.unit, a.sequence, elapsed_us, a.last_pts)
            && flushed(a, elapsed_us).last_pts == be_value(f.header@.subrange(4, 12)),
        flushed(a, elapsed_us).unit.len() == 0,
        flushed(a, elapsed_us).sequence == a.sequence,
{
    law_types_are_found_behind_start_codes(a.unit, 5);
    law_frame_header_reads_back(
        a.unit.len() as u32,
        sent_now(a, elapsed_us).pts_us,
        a.sequence,
        holds_key_slice(a.unit),
    );
}

/// A stream begins with nothing held, the number zero and the time stamp zero given out.
pub proof fn law_streams_begin_at_zero()
    ensures
        no_units().unit.len() == 0,
        no_units().sequence == 0,
        no_units().last_pts == 0,
{
}

} // verus!
