//! The messages that the device sends back.
use vstd::prelude::*;

use crate::status::exponent_field;
use crate::wire::{be_value, law_bytes_count_by_place, read_be_u32};

verus! {

/// The length of a message from the device.
pub const CONTROL_MESSAGE_SIZE: usize = 16;

/// The first byte of a message about a touch.
pub const MESSAGE_TOUCH: u8 = 1;

/// The first byte of a message about the time that decoding took.
pub const MESSAGE_DECODE_TIME: u8 = 2;

/// A touch: what happened, and the coordinates as bit patterns of single-precision numbers.
#[derive(Clone, Copy, Debug, PartialEq, Eq, Structural)]
pub struct Touch {
    pub action: u8,
    pub x: u32,
    pub y: u32,
}

/// What the device says.
#[derive(Clone, Copy, Debug, PartialEq, Eq, Structural)]
pub enum ControlMessage {
    /// A touch.
    Touch(Touch),
    /// How long decoding took, as the bit pattern of a single-precision number of milliseconds.
    DecodeTime(u32),
    /// Anything else.
    Unknown,
}

/// The number at `at` in a message.
pub open spec fn word_at(message: Seq<u8>, at: int) -> nat {
    be_value(message.subrange(at, at + 4))
}

/// What a message says.
pub open spec fn meaning(message: Seq<u8>) -> ControlMessage {
    if message[0] == MESSAGE_TOUCH {
        ControlMessage::Touch(
            Touch {
                action: message[1],
                x: word_at(message, 4) as u32,
                y: word_at(message, 8) as u32,
            },
        )
    } else if message[0] == MESSAGE_DECODE_TIME {
        ControlMessage::DecodeTime(word_at(message, 4) as u32)
    } else {
        ControlMessage::Unknown
    }
}

/// Reads a message.
pub fn decode_message(message: &[u8]) -> (decoded: ControlMessage)
    requires
        message@.len() == CONTROL_MESSAGE_SIZE,
    ensures
        decoded == meaning(message@),
{
    if message[0] == MESSAGE_TOUCH {
        let x: u32 = read_be_u32(message, 4);
        let y: u32 = read_be_u32(message, 8);
        ControlMessage::Touch(Touch { action: message[1], x, y })
    } else if message[0] == MESSAGE_DECODE_TIME {
        ControlMessage::DecodeTime(read_be_u32(message, 4))
    } else {
        ControlMessage::Unknown
    }
}

/// The bit pattern is not that of a number: all bits of the exponent are set, and some bit below.
pub open spec fn nan_bits(bits: u32) -> bool {
    exponent_field(bits) == 0xff && bits % 0x80_0000 != 0
}

/// The bit pattern of the number, brought into the range from zero to one. Negative zero stays.
pub open spec fn clamped_bits(bits: u32) -> u32 {
    if bits > 0x8000_0000 {
        0
    } else if bits < 0x8000_0000 && bits > 0x3f80_0000 {
        0x3f80_0000
    } else {
        bits
    }
}

/// The touch with its coordinates brought into the range from zero to one; nothing where one of
/// them is not a number.
pub open spec fn usable_touch(touch: Touch) -> Option<Touch> {
    if nan_bits(touch.x) || nan_bits(touch.y) {
        None
    } else {
        Some(Touch { x: clamped_bits(touch.x), y: clamped_bits(touch.y), ..touch })
    }
}

/// Whether the bit pattern is not that of a number.
pub fn is_nan(bits: u32) -> (yes: bool)
    ensures
        yes == nan_bits(bits),
{
    (bits / 0x80_0000) % 0x100 == 0xff && bits % 0x80_0000 != 0
}

/// Brings a number into the range from zero to one.
pub fn clamp_unit(bits: u32) -> (clamped: u32)
    ensures
        clamped == clamped_bits(bits),
{
    if bits > 0x8000_0000 {
        0
    } else if bits < 0x8000_0000 && bits > 0x3f80_0000 {
        0x3f80_0000
    } else {
        bits
    }
}

/// Checks the coordinates of a touch and brings them into range.
pub fn normalize_touch(touch: Touch) -> (usable: Option<Touch>)
    ensures
        usable == usable_touch(touch),
{
    if is_nan(touch.x) || is_nan(touch.y) {
        None
    } else {
        Some(Touch { action: touch.action, x: clamp_unit(touch.x), y: clamp_unit(touch.y) })
    }
}

/// What reading from the device gave.
pub enum Received {
    /// Bytes, no more than were asked for.
    Bytes(Vec<u8>),
    /// Nothing yet.
    Nothing,
    /// The device has closed the connection.
    Closed,
    /// The connection failed.
    Failed,
}

/// What follows from what was received.
pub enum Reaction {
    /// Act on a message, then read on.
    Act(ControlMessage),
    /// Read on.
    ReadOn,
    /// End the session.
    Stop,
}

/// Puts messages together from the bytes as they arrive.
pub struct MessageReader {
    pending: Vec<u8>,
}

impl View for MessageReader {
    type V = Seq<u8>;

    /// The bytes of the message that is not complete yet.
    closed spec fn view(&self) -> Seq<u8> {
        self.pending@
    }
}

/// The message that is complete once `data` has arrived after `pending`, and what is then pending.
pub open spec fn take_in(pending: Seq<u8>, data: Seq<u8>) -> (Option<Seq<u8>>, Seq<u8>) {
    if pending.len() + data.len() == CONTROL_MESSAGE_SIZE {
        (Some(pending + data), Seq::empty())
    } else {
        (None, pending + data)
    }
}

impl MessageReader {
    /// Less than a message is pending.
    pub open spec fn well_formed(&self) -> bool {
        self@.len() < CONTROL_MESSAGE_SIZE
    }

    /// No bytes yet.
    pub fn new() -> (reader: Self)
        ensures
            reader@ == Seq::<u8>::empty(),
            reader.well_formed(),
    {
        MessageReader { pending: Vec::new() }
    }

    /// How many bytes the message still lacks; no more are to be read at once.
    pub fn wanted(&self) -> (count: usize)
        requires
            self.well_formed(),
        ensures
            count == CONTROL_MESSAGE_SIZE - self@.len(),
    {
        CONTROL_MESSAGE_SIZE - self.pending.len()
    }

    /// Takes in bytes; the message comes back once it is complete.
    pub fn accept(&mut self, data: &[u8]) -> (message: Option<Vec<u8>>)
        requires
            old(self).well_formed(),
            old(self)@.len() + data@.len() <= CONTROL_MESSAGE_SIZE,
        ensures
            final(self).well_formed(),
            final(self)@ == take_in(old(self)@, data@).1,
            match take_in(old(self)@, data@).0 {
                Some(bytes) => message matches Some(m) && m@ == bytes,
                None => message is None,
            },
    {
        self.pending.extend_from_slice(data);
        assert(self.pending@ =~= old(self)@ + data@);
        if self.pending.len() == CONTROL_MESSAGE_SIZE {
            let mut message: Vec<u8> = Vec::new();
            std::mem::swap(&mut message, &mut self.pending);
            Some(message)
        } else {
            None
        }
    }

    /// Decides what follows from what was received.
    pub fn react(&mut self, received: Received) -> (reaction: Reaction)
        requires
            old(self).well_formed(),
            received matches Received::Bytes(data) ==> old(self)@.len() + data@.len()
                <= CONTROL_MESSAGE_SIZE,
        ensures
            final(self).well_formed(),
            match received {
                Received::Bytes(data) => {
                    &&& final(self)@ == take_in(old(self)@, data@).1
                    &&& match take_in(old(self)@, data@).0 {
                        Some(bytes) => reaction matches Reaction::Act(m) && m == meaning(bytes),
                        None => reaction is ReadOn,
                    }
                },
                Received::Nothing => reaction is ReadOn && final(self)@ == old(self)@,
                _ => reaction is Stop && final(self)@ == old(self)@,
            },
    {
        match received {
            Received::Bytes(data) => match self.accept(data.as_slice()) {
                Some(message) => Reaction::Act(decode_message(message.as_slice())),
                None => Reaction::ReadOn,
            },
            Received::Nothing => Reaction::ReadOn,
            _ => Reaction::Stop,
        }
    }
}

/// No chunk holds more than the message that it belongs to lacks.
pub open spec fn respects_messages(pending: Seq<u8>, chunks: Seq<Seq<u8>>) -> bool
    decreases chunks.len(),
{
    chunks.len() == 0 || {
        &&& pending.len() + chunks.first().len() <= CONTROL_MESSAGE_SIZE
        &&& respects_messages(take_in(pending, chunks.first()).1, chunks.drop_first())
    }
}

/// The messages that are complete once the chunks have arrived one after the other, and what is
/// then pending.
pub open spec fn take_in_all(pending: Seq<u8>, chunks: Seq<Seq<u8>>) -> (Seq<Seq<u8>>, Seq<u8>)
    decreases chunks.len(),
{
    if chunks.len() == 0 {
        (Seq::empty(), pending)
    } else {
        let (message, left) = take_in(pending, chunks.first());
        let (more, end) = take_in_all(left, chunks.drop_first());
        match message {
            Some(m) => (seq![m] + more, end),
            None => (more, end),
        }
    }
}

/// A stream of bytes cut into messages from its beginning.
pub open spec fn cut(stream: Seq<u8>) -> Seq<Seq<u8>> {
    Seq::new(
        stream.len() / CONTROL_MESSAGE_SIZE as nat,
        |i: int|
            stream.subrange(i * CONTROL_MESSAGE_SIZE, i * CONTROL_MESSAGE_SIZE + CONTROL_MESSAGE_SIZE),
    )
}

/// However the bytes arrive, the messages are the stream cut at every sixteenth byte, and what is
/// pending is what is left of it.
pub proof fn law_messages_do_not_depend_on_chunks(chunks: Seq<Seq<u8>>)
    requires
        respects_messages(Seq::empty(), chunks),
    ensures
        ({
            let stream = chunks.flatten();
            let (messages, pending) = take_in_all(Seq::empty(), chunks);
            &&& messages == cut(stream)
            &&& messages.len() == stream.len() / 16
            &&& forall|i: int|
                0 <= i < messages.len() ==> #[trigger] messages[i] == stream.subrange(
                    i * 16,
                    i * 16 + 16,
                )
            &&& pending == stream.skip(messages.len() * 16 as int)
            &&& pending.len() < 16
        }),
{
    lemma_take_in_all(Seq::empty(), chunks);
    assert(Seq::<u8>::empty() + chunks.flatten() =~= chunks.flatten());
}

/// The same from any state.
proof fn lemma_take_in_all(pending: Seq<u8>, chunks: Seq<Seq<u8>>)
    requires
        pending.len() < CONTROL_MESSAGE_SIZE,
        respects_messages(pending, chunks),
    ensures
        ({
            let stream = pending + chunks.flatten();
            let (messages, end) = take_in_all(pending, chunks);
            &&& messages == cut(stream)
            &&& end == stream.skip(messages.len() * CONTROL_MESSAGE_SIZE as int)
            &&& end.len() < CONTROL_MESSAGE_SIZE
        }),
    decreases chunks.len(),
{
    let stream = pending + chunks.flatten();
    if chunks.len() == 0 {
        assert(stream =~= pending);
        assert(cut(stream) =~= Seq::empty());
        assert(stream.skip(0) =~= pending);
    } else {
        let data = chunks.first();
        let tail = chunks.drop_first().flatten();
        let (message, left) = take_in(pending, data);
        lemma_take_in_all(left, chunks.drop_first());
        assert(stream =~= (pending + data) + tail);
        match message {
            Some(m) => {
                assert(left + tail =~= tail);
                lemma_cut(m, tail);
            },
            None => {},
        }
    }
}

/// A whole message at the front is the first one cut off.
proof fn lemma_cut(message: Seq<u8>, tail: Seq<u8>)
    requires
        message.len() == CONTROL_MESSAGE_SIZE,
    ensures
        cut(message + tail) == seq![message] + cut(tail),
        (message + tail).skip((cut(tail).len() + 1) * CONTROL_MESSAGE_SIZE as int) == tail.skip(
            cut(tail).len() * CONTROL_MESSAGE_SIZE as int,
        ),
{
    let all = message + tail;
    assert(all.len() / 16 == tail.len() / 16 + 1);
    assert forall|i: int| 0 <= i < cut(all).len() implies cut(all)[i] == (seq![message] + cut(
        tail,
    ))[i] by {
        if i == 0 {
            assert(all.subrange(0, 16) =~= message);
        } else {
            assert(all.subrange(i * 16, i * 16 + 16) =~= tail.subrange(
                (i - 1) * 16,
                (i - 1) * 16 + 16,
            ));
        }
    }
    assert(cut(all) =~= seq![message] + cut(tail));
    let n = cut(tail).len() as int;
    assert(all.skip((n + 1) * 16) =~= tail.skip(n * 16));
}

/// A message is read from its bytes: the first says what it is about, 1 for a touch and 2 for a decode
/// time. The second is the action of a touch; its coordinates are the big-endian numbers in the four
/// bytes from the fifth on and in the next four. A decode time is where the first coordinate is.
pub proof fn law_messages_are_read_from_their_bytes(m: Seq<u8>)
    requires
        m.len() == 16,
    ensures
        m[0] == 1 ==> {
            &&& meaning(m) matches ControlMessage::Touch(touch)
            &&& touch.action == m[1]
            &&& touch.x == m[4] * 0x100_0000 + m[5] * 0x1_0000 + m[6] * 0x100 + m[7]
            &&& touch.y == m[8] * 0x100_0000 + m[9] * 0x1_0000 + m[10] * 0x100 + m[11]
        },
        m[0] == 2 ==> {
            &&& meaning(m) matches ControlMessage::DecodeTime(bits)
            &&& bits == m[4] * 0x100_0000 + m[5] * 0x1_0000 + m[6] * 0x100 + m[7]
        },
        m[0] != 1 && m[0] != 2 ==> meaning(m) is Unknown,
{
    law_bytes_count_by_place(Seq::empty(), m.subrange(4, 8));
    law_bytes_count_by_place(Seq::empty(), m.subrange(8, 12));
}

/// `near` is the number `bits`, brought between zero and one, both as bit patterns: kept where it lies
/// between them, one where it is larger, zero where it is negative. Negative zero is kept.
pub open spec fn is_brought_into_range(bits: u32, near: u32) -> bool {
    &&& bits <= 0x3f80_0000 ==> near == bits
    &&& 0x3f80_0000 < bits < 0x8000_0000 ==> near == 0x3f80_0000
    &&& bits == 0x8000_0000 ==> near == bits
    &&& bits > 0x8000_0000 ==> near == 0
}

/// A touch inside the picture is handed on as it is, and one outside of it is brought to the border,
/// each coordinate by itself. It is dropped exactly when a coordinate is not a number, which is when
/// the bits below the sign exceed those of infinity.
pub proof fn law_touches_inside_the_picture_are_kept(touch: Touch)
    ensures
        usable_touch(touch) is None <==> touch.x % 0x8000_0000 > 0x7f80_0000 || touch.y
            % 0x8000_0000 > 0x7f80_0000,
        usable_touch(touch) matches Some(usable) ==> {
            &&& usable.action == touch.action
            &&& is_brought_into_range(touch.x, usable.x)
            &&& is_brought_into_range(touch.y, usable.y)
        },
        touch.x <= 0x3f80_0000 && touch.y <= 0x3f80_0000 ==> usable_touch(touch) == Some(touch),
{
    lemma_not_a_number(touch.x);
    lemma_not_a_number(touch.y);
}

/// A number is brought between zero and one, whatever it is.
pub proof fn law_numbers_are_brought_into_range(bits: u32)
    ensures
        is_brought_into_range(bits, clamped_bits(bits)),
        nan_bits(bits) <==> bits % 0x8000_0000 > 0x7f80_0000,
{
    lemma_not_a_number(bits);
}

/// What is not a number lies above infinity.
proof fn lemma_not_a_number(bits: u32)
    ensures
        nan_bits(bits) <==> bits % 0x8000_0000 > 0x7f80_0000,
{
    assert(((bits / 0x80_0000) % 0x100 == 0xff && bits % 0x80_0000 != 0) == (bits % 0x8000_0000
        > 0x7f80_0000)) by (bit_vector);
}

} // verus!
