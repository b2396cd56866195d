//! Turning touches into pointer events for ydotool.
use vstd::prelude::*;
use vstd::string::*;

use crate::geometry::OutputGeometry;
use crate::messages::Touch;
use crate::wire::{be_bytes, be_value, law_be_round_trip, lemma_be_len, push_be};

verus! {

/// An input event: type, code and value.
pub type InputEvent = (u16, u16, i32);

/// The length of the packet that carries one event.
pub const EVENT_SIZE: usize = 24;

/// The left button.
pub const BUTTON_LEFT: u16 = 0x110;

/// The action of a touch that begins.
pub const ACTION_DOWN: u8 = 0;

/// The action of a touch that ends.
pub const ACTION_UP: u8 = 2;

/// The action of a touch that is called off.
pub const ACTION_CANCEL: u8 = 3;

/// A change of the left button.
#[derive(Clone, Copy, Debug, PartialEq, Eq, Structural)]
pub enum ButtonChange {
    Press,
    Release,
}

/// The sum, kept within the range of the type.
pub open spec fn saturated_sum(a: i32, b: i32) -> i32 {
    if a + b > i32::MAX {
        i32::MAX
    } else if a + b < i32::MIN {
        i32::MIN
    } else {
        (a + b) as i32
    }
}

/// The position at an offset from the top left corner of an output.
pub open spec fn position(geometry: OutputGeometry, dx: i32, dy: i32) -> (i32, i32) {
    (saturated_sum(geometry.x, dx), saturated_sum(geometry.y, dy))
}

/// The largest offsets within an output.
pub open spec fn last_offsets(geometry: OutputGeometry) -> (u32, u32) {
    (
        if geometry.width == 0 {
            0
        } else {
            (geometry.width - 1) as u32
        },
        if geometry.height == 0 {
            0
        } else {
            (geometry.height - 1) as u32
        },
    )
}

/// The sum, kept within the range of the type.
fn add_saturating(a: i32, b: i32) -> (sum: i32)
    ensures
        sum == saturated_sum(a, b),
{
    let sum: i64 = a as i64 + b as i64;
    if sum > i32::MAX as i64 {
        i32::MAX
    } else if sum < i32::MIN as i64 {
        i32::MIN
    } else {
        sum as i32
    }
}

/// The position at an offset from the top left corner of an output.
pub fn target_position(geometry: OutputGeometry, dx: i32, dy: i32) -> (target: (i32, i32))
    ensures
        target == position(geometry, dx, dy),
{
    (add_saturating(geometry.x, dx), add_saturating(geometry.y, dy))
}

/// The largest offsets within an output, by which the coordinates of a touch are multiplied.
pub fn offset_range(geometry: OutputGeometry) -> (range: (u32, u32))
    ensures
        range == last_offsets(geometry),
{
    let x: u32 = if geometry.width == 0 {
        0
    } else {
        geometry.width - 1
    };
    let y: u32 = if geometry.height == 0 {
        0
    } else {
        geometry.height - 1
    };
    (x, y)
}

/// The events that move the pointer to a position: first far beyond the top left corner, where it
/// stops, and then by the position. ydotool knows relative motion only, so that the pointer comes to
/// rest at the position only where pointer acceleration is off for its device.
pub open spec fn move_events(x: i32, y: i32) -> Seq<InputEvent> {
    seq![
        (2u16, 0u16, i32::MIN),
        (2u16, 1u16, i32::MIN),
        (2u16, 0u16, x),
        (2u16, 1u16, y),
        (0u16, 0u16, 0i32),
    ]
}

/// The events that change the left button.
pub open spec fn button_events(change: ButtonChange) -> Seq<InputEvent> {
    seq![
        (
            1u16,
            BUTTON_LEFT,
            if change == ButtonChange::Press {
                1i32
            } else {
                0i32
            },
        ),
        (0u16, 0u16, 0i32),
    ]
}

/// The events that move the pointer to a position.
pub fn move_absolute(x: i32, y: i32) -> (events: Vec<InputEvent>)
    ensures
        events@ == move_events(x, y),
{
    let mut events: Vec<InputEvent> = Vec::new();
    events.push((2, 0, i32::MIN));
    events.push((2, 1, i32::MIN));
    events.push((2, 0, x));
    events.push((2, 1, y));
    events.push((0, 0, 0));
    assert(events@ =~= move_events(x, y));
    events
}

/// The events that change the left button.
pub fn change_button(change: ButtonChange) -> (events: Vec<InputEvent>)
    ensures
        events@ == button_events(change),
{
    let value: i32 = match change {
        ButtonChange::Press => 1,
        ButtonChange::Release => 0,
    };
    let mut events: Vec<InputEvent> = Vec::new();
    events.push((1, BUTTON_LEFT, value));
    events.push((0, 0, 0));
    assert(events@ =~= button_events(change));
    events
}

/// The events that move the pointer to an offset within an output.
pub open spec fn touch_moves(geometry: OutputGeometry, dx: i32, dy: i32) -> Seq<InputEvent> {
    move_events(position(geometry, dx, dy).0, position(geometry, dx, dy).1)
}

/// What a touch does to a button that is down or is not.
pub open spec fn button_change(down: bool, action: u8) -> Option<ButtonChange> {
    if action == ACTION_DOWN && !down {
        Some(ButtonChange::Press)
    } else if (action == ACTION_UP || action == ACTION_CANCEL) && down {
        Some(ButtonChange::Release)
    } else {
        None
    }
}

/// Whether the button is down after a change.
pub open spec fn down_after(change: ButtonChange) -> bool {
    change == ButtonChange::Press
}

/// The events of a touch: first those that move the pointer, then those that change the button, if
/// it changes.
pub struct TouchPlan {
    pub moves: Vec<InputEvent>,
    pub button: Option<ButtonChange>,
}

/// The pointer as far as the events that were sent have brought it.
pub struct Pointer {
    button_down: bool,
}

impl Pointer {
    /// The left button is down.
    pub closed spec fn down(&self) -> bool {
        self.button_down
    }

    /// A pointer whose button is up.
    pub fn new() -> (pointer: Self)
        ensures
            !pointer.down(),
    {
        Pointer { button_down: false }
    }

    /// Plans the events of a touch at an offset from the corner of the output.
    pub fn handle(&self, touch: Touch, geometry: OutputGeometry, dx: i32, dy: i32) -> (plan:
        TouchPlan)
        ensures
            plan.moves@ == move_events(position(geometry, dx, dy).0, position(geometry, dx, dy).1),
            plan.moves@ == touch_moves(geometry, dx, dy),
            plan.button == button_change(self.down(), touch.action),
    {
        let (x, y) = target_position(geometry, dx, dy);
        let button: Option<ButtonChange> = if touch.action == ACTION_DOWN && !self.button_down {
            Some(ButtonChange::Press)
        } else if (touch.action == ACTION_UP || touch.action == ACTION_CANCEL)
            && self.button_down {
            Some(ButtonChange::Release)
        } else {
            None
        };
        TouchPlan { moves: move_absolute(x, y), button }
    }

    /// What has to be sent so that the button is up.
    pub fn release_button(&self) -> (change: Option<ButtonChange>)
        ensures
            change == if self.down() {
                Some(ButtonChange::Release)
            } else {
                None
            },
    {
        if self.button_down {
            Some(ButtonChange::Release)
        } else {
            None
        }
    }

    /// Notes that the events of a change have been sent.
    pub fn button_sent(&mut self, change: ButtonChange)
        ensures
            final(self).down() == down_after(change),
    {
        self.button_down = match change {
            ButtonChange::Press => true,
            ButtonChange::Release => false,
        };
    }
}

/// The order in which a machine keeps the bytes of a number.
#[derive(Clone, Copy, Debug, PartialEq, Eq, Structural)]
pub enum ByteOrder {
    Big,
    Little,
}

/// The bytes of a number in an order.
pub open spec fn ordered_bytes(value: nat, width: nat, order: ByteOrder) -> Seq<u8> {
    match order {
        ByteOrder::Big => be_bytes(value, width),
        ByteOrder::Little => be_bytes(value, width).reverse(),
    }
}

/// The number that bytes in an order stand for.
pub open spec fn ordered_value(bytes: Seq<u8>, order: ByteOrder) -> nat {
    match order {
        ByteOrder::Big => be_value(bytes),
        ByteOrder::Little => be_value(bytes.reverse()),
    }
}

/// The unsigned number with the same bits.
pub open spec fn twos_complement(value: i32) -> nat {
    if value >= 0 {
        value as nat
    } else {
        (value + 0x1_0000_0000) as nat
    }
}

/// The packet of an event: a time of zero, which ydotool ignores, the type, the code and the value.
pub open spec fn event_bytes(event: InputEvent, order: ByteOrder) -> Seq<u8> {
    Seq::new(16, |i: int| 0u8) + ordered_bytes(event.0 as nat, 2, order) + ordered_bytes(
        event.1 as nat,
        2,
        order,
    ) + ordered_bytes(twos_complement(event.2), 4, order)
}

/// Appends a number in an order.
fn push_ordered(out: &mut Vec<u8>, value: u64, width: usize, order: ByteOrder)
    ensures
        final(out)@ == old(out)@ + ordered_bytes(value as nat, width as nat, order),
{
    match order {
        ByteOrder::Big => push_be(out, value, width),
        ByteOrder::Little => {
            let mut digits: Vec<u8> = Vec::new();
            push_be(&mut digits, value, width);
            let ghost all = be_bytes(value as nat, width as nat);
            assert(digits@ =~= all);
            assert(out@ =~= old(out)@ + all.reverse().take(0));
            let mut left: usize = digits.len();
            while left > 0
                invariant
                    left <= digits@.len(),
                    digits@ == all,
                    out@ == old(out)@ + all.reverse().take(all.len() - left),
                decreases left,
            {
                left -= 1;
                out.push(digits[left]);
                assert(out@ =~= old(out)@ + all.reverse().take(all.len() - left));
            }
            assert(all.reverse().take(all.len() as int) =~= all.reverse());
        },
    }
}

/// Calls `u16::to_ne_bytes`: the two bytes of the number in the order of the machine, which is one
/// of the two.
#[verifier::external_body]
fn native_bytes(value: u16) -> (bytes: [u8; 2])
    ensures
        bytes@ == ordered_bytes(value as nat, 2, ByteOrder::Big) || bytes@ == ordered_bytes(
            value as nat,
            2,
            ByteOrder::Little,
        ),
{
    value.to_ne_bytes()
}

/// The two bytes are those of the number one in one of the orders.
pub open spec fn is_one(one: Seq<u8>) -> bool {
    one == ordered_bytes(1, 2, ByteOrder::Big) || one == ordered_bytes(1, 2, ByteOrder::Little)
}

/// The order in which the bytes of the number one were put.
pub fn order_of_one(one: [u8; 2]) -> (order: ByteOrder)
    requires
        is_one(one@),
    ensures
        one@ == ordered_bytes(1, 2, order),
{
    if one[0] == 1 {
        proof {
            reveal_with_fuel(be_bytes, 3);
            assert(ordered_bytes(1, 2, ByteOrder::Big)[0] == 0);
        }
        ByteOrder::Little
    } else {
        proof {
            reveal_with_fuel(be_bytes, 3);
            assert(ordered_bytes(1, 2, ByteOrder::Little)[0] == 1);
        }
        ByteOrder::Big
    }
}

/// Builds the packet of an event.
pub fn encode_event(event: InputEvent, order: ByteOrder) -> (packet: Vec<u8>)
    ensures
        packet@ == event_bytes(event, order),
        packet@.len() == EVENT_SIZE,
{
    let mut packet: Vec<u8> = Vec::with_capacity(EVENT_SIZE);
    while packet.len() < 16
        invariant
            packet@.len() <= 16,
            packet@ == Seq::new(packet@.len(), |i: int| 0u8),
        decreases 16 - packet@.len(),
    {
        packet.push(0);
        assert(packet@ =~= Seq::new(packet@.len(), |i: int| 0u8));
    }
    let value: u32 = if event.2 >= 0 {
        event.2 as u32
    } else {
        (event.2 as i64 + 0x1_0000_0000) as u32
    };
    push_ordered(&mut packet, event.0 as u64, 2, order);
    push_ordered(&mut packet, event.1 as u64, 2, order);
    push_ordered(&mut packet, value as u64, 4, order);
    proof {
        lemma_be_len(event.0 as nat, 2);
        lemma_be_len(event.1 as nat, 2);
        lemma_be_len(twos_complement(event.2), 4);
    }
    packet
}

/// Builds the packet of an event in the order in which the bytes of the number one were put.
pub fn packet_ordered_like(event: InputEvent, one: [u8; 2]) -> (packet: Vec<u8>)
    requires
        is_one(one@),
    ensures
        packet@.len() == EVENT_SIZE,
        forall|order: ByteOrder|
            one@ == #[trigger] ordered_bytes(1, 2, order) ==> packet@ == event_bytes(event, order),
{
    let order = order_of_one(one);
    proof {
        reveal_with_fuel(be_bytes, 3);
        assert(ordered_bytes(1, 2, ByteOrder::Big)[0] == 0);
        assert(ordered_bytes(1, 2, ByteOrder::Little)[0] == 1);
    }
    encode_event(event, order)
}

/// Builds the packet of an event in the order of this machine. Which of the two that is, is not
/// known beforehand.
pub fn event_packet(event: InputEvent) -> (packet: Vec<u8>)
    ensures
        packet@.len() == EVENT_SIZE,
        packet@ == event_bytes(event, ByteOrder::Big) || packet@ == event_bytes(
            event,
            ByteOrder::Little,
        ),
{
    packet_ordered_like(event, native_bytes(1))
}

/// Whether a packet went out whole; the error is that of a short send.
pub fn check_sent(sent: usize, length: usize) -> (checked: Result<(), String>)
    ensures
        checked is Ok <==> sent == length,
        checked matches Err(message) ==> message@ == "short ydotool send"@,
{
    if sent == length {
        Ok(())
    } else {
        Err("short ydotool send".to_owned())
    }
}

/// A reader of a packet in the same order finds the type, the code and the value of the event.
pub proof fn law_event_reads_back(event: InputEvent, order: ByteOrder)
    ensures
        ({
            let p = event_bytes(event, order);
            &&& p.len() == 24
            &&& ordered_value(p.subrange(16, 18), order) == event.0
            &&& ordered_value(p.subrange(18, 20), order) == event.1
            &&& ordered_value(p.subrange(20, 24), order) == if event.2 >= 0 {
                event.2 as int
            } else {
                event.2 + 0x1_0000_0000
            }
        }),
{
    crate::wire::lemma_field_bounds();
    law_be_round_trip(event.0 as nat, 2);
    law_be_round_trip(event.1 as nat, 2);
    law_be_round_trip(twos_complement(event.2), 4);
    let p = event_bytes(event, order);
    assert(p.subrange(16, 18) =~= ordered_bytes(event.0 as nat, 2, order));
    assert(p.subrange(18, 20) =~= ordered_bytes(event.1 as nat, 2, order));
    assert(p.subrange(20, 24) =~= ordered_bytes(twos_complement(event.2), 4, order));
    assert(be_bytes(event.0 as nat, 2).reverse().reverse() =~= be_bytes(event.0 as nat, 2));
    assert(be_bytes(event.1 as nat, 2).reverse().reverse() =~= be_bytes(event.1 as nat, 2));
    assert(be_bytes(twos_complement(event.2), 4).reverse().reverse() =~= be_bytes(
        twos_complement(event.2),
        4,
    ));
}

/// The changes of the button over a series of touches, all of which are sent, and whether it is
/// down at the end.
pub open spec fn changes_over(down: bool, actions: Seq<u8>) -> (Seq<ButtonChange>, bool)
    decreases actions.len(),
{
    if actions.len() == 0 {
        (Seq::empty(), down)
    } else {
        match button_change(down, actions.first()) {
            Some(change) => {
                let (more, end) = changes_over(down_after(change), actions.drop_first());
                (seq![change] + more, end)
            },
            None => changes_over(down, actions.drop_first()),
        }
    }
}

/// Presses and releases take turns, whatever touches arrive: the first change is a press where the
/// button was up, each change is the opposite of the one before, and the button is down at the end
/// exactly when the last change left it so.
pub proof fn law_presses_and_releases_take_turns(down: bool, actions: Seq<u8>)
    ensures
        ({
            let (changes, end) = changes_over(down, actions);
            &&& forall|i: int|
                0 <= i < changes.len() ==> down_after(#[trigger] changes[i]) == ((i % 2 == 0)
                    != down)
            &&& end == if changes.len() == 0 {
                down
            } else {
                down_after(changes.last())
            }
        }),
    decreases actions.len(),
{
    if actions.len() > 0 {
        let (changes, end) = changes_over(down, actions);
        match button_change(down, actions.first()) {
            Some(change) => {
                law_presses_and_releases_take_turns(down_after(change), actions.drop_first());
                let (more, _) = changes_over(down_after(change), actions.drop_first());
                assert forall|i: int| 0 <= i < changes.len() implies down_after(
                    #[trigger] changes[i],
                ) == ((i % 2 == 0) != down) by {
                    if i > 0 {
                        assert(changes[i] == more[i - 1]);
                    }
                }
                if more.len() > 0 {
                    assert(changes.last() == more.last());
                }
            },
            None => law_presses_and_releases_take_turns(down, actions.drop_first()),
        }
    }
}

/// The changes of the button over a whole session, from a button that is up: those of the touches
/// that arrived, and the release that is sent at the end where the button is still down.
pub open spec fn session_changes(actions: Seq<u8>) -> Seq<ButtonChange> {
    let (changes, down) = changes_over(false, actions);
    if down {
        changes.push(ButtonChange::Release)
    } else {
        changes
    }
}

/// The button is never left down: whatever touches arrived, once what is sent at the end of a
/// session has gone out, it is up, and every press has been followed by a release.
pub proof fn law_session_leaves_the_button_up(actions: Seq<u8>)
    ensures
        session_changes(actions).len() % 2 == 0,
        session_changes(actions).len() > 0 ==> !down_after(session_changes(actions).last()),
        forall|i: int|
            0 <= i < session_changes(actions).len() ==> down_after(
                #[trigger] session_changes(actions)[i],
            ) == (i % 2 == 0),
{
    law_presses_and_releases_take_turns(false, actions);
    let (changes, _) = changes_over(false, actions);
    if changes.len() > 0 {
        assert(down_after(changes[changes.len() - 1]) == ((changes.len() - 1) % 2 == 0));
    }
    assert forall|i: int| 0 <= i < session_changes(actions).len() implies down_after(
        #[trigger] session_changes(actions)[i],
    ) == (i % 2 == 0) by {
        if i < changes.len() {
            assert(session_changes(actions)[i] == changes[i]);
        }
    }
}

/// A touch stays on its output: an offset within the output leads to a position within it, unless
/// the output reaches beyond the range of positions.
pub proof fn law_touch_stays_on_its_output(geometry: OutputGeometry, dx: i32, dy: i32)
    requires
        0 <= dx <= last_offsets(geometry).0,
        0 <= dy <= last_offsets(geometry).1,
        geometry.x + last_offsets(geometry).0 <= i32::MAX,
        geometry.y + last_offsets(geometry).1 <= i32::MAX,
    ensures
        geometry.x <= position(geometry, dx, dy).0 <= geometry.x + last_offsets(geometry).0,
        geometry.y <= position(geometry, dx, dy).1 <= geometry.y + last_offsets(geometry).1,
        position(geometry, dx, dy) == ((geometry.x + dx) as i32, (geometry.y + dy) as i32),
{
}

/// Where the bytes of a packet stand: sixteen zeros, then the type, the code and the value, with the
/// least significant byte of each first on a machine that keeps it first, and last on any other.
pub proof fn law_packets_are_laid_out(event: InputEvent)
    ensures
        ({
            let little = event_bytes(event, ByteOrder::Little);
            let big = event_bytes(event, ByteOrder::Big);
            let value = if event.2 >= 0 {
                event.2 as int
            } else {
                event.2 + 0x1_0000_0000
            };
            &&& little.len() == 24
            &&& big.len() == 24
            &&& forall|i: int| 0 <= i < 16 ==> #[trigger] little[i] == 0
            &&& forall|i: int| 0 <= i < 16 ==> #[trigger] big[i] == 0
            &&& event.0 == little[16] + little[17] * 0x100
            &&& event.0 == big[16] * 0x100 + big[17]
            &&& event.1 == little[18] + little[19] * 0x100
            &&& event.1 == big[18] * 0x100 + big[19]
            &&& value == little[20] + little[21] * 0x100 + little[22] * 0x1_0000 + little[23]
                * 0x100_0000
            &&& value == big[20] * 0x100_0000 + big[21] * 0x1_0000 + big[22] * 0x100 + big[23]
        }),
{
    reveal_with_fuel(be_bytes, 5);
    crate::wire::lemma_field_bounds();
    let kind = be_bytes(event.0 as nat, 2);
    let code = be_bytes(event.1 as nat, 2);
    let value = be_bytes(twos_complement(event.2), 4);
    law_be_round_trip(event.0 as nat, 2);
    law_be_round_trip(event.1 as nat, 2);
    law_be_round_trip(twos_complement(event.2), 4);
    crate::wire::law_bytes_count_by_place(Seq::empty(), kind);
    crate::wire::law_bytes_count_by_place(Seq::empty(), code);
    crate::wire::law_bytes_count_by_place(Seq::empty(), value);
    let big = event_bytes(event, ByteOrder::Big);
    let little = event_bytes(event, ByteOrder::Little);
    assert(big[16] == kind[0] && big[17] == kind[1]);
    assert(big[18] == code[0] && big[19] == code[1]);
    assert(big[20] == value[0] && big[21] == value[1] && big[22] == value[2] && big[23] == value[3]);
    assert(little[16] == kind[1] && little[17] == kind[0]);
    assert(little[18] == code[1] && little[19] == code[0]);
    assert(little[20] == value[3] && little[21] == value[2] && little[22] == value[1] && little[23]
        == value[0]);
}

/// A touch moves the pointer by five events: far to the left and far up, then to the right and down by
/// the position of the output and the offset within it, as far as numbers reach, and a report.
pub proof fn law_touches_move_the_pointer(geometry: OutputGeometry, dx: i32, dy: i32)
    ensures
        ({
            let moves = touch_moves(geometry, dx, dy);
            let x = geometry.x + dx;
            let y = geometry.y + dy;
            &&& moves.len() == 5
            &&& moves[0] == (2u16, 0u16, i32::MIN)
            &&& moves[1] == (2u16, 1u16, i32::MIN)
            &&& moves[2].0 == 2 && moves[2].1 == 0
            &&& i32::MIN <= x <= i32::MAX ==> moves[2].2 == x
            &&& x > i32::MAX ==> moves[2].2 == i32::MAX
            &&& x < i32::MIN ==> moves[2].2 == i32::MIN
            &&& moves[3].0 == 2 && moves[3].1 == 1
            &&& i32::MIN <= y <= i32::MAX ==> moves[3].2 == y
            &&& y > i32::MAX ==> moves[3].2 == i32::MAX
            &&& y < i32::MIN ==> moves[3].2 == i32::MIN
            &&& moves[4] == (0u16, 0u16, 0i32)
        }),
{
}

/// The last column and the last row of an output lie one less than its size from its corner.
pub proof fn law_offsets_reach_the_last_pixel(geometry: OutputGeometry)
    ensures
        geometry.width > 0 ==> last_offsets(geometry).0 + 1 == geometry.width,
        geometry.height > 0 ==> last_offsets(geometry).1 + 1 == geometry.height,
        geometry.width == 0 ==> last_offsets(geometry).0 == 0,
        geometry.height == 0 ==> last_offsets(geometry).1 == 0,
{
}

/// A touch that begins (0) presses a button that is up, one that ends (2) or is called off (3)
/// releases one that is down, and nothing else changes it. A press is the event of type 1, the left
/// button and 1, a release the same with 0; a report follows.
pub proof fn law_touches_work_the_button(down: bool, action: u8)
    ensures
        button_change(down, action) == Some(ButtonChange::Press) <==> action == 0 && !down,
        button_change(down, action) == Some(ButtonChange::Release) <==> (action == 2 || action == 3)
            && down,
        down_after(ButtonChange::Press),
        !down_after(ButtonChange::Release),
        button_events(ButtonChange::Press) == seq![(1u16, 0x110u16, 1i32), (0u16, 0u16, 0i32)],
        button_events(ButtonChange::Release) == seq![(1u16, 0x110u16, 0i32), (0u16, 0u16, 0i32)],
{
}

} // verus!
