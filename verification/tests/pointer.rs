use niri_android_monitor::geometry::OutputGeometry;
use niri_android_monitor::messages::Touch;
use niri_android_monitor::pointer::{
    change_button, check_sent, encode_event, event_packet, move_absolute, offset_range,
    order_of_one, packet_ordered_like, target_position, ButtonChange, ByteOrder, Pointer,
};

fn touch(action: u8) -> Touch {
    Touch { action, x: 0, y: 0 }
}

const ORIGIN: OutputGeometry = OutputGeometry { x: 0, y: 0, width: 10, height: 10 };

#[test]
fn pointer_moves_from_the_corner() {
    assert_eq!(
        move_absolute(5, -7),
        [(2, 0, i32::MIN), (2, 1, i32::MIN), (2, 0, 5), (2, 1, -7), (0, 0, 0)]
    );
}

#[test]
fn button_events_end_with_a_report() {
    assert_eq!(change_button(ButtonChange::Press), [(1, 0x110, 1), (0, 0, 0)]);
    assert_eq!(change_button(ButtonChange::Release), [(1, 0x110, 0), (0, 0, 0)]);
}

#[test]
fn down_presses_and_up_or_cancel_releases() {
    for end in [2, 3] {
        let mut pointer = Pointer::new();
        let plan = pointer.handle(touch(0), ORIGIN, 3, 4);
        assert_eq!(plan.moves, move_absolute(3, 4));
        assert_eq!(plan.button, Some(ButtonChange::Press));
        pointer.button_sent(ButtonChange::Press);
        assert_eq!(pointer.handle(touch(0), ORIGIN, 3, 4).button, None);
        assert_eq!(pointer.handle(touch(1), ORIGIN, 5, 6).button, None);
        assert_eq!(pointer.handle(touch(1), ORIGIN, 5, 6).moves, move_absolute(5, 6));
        assert_eq!(pointer.handle(touch(end), ORIGIN, 0, 0).button, Some(ButtonChange::Release));
        pointer.button_sent(ButtonChange::Release);
        assert_eq!(pointer.handle(touch(end), ORIGIN, 0, 0).button, None);
        assert_eq!(pointer.handle(touch(9), ORIGIN, 0, 0).button, None);
    }
}

#[test]
fn button_that_is_down_is_released_at_the_end() {
    let mut pointer = Pointer::new();
    assert_eq!(pointer.release_button(), None);
    pointer.button_sent(ButtonChange::Press);
    assert_eq!(pointer.release_button(), Some(ButtonChange::Release));
    pointer.button_sent(ButtonChange::Release);
    assert_eq!(pointer.release_button(), None);
}

#[test]
fn presses_and_releases_take_turns() {
    let mut pointer = Pointer::new();
    let mut changes = Vec::new();
    for action in [2, 0, 0, 1, 3, 3, 0, 2, 2, 0] {
        if let Some(change) = pointer.handle(touch(action), ORIGIN, 0, 0).button {
            pointer.button_sent(change);
            changes.push(change);
        }
    }
    if let Some(change) = pointer.release_button() {
        pointer.button_sent(change);
        changes.push(change);
    }
    let pair = [ButtonChange::Press, ButtonChange::Release];
    assert_eq!(changes, [pair, pair, pair].concat());
}

#[test]
fn targets_stay_in_range() {
    let geometry = OutputGeometry { x: 3440, y: -100, width: 1920, height: 1080 };
    assert_eq!(target_position(geometry, 0, 0), (3440, -100));
    assert_eq!(target_position(geometry, 1919, 1079), (5359, 979));
    let far = OutputGeometry { x: i32::MAX - 1, y: i32::MIN, width: 0, height: 1 };
    assert_eq!(target_position(far, 5, 0), (i32::MAX, i32::MIN));
    assert_eq!(target_position(far, -2, -1), (i32::MAX - 3, i32::MIN));
    assert_eq!(offset_range(geometry), (1919, 1079));
    assert_eq!(offset_range(far), (0, 0));
}

#[test]
fn packets_have_the_layout_of_an_input_event() {
    let little = encode_event((1, 0x110, -2), ByteOrder::Little);
    let mut expected = vec![0; 16];
    expected.extend([1, 0, 0x10, 1, 0xfe, 0xff, 0xff, 0xff]);
    assert_eq!(little, expected);
    let big = encode_event((1, 0x110, -2), ByteOrder::Big);
    assert_eq!(big[16..], [0, 1, 1, 0x10, 0xff, 0xff, 0xff, 0xfe]);
    assert_eq!(little.len(), 24);
}

#[test]
fn packets_are_in_the_order_of_the_machine() {
    for event in [(2u16, 1u16, i32::MIN), (1, 0x110, 1), (0xabcd, 0x1234, 0x0102_0304)] {
        let mut expected = vec![0; 16];
        expected.extend(event.0.to_ne_bytes());
        expected.extend(event.1.to_ne_bytes());
        expected.extend(event.2.to_ne_bytes());
        assert_eq!(event_packet(event), expected);
    }
    let event = (1, 0x110, -2);
    assert_eq!(packet_ordered_like(event, [1, 0]), encode_event(event, ByteOrder::Little));
    assert_eq!(packet_ordered_like(event, [0, 1]), encode_event(event, ByteOrder::Big));
    assert_eq!(order_of_one([1, 0]), ByteOrder::Little);
    assert_eq!(order_of_one([0, 1]), ByteOrder::Big);
}

#[test]
fn short_sends_are_errors() {
    assert_eq!(check_sent(24, 24), Ok(()));
    assert_eq!(check_sent(23, 24), Err("short ydotool send".to_string()));
}
