use std::collections::HashSet;

use wayland_extras::event::{
    Angle, Azimuth, DeviceId, Double, EventSink, Force, Fraction, PenEvent, PenToolType,
    PhysicalPosition, TouchPhase, WindowEvent, WindowId, FULL_SCALE,
};
use wayland_extras::protocol::{ButtonState, SeatEvent, ToolEvent, ToolKind, WEnum};
use wayland_extras::tablet::{SeatTabletState, TabletState, WinitState};
use wayland_extras::tool::{join_serial, set_button, PenTool, ToolFrame};

const SEAT: u64 = 3;
const TOOL: u64 = 7;
const WINDOW: u64 = 11;

fn double(value: f64) -> Double {
    Double { bits: value.to_bits() }
}

/// A client with one seat, one tool and one window.
fn client() -> WinitState {
    let mut tablets = TabletState::new();
    tablets.add_seat(SEAT);
    let mut state = WinitState {
        tablet_state: Some(tablets),
        windows: HashSet::from([WINDOW]),
        events_sink: EventSink { window_events: Vec::new() },
    };
    TabletState::seat_event(&mut state, SeatEvent::ToolAdded { id: TOOL });
    state
}

fn send(state: &mut WinitState, event: ToolEvent) {
    TabletState::tool_event(state, TOOL, event);
}

fn approach(state: &mut WinitState) {
    send(state, ToolEvent::ProximityIn { surface: WINDOW });
    send(state, ToolEvent::Motion { x: double(10.5), y: double(-2.25) });
}

/// Ends the frame, and returns the pen event that was queued.
fn frame(state: &mut WinitState) -> PenEvent {
    let before = state.events_sink.window_events.len();
    send(state, ToolEvent::Frame);
    assert_eq!(state.events_sink.window_events.len(), before + 1);
    let (WindowEvent::Pen(pen), window_id) = state.events_sink.window_events[before];
    assert_eq!(window_id, WindowId { id: WINDOW });
    pen
}

fn queued(state: &WinitState) -> usize {
    state.events_sink.window_events.len()
}

#[test]
fn hovering_pen_is_reported() {
    let mut state = client();
    approach(&mut state);
    assert_eq!(
        frame(&mut state),
        PenEvent {
            device_id: DeviceId,
            phase: TouchPhase::Moved,
            location: PhysicalPosition { x: double(10.5), y: double(-2.25) },
            force: None,
            tilt_x: None,
            tilt_y: None,
            orientation: None,
            hover_distance: Some(Fraction { numerator: FULL_SCALE }),
            tool_type: Some(PenToolType::Pen),
            button_state: Some(0),
            id: 1,
        }
    );
}

#[test]
fn touching_pen_is_reported() {
    let mut state = client();
    approach(&mut state);
    send(&mut state, ToolEvent::Down);
    send(&mut state, ToolEvent::Pressure { pressure: 32768 });
    send(&mut state, ToolEvent::Tilt { tilt_x: double(30.0), tilt_y: double(-45.0) });
    send(&mut state, ToolEvent::Rotation { degrees: double(90.0) });
    let tilt_x = Angle { degrees: double(-30.0) };
    let tilt_y = Angle { degrees: double(-45.0) };
    let pen = frame(&mut state);
    assert_eq!(pen.phase, TouchPhase::Moved);
    assert_eq!(pen.force, Some(Force::Normalized(Fraction { numerator: 32768 })));
    assert_eq!(pen.tilt_x, Some(tilt_x));
    assert_eq!(pen.tilt_y, Some(tilt_y));
    assert_eq!(pen.orientation, Some(Azimuth { tilt_x, tilt_y }));
    assert_eq!(pen.hover_distance, Some(Fraction { numerator: 0 }));
}

#[test]
fn touch_without_pressure_has_no_weight() {
    let mut state = client();
    approach(&mut state);
    send(&mut state, ToolEvent::Down);
    assert_eq!(frame(&mut state).force, Some(Force::Normalized(Fraction { numerator: 0 })));
    send(&mut state, ToolEvent::Pressure { pressure: 0 });
    assert_eq!(frame(&mut state).force, Some(Force::Normalized(Fraction { numerator: 0 })));
    send(&mut state, ToolEvent::Pressure { pressure: 9 });
    send(&mut state, ToolEvent::Up);
    let pen = frame(&mut state);
    assert_eq!(pen.force, None);
    assert_eq!(pen.phase, TouchPhase::Moved);
}

#[test]
fn reported_distance_counts_above_the_surface() {
    let mut state = client();
    approach(&mut state);
    send(&mut state, ToolEvent::Distance { distance: 1234 });
    assert_eq!(frame(&mut state).hover_distance, Some(Fraction { numerator: 1234 }));
    send(&mut state, ToolEvent::Down);
    assert_eq!(frame(&mut state).hover_distance, Some(Fraction { numerator: 0 }));
    send(&mut state, ToolEvent::Up);
    assert_eq!(frame(&mut state).hover_distance, Some(Fraction { numerator: 1234 }));
}

#[test]
fn touching_pen_is_at_the_surface() {
    let mut state = client();
    send(&mut state, ToolEvent::ProximityIn { surface: WINDOW });
    send(&mut state, ToolEvent::Motion { x: double(1.0), y: double(2.0) });
    send(&mut state, ToolEvent::Distance { distance: FULL_SCALE });
    send(&mut state, ToolEvent::Down);
    assert_eq!(frame(&mut state).hover_distance, Some(Fraction { numerator: 0 }));
    assert_eq!(queued(&state), 1);
}

#[test]
fn only_frames_are_reported() {
    let mut state = client();
    approach(&mut state);
    send(&mut state, ToolEvent::Down);
    send(&mut state, ToolEvent::Capability);
    send(&mut state, ToolEvent::HardwareIdWacom);
    send(&mut state, ToolEvent::Done);
    send(&mut state, ToolEvent::Other);
    assert_eq!(queued(&state), 0);
    frame(&mut state);
    frame(&mut state);
    assert_eq!(queued(&state), 2);
}

#[test]
fn leaving_proximity_is_silent_and_forgets() {
    let mut state = client();
    approach(&mut state);
    send(&mut state, ToolEvent::Down);
    send(&mut state, ToolEvent::Button { button: 0, state: WEnum::Value(ButtonState::Pressed) });
    send(&mut state, ToolEvent::ProximityOut);
    send(&mut state, ToolEvent::Frame);
    assert_eq!(queued(&state), 0);
    // Near again, but the position is not known yet.
    send(&mut state, ToolEvent::ProximityIn { surface: WINDOW });
    send(&mut state, ToolEvent::Frame);
    assert_eq!(queued(&state), 0);
    send(&mut state, ToolEvent::Motion { x: double(1.0), y: double(1.0) });
    let pen = frame(&mut state);
    assert_eq!(pen.force, None);
    assert_eq!(pen.button_state, Some(0));
    assert_eq!(pen.id, 1);
}

#[test]
fn removed_tool_ends_its_stroke() {
    let mut state = client();
    approach(&mut state);
    send(&mut state, ToolEvent::Down);
    send(&mut state, ToolEvent::Removed);
    assert_eq!(frame(&mut state).phase, TouchPhase::Ended);
    send(&mut state, ToolEvent::ProximityOut);
    approach(&mut state);
    assert_eq!(frame(&mut state).phase, TouchPhase::Moved);
}

#[test]
fn surface_without_window_hears_nothing() {
    let mut state = client();
    send(&mut state, ToolEvent::ProximityIn { surface: WINDOW + 1 });
    send(&mut state, ToolEvent::Motion { x: double(0.0), y: double(0.0) });
    send(&mut state, ToolEvent::Frame);
    assert_eq!(queued(&state), 0);
    state.windows.insert(WINDOW + 1);
    send(&mut state, ToolEvent::Frame);
    assert_eq!(queued(&state), 1);
    assert_eq!(state.events_sink.window_events[0].1, WindowId { id: WINDOW + 1 });
}

#[test]
fn windows_are_found_by_surface() {
    let windows = HashSet::from([4u64, 9]);
    assert_eq!(TabletState::find_window(&windows, 9), Some(WindowId { id: 9 }));
    assert_eq!(TabletState::find_window(&windows, 5), None);
}

#[test]
fn tool_types() {
    let mut state = client();
    approach(&mut state);
    let cases = vec![
        (WEnum::Value(ToolKind::Eraser), PenToolType::Eraser),
        (WEnum::Value(ToolKind::Brush), PenToolType::Pen),
        (WEnum::Unknown(0x199), PenToolType::Unknown),
        (WEnum::Value(ToolKind::Pen), PenToolType::Pen),
        (WEnum::Value(ToolKind::Lens), PenToolType::Pen),
    ];
    for (tool_type, expected) in cases {
        send(&mut state, ToolEvent::Type { tool_type });
        assert_eq!(frame(&mut state).tool_type, Some(expected));
    }
}

#[test]
fn hardware_serial_replaces_the_number() {
    let mut state = client();
    approach(&mut state);
    send(
        &mut state,
        ToolEvent::HardwareSerial { hardware_serial_hi: 0x0123_4567, hardware_serial_lo: 0x89ab_cdef },
    );
    assert_eq!(frame(&mut state).id, 0x0123_4567_89ab_cdef);
    assert_eq!(join_serial(u32::MAX, u32::MAX), u64::MAX);
    assert_eq!(join_serial(0, 1), 1);
}

#[test]
fn buttons_are_bits() {
    let mut state = client();
    approach(&mut state);
    // BTN_STYLUS and BTN_STYLUS2 of evdev.
    let first: u32 = 0x14b;
    let second: u32 = 0x14c;
    send(&mut state, ToolEvent::Button { button: first, state: WEnum::Value(ButtonState::Pressed) });
    send(&mut state, ToolEvent::Button { button: second, state: WEnum::Value(ButtonState::Pressed) });
    assert_eq!(frame(&mut state).button_state, Some(0b1_1000_0000_0000));
    send(&mut state, ToolEvent::Button { button: first, state: WEnum::Value(ButtonState::Released) });
    assert_eq!(frame(&mut state).button_state, Some(0b1_0000_0000_0000));
    send(&mut state, ToolEvent::Button { button: second, state: WEnum::Unknown(5) });
    assert_eq!(frame(&mut state).button_state, Some(0));
}

#[test]
fn button_codes_agree_modulo_the_word() {
    assert_eq!(set_button(0, 33, true), 2);
    assert_eq!(set_button(0, 31, true), 0x8000_0000);
    assert_eq!(set_button(u32::MAX, 64, false), u32::MAX - 1);
    assert_eq!(set_button(set_button(0b1010, 2, true), 2, false), 0b1010);
    assert_eq!(set_button(set_button(0b1010, 1, false), 1, true), 0b1010);
}

#[test]
fn negation_changes_the_sign_bit_only() {
    for value in [0.0f64, -0.0, 1.5, -30.0, f64::INFINITY, f64::MIN_POSITIVE] {
        assert_eq!(double(value).negated(), double(-value));
        assert_eq!(double(value).negated().negated(), double(value));
    }
}

#[test]
fn serial_numbers_count_from_one() {
    let mut tablets = TabletState::new();
    assert_eq!(tablets.next_pen_id(), 1);
    assert_eq!(tablets.next_pen_id(), 2);
    assert_eq!(tablets.next_pen_id(), 3);
}

#[test]
fn number_is_used_up_without_a_seat() {
    let mut tablets = TabletState::new();
    tablets.announce(SeatEvent::ToolAdded { id: TOOL });
    assert_eq!(tablets.next_pen_id(), 2);
    tablets.announce(SeatEvent::TabletAdded);
    tablets.announce(SeatEvent::PadAdded);
    tablets.announce(SeatEvent::Other);
    assert_eq!(tablets.next_pen_id(), 3);
}

#[test]
fn second_tool_has_its_own_frame() {
    let mut state = client();
    TabletState::seat_event(&mut state, SeatEvent::ToolAdded { id: TOOL + 1 });
    approach(&mut state);
    TabletState::tool_event(&mut state, TOOL + 1, ToolEvent::Frame);
    assert_eq!(queued(&state), 0);
    TabletState::tool_event(&mut state, TOOL + 1, ToolEvent::ProximityIn { surface: WINDOW });
    TabletState::tool_event(
        &mut state,
        TOOL + 1,
        ToolEvent::Motion { x: double(5.0), y: double(6.0) },
    );
    TabletState::tool_event(&mut state, TOOL + 1, ToolEvent::Frame);
    let (WindowEvent::Pen(pen), _) = state.events_sink.window_events[0];
    assert_eq!(pen.id, 2);
    assert_eq!(pen.location, PhysicalPosition { x: double(5.0), y: double(6.0) });
    assert_eq!(frame(&mut state).location, PhysicalPosition { x: double(10.5), y: double(-2.25) });
}

#[test]
fn tool_added_again_starts_anew() {
    let mut state = client();
    approach(&mut state);
    TabletState::seat_event(&mut state, SeatEvent::ToolAdded { id: TOOL });
    send(&mut state, ToolEvent::Frame);
    assert_eq!(queued(&state), 0);
    approach(&mut state);
    assert_eq!(frame(&mut state).id, 2);
}

#[test]
fn unknown_tool_is_ignored() {
    let mut state = client();
    approach(&mut state);
    TabletState::tool_event(&mut state, TOOL + 5, ToolEvent::ProximityOut);
    TabletState::tool_event(&mut state, TOOL + 5, ToolEvent::Frame);
    assert_eq!(queued(&state), 0);
    frame(&mut state);
}

#[test]
fn removed_seat_takes_its_tools_along() {
    let mut state = client();
    approach(&mut state);
    match state.tablet_state.as_mut() {
        Some(tablets) => tablets.remove_seat(&SEAT),
        None => unreachable!(),
    }
    send(&mut state, ToolEvent::Frame);
    assert_eq!(queued(&state), 0);
    match state.tablet_state.as_mut() {
        Some(tablets) => tablets.add_seat(SEAT),
        None => unreachable!(),
    }
    send(&mut state, ToolEvent::Frame);
    assert_eq!(queued(&state), 0);
}

#[test]
fn removing_an_unknown_seat_changes_nothing() {
    let mut state = client();
    approach(&mut state);
    match state.tablet_state.as_mut() {
        Some(tablets) => tablets.remove_seat(&(SEAT + 1)),
        None => unreachable!(),
    }
    frame(&mut state);
}

#[test]
fn seat_added_again_loses_its_tools() {
    let mut state = client();
    approach(&mut state);
    match state.tablet_state.as_mut() {
        Some(tablets) => tablets.add_seat(SEAT),
        None => unreachable!(),
    }
    send(&mut state, ToolEvent::Frame);
    assert_eq!(queued(&state), 0);
}

#[test]
fn one_of_two_seats_gets_the_tool() {
    let mut tablets = TabletState::new();
    tablets.add_seat(SEAT);
    tablets.add_seat(SEAT + 1);
    let mut state = WinitState {
        tablet_state: Some(tablets),
        windows: HashSet::from([WINDOW]),
        events_sink: EventSink { window_events: Vec::new() },
    };
    TabletState::seat_event(&mut state, SeatEvent::ToolAdded { id: TOOL });
    approach(&mut state);
    assert_eq!(frame(&mut state).id, 1);
}

#[test]
fn nothing_happens_without_the_protocol() {
    let mut state = WinitState {
        tablet_state: None,
        windows: HashSet::from([WINDOW]),
        events_sink: EventSink { window_events: Vec::new() },
    };
    TabletState::seat_event(&mut state, SeatEvent::ToolAdded { id: TOOL });
    approach(&mut state);
    send(&mut state, ToolEvent::Frame);
    assert!(state.tablet_state.is_none());
    assert_eq!(queued(&state), 0);
}

#[test]
fn seat_reports_for_its_tools() {
    let windows = HashSet::from([WINDOW]);
    let mut sink = EventSink { window_events: Vec::new() };
    let mut seat = SeatTabletState::new();
    seat.report(TOOL, ToolEvent::Frame, &windows, &mut sink);
    let mut tool = PenTool::new(40);
    assert_eq!(tool.update(ToolEvent::ProximityIn { surface: WINDOW }), None);
    assert_eq!(tool.pen_event(), None);
    assert_eq!(tool.update(ToolEvent::Motion { x: double(1.0), y: double(2.0) }), None);
    assert_eq!(tool.update(ToolEvent::Frame), Some(WINDOW));
    let expected = tool.pen_event();
    seat.add_tool(TOOL, tool);
    seat.report(TOOL, ToolEvent::Frame, &windows, &mut sink);
    assert_eq!(sink.window_events.len(), 1);
    let (WindowEvent::Pen(pen), _) = sink.window_events[0];
    assert_eq!(Some(pen), expected);
    assert_eq!(pen.id, 40);
    assert_eq!(tool.update(ToolEvent::ProximityOut), Some(WINDOW));
    assert_eq!(tool.pen_event(), None);
}

#[test]
fn frame_out_of_proximity() {
    let frame = ToolFrame::default();
    assert_eq!(frame.phase(), TouchPhase::Ended);
    assert_eq!(frame.force(), None);
    assert_eq!(frame.hover_distance(), None);
    assert!(!frame.in_proximity && frame.surface.is_none() && frame.buttons == 0);
}

#[test]
fn rotation_is_not_reported() {
    let mut state = client();
    approach(&mut state);
    send(&mut state, ToolEvent::Tilt { tilt_x: double(0.0), tilt_y: double(5.0) });
    let before = frame(&mut state);
    send(&mut state, ToolEvent::Rotation { degrees: double(123.0) });
    assert_eq!(frame(&mut state), before);
    assert_eq!(before.tilt_x, Some(Angle { degrees: double(-0.0) }));
}

#[test]
fn position_holds_between_motions() {
    let mut state = client();
    approach(&mut state);
    let first = frame(&mut state).location;
    send(&mut state, ToolEvent::Down);
    send(&mut state, ToolEvent::Pressure { pressure: 3 });
    assert_eq!(frame(&mut state).location, first);
    send(&mut state, ToolEvent::Motion { x: double(0.0), y: double(0.0) });
    assert_eq!(frame(&mut state).location, PhysicalPosition { x: double(0.0), y: double(0.0) });
}
