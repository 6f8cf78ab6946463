//! What a pen event says of the history of its tool.
//!
//! Each law here speaks of a tool in any state that takes in any sequence of
//! events. Where one event of the sequence is the last that has a say in some part
//! of the tool, the law gives that part, and what a pen event then reports of it.

use vstd::prelude::*;

use crate::event::{Angle, DeviceId, Double, Force, Fraction, PenToolType, TouchPhase};
use crate::protocol::{ButtonState, ObjectId, ToolEvent, ToolKind, WEnum};
use crate::tool::{after_all, is_held, law_button_event, PenTool};

verus! {

/// What no event decides stays.
proof fn lemma_holds<A>(
    tool: PenTool,
    events: Seq<ToolEvent>,
    part: spec_fn(PenTool) -> A,
    decides: spec_fn(ToolEvent) -> bool,
)
    requires
        forall|t: PenTool, e: ToolEvent| !decides(e) ==> part(#[trigger] t.updated(e)) == part(t),
        forall|i: int| 0 <= i < events.len() ==> !decides(#[trigger] events[i]),
    ensures
        part(after_all(tool, events)) == part(tool),
    decreases events.len(),
{
    if events.len() > 0 {
        let earlier = events.drop_last();
        assert forall|i: int| 0 <= i < earlier.len() implies !decides(#[trigger] earlier[i]) by {
            assert(earlier[i] == events[i]);
        }
        lemma_holds(tool, earlier, part, decides);
        assert(!decides(events[events.len() - 1]));
        assert(part(after_all(tool, earlier).updated(events.last())) == part(
            after_all(tool, earlier),
        ));
    }
}

/// The last event that decides a part decides it.
proof fn lemma_last<A>(
    tool: PenTool,
    events: Seq<ToolEvent>,
    k: int,
    part: spec_fn(PenTool) -> A,
    decides: spec_fn(ToolEvent) -> bool,
) -> (before: PenTool)
    requires
        forall|t: PenTool, e: ToolEvent| !decides(e) ==> part(#[trigger] t.updated(e)) == part(t),
        0 <= k < events.len(),
        forall|i: int| k < i < events.len() ==> !decides(#[trigger] events[i]),
    ensures
        part(after_all(tool, events)) == part(before.updated(events[k])),
    decreases events.len(),
{
    let earlier = events.drop_last();
    if k == events.len() - 1 {
        after_all(tool, earlier)
    } else {
        assert forall|i: int| k < i < earlier.len() implies !decides(#[trigger] earlier[i]) by {
            assert(earlier[i] == events[i]);
        }
        let before = lemma_last(tool, earlier, k, part, decides);
        assert(earlier[k] == events[k]);
        assert(!decides(events[events.len() - 1]));
        assert(part(after_all(tool, earlier).updated(events.last())) == part(
            after_all(tool, earlier),
        ));
        before
    }
}

/// A pen event says of a tool, in every state:
/// - it exists exactly where the position is known, and gives it;
/// - the stroke has ended exactly where the tool was removed, or neither touches
///   nor is in proximity;
/// - there is a force exactly while the tool touches, which is the last pressure,
///   and zero where there was none;
/// - it has the type, the buttons and the serial number of the tool.
pub proof fn law_pen_event_says(tool: PenTool)
    ensures
        tool.spec_pen_event() is Some <==> tool.frame.position is Some,
        tool.spec_pen_event() matches Some(pen) ==> {
            &&& tool.frame.position == Some((pen.location.x, pen.location.y))
            &&& pen.phase == TouchPhase::Ended <==> tool.frame.removed || !tool.frame.touching
                && !tool.frame.in_proximity
            &&& pen.phase == TouchPhase::Moved || pen.phase == TouchPhase::Ended
            &&& pen.force is Some <==> tool.frame.touching
            &&& forall|n: u32| #[trigger]
                pen.force == Some(Force::Normalized(Fraction { numerator: n })) <==> tool.frame.touching
                    && (tool.frame.pressure == Some(n) || tool.frame.pressure is None && n == 0)
            &&& pen.tool_type == Some(tool.tool_type)
            &&& pen.button_state == Some(tool.frame.buttons)
            &&& pen.id == tool.serial
            &&& pen.device_id == DeviceId
        },
{
}

/// A reported tilt along x has the size of the one that the tool gave and the
/// other sign, for either sign; the tilt along y is the one that the tool gave. The
/// direction is that of these two. Without a tilt there is none of the three.
pub proof fn law_tilt_is_reported(tool: PenTool)
    ensures
        tool.spec_pen_event() matches Some(pen) ==> match tool.frame.tilt {
            Some((tilt_x, tilt_y)) => {
                &&& pen.tilt_x matches Some(x)
                &&& x.degrees.magnitude() == tilt_x.magnitude()
                &&& x.degrees.is_negative() <==> !tilt_x.is_negative()
                &&& pen.tilt_y == Some(Angle { degrees: tilt_y })
                &&& pen.orientation matches Some(azimuth)
                &&& azimuth.tilt_x == x
                &&& azimuth.tilt_y.degrees == tilt_y
            },
            None => pen.tilt_x is None && pen.tilt_y is None && pen.orientation is None,
        },
{
}

/// Tools that lean to opposite sides along x, and alike along y, are reported with
/// opposite tilts along x, never with the same.
pub proof fn law_sides_are_told_apart(a: PenTool, b: PenTool)
    requires
        a.frame.position is Some,
        b.frame.position is Some,
        a.frame.tilt matches Some((ax, _)) && b.frame.tilt matches Some((bx, _))
            && ax.magnitude() == bx.magnitude() && ax.is_negative() != bx.is_negative(),
    ensures
        ({
            let pa = a.spec_pen_event().unwrap();
            let pb = b.spec_pen_event().unwrap();
            &&& pa.tilt_x.unwrap().degrees.is_negative() != pb.tilt_x.unwrap().degrees.is_negative()
            &&& pa.tilt_x != pb.tilt_x
            &&& pa.orientation != pb.orientation
        }),
{
    law_tilt_is_reported(a);
    law_tilt_is_reported(b);
}

/// A pen event has a distance exactly while the tool is in proximity. It is zero
/// while the tool touches; else the last distance, and one where there was none.
pub proof fn law_distance_is_reported(tool: PenTool)
    ensures
        tool.spec_pen_event() matches Some(pen) ==> {
            &&& pen.hover_distance is Some <==> tool.frame.in_proximity
            &&& pen.hover_distance matches Some(fraction) ==> {
                &&& tool.frame.touching ==> fraction.numerator == 0
                &&& !tool.frame.touching && tool.frame.distance is None ==> fraction.numerator
                    == 65535
                &&& !tool.frame.touching && tool.frame.distance is Some ==> tool.frame.distance
                    == Some(fraction.numerator)
            }
        },
{
}

/// What a frame gives by itself is what it gives in a pen event, whether its
/// position is known or not: the other parts of a frame have no say.
pub proof fn law_frame_parts_stand_alone(tool: PenTool, x: Double, y: Double)
    ensures
        ({
            let placed = tool.updated(ToolEvent::Motion { x, y });
            let pen = placed.spec_pen_event().unwrap();
            &&& placed.spec_pen_event() is Some
            &&& pen.phase == tool.frame.spec_phase()
            &&& pen.force == tool.frame.spec_force()
            &&& pen.hover_distance == tool.frame.spec_hover_distance()
        }),
{
}

/// The last pressure counts: until the next one, or until the tool leaves
/// proximity, it is the force of the tool while it touches.
pub proof fn law_last_pressure(tool: PenTool, events: Seq<ToolEvent>, k: int, pressure: u32)
    requires
        0 <= k < events.len(),
        events[k] == (ToolEvent::Pressure { pressure }),
        forall|i: int|
            k < i < events.len() ==> !(#[trigger] events[i] is Pressure) && !(
            events[i] is ProximityOut),
    ensures
        ({
            let after = after_all(tool, events);
            &&& after.frame.pressure == Some(pressure)
            &&& after.spec_pen_event() matches Some(pen) ==> if after.frame.touching {
                pen.force == Some(Force::Normalized(Fraction { numerator: pressure }))
            } else {
                pen.force is None
            }
        }),
{
    let _ = lemma_last(
        tool,
        events,
        k,
        |t: PenTool| t.frame.pressure,
        |e: ToolEvent| e is Pressure || e is ProximityOut,
    );
    law_pen_event_says(after_all(tool, events));
}

/// The last distance counts: until the next one, or until the tool leaves
/// proximity, it is the distance of the tool while it is near and does not touch.
pub proof fn law_last_distance(tool: PenTool, events: Seq<ToolEvent>, k: int, distance: u32)
    requires
        0 <= k < events.len(),
        events[k] == (ToolEvent::Distance { distance }),
        forall|i: int|
            k < i < events.len() ==> !(#[trigger] events[i] is Distance) && !(
            events[i] is ProximityOut),
    ensures
        ({
            let after = after_all(tool, events);
            &&& after.frame.distance == Some(distance)
            &&& after.spec_pen_event() matches Some(pen) ==> (after.frame.in_proximity ==> (
            pen.hover_distance matches Some(fraction) && fraction.numerator == (
            if after.frame.touching {
                0
            } else {
                distance
            })))
        }),
{
    let _ = lemma_last(
        tool,
        events,
        k,
        |t: PenTool| t.frame.distance,
        |e: ToolEvent| e is Distance || e is ProximityOut,
    );
    law_distance_is_reported(after_all(tool, events));
}

/// The last tilt counts: until the next one, or until the tool leaves proximity,
/// pen events report it, with the sign along x changed.
pub proof fn law_last_tilt(
    tool: PenTool,
    events: Seq<ToolEvent>,
    k: int,
    tilt_x: Double,
    tilt_y: Double,
)
    requires
        0 <= k < events.len(),
        events[k] == (ToolEvent::Tilt { tilt_x, tilt_y }),
        forall|i: int|
            k < i < events.len() ==> !(#[trigger] events[i] is Tilt) && !(
            events[i] is ProximityOut),
    ensures
        after_all(tool, events).frame.tilt == Some((tilt_x, tilt_y)),
        after_all(tool, events).spec_pen_event() matches Some(pen) ==> {
            &&& pen.tilt_x matches Some(x)
            &&& x.degrees.magnitude() == tilt_x.magnitude()
            &&& x.degrees.is_negative() <==> !tilt_x.is_negative()
            &&& pen.tilt_y == Some(Angle { degrees: tilt_y })
            &&& pen.orientation matches Some(azimuth)
            &&& azimuth.tilt_x == x
            &&& azimuth.tilt_y.degrees == tilt_y
        },
{
    let _ = lemma_last(
        tool,
        events,
        k,
        |t: PenTool| t.frame.tilt,
        |e: ToolEvent| e is Tilt || e is ProximityOut,
    );
    law_tilt_is_reported(after_all(tool, events));
}

/// The last motion counts: until the next one, or until the tool leaves proximity,
/// there is a pen event, and it is at that place.
pub proof fn law_last_motion(tool: PenTool, events: Seq<ToolEvent>, k: int, x: Double, y: Double)
    requires
        0 <= k < events.len(),
        events[k] == (ToolEvent::Motion { x, y }),
        forall|i: int|
            k < i < events.len() ==> !(#[trigger] events[i] is Motion) && !(
            events[i] is ProximityOut),
    ensures
        after_all(tool, events).spec_pen_event() matches Some(pen) && pen.location.x == x
            && pen.location.y == y,
{
    let _ = lemma_last(
        tool,
        events,
        k,
        |t: PenTool| t.frame.position,
        |e: ToolEvent| e is Motion || e is ProximityOut,
    );
    law_pen_event_says(after_all(tool, events));
}

/// The last rotation is kept until the next one, or until the tool leaves
/// proximity.
pub proof fn law_last_rotation(tool: PenTool, events: Seq<ToolEvent>, k: int, degrees: Double)
    requires
        0 <= k < events.len(),
        events[k] == (ToolEvent::Rotation { degrees }),
        forall|i: int|
            k < i < events.len() ==> !(#[trigger] events[i] is Rotation) && !(
            events[i] is ProximityOut),
    ensures
        after_all(tool, events).frame.rotation == Some(degrees),
{
    let _ = lemma_last(
        tool,
        events,
        k,
        |t: PenTool| t.frame.rotation,
        |e: ToolEvent| e is Rotation || e is ProximityOut,
    );
}

/// The last contact counts: from `Down` until `Up`, or until the tool leaves
/// proximity, it touches, and only then pen events have a force. A tool in
/// proximity that touches is at the surface.
pub proof fn law_last_contact(tool: PenTool, events: Seq<ToolEvent>, k: int)
    requires
        0 <= k < events.len(),
        events[k] is Down || events[k] is Up,
        forall|i: int|
            k < i < events.len() ==> !(#[trigger] events[i] is Down) && !(events[i] is Up) && !(
            events[i] is ProximityOut),
    ensures
        ({
            let after = after_all(tool, events);
            &&& after.frame.touching <==> events[k] is Down
            &&& after.spec_pen_event() matches Some(pen) ==> {
                &&& pen.force is Some <==> events[k] is Down
                &&& events[k] is Down && after.frame.in_proximity ==> pen.hover_distance == Some(
                    Fraction { numerator: 0 },
                )
                &&& events[k] is Down && !after.frame.removed ==> pen.phase == TouchPhase::Moved
            }
        }),
{
    let _ = lemma_last(
        tool,
        events,
        k,
        |t: PenTool| t.frame.touching,
        |e: ToolEvent| e is Down || e is Up || e is ProximityOut,
    );
    law_pen_event_says(after_all(tool, events));
    law_distance_is_reported(after_all(tool, events));
}

/// A tool that came into proximity of a surface is near that surface, and its
/// frames are for that surface, until it comes near another or leaves.
pub proof fn law_last_surface(tool: PenTool, events: Seq<ToolEvent>, k: int, surface: ObjectId)
    requires
        0 <= k < events.len(),
        events[k] == (ToolEvent::ProximityIn { surface }),
        forall|i: int|
            k < i < events.len() ==> !(#[trigger] events[i] is ProximityIn) && !(
            events[i] is ProximityOut),
    ensures
        ({
            let after = after_all(tool, events);
            &&& after.frame.in_proximity
            &&& after.reported_surface(ToolEvent::Frame) == Some(surface)
            &&& after.reported_surface(ToolEvent::ProximityOut) == Some(surface)
            &&& after.spec_pen_event() matches Some(pen) ==> {
                &&& pen.hover_distance is Some
                &&& pen.phase == TouchPhase::Ended <==> after.frame.removed
            }
        }),
{
    let _ = lemma_last(
        tool,
        events,
        k,
        |t: PenTool| (t.frame.in_proximity, t.frame.surface),
        |e: ToolEvent| e is ProximityIn || e is ProximityOut,
    );
    law_pen_event_says(after_all(tool, events));
    law_distance_is_reported(after_all(tool, events));
}

/// From its removal until it leaves proximity, every pen event of a tool ends the
/// stroke.
pub proof fn law_removal_ends_the_stroke(tool: PenTool, events: Seq<ToolEvent>, k: int)
    requires
        0 <= k < events.len(),
        events[k] is Removed,
        forall|i: int| k < i < events.len() ==> !(#[trigger] events[i] is ProximityOut),
    ensures
        after_all(tool, events).frame.removed,
        after_all(tool, events).spec_pen_event() matches Some(pen) ==> pen.phase
            == TouchPhase::Ended,
    decreases events.len(),
{
    if k < events.len() - 1 {
        let earlier = events.drop_last();
        assert(earlier[k] == events[k]);
        assert forall|i: int| k < i < earlier.len() implies !(#[trigger] earlier[
            i
        ] is ProximityOut) by {
            assert(earlier[i] == events[i]);
        }
        law_removal_ends_the_stroke(tool, earlier, k);
        assert(!(events[events.len() - 1] is ProximityOut));
    }
    law_pen_event_says(after_all(tool, events));
}

/// The last type counts, in proximity or not, and over any number of stays in
/// proximity: a tool is an eraser exactly for the protocol's eraser, unknown
/// exactly for a number outside the protocol, and else a pen. Pen events say so.
pub proof fn law_last_type(
    tool: PenTool,
    events: Seq<ToolEvent>,
    k: int,
    tool_type: WEnum<ToolKind>,
)
    requires
        0 <= k < events.len(),
        events[k] == (ToolEvent::Type { tool_type }),
        forall|i: int| k < i < events.len() ==> !(#[trigger] events[i] is Type),
    ensures
        ({
            let known = after_all(tool, events).tool_type;
            &&& known == PenToolType::Eraser <==> tool_type == WEnum::Value(ToolKind::Eraser)
            &&& known == PenToolType::Unknown <==> tool_type is Unknown
            &&& known == PenToolType::Pen <==> tool_type is Value && tool_type != WEnum::Value(
                ToolKind::Eraser,
            )
            &&& after_all(tool, events).spec_pen_event() matches Some(pen) ==> pen.tool_type
                == Some(known)
        }),
{
    let _ = lemma_last(
        tool,
        events,
        k,
        |t: PenTool| t.tool_type,
        |e: ToolEvent| e is Type,
    );
    law_pen_event_says(after_all(tool, events));
}

/// The last serial number counts, in proximity or not, and over any number of stays
/// in proximity; it is the upper half times 2^32 and the lower half. Pen events
/// have it.
pub proof fn law_last_serial(tool: PenTool, events: Seq<ToolEvent>, k: int, hi: u32, lo: u32)
    requires
        0 <= k < events.len(),
        events[k] == (ToolEvent::HardwareSerial { hardware_serial_hi: hi, hardware_serial_lo: lo }),
        forall|i: int| k < i < events.len() ==> !(#[trigger] events[i] is HardwareSerial),
    ensures
        after_all(tool, events).serial == hi * 0x1_0000_0000 + lo,
        after_all(tool, events).spec_pen_event() matches Some(pen) ==> pen.id == hi * 0x1_0000_0000
            + lo,
{
    let _ = lemma_last(
        tool,
        events,
        k,
        |t: PenTool| t.serial,
        |e: ToolEvent| e is HardwareSerial,
    );
    law_pen_event_says(after_all(tool, events));
}

/// Whether `event` is of a button whose bit is `index`.
pub open spec fn moves_button(event: ToolEvent, index: u32) -> bool {
    event matches ToolEvent::Button { button, .. } && button % 32 == index
}

proof fn lemma_button_holds(index: u32)
    requires
        index < 32,
    ensures
        forall|t: PenTool, e: ToolEvent|
            !moves_button(e, index) && !(e is ProximityOut) ==> is_held(
                (#[trigger] t.updated(e)).frame.buttons,
                index,
            ) == is_held(t.frame.buttons, index),
{
    assert forall|t: PenTool, e: ToolEvent|
        !moves_button(e, index) && !(e is ProximityOut) implies is_held(
        (#[trigger] t.updated(e)).frame.buttons,
        index,
    ) == is_held(t.frame.buttons, index) by {
        if let ToolEvent::Button { button, state } = e {
            law_button_event(t, button, state, index);
        }
    }
}

/// The last move of a button counts, whether the tool touches or hovers: until the
/// next move of a button with the same bit, or until the tool leaves proximity, pen
/// events have its bit exactly where it was a press.
pub proof fn law_last_button(
    tool: PenTool,
    events: Seq<ToolEvent>,
    k: int,
    button: u32,
    state: WEnum<ButtonState>,
    index: u32,
)
    requires
        index < 32,
        button % 32 == index,
        0 <= k < events.len(),
        events[k] == (ToolEvent::Button { button, state }),
        forall|i: int|
            k < i < events.len() ==> !moves_button(#[trigger] events[i], index) && !(
            events[i] is ProximityOut),
    ensures
        ({
            let after = after_all(tool, events);
            &&& is_held(after.frame.buttons, index) <==> state == WEnum::Value(ButtonState::Pressed)
            &&& after.spec_pen_event() matches Some(pen) ==> {
                &&& pen.button_state matches Some(buttons)
                &&& (buttons >> index) & 1 == 1 <==> state == WEnum::Value(ButtonState::Pressed)
            }
        }),
{
    lemma_button_holds(index);
    let before = lemma_last(
        tool,
        events,
        k,
        |t: PenTool| is_held(t.frame.buttons, index),
        |e: ToolEvent| moves_button(e, index) || e is ProximityOut,
    );
    law_button_event(before, button, state, index);
    law_pen_event_says(after_all(tool, events));
}

/// A button that was not moved since the tool was new, or since it left proximity,
/// is not held.
pub proof fn law_unmoved_button(
    serial: u64,
    left: PenTool,
    tool: PenTool,
    events: Seq<ToolEvent>,
    index: u32,
)
    requires
        index < 32,
        tool == PenTool::fresh(serial) || tool == left.updated(ToolEvent::ProximityOut),
        forall|i: int|
            0 <= i < events.len() ==> !moves_button(#[trigger] events[i], index) && !(
            events[i] is ProximityOut),
    ensures
        !is_held(after_all(tool, events).frame.buttons, index),
        after_all(tool, events).spec_pen_event() matches Some(pen) ==> {
            &&& pen.button_state matches Some(buttons)
            &&& (buttons >> index) & 1 == 0
        },
{
    lemma_button_holds(index);
    lemma_holds(
        tool,
        events,
        |t: PenTool| is_held(t.frame.buttons, index),
        |e: ToolEvent| moves_button(e, index) || e is ProximityOut,
    );
    law_pen_event_says(after_all(tool, events));
    let buttons = after_all(tool, events).frame.buttons;
    assert((0u32 >> index) & 1 == 0) by (bit_vector);
    assert((buttons >> index) & 1 == 0 || (buttons >> index) & 1 == 1) by (bit_vector);
}

/// A new tool is a pen of the given number that has reported nothing, and a tool
/// that leaves proximity has reported nothing either, but stays the tool it was.
pub proof fn law_nothing_reported(serial: u64, left: PenTool, tool: PenTool)
    requires
        tool == PenTool::fresh(serial) || tool == left.updated(ToolEvent::ProximityOut),
    ensures
        !tool.frame.in_proximity,
        !tool.frame.touching,
        !tool.frame.removed,
        tool.frame.surface is None,
        tool.frame.position is None,
        tool.frame.pressure is None,
        tool.frame.tilt is None,
        tool.frame.distance is None,
        tool.frame.rotation is None,
        tool.frame.buttons == 0,
        tool.spec_pen_event() is None,
        PenTool::fresh(serial).serial == serial,
        PenTool::fresh(serial).tool_type == PenToolType::Pen,
        left.updated(ToolEvent::ProximityOut).serial == left.serial,
        left.updated(ToolEvent::ProximityOut).tool_type == left.tool_type,
{
}

/// What was not reported stays as it was: each part of a tool changes only by the
/// events that are about it, and, but for its type and serial number, when it
/// leaves proximity.
pub proof fn law_unreported_stays(tool: PenTool, events: Seq<ToolEvent>)
    requires
        forall|i: int| 0 <= i < events.len() ==> !(#[trigger] events[i] is ProximityOut),
    ensures
        ({
            let after = after_all(tool, events);
            &&& (forall|i: int| 0 <= i < events.len() ==> !(#[trigger] events[i] is Pressure))
                ==> after.frame.pressure == tool.frame.pressure
            &&& (forall|i: int| 0 <= i < events.len() ==> !(#[trigger] events[i] is Distance))
                ==> after.frame.distance == tool.frame.distance
            &&& (forall|i: int| 0 <= i < events.len() ==> !(#[trigger] events[i] is Tilt))
                ==> after.frame.tilt == tool.frame.tilt
            &&& (forall|i: int| 0 <= i < events.len() ==> !(#[trigger] events[i] is Motion))
                ==> after.frame.position == tool.frame.position
            &&& (forall|i: int| 0 <= i < events.len() ==> !(#[trigger] events[i] is Rotation))
                ==> after.frame.rotation == tool.frame.rotation
            &&& (forall|i: int|
                0 <= i < events.len() ==> !(#[trigger] events[i] is Down) && !(events[i] is Up))
                ==> after.frame.touching == tool.frame.touching
            &&& (forall|i: int| 0 <= i < events.len() ==> !(#[trigger] events[i] is ProximityIn))
                ==> after.frame.in_proximity == tool.frame.in_proximity && after.frame.surface
                == tool.frame.surface
            &&& (forall|i: int| 0 <= i < events.len() ==> !(#[trigger] events[i] is Removed))
                ==> after.frame.removed == tool.frame.removed
            &&& (forall|i: int| 0 <= i < events.len() ==> !(#[trigger] events[i] is Button))
                ==> after.frame.buttons == tool.frame.buttons
        }),
    decreases events.len(),
{
    if events.len() > 0 {
        let earlier = events.drop_last();
        assert(forall|i: int| 0 <= i < earlier.len() ==> #[trigger] earlier[i] == events[i]);
        assert(events.last() == events[events.len() - 1]);
        law_unreported_stays(tool, earlier);
    }
}

/// The type stays without a type event, and the serial number without a serial
/// number event, in proximity or not.
pub proof fn law_identity_stays(tool: PenTool, events: Seq<ToolEvent>)
    ensures
        (forall|i: int| 0 <= i < events.len() ==> !(#[trigger] events[i] is Type)) ==> after_all(
            tool,
            events,
        ).tool_type == tool.tool_type,
        (forall|i: int| 0 <= i < events.len() ==> !(#[trigger] events[i] is HardwareSerial))
            ==> after_all(tool, events).serial == tool.serial,
    decreases events.len(),
{
    if events.len() > 0 {
        let earlier = events.drop_last();
        assert(forall|i: int| 0 <= i < earlier.len() ==> #[trigger] earlier[i] == events[i]);
        assert(events.last() == events[events.len() - 1]);
        law_identity_stays(tool, earlier);
    }
}

/// Only the end of a frame and the loss of proximity report to a surface, and then
/// to the one that the tool was near.
pub proof fn law_who_is_told(tool: PenTool, event: ToolEvent)
    ensures
        event is Frame || event is ProximityOut ==> tool.reported_surface(event)
            == tool.frame.surface,
        !(event is Frame) && !(event is ProximityOut) ==> tool.reported_surface(event) is None,
{
}

} // verus!
