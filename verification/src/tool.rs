//! One pen tool, from protocol events to pen events.

use vstd::prelude::*;

use crate::event::{
    Angle, Azimuth, DeviceId, Double, Force, Fraction, PenEvent, PenToolType, PhysicalPosition,
    TouchPhase, FULL_SCALE,
};
use crate::protocol::{ButtonState, ObjectId, ToolEvent, ToolKind, WEnum};

verus! {

/// What a tool reported since it came into proximity.
#[derive(Debug, Clone, Copy)]
pub struct ToolFrame {
    pub in_proximity: bool,
    pub touching: bool,
    pub surface: Option<ObjectId>,
    pub position: Option<(Double, Double)>,
    pub pressure: Option<u32>,
    /// Degrees along x and y.
    pub tilt: Option<(Double, Double)>,
    pub distance: Option<u32>,
    pub rotation: Option<Double>,
    /// One bit for each button that is held.
    pub buttons: u32,
    pub removed: bool,
}

/// A tool and its current frame.
#[derive(Debug, Clone, Copy)]
pub struct PenTool {
    pub tool_type: PenToolType,
    pub frame: ToolFrame,
    pub serial: u64,
}

/// The type reported for a tool type of the protocol: only an eraser differs
/// from a pen, and a number outside the protocol is unknown.
pub open spec fn reported_type(tool_type: WEnum<ToolKind>) -> PenToolType {
    match tool_type {
        WEnum::Value(ToolKind::Eraser) => PenToolType::Eraser,
        WEnum::Value(_) => PenToolType::Pen,
        WEnum::Unknown(_) => PenToolType::Unknown,
    }
}

/// The serial number with the given upper and lower half.
pub open spec fn joined_serial(hi: u32, lo: u32) -> u64 {
    (hi * 0x1_0000_0000 + lo) as u64
}

/// Whether bit `index` of `buttons` is set.
pub open spec fn is_held(buttons: u32, index: u32) -> bool {
    (buttons >> index) & 1 == 1
}

/// `buttons` with the bit of `button` set or cleared. Button codes that agree
/// modulo 32 share a bit.
pub open spec fn with_button(buttons: u32, button: u32, pressed: bool) -> u32 {
    let bit = 1u32 << (button % 32);
    if pressed {
        buttons | bit
    } else {
        buttons & !bit
    }
}

impl ToolFrame {
    /// The frame of a tool that has reported nothing.
    pub open spec fn empty() -> ToolFrame {
        ToolFrame {
            in_proximity: false,
            touching: false,
            surface: None,
            position: None,
            pressure: None,
            tilt: None,
            distance: None,
            rotation: None,
            buttons: 0,
            removed: false,
        }
    }

    /// A tool has a surface exactly while it is in proximity.
    pub open spec fn wf(self) -> bool {
        self.surface is Some <==> self.in_proximity
    }

    /// A stroke goes on while the tool is there, and touches or is near.
    pub open spec fn spec_phase(self) -> TouchPhase {
        if !self.removed && (self.touching || self.in_proximity) {
            TouchPhase::Moved
        } else {
            TouchPhase::Ended
        }
    }

    /// There is a force exactly while the tool touches; it is the last pressure,
    /// or zero where none was reported.
    pub open spec fn spec_force(self) -> Option<Force> {
        if self.touching {
            Some(
                Force::Normalized(
                    Fraction {
                        numerator: match self.pressure {
                            Some(pressure) => pressure,
                            None => 0,
                        },
                    },
                ),
            )
        } else {
            None
        }
    }

    /// The tilt along x, positive to the right.
    pub open spec fn spec_tilt_x(self) -> Option<Angle> {
        match self.tilt {
            Some((tilt_x, _)) => Some(Angle { degrees: tilt_x.opposite() }),
            None => None,
        }
    }

    /// The tilt along y.
    pub open spec fn spec_tilt_y(self) -> Option<Angle> {
        match self.tilt {
            Some((_, tilt_y)) => Some(Angle { degrees: tilt_y }),
            None => None,
        }
    }

    /// The direction of the tilt, whatever the rotation of the barrel.
    pub open spec fn spec_orientation(self) -> Option<Azimuth> {
        match self.tilt {
            Some((tilt_x, tilt_y)) => Some(
                Azimuth {
                    tilt_x: Angle { degrees: tilt_x.opposite() },
                    tilt_y: Angle { degrees: tilt_y },
                },
            ),
            None => None,
        }
    }

    /// Zero at the surface. Above it, the last reported distance, or one where none
    /// was reported. Out of proximity there is no distance.
    pub open spec fn spec_hover_distance(self) -> Option<Fraction> {
        if !self.in_proximity {
            None
        } else if self.touching {
            Some(Fraction { numerator: 0 })
        } else {
            match self.distance {
                Some(distance) => Some(Fraction { numerator: distance }),
                None => Some(Fraction { numerator: FULL_SCALE }),
            }
        }
    }

    /// Whether the tool is still there, and touches or is near.
    pub fn phase(&self) -> (phase: TouchPhase)
        ensures
            phase == self.spec_phase(),
    {
        if self.removed {
            TouchPhase::Ended
        } else if self.touching {
            TouchPhase::Moved
        } else if self.in_proximity {
            TouchPhase::Moved
        } else {
            TouchPhase::Ended
        }
    }

    /// The pressure of a touching tool.
    pub fn force(&self) -> (force: Option<Force>)
        ensures
            force == self.spec_force(),
    {
        match (self.touching, self.pressure) {
            (true, Some(pressure)) => Some(Force::Normalized(Fraction { numerator: pressure })),
            (true, None) => Some(Force::Normalized(Fraction { numerator: 0 })),
            (false, _) => None,
        }
    }

    /// The distance of a tool in proximity.
    pub fn hover_distance(&self) -> (distance: Option<Fraction>)
        ensures
            distance == self.spec_hover_distance(),
    {
        if !self.in_proximity {
            None
        } else if self.touching {
            Some(Fraction { numerator: 0 })
        } else {
            match self.distance {
                Some(distance) => Some(Fraction { numerator: distance }),
                None => Some(Fraction { numerator: FULL_SCALE }),
            }
        }
    }
}

impl Default for ToolFrame {
    fn default() -> (frame: ToolFrame)
        ensures
            frame == ToolFrame::empty(),
    {
        ToolFrame {
            in_proximity: false,
            touching: false,
            surface: None,
            position: None,
            pressure: None,
            tilt: None,
            distance: None,
            rotation: None,
            buttons: 0,
            removed: false,
        }
    }
}

/// Sets or clears the bit of `button`.
pub fn set_button(buttons: u32, button: u32, pressed: bool) -> (result: u32)
    ensures
        result == with_button(buttons, button, pressed),
        forall|index: u32|
            index < 32 ==> #[trigger] is_held(result, index) == (if index == button % 32 {
                pressed
            } else {
                is_held(buttons, index)
            }),
{
    let bit: u32 = 1u32.wrapping_shl(button);
    let result: u32 = if pressed {
        buttons | bit
    } else {
        buttons & !bit
    };
    proof {
        lemma_with_button(buttons, button, pressed);
        assert(result == with_button(buttons, button, pressed));
    }
    result
}

/// Joins the halves of a hardware serial number.
pub fn join_serial(hi: u32, lo: u32) -> (serial: u64)
    ensures
        serial == hi * 0x1_0000_0000 + lo,
{
    let upper: u64 = hi as u64;
    let lower: u64 = lo as u64;
    assert(upper << 32 | lower == upper * 0x1_0000_0000 + lower) by (bit_vector)
        requires
            upper <= 0xffff_ffff,
            lower <= 0xffff_ffff,
    ;
    upper << 32 | lower
}

impl PenTool {
    /// A tool that has reported nothing yet.
    pub open spec fn fresh(serial: u64) -> PenTool {
        PenTool { tool_type: PenToolType::Pen, frame: ToolFrame::empty(), serial }
    }

    /// The tool after `event`.
    pub open spec fn updated(self, event: ToolEvent) -> PenTool {
        let frame = self.frame;
        match event {
            ToolEvent::Type { tool_type } => PenTool {
                tool_type: reported_type(tool_type),
                ..self
            },
            ToolEvent::HardwareSerial { hardware_serial_hi, hardware_serial_lo } => PenTool {
                serial: joined_serial(hardware_serial_hi, hardware_serial_lo),
                ..self
            },
            ToolEvent::ProximityIn { surface } => PenTool {
                frame: ToolFrame { in_proximity: true, surface: Some(surface), ..frame },
                ..self
            },
            ToolEvent::ProximityOut => PenTool { frame: ToolFrame::empty(), ..self },
            ToolEvent::Down => PenTool { frame: ToolFrame { touching: true, ..frame }, ..self },
            ToolEvent::Up => PenTool { frame: ToolFrame { touching: false, ..frame }, ..self },
            ToolEvent::Motion { x, y } => PenTool {
                frame: ToolFrame { position: Some((x, y)), ..frame },
                ..self
            },
            ToolEvent::Pressure { pressure } => PenTool {
                frame: ToolFrame { pressure: Some(pressure), ..frame },
                ..self
            },
            ToolEvent::Distance { distance } => PenTool {
                frame: ToolFrame { distance: Some(distance), ..frame },
                ..self
            },
            ToolEvent::Tilt { tilt_x, tilt_y } => PenTool {
                frame: ToolFrame { tilt: Some((tilt_x, tilt_y)), ..frame },
                ..self
            },
            ToolEvent::Rotation { degrees } => PenTool {
                frame: ToolFrame { rotation: Some(degrees), ..frame },
                ..self
            },
            ToolEvent::Button { button, state } => PenTool {
                frame: ToolFrame {
                    buttons: with_button(
                        frame.buttons,
                        button,
                        state matches WEnum::Value(ButtonState::Pressed),
                    ),
                    ..frame
                },
                ..self
            },
            ToolEvent::Removed => PenTool { frame: ToolFrame { removed: true, ..frame }, ..self },
            ToolEvent::Frame => self,
            ToolEvent::Done => self,
            ToolEvent::Capability => self,
            ToolEvent::HardwareIdWacom => self,
            ToolEvent::Other => self,
        }
    }

    /// The surface that `event` reports to: the end of a frame and the loss of
    /// proximity concern the surface that the tool was on.
    pub open spec fn reported_surface(self, event: ToolEvent) -> Option<ObjectId> {
        match event {
            ToolEvent::Frame | ToolEvent::ProximityOut => self.frame.surface,
            _ => None,
        }
    }

    /// The pen event that describes the tool, once its position is known.
    pub open spec fn spec_pen_event(self) -> Option<PenEvent> {
        match self.frame.position {
            Some((x, y)) => Some(
                PenEvent {
                    device_id: DeviceId,
                    phase: self.frame.spec_phase(),
                    location: PhysicalPosition { x, y },
                    force: self.frame.spec_force(),
                    tilt_x: self.frame.spec_tilt_x(),
                    tilt_y: self.frame.spec_tilt_y(),
                    orientation: self.frame.spec_orientation(),
                    hover_distance: self.frame.spec_hover_distance(),
                    tool_type: Some(self.tool_type),
                    button_state: Some(self.frame.buttons),
                    id: self.serial,
                },
            ),
            None => None,
        }
    }

    /// A pen with an empty frame.
    pub fn new(serial: u64) -> (tool: PenTool)
        ensures
            tool == PenTool::fresh(serial),
            tool.frame.wf(),
    {
        PenTool { tool_type: PenToolType::Pen, frame: ToolFrame::default(), serial }
    }

    /// Takes in `event`, and returns the surface that is to hear of it, if any.
    pub fn update(&mut self, event: ToolEvent) -> (surface: Option<ObjectId>)
        ensures
            *final(self) == old(self).updated(event),
            surface == old(self).reported_surface(event),
            old(self).frame.wf() ==> final(self).frame.wf(),
    {
        let mut reported: Option<ObjectId> = None;
        match event {
            ToolEvent::Type { tool_type } => {
                self.tool_type = match tool_type {
                    WEnum::Value(kind) => match kind {
                        ToolKind::Pen => PenToolType::Pen,
                        ToolKind::Eraser => PenToolType::Eraser,
                        _ => PenToolType::Pen,
                    },
                    WEnum::Unknown(_) => PenToolType::Unknown,
                };
            },
            ToolEvent::HardwareSerial { hardware_serial_hi, hardware_serial_lo } => {
                self.serial = join_serial(hardware_serial_hi, hardware_serial_lo);
            },
            ToolEvent::ProximityIn { surface } => {
                self.frame.in_proximity = true;
                self.frame.surface = Some(surface);
            },
            ToolEvent::ProximityOut => {
                reported = self.frame.surface;
                self.frame = ToolFrame::default();
            },
            ToolEvent::Down => {
                self.frame.touching = true;
            },
            ToolEvent::Up => {
                self.frame.touching = false;
            },
            ToolEvent::Motion { x, y } => {
                self.frame.position = Some((x, y));
            },
            ToolEvent::Pressure { pressure } => {
                self.frame.pressure = Some(pressure);
            },
            ToolEvent::Distance { distance } => {
                self.frame.distance = Some(distance);
            },
            ToolEvent::Tilt { tilt_x, tilt_y } => {
                self.frame.tilt = Some((tilt_x, tilt_y));
            },
            ToolEvent::Rotation { degrees } => {
                self.frame.rotation = Some(degrees);
            },
            ToolEvent::Button { button, state } => {
                let pressed = matches!(state, WEnum::Value(ButtonState::Pressed));
                self.frame.buttons = set_button(self.frame.buttons, button, pressed);
            },
            ToolEvent::Frame => {
                reported = self.frame.surface;
            },
            ToolEvent::Removed => {
                self.frame.removed = true;
            },
            ToolEvent::Done => {},
            ToolEvent::Capability => {},
            ToolEvent::HardwareIdWacom => {},
            ToolEvent::Other => {},
        }
        reported
    }

    /// Describes the tool, once its position is known.
    pub fn pen_event(&self) -> (event: Option<PenEvent>)
        ensures
            event == self.spec_pen_event(),
    {
        let frame = &self.frame;
        let location = match frame.position {
            Some((x, y)) => PhysicalPosition { x, y },
            None => return None,
        };
        // Reported positive to the right, against the sign of the protocol.
        let tilt_x = match frame.tilt {
            Some((tilt_x, _)) => Some(Angle { degrees: tilt_x.negated() }),
            None => None,
        };
        let tilt_y = match frame.tilt {
            Some((_, tilt_y)) => Some(Angle { degrees: tilt_y }),
            None => None,
        };
        let orientation = match (tilt_x, tilt_y) {
            (Some(tilt_x), Some(tilt_y)) => Some(Azimuth { tilt_x, tilt_y }),
            _ => None,
        };
        Some(
            PenEvent {
                device_id: DeviceId,
                phase: frame.phase(),
                location,
                force: frame.force(),
                tilt_x,
                tilt_y,
                orientation,
                hover_distance: frame.hover_distance(),
                tool_type: Some(self.tool_type),
                button_state: Some(frame.buttons),
                id: self.serial,
            },
        )
    }
}

proof fn lemma_with_button(buttons: u32, button: u32, pressed: bool)
    ensures
        forall|index: u32|
            index < 32 ==> #[trigger] is_held(with_button(buttons, button, pressed), index) == (
            if index == button % 32 {
                pressed
            } else {
                is_held(buttons, index)
            }),
{
    let place = button % 32;
    assert forall|index: u32| index < 32 implies #[trigger] is_held(
        with_button(buttons, button, pressed),
        index,
    ) == (if index == button % 32 {
        pressed
    } else {
        is_held(buttons, index)
    }) by {
        assert(((buttons | (1u32 << place)) >> index) & 1 == 1 <==> index == place || (buttons
            >> index) & 1 == 1) by (bit_vector)
            requires
                index < 32,
                place < 32,
        ;
        assert(((buttons & !(1u32 << place)) >> index) & 1 == 1 <==> index != place && (buttons
            >> index) & 1 == 1) by (bit_vector)
            requires
                index < 32,
                place < 32,
        ;
    }
}

/// The tool after all of `events`, one after the other.
pub open spec fn after_all(tool: PenTool, events: Seq<ToolEvent>) -> PenTool
    decreases events.len(),
{
    if events.len() == 0 {
        tool
    } else {
        after_all(tool, events.drop_last()).updated(events.last())
    }
}

/// Whatever a new tool reports, it has a surface exactly while it is in
/// proximity.
pub proof fn law_surface_while_in_proximity(serial: u64, events: Seq<ToolEvent>)
    ensures
        after_all(PenTool::fresh(serial), events).frame.wf(),
    decreases events.len(),
{
    if events.len() > 0 {
        law_surface_while_in_proximity(serial, events.drop_last());
    }
}

/// When a tool leaves proximity, nothing stays of what it reported: its frame is
/// that of a new tool. Its type and serial number stay.
pub proof fn law_leaving_forgets(tool: PenTool, events: Seq<ToolEvent>)
    ensures
        after_all(tool, events).updated(ToolEvent::ProximityOut).frame == ToolFrame::empty(),
        tool.updated(ToolEvent::ProximityOut).tool_type == tool.tool_type,
        tool.updated(ToolEvent::ProximityOut).serial == tool.serial,
{
}

/// A reported position holds until the next one, or until the tool leaves
/// proximity.
pub proof fn law_position_holds(tool: PenTool, events: Seq<ToolEvent>)
    requires
        forall|i: int|
            0 <= i < events.len() ==> !(#[trigger] events[i] is Motion)
                && !(events[i] is ProximityOut),
    ensures
        after_all(tool, events).frame.position == tool.frame.position,
    decreases events.len(),
{
    if events.len() > 0 {
        let last = events.last();
        assert(last == events[events.len() - 1]);
        assert forall|i: int| 0 <= i < events.drop_last().len() implies !(#[trigger]
        events.drop_last()[i] is Motion) && !(events.drop_last()[i] is ProximityOut) by {
            assert(events.drop_last()[i] == events[i]);
        }
        law_position_holds(tool, events.drop_last());
    }
}

/// Only a type event changes the type of a tool, and only a serial number event
/// its serial number.
pub proof fn law_identity_holds(tool: PenTool, event: ToolEvent)
    ensures
        !(event is Type) ==> tool.updated(event).tool_type == tool.tool_type,
        !(event is HardwareSerial) ==> tool.updated(event).serial == tool.serial,
{
}

/// A button event decides the bit of its button and leaves all others as they
/// are.
pub proof fn law_button_event(tool: PenTool, button: u32, state: WEnum<ButtonState>, index: u32)
    requires
        index < 32,
    ensures
        is_held(
            tool.updated(ToolEvent::Button { button, state }).frame.buttons,
            index,
        ) == (if index == button % 32 {
            state matches WEnum::Value(ButtonState::Pressed)
        } else {
            is_held(tool.frame.buttons, index)
        }),
{
    lemma_with_button(
        tool.frame.buttons,
        button,
        state matches WEnum::Value(ButtonState::Pressed),
    );
}

/// Two words with the same bits are the same.
pub proof fn law_bits_decide(a: u32, b: u32)
    requires
        forall|index: u32| index < 32 ==> #[trigger] is_held(a, index) == is_held(b, index),
    ensures
        a == b,
{
    lemma_bits_decide(a, b, 0);
    assert(a >> 0 == a && b >> 0 == b) by (bit_vector);
}

/// Words that agree from bit `index` on are the same when shifted there.
proof fn lemma_bits_decide(a: u32, b: u32, index: u32)
    requires
        index < 32,
        forall|i: u32| index <= i < 32 ==> #[trigger] is_held(a, i) == is_held(b, i),
    ensures
        a >> index == b >> index,
    decreases 32 - index,
{
    assert(is_held(a, index) == is_held(b, index));
    if index == 31 {
        assert(a >> 31 == b >> 31) by (bit_vector)
            requires
                (a >> 31) & 1 == 1 <==> (b >> 31) & 1 == 1,
        ;
    } else {
        let next = (index + 1) as u32;
        lemma_bits_decide(a, b, next);
        assert(a >> index == b >> index) by (bit_vector)
            requires
                next == index + 1,
                index < 31,
                a >> next == b >> next,
                (a >> index) & 1 == 1 <==> (b >> index) & 1 == 1,
        ;
    }
}

/// A press and a release of the same button undo each other.
pub proof fn law_press_and_release(buttons: u32, button: u32)
    ensures
        !is_held(buttons, button % 32) ==> with_button(
            with_button(buttons, button, true),
            button,
            false,
        ) == buttons,
        is_held(buttons, button % 32) ==> with_button(
            with_button(buttons, button, false),
            button,
            true,
        ) == buttons,
{
    let place = button % 32;
    assert((buttons >> place) & 1 != 1 ==> (buttons | (1u32 << place)) & !(1u32 << place)
        == buttons) by (bit_vector)
        requires
            place < 32,
    ;
    assert((buttons >> place) & 1 == 1 ==> (buttons & !(1u32 << place)) | (1u32 << place)
        == buttons) by (bit_vector)
        requires
            place < 32,
    ;
}

/// Both halves of a serial number can be read back.
pub proof fn law_serial_halves(hi: u32, lo: u32)
    ensures
        joined_serial(hi, lo) / 0x1_0000_0000 == hi,
        joined_serial(hi, lo) % 0x1_0000_0000 == lo,
{
}

/// A pen event has a force exactly while the tool touches, and both tilts with
/// their direction, or none of the three.
pub proof fn law_pen_event_parts(tool: PenTool)
    ensures
        tool.spec_pen_event() matches Some(pen) ==> {
            &&& pen.force is Some <==> tool.frame.touching
            &&& pen.tilt_x is Some <==> pen.tilt_y is Some
            &&& pen.orientation is Some <==> pen.tilt_x is Some
            &&& pen.orientation matches Some(azimuth) ==> pen.tilt_x == Some(azimuth.tilt_x)
                && pen.tilt_y == Some(azimuth.tilt_y)
            &&& pen.hover_distance is Some <==> tool.frame.in_proximity
        },
{
}

/// A touching tool is reported at the surface, whatever distance it reported
/// before. A tool above the surface is reported at its last distance, and as
/// hovering where it reported none.
pub proof fn law_touching_is_at_the_surface(tool: PenTool)
    requires
        tool.frame.in_proximity,
    ensures
        tool.spec_pen_event() matches Some(pen) ==> {
            &&& tool.frame.touching ==> pen.hover_distance == Some(Fraction { numerator: 0 })
            &&& !tool.frame.touching && tool.frame.distance is None ==> pen.hover_distance == Some(
                Fraction { numerator: FULL_SCALE },
            )
            &&& !tool.frame.touching ==> (tool.frame.distance matches Some(distance)
                ==> pen.hover_distance == Some(Fraction { numerator: distance }))
        },
{
}

/// The rotation of the barrel has no part in a pen event.
pub proof fn law_rotation_is_not_orientation(tool: PenTool, degrees: Double)
    ensures
        tool.updated(ToolEvent::Rotation { degrees }).spec_pen_event() == tool.spec_pen_event(),
{
}

} // verus!
