//! The pen events handed to a window, and the queue they wait in.

use vstd::prelude::*;

verus! {

/// The value by which a normalized axis (pressure, distance) is divided.
pub const FULL_SCALE: u32 = 65535;

/// The weight of the sign bit in the bit pattern of a double.
pub const SIGN_BIT: u64 = 0x8000_0000_0000_0000;

/// A double-precision number, held as its IEEE 754 bit pattern.
#[derive(Debug, Clone, Copy, PartialEq, Eq, Structural)]
pub struct Double {
    pub bits: u64,
}

impl Double {
    /// Whether the sign bit is set.
    pub open spec fn is_negative(self) -> bool {
        self.bits >= SIGN_BIT
    }

    /// The bit pattern without its sign bit: exponent and fraction.
    pub open spec fn magnitude(self) -> int {
        if self.is_negative() {
            self.bits - SIGN_BIT
        } else {
            self.bits as int
        }
    }

    /// The number with its sign changed and its magnitude kept.
    pub open spec fn opposite(self) -> Double {
        Double {
            bits: (if self.is_negative() {
                self.bits - SIGN_BIT
            } else {
                self.bits + SIGN_BIT
            }) as u64,
        }
    }

    /// Changes the sign, of a zero too, and keeps the magnitude.
    pub fn negated(self) -> (result: Double)
        ensures
            result == self.opposite(),
            result.is_negative() != self.is_negative(),
            result.magnitude() == self.magnitude(),
    {
        if self.bits >= SIGN_BIT {
            Double { bits: self.bits - SIGN_BIT }
        } else {
            Double { bits: self.bits + SIGN_BIT }
        }
    }
}

/// Changing the sign twice gives the number back.
pub proof fn law_opposite_twice(number: Double)
    ensures
        number.opposite().opposite() == number,
{
}

/// A number is its magnitude, below 2^63, and 2^63 more where it is negative; the
/// opposite has the same magnitude and the other sign.
pub proof fn law_sign_and_magnitude(number: Double)
    ensures
        0 <= number.magnitude() < 0x8000_0000_0000_0000,
        number.is_negative() ==> number.bits == number.magnitude() + 0x8000_0000_0000_0000,
        !number.is_negative() ==> number.bits == number.magnitude(),
        number.opposite().magnitude() == number.magnitude(),
        number.opposite().is_negative() <==> !number.is_negative(),
{
}

/// An angle, given in degrees and reported in radians.
#[derive(Debug, Clone, Copy, PartialEq, Eq, Structural)]
pub struct Angle {
    pub degrees: Double,
}

/// The direction of a tilt on the screen plane: `atan2(tilt_x, tilt_y)`.
#[derive(Debug, Clone, Copy, PartialEq, Eq, Structural)]
pub struct Azimuth {
    pub tilt_x: Angle,
    pub tilt_y: Angle,
}

/// The number `numerator / FULL_SCALE`.
#[derive(Debug, Clone, Copy, PartialEq, Eq, Structural)]
pub struct Fraction {
    pub numerator: u32,
}

/// How hard the pen is pressed.
#[derive(Debug, Clone, Copy, PartialEq, Eq, Structural)]
pub enum Force {
    Normalized(Fraction),
}

/// Where the pen is on the surface.
#[derive(Debug, Clone, Copy, PartialEq, Eq, Structural)]
pub struct PhysicalPosition {
    pub x: Double,
    pub y: Double,
}

/// The stage of a pen stroke.
#[derive(Debug, Clone, Copy, PartialEq, Eq, Structural)]
pub enum TouchPhase {
    Moved,
    Ended,
}

/// What kind of tool is held.
#[derive(Debug, Clone, Copy, PartialEq, Eq, Structural)]
pub enum PenToolType {
    Pen,
    Eraser,
    Unknown,
}

/// The one input device that Wayland reports.
#[derive(Debug, Clone, Copy, PartialEq, Eq, Structural)]
pub struct DeviceId;

/// The name of a window.
#[derive(Debug, Clone, Copy, PartialEq, Eq, Structural)]
pub struct WindowId {
    pub id: u64,
}

/// The state of a pen at the end of a frame.
#[derive(Debug, Clone, Copy, PartialEq, Eq)]
pub struct PenEvent {
    pub device_id: DeviceId,
    pub phase: TouchPhase,
    pub location: PhysicalPosition,
    pub force: Option<Force>,
    /// Positive to the right.
    pub tilt_x: Option<Angle>,
    pub tilt_y: Option<Angle>,
    pub orientation: Option<Azimuth>,
    /// Zero at the surface, one when hovering, nothing out of proximity.
    pub hover_distance: Option<Fraction>,
    pub tool_type: Option<PenToolType>,
    /// One bit for each button that is held.
    pub button_state: Option<u32>,
    pub id: u64,
}

/// What a window is told.
#[derive(Debug, Clone, Copy, PartialEq, Eq)]
pub enum WindowEvent {
    Pen(PenEvent),
}

/// Events that wait to be handed to their windows, oldest first.
#[derive(Debug)]
pub struct EventSink {
    pub window_events: Vec<(WindowEvent, WindowId)>,
}

impl EventSink {
    /// The waiting events.
    pub open spec fn view(self) -> Seq<(WindowEvent, WindowId)> {
        self.window_events@
    }

    /// Queues `event` for `window_id` behind all others.
    pub fn push_window_event(&mut self, event: WindowEvent, window_id: WindowId)
        ensures
            final(self)@ == old(self)@.push((event, window_id)),
    {
        self.window_events.push((event, window_id));
    }
}

} // verus!
