//! What the compositor sends about tablet seats and tools.

use vstd::prelude::*;

use crate::event::Double;

verus! {

/// The number that stands for a protocol object. Equal numbers are the same
/// object.
pub type ObjectId = u64;

/// A value of a protocol enumeration, or a number outside it.
#[derive(Debug)]
pub enum WEnum<T> {
    Value(T),
    Unknown(u32),
}

/// The tool types of the tablet protocol.
#[derive(Debug, Clone, Copy)]
pub enum ToolKind {
    Pen,
    Eraser,
    Brush,
    Pencil,
    Airbrush,
    Finger,
    Mouse,
    Lens,
    /// A type that a later version of the protocol added.
    Other,
}

/// Whether a button went down or up.
#[derive(Debug, Clone, Copy)]
pub enum ButtonState {
    Released,
    Pressed,
    /// A state that a later version of the protocol added.
    Other,
}

/// What a tablet seat announces.
#[derive(Debug)]
pub enum SeatEvent {
    TabletAdded,
    ToolAdded { id: ObjectId },
    PadAdded,
    Other,
}

/// What a tablet tool reports.
#[derive(Debug)]
pub enum ToolEvent {
    Type { tool_type: WEnum<ToolKind> },
    HardwareSerial { hardware_serial_hi: u32, hardware_serial_lo: u32 },
    HardwareIdWacom,
    Capability,
    Done,
    Removed,
    ProximityIn { surface: ObjectId },
    ProximityOut,
    Down,
    Up,
    Motion { x: Double, y: Double },
    Pressure { pressure: u32 },
    Distance { distance: u32 },
    Tilt { tilt_x: Double, tilt_y: Double },
    Rotation { degrees: Double },
    Button { button: u32, state: WEnum<ButtonState> },
    Frame,
    Other,
}

} // verus!
