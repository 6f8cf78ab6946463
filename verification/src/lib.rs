//! Wayland extras: pen tablets (`zwp_tablet_*` v2) and toplevel icons
//! (`xdg-toplevel-icon-v1`).
//!
//! The crate holds the state and the decisions of both protocols. It does no
//! input or output: protocol objects appear as numbers ([`protocol::ObjectId`]),
//! what the compositor sent arrives as a value, and what is to be sent leaves as
//! a value.
//!
//! - [`event`]: the pen events handed to a window, and the queue they wait in.
//! - [`protocol`]: what the compositor sends about tablet seats and tools.
//! - [`natural`]: natural numbers of any size.
//! - [`numbering`]: numbers that are handed out one after the other.
//! - [`tool`]: one pen tool, from protocol events to pen events.
//! - [`history`]: what a pen event says of the history of its tool.
//! - [`maps`]: the hash maps in which seats and tools are kept.
//! - [`tablet`]: all seats with their tools, and the windows they report to.
//! - [`icon`]: pixel data and requests of a toplevel icon.

pub mod event;
pub mod history;
pub mod icon;
pub mod maps;
pub mod natural;
pub mod numbering;
pub mod protocol;
pub mod tablet;
pub mod tool;
