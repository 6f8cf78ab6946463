//! The hash maps in which seats and tools are kept.
//!
//! Both are `ahash::AHashMap`s with object numbers as keys. Nothing here is
//! proved: each function makes one call into `ahash`, and its contract says what
//! that call does to the entries of the map.

use ahash::AHashMap;
use vstd::prelude::*;

use crate::protocol::ObjectId;
use crate::tablet::SeatTabletState;
use crate::tool::PenTool;

verus! {

/// `ahash::RandomState`, the hasher of an `AHashMap`.
#[verifier::external_type_specification]
#[verifier::external_body]
pub struct ExRandomState(ahash::RandomState);

/// `ahash::AHashMap`, a hash map.
#[verifier::external_type_specification]
#[verifier::external_body]
#[verifier::reject_recursive_types(K)]
#[verifier::reject_recursive_types(V)]
#[verifier::reject_recursive_types(S)]
pub struct ExAHashMap<K, V, S>(ahash::AHashMap<K, V, S>);

/// The entries of a map of tools.
pub uninterp spec fn tool_entries(tools: AHashMap<ObjectId, PenTool>) -> Map<ObjectId, PenTool>;

/// The entries of a map of seats.
pub uninterp spec fn seat_entries(seats: AHashMap<ObjectId, SeatTabletState>) -> Map<
    ObjectId,
    SeatTabletState,
>;

/// Calls `AHashMap::new`: the map has no entry.
#[verifier::external_body]
pub(crate) fn new_tools() -> (tools: AHashMap<ObjectId, PenTool>)
    ensures
        tool_entries(tools).is_empty(),
{
    AHashMap::new()
}

/// Calls `AHashMap::insert`: the entry of `id` becomes `tool`, whether there was
/// one or not, and all others stay.
#[verifier::external_body]
pub(crate) fn insert_tool(tools: &mut AHashMap<ObjectId, PenTool>, id: ObjectId, tool: PenTool)
    ensures
        tool_entries(*final(tools)) == tool_entries(*old(tools)).insert(id, tool),
{
    tools.insert(id, tool);
}

/// Calls `AHashMap::get_mut`: there is a result exactly where `id` has an entry.
/// It is that entry, and what is written to it is what the map then holds for
/// `id`; all others stay.
#[verifier::external_body]
pub(crate) fn tool_mut<'a>(
    tools: &'a mut AHashMap<ObjectId, PenTool>,
    id: ObjectId,
) -> (result: Option<&'a mut PenTool>)
    ensures
        match result {
            Some(tool) => {
                &&& tool_entries(*old(tools)).contains_key(id)
                &&& *tool == tool_entries(*old(tools))[id]
                &&& tool_entries(*final(tools)) == tool_entries(*old(tools)).insert(
                    id,
                    *final(tool),
                )
            },
            None => {
                &&& !tool_entries(*old(tools)).contains_key(id)
                &&& tool_entries(*final(tools)) == tool_entries(*old(tools))
            },
        },
{
    tools.get_mut(&id)
}

/// Calls `AHashMap::new`: the map has no entry.
#[verifier::external_body]
pub(crate) fn new_seats() -> (seats: AHashMap<ObjectId, SeatTabletState>)
    ensures
        seat_entries(seats).is_empty(),
{
    AHashMap::new()
}

/// Calls `AHashMap::insert`: the entry of `id` becomes `seat`, whether there was
/// one or not, and all others stay.
#[verifier::external_body]
pub(crate) fn insert_seat(
    seats: &mut AHashMap<ObjectId, SeatTabletState>,
    id: ObjectId,
    seat: SeatTabletState,
)
    ensures
        seat_entries(*final(seats)) == seat_entries(*old(seats)).insert(id, seat),
{
    seats.insert(id, seat);
}

/// Calls `AHashMap::remove`: `id` has no entry any more, and all others stay.
#[verifier::external_body]
pub(crate) fn take_seat(seats: &mut AHashMap<ObjectId, SeatTabletState>, id: &ObjectId)
    ensures
        seat_entries(*final(seats)) == seat_entries(*old(seats)).remove(*id),
{
    seats.remove(id);
}

/// Calls `next` on what `values_mut` gives, a method of the `HashMap` to which an
/// `AHashMap` dereferences: there is a result exactly where the map has an entry.
/// It is the value of one entry, and what is written to it is what the map then
/// holds there; all others stay. Which entry it is depends on the hasher, whose
/// seed is random, and is left open.
#[verifier::external_body]
pub(crate) fn first_seat_mut<'a>(
    seats: &'a mut AHashMap<ObjectId, SeatTabletState>,
) -> (result: Option<&'a mut SeatTabletState>)
    ensures
        match result {
            Some(seat) => exists|id: ObjectId|
                {
                    &&& #[trigger] seat_entries(*old(seats)).contains_key(id)
                    &&& *seat == seat_entries(*old(seats))[id]
                    &&& seat_entries(*final(seats)) == seat_entries(*old(seats)).insert(
                        id,
                        *final(seat),
                    )
                },
            None => {
                &&& seat_entries(*old(seats)).is_empty()
                &&& seat_entries(*final(seats)) == seat_entries(*old(seats))
            },
        },
{
    seats.values_mut().next()
}

} // verus!
