//! All seats with their tools, and the windows they report to.

use std::collections::HashSet;

use ahash::AHashMap;
use vstd::prelude::*;

use crate::event::{
    Double, EventSink, Fraction, PenToolType, PhysicalPosition, TouchPhase, WindowEvent, WindowId,
};
use crate::history::{law_last_motion, law_last_surface, law_who_is_told};
use crate::maps::{
    first_seat_mut, insert_seat, insert_tool, new_seats, new_tools, seat_entries, take_seat,
    tool_entries, tool_mut,
};
use crate::numbering::{id_after, lemma_ids_differ, nth_id, take_id};
use crate::protocol::{ObjectId, SeatEvent, ToolEvent};
use crate::tool::{after_all, PenTool};

verus! {

/// The tools of one seat.
pub struct SeatTabletState {
    tools: AHashMap<ObjectId, PenTool>,
}

/// All seats that were added and not removed.
pub struct TabletState {
    seats: AHashMap<ObjectId, SeatTabletState>,
    next_id: u64,
}

/// What the tablet protocol needs of the whole client.
pub struct WinitState {
    /// Missing where the compositor has no tablet protocol.
    pub tablet_state: Option<TabletState>,
    /// The numbers of the surfaces that are windows.
    pub windows: HashSet<ObjectId>,
    pub events_sink: EventSink,
}

/// The contents of a `TabletState`.
#[verifier::ext_equal]
pub struct Tablets {
    /// For each seat, its tools.
    pub seats: Map<ObjectId, Map<ObjectId, PenTool>>,
    /// The serial number of the next tool.
    pub next_id: u64,
}

/// The window that a surface is, if it is one.
pub open spec fn window_of(windows: Set<ObjectId>, surface: ObjectId) -> Option<WindowId> {
    if windows.contains(surface) {
        Some(WindowId { id: surface })
    } else {
        None
    }
}

/// What is queued when `tool` takes in `event`: the pen event that describes the
/// tool afterwards, for the window that the event reports to.
pub open spec fn queued(
    tool: PenTool,
    event: ToolEvent,
    windows: Set<ObjectId>,
) -> Seq<(WindowEvent, WindowId)> {
    match tool.reported_surface(event) {
        Some(surface) => match (window_of(windows, surface), tool.updated(event).spec_pen_event()) {
            (Some(window_id), Some(pen)) => seq![(WindowEvent::Pen(pen), window_id)],
            _ => seq![],
        },
        None => seq![],
    }
}

/// The tools of a seat after `event` of the tool `id`.
pub open spec fn tools_after(
    tools: Map<ObjectId, PenTool>,
    id: ObjectId,
    event: ToolEvent,
) -> Map<ObjectId, PenTool> {
    if tools.contains_key(id) {
        tools.insert(id, tools[id].updated(event))
    } else {
        tools
    }
}

/// What is queued when the tool `id` of a seat reports `event`.
pub open spec fn queued_by(
    tools: Map<ObjectId, PenTool>,
    id: ObjectId,
    event: ToolEvent,
    windows: Set<ObjectId>,
) -> Seq<(WindowEvent, WindowId)> {
    if tools.contains_key(id) {
        queued(tools[id], event, windows)
    } else {
        seq![]
    }
}

/// Every tool has a surface exactly while it is in proximity.
pub open spec fn tools_wf(tools: Map<ObjectId, PenTool>) -> bool {
    forall|id: ObjectId| #[trigger] tools.contains_key(id) ==> tools[id].frame.wf()
}

impl Tablets {
    /// Every tool of every seat has a surface exactly while it is in proximity.
    pub open spec fn wf(self) -> bool {
        forall|seat: ObjectId| #[trigger]
            self.seats.contains_key(seat) ==> tools_wf(self.seats[seat])
    }

    /// These tablets, with `tools` as the tools of `seat`.
    pub open spec fn with_tools(self, seat: ObjectId, tools: Map<ObjectId, PenTool>) -> Tablets {
        Tablets { seats: self.seats.insert(seat, tools), ..self }
    }

    /// Whether `after` is what `event` can make of these tablets. A new tool takes
    /// the next serial number and goes to one of the seats; where there is none,
    /// only the number is used up.
    pub open spec fn seat_step(self, event: SeatEvent, after: Tablets) -> bool {
        match event {
            SeatEvent::ToolAdded { id } => {
                let counted = Tablets { next_id: id_after(self.next_id), ..self };
                if self.seats.is_empty() {
                    after == counted
                } else {
                    exists|seat: ObjectId| #[trigger]
                        self.seats.contains_key(seat) && after == counted.with_tools(
                            seat,
                            self.seats[seat].insert(id, PenTool::fresh(self.next_id)),
                        )
                }
            },
            _ => after == self,
        }
    }

    /// Whether `after` is what `event` of the tool `id` can make of these tablets,
    /// with `news` the events that are queued. One of the seats is asked for the
    /// tool.
    pub open spec fn tool_step(
        self,
        id: ObjectId,
        event: ToolEvent,
        windows: Set<ObjectId>,
        after: Tablets,
        news: Seq<(WindowEvent, WindowId)>,
    ) -> bool {
        if self.seats.is_empty() {
            after == self && news == Seq::<(WindowEvent, WindowId)>::empty()
        } else {
            exists|seat: ObjectId|
                {
                    &&& #[trigger] self.seats.contains_key(seat)
                    &&& after == self.with_tools(seat, tools_after(self.seats[seat], id, event))
                    &&& news == queued_by(self.seats[seat], id, event, windows)
                }
        }
    }
}

/// The tools of each seat.
spec fn tools_of(seats: Map<ObjectId, SeatTabletState>) -> Map<ObjectId, Map<ObjectId, PenTool>> {
    seats.map_values(|seat: SeatTabletState| seat@)
}

/// Finds the seat that was changed from `from` to `to`.
proof fn lemma_seat_taken(
    before: Map<ObjectId, SeatTabletState>,
    from: SeatTabletState,
    to: SeatTabletState,
    after: Map<ObjectId, SeatTabletState>,
) -> (seat: ObjectId)
    requires
        exists|seat: ObjectId|
            {
                &&& #[trigger] before.contains_key(seat)
                &&& from == before[seat]
                &&& after == before.insert(seat, to)
            },
    ensures
        tools_of(before).contains_key(seat),
        tools_of(before)[seat] == from@,
        tools_of(after) == tools_of(before).insert(seat, to@),
{
    let seat = choose|seat: ObjectId|
        {
            &&& #[trigger] before.contains_key(seat)
            &&& from == before[seat]
            &&& after == before.insert(seat, to)
        };
    assert(tools_of(after) =~= tools_of(before).insert(seat, to@));
    seat
}

/// Finds the seat that was asked for the tool.
proof fn lemma_seat_asked(
    before: Tablets,
    id: ObjectId,
    event: ToolEvent,
    windows: Set<ObjectId>,
    after: Tablets,
    news: Seq<(WindowEvent, WindowId)>,
) -> (seat: ObjectId)
    requires
        before.tool_step(id, event, windows, after, news),
        !before.seats.is_empty(),
    ensures
        before.seats.contains_key(seat),
        after == before.with_tools(seat, tools_after(before.seats[seat], id, event)),
        news == queued_by(before.seats[seat], id, event, windows),
{
    choose|seat: ObjectId|
        {
            &&& #[trigger] before.seats.contains_key(seat)
            &&& after == before.with_tools(seat, tools_after(before.seats[seat], id, event))
            &&& news == queued_by(before.seats[seat], id, event, windows)
        }
}

impl SeatTabletState {
    /// The tools by their objects.
    pub closed spec fn view(self) -> Map<ObjectId, PenTool> {
        tool_entries(self.tools)
    }

    /// A seat without tools.
    pub fn new() -> (seat: SeatTabletState)
        ensures
            seat@ == Map::<ObjectId, PenTool>::empty(),
    {
        let seat = SeatTabletState { tools: new_tools() };
        assert(seat@ =~= Map::empty());
        seat
    }

    /// Adds `tool` under `id`, in place of a tool that had that number.
    pub fn add_tool(&mut self, id: ObjectId, tool: PenTool)
        ensures
            final(self)@ == old(self)@.insert(id, tool),
    {
        insert_tool(&mut self.tools, id, tool);
    }

    /// Hands `event` to the tool `id`, and queues the pen event that follows from
    /// it. An event of a tool that is not on this seat changes nothing.
    pub fn report(
        &mut self,
        id: ObjectId,
        event: ToolEvent,
        windows: &HashSet<ObjectId>,
        events_sink: &mut EventSink,
    )
        ensures
            final(self)@ == tools_after(old(self)@, id, event),
            final(events_sink)@ == old(events_sink)@ + queued_by(
                old(self)@,
                id,
                event,
                windows@,
            ),
            tools_wf(old(self)@) ==> tools_wf(final(self)@),
    {
        let tool = match tool_mut(&mut self.tools, id) {
            Some(tool) => tool,
            None => return,
        };
        let surface = match tool.update(event) {
            Some(surface) => surface,
            None => return,
        };
        let window_id = match TabletState::find_window(windows, surface) {
            Some(window_id) => window_id,
            None => return,
        };
        let pen = match tool.pen_event() {
            Some(pen) => pen,
            None => return,
        };
        events_sink.push_window_event(WindowEvent::Pen(pen), window_id);
    }
}

impl TabletState {
    /// The seats with their tools, and the next serial number.
    pub closed spec fn view(self) -> Tablets {
        Tablets {
            seats: tools_of(seat_entries(self.seats)),
            next_id: self.next_id,
        }
    }

    /// No seat; the first tool will have serial number one.
    pub fn new() -> (tablets: TabletState)
        ensures
            tablets@ == (Tablets { seats: Map::empty(), next_id: 1 }),
            tablets@.wf(),
    {
        let tablets = TabletState { seats: new_seats(), next_id: 1 };
        assert(tablets@.seats =~= Map::empty());
        tablets
    }

    /// Adds a seat without tools, in place of a seat that had that number.
    pub fn add_seat(&mut self, seat: ObjectId)
        ensures
            final(self)@ == old(self)@.with_tools(seat, Map::empty()),
            old(self)@.wf() ==> final(self)@.wf(),
    {
        insert_seat(&mut self.seats, seat, SeatTabletState::new());
        assert(self@ =~= old(self)@.with_tools(seat, Map::empty()));
    }

    /// Forgets a seat and its tools.
    pub fn remove_seat(&mut self, seat: &ObjectId)
        ensures
            final(self)@ == (Tablets { seats: old(self)@.seats.remove(*seat), ..old(self)@ }),
            old(self)@.wf() ==> final(self)@.wf(),
    {
        take_seat(&mut self.seats, seat);
        assert(self@.seats =~= old(self)@.seats.remove(*seat));
    }

    /// Takes the next serial number.
    pub fn next_pen_id(&mut self) -> (id: u64)
        ensures
            id == old(self)@.next_id,
            final(self)@ == (Tablets { next_id: id_after(id), ..old(self)@ }),
    {
        take_id(&mut self.next_id)
    }

    /// The window that `surface` is, if it is one.
    pub fn find_window(windows: &HashSet<ObjectId>, surface: ObjectId) -> (window: Option<WindowId>)
        ensures
            window == window_of(windows@, surface),
    {
        if windows.contains(&surface) {
            Some(WindowId { id: surface })
        } else {
            None
        }
    }

    /// Takes in what a tablet seat announces: gives a new tool the next serial
    /// number and adds it to one of the seats, if there is one.
    pub fn announce(&mut self, event: SeatEvent)
        ensures
            old(self)@.seat_step(event, final(self)@),
            old(self)@.wf() ==> final(self)@.wf(),
    {
        match event {
            SeatEvent::TabletAdded => {},
            SeatEvent::ToolAdded { id } => {
                let tool = PenTool::new(self.next_pen_id());
                let ghost before = seat_entries(self.seats);
                match first_seat_mut(&mut self.seats) {
                    Some(seat_state) => {
                        let ghost from = *seat_state;
                        seat_state.add_tool(id, tool);
                        proof {
                            let to = *seat_state;
                            lemma_seat_taken(before, from, to, seat_entries(self.seats));
                        }
                    },
                    None => {
                        assert(old(self)@.seats.dom() =~= Set::empty());
                    },
                }
            },
            SeatEvent::PadAdded => {},
            SeatEvent::Other => {},
        }
    }

    /// Hands `event` to the tool `id`, if the seat that is asked has it, and queues
    /// the pen event that follows from it.
    pub fn report(
        &mut self,
        id: ObjectId,
        event: ToolEvent,
        windows: &HashSet<ObjectId>,
        events_sink: &mut EventSink,
    )
        ensures
            exists|news: Seq<(WindowEvent, WindowId)>|
                {
                    &&& #[trigger] old(self)@.tool_step(id, event, windows@, final(self)@, news)
                    &&& final(events_sink)@ == old(events_sink)@ + news
                },
            old(self)@.wf() ==> final(self)@.wf(),
    {
        let ghost before = seat_entries(self.seats);
        match first_seat_mut(&mut self.seats) {
            Some(seat_state) => {
                let ghost from = *seat_state;
                seat_state.report(id, event, windows, events_sink);
                proof {
                    let to = *seat_state;
                    lemma_seat_taken(before, from, to, seat_entries(self.seats));
                    let news = queued_by(from@, id, event, windows@);
                    assert(old(self)@.tool_step(id, event, windows@, self@, news));
                }
            },
            None => {
                proof {
                    let news = Seq::<(WindowEvent, WindowId)>::empty();
                    assert(old(self)@.seats.dom() =~= Set::empty());
                    assert(old(self)@.tool_step(id, event, windows@, self@, news));
                    assert(events_sink@ =~= old(events_sink)@ + news);
                }
            },
        }
    }

    /// Dispatches an event of a tablet seat. Without the tablet protocol it changes
    /// nothing.
    pub fn seat_event(state: &mut WinitState, event: SeatEvent)
        ensures
            match old(state).tablet_state {
                Some(before) => {
                    &&& final(state).tablet_state matches Some(after)
                    &&& before@.seat_step(event, after@)
                    &&& before@.wf() ==> after@.wf()
                },
                None => final(state).tablet_state is None,
            },
            final(state).windows@ == old(state).windows@,
            final(state).events_sink@ == old(state).events_sink@,
    {
        match state.tablet_state.as_mut() {
            Some(tablet_state) => tablet_state.announce(event),
            None => {},
        }
    }

    /// Dispatches an event of the tool `id`. Without the tablet protocol it changes
    /// nothing.
    pub fn tool_event(state: &mut WinitState, id: ObjectId, event: ToolEvent)
        ensures
            match old(state).tablet_state {
                Some(before) => {
                    &&& final(state).tablet_state matches Some(after)
                    &&& exists|news: Seq<(WindowEvent, WindowId)>|
                        {
                            &&& #[trigger] before@.tool_step(
                                id,
                                event,
                                old(state).windows@,
                                after@,
                                news,
                            )
                            &&& final(state).events_sink@ == old(state).events_sink@ + news
                        }
                    &&& before@.wf() ==> after@.wf()
                },
                None => {
                    &&& final(state).tablet_state is None
                    &&& final(state).events_sink@ == old(state).events_sink@
                },
            },
            final(state).windows@ == old(state).windows@,
    {
        match state.tablet_state.as_mut() {
            Some(tablet_state) => {
                tablet_state.report(id, event, &state.windows, &mut state.events_sink)
            },
            None => {},
        }
    }
}

/// Only the end of a frame queues an event; to leave proximity does not, for
/// nothing is then known of the tool.
pub proof fn law_only_frames_queue(tool: PenTool, event: ToolEvent, windows: Set<ObjectId>)
    ensures
        !(event is Frame) ==> queued(tool, event, windows).len() == 0,
{
}

/// At the end of a frame the window that the tool is on hears of the tool as it
/// is, and the tool stays as it is. Nothing is queued exactly where the surface
/// is no window or the position is not known.
pub proof fn law_frame_reports(tool: PenTool, windows: Set<ObjectId>)
    ensures
        tool.updated(ToolEvent::Frame) == tool,
        match (tool.frame.surface, tool.spec_pen_event()) {
            (Some(surface), Some(pen)) => if windows.contains(surface) {
                queued(tool, ToolEvent::Frame, windows) == seq![
                    (WindowEvent::Pen(pen), WindowId { id: surface }),
                ]
            } else {
                queued(tool, ToolEvent::Frame, windows).len() == 0
            },
            _ => queued(tool, ToolEvent::Frame, windows).len() == 0,
        },
{
}

/// A tool that comes into proximity of a window and moves is reported to that
/// window, at that place, when the frame ends.
pub proof fn law_motion_is_reported(
    tool: PenTool,
    surface: ObjectId,
    x: Double,
    y: Double,
    windows: Set<ObjectId>,
)
    requires
        windows.contains(surface),
    ensures
        ({
            let moved = tool.updated(ToolEvent::ProximityIn { surface }).updated(
                ToolEvent::Motion { x, y },
            );
            let news = queued(moved, ToolEvent::Frame, windows);
            &&& news.len() == 1
            &&& news[0].1 == WindowId { id: surface }
            &&& news[0].0 matches WindowEvent::Pen(pen)
            &&& pen.location == PhysicalPosition { x, y }
            &&& pen.id == tool.serial
            &&& pen.hover_distance is Some
        }),
{
}

/// Every queued event is for an open window, the one that the tool was on, and
/// comes from a tool in proximity: it has a distance, zero while the tool
/// touches, and it ends a stroke exactly when the tool was removed.
pub proof fn law_queued_in_proximity(tool: PenTool, event: ToolEvent, windows: Set<ObjectId>, i: int)
    requires
        tool.frame.wf(),
        0 <= i < queued(tool, event, windows).len(),
    ensures
        tool.frame.in_proximity,
        ({
            let (WindowEvent::Pen(pen), window_id) = queued(tool, event, windows)[i];
            &&& windows.contains(window_id.id)
            &&& tool.frame.surface == Some(window_id.id)
            &&& pen.hover_distance is Some
            &&& tool.frame.touching ==> pen.hover_distance == Some(Fraction { numerator: 0 })
            &&& pen.phase == TouchPhase::Ended <==> tool.frame.removed
        }),
{
}

/// An event of a tool changes no other tool, adds and removes none, and takes no
/// serial number.
pub proof fn law_other_tools_stay(
    before: Tablets,
    id: ObjectId,
    event: ToolEvent,
    windows: Set<ObjectId>,
    after: Tablets,
    news: Seq<(WindowEvent, WindowId)>,
)
    requires
        before.tool_step(id, event, windows, after, news),
    ensures
        after.next_id == before.next_id,
        after.seats.dom() == before.seats.dom(),
        forall|seat: ObjectId| #[trigger]
            before.seats.contains_key(seat) ==> {
                &&& after.seats[seat].dom() == before.seats[seat].dom()
                &&& forall|other: ObjectId|
                    other != id && #[trigger] before.seats[seat].contains_key(other)
                        ==> after.seats[seat][other] == before.seats[seat][other]
            },
        news.len() <= 1,
{
    if !before.seats.is_empty() {
        let seat = lemma_seat_asked(before, id, event, windows, after, news);
        assert(after.seats.dom() =~= before.seats.dom());
        assert(after.seats[seat].dom() =~= before.seats[seat].dom());
    } else {
        assert(before.seats.dom() =~= Set::empty());
    }
}

/// Whatever seat is asked, what is queued is for an open window and describes a
/// tool in proximity, at the surface where it has a force.
pub proof fn law_news_for_open_windows(
    before: Tablets,
    id: ObjectId,
    event: ToolEvent,
    windows: Set<ObjectId>,
    after: Tablets,
    news: Seq<(WindowEvent, WindowId)>,
    i: int,
)
    requires
        before.wf(),
        before.tool_step(id, event, windows, after, news),
        0 <= i < news.len(),
    ensures
        event is Frame,
        ({
            let (WindowEvent::Pen(pen), window_id) = news[i];
            &&& windows.contains(window_id.id)
            &&& pen.hover_distance is Some
            &&& pen.force is Some ==> pen.hover_distance == Some(Fraction { numerator: 0 })
        }),
{
    let seat = lemma_seat_asked(before, id, event, windows, after, news);
    let tools = before.seats[seat];
    assert(tools_wf(tools));
    assert(tools.contains_key(id));
    law_only_frames_queue(tools[id], event, windows);
    law_queued_in_proximity(tools[id], event, windows, i);
}

/// An event of a tool that no seat has changes nothing and queues nothing.
pub proof fn law_unknown_tool_is_ignored(
    before: Tablets,
    id: ObjectId,
    event: ToolEvent,
    windows: Set<ObjectId>,
    after: Tablets,
    news: Seq<(WindowEvent, WindowId)>,
)
    requires
        before.tool_step(id, event, windows, after, news),
        forall|seat: ObjectId| #[trigger]
            before.seats.contains_key(seat) ==> !before.seats[seat].contains_key(id),
    ensures
        after == before,
        news.len() == 0,
{
    if !before.seats.is_empty() {
        let seat = lemma_seat_asked(before, id, event, windows, after, news);
        assert(before.seats.insert(seat, before.seats[seat]) =~= before.seats);
    }
}

/// With one seat nothing is left open: its tool takes in the event.
pub proof fn law_single_seat_tool_event(
    before: Tablets,
    seat: ObjectId,
    id: ObjectId,
    event: ToolEvent,
    windows: Set<ObjectId>,
    after: Tablets,
    news: Seq<(WindowEvent, WindowId)>,
)
    requires
        before.tool_step(id, event, windows, after, news),
        before.seats.dom() == set![seat],
    ensures
        after == before.with_tools(seat, tools_after(before.seats[seat], id, event)),
        news == queued_by(before.seats[seat], id, event, windows),
{
    assert(before.seats.contains_key(seat));
    assert(!before.seats.is_empty());
}

/// With one seat nothing is left open: it gets the new tool.
pub proof fn law_single_seat_tool_added(
    before: Tablets,
    seat: ObjectId,
    id: ObjectId,
    after: Tablets,
)
    requires
        before.seat_step(SeatEvent::ToolAdded { id }, after),
        before.seats.dom() == set![seat],
    ensures
        after.seats == before.seats.insert(
            seat,
            before.seats[seat].insert(id, PenTool::fresh(before.next_id)),
        ),
        after.next_id == id_after(before.next_id),
{
    assert(before.seats.contains_key(seat));
    assert(!before.seats.is_empty());
}

/// To remove a seat undoes its addition.
pub proof fn law_remove_undoes_add(before: Tablets, seat: ObjectId)
    requires
        !before.seats.contains_key(seat),
    ensures
        before.with_tools(seat, Map::empty()).seats.remove(seat) == before.seats,
{
    assert(before.with_tools(seat, Map::empty()).seats.remove(seat) =~= before.seats);
}

/// No serial number is taken twice before all were taken once.
pub proof fn law_serial_numbers_differ(first: u64, m: nat, n: nat)
    requires
        m < n < m + 0x1_0000_0000_0000_0000,
    ensures
        nth_id(first, m) != nth_id(first, n),
{
    lemma_ids_differ(first, m, n);
}

/// A surface is a window exactly where it is among the windows, and is then named
/// by its own number: no two surfaces are the same window.
pub proof fn law_surface_names_window(windows: Set<ObjectId>, surface: ObjectId, other: ObjectId)
    ensures
        window_of(windows, surface) is Some <==> windows.contains(surface),
        window_of(windows, surface) matches Some(window) ==> window.id == surface,
        window_of(windows, surface) is Some && window_of(windows, surface) == window_of(
            windows,
            other,
        ) ==> surface == other,
{
}

/// A seat hands an event to the tool that it is of, whatever the event; the tool
/// takes it in, all other tools of the seat stay, and what is queued is what that
/// tool gives. Without that tool nothing changes and nothing is queued.
pub proof fn law_seat_hands_on(
    tools: Map<ObjectId, PenTool>,
    id: ObjectId,
    event: ToolEvent,
    windows: Set<ObjectId>,
)
    ensures
        tools_after(tools, id, event).dom() == tools.dom(),
        tools.contains_key(id) ==> tools_after(tools, id, event)[id] == tools[id].updated(event),
        forall|other: ObjectId|
            other != id && tools.contains_key(other) ==> #[trigger] tools_after(
                tools,
                id,
                event,
            )[other] == tools[other],
        tools.contains_key(id) ==> queued_by(tools, id, event, windows) == queued(
            tools[id],
            event,
            windows,
        ),
        !tools.contains_key(id) ==> queued_by(tools, id, event, windows).len() == 0,
{
    assert(tools_after(tools, id, event).dom() =~= tools.dom());
}

/// Where there are seats, one is asked. If it has the tool, the tool takes in the
/// event and what it gives is queued; if it has not, nothing changes and nothing is
/// queued. No other seat changes.
pub proof fn law_one_seat_is_asked(
    before: Tablets,
    id: ObjectId,
    event: ToolEvent,
    windows: Set<ObjectId>,
    after: Tablets,
    news: Seq<(WindowEvent, WindowId)>,
) -> (seat: ObjectId)
    requires
        before.tool_step(id, event, windows, after, news),
        exists|some: ObjectId| before.seats.contains_key(some),
    ensures
        before.seats.contains_key(seat),
        after.next_id == before.next_id,
        after.seats.dom() == before.seats.dom(),
        forall|other: ObjectId|
            other != seat && #[trigger] before.seats.contains_key(other) ==> after.seats[other]
                == before.seats[other],
        before.seats[seat].contains_key(id) ==> {
            &&& after.seats[seat] == before.seats[seat].insert(
                id,
                before.seats[seat][id].updated(event),
            )
            &&& news == queued(before.seats[seat][id], event, windows)
        },
        !before.seats[seat].contains_key(id) ==> after.seats[seat] == before.seats[seat]
            && news.len() == 0,
{
    assert(!before.seats.is_empty());
    let seat = lemma_seat_asked(before, id, event, windows, after, news);
    assert(after.seats.dom() =~= before.seats.dom());
    seat
}

/// Without a seat no event of a tool changes anything or queues anything.
pub proof fn law_no_seat_no_news(
    before: Tablets,
    id: ObjectId,
    event: ToolEvent,
    windows: Set<ObjectId>,
    after: Tablets,
    news: Seq<(WindowEvent, WindowId)>,
)
    requires
        before.tool_step(id, event, windows, after, news),
        forall|seat: ObjectId| !before.seats.contains_key(seat),
    ensures
        after == before,
        news.len() == 0,
{
    assert(before.seats.dom() =~= Set::empty());
}

/// On the only seat, a tool has taken in all that it reported, one after the other,
/// however many events there were.
pub proof fn law_single_seat_history(
    states: Seq<Tablets>,
    seat: ObjectId,
    id: ObjectId,
    events: Seq<ToolEvent>,
    windows: Seq<Set<ObjectId>>,
    news: Seq<Seq<(WindowEvent, WindowId)>>,
)
    requires
        states.len() == events.len() + 1,
        windows.len() == events.len(),
        news.len() == events.len(),
        states[0].seats.dom() == set![seat],
        states[0].seats[seat].contains_key(id),
        forall|i: int|
            0 <= i < events.len() ==> #[trigger] states[i].tool_step(
                id,
                events[i],
                windows[i],
                states[i + 1],
                news[i],
            ),
    ensures
        states.last().seats.dom() == set![seat],
        states.last().seats[seat].contains_key(id),
        states.last().seats[seat][id] == after_all(states[0].seats[seat][id], events),
        events.len() > 0 ==> news.last() == queued(
            after_all(states[0].seats[seat][id], events.drop_last()),
            events.last(),
            windows.last(),
        ),
    decreases events.len(),
{
    if events.len() > 0 {
        let n = events.len() - 1;
        let earlier = events.drop_last();
        assert forall|i: int| 0 <= i < earlier.len() implies #[trigger] states.drop_last()[
            i
        ].tool_step(
            id,
            earlier[i],
            windows.drop_last()[i],
            states.drop_last()[i + 1],
            news.drop_last()[i],
        ) by {
            assert(states[i].tool_step(id, events[i], windows[i], states[i + 1], news[i]));
        }
        law_single_seat_history(
            states.drop_last(),
            seat,
            id,
            earlier,
            windows.drop_last(),
            news.drop_last(),
        );
        assert(states.drop_last().last() == states[n]);
        assert(states[n].tool_step(id, events[n], windows[n], states[n + 1], news[n]));
        assert(states[n].seats.contains_key(seat));
        let asked = law_one_seat_is_asked(
            states[n],
            id,
            events[n],
            windows[n],
            states[n + 1],
            news[n],
        );
        assert(asked == seat);
    }
}

/// A new tool goes to one seat, and changes no other tool there or elsewhere. It is
/// a pen with the next serial number that has reported nothing. The serial number
/// after that is the next one.
pub proof fn law_one_seat_gets_the_tool(before: Tablets, id: ObjectId, after: Tablets) -> (seat:
    ObjectId)
    requires
        before.seat_step(SeatEvent::ToolAdded { id }, after),
        exists|some: ObjectId| before.seats.contains_key(some),
    ensures
        before.seats.contains_key(seat),
        after.seats.dom() == before.seats.dom(),
        forall|other: ObjectId|
            other != seat && #[trigger] before.seats.contains_key(other) ==> after.seats[other]
                == before.seats[other],
        after.seats[seat].dom() == before.seats[seat].dom().insert(id),
        forall|other: ObjectId|
            other != id && #[trigger] before.seats[seat].contains_key(other)
                ==> after.seats[seat][other] == before.seats[seat][other],
        after.seats[seat][id].serial == before.next_id,
        after.seats[seat][id].tool_type == PenToolType::Pen,
        after.seats[seat][id].frame == PenTool::fresh(before.next_id).frame,
        after.next_id == id_after(before.next_id),
{
    assert(!before.seats.is_empty());
    let seat = choose|seat: ObjectId| #[trigger]
        before.seats.contains_key(seat) && after.seats == before.seats.insert(
            seat,
            before.seats[seat].insert(id, PenTool::fresh(before.next_id)),
        );
    assert(after.seats.dom() =~= before.seats.dom());
    assert(after.seats[seat].dom() =~= before.seats[seat].dom().insert(id));
    seat
}

/// Two tools that are added one after the other to the only seat have different
/// serial numbers.
pub proof fn law_new_tools_differ(
    before: Tablets,
    seat: ObjectId,
    first: ObjectId,
    between: Tablets,
    second: ObjectId,
    after: Tablets,
)
    requires
        before.seats.dom() == set![seat],
        first != second,
        before.seat_step(SeatEvent::ToolAdded { id: first }, between),
        between.seat_step(SeatEvent::ToolAdded { id: second }, after),
    ensures
        after.seats[seat].contains_key(first),
        after.seats[seat].contains_key(second),
        after.seats[seat][first].serial != after.seats[seat][second].serial,
{
    assert(before.seats.contains_key(seat));
    let one = law_one_seat_gets_the_tool(before, first, between);
    assert(between.seats.contains_key(seat));
    let two = law_one_seat_gets_the_tool(between, second, after);
    assert(one == seat && two == seat);
    assert(between.seats[seat].contains_key(first));
    assert(after.seats[seat].dom().contains(first));
}

/// Without a seat a new tool only uses up its serial number, and what is no tool
/// changes nothing at all.
pub proof fn law_other_announcements(before: Tablets, event: SeatEvent, after: Tablets)
    requires
        before.seat_step(event, after),
    ensures
        !(event is ToolAdded) ==> after == before,
        event is ToolAdded && before.seats.dom() == Set::<ObjectId>::empty() ==> after.seats
            == before.seats && after.next_id == id_after(before.next_id),
{
}

/// A seat that is added has no tools, whatever it had before; the other seats and
/// the serial numbers stay.
pub proof fn law_added_seat_is_empty(before: Tablets, seat: ObjectId, other: ObjectId, id: ObjectId)
    ensures
        ({
            let after = before.with_tools(seat, Map::empty());
            &&& after.seats.dom() == before.seats.dom().insert(seat)
            &&& !after.seats[seat].contains_key(id)
            &&& other != seat ==> after.seats[other] == before.seats[other]
            &&& after.next_id == before.next_id
        }),
{
    assert(before.with_tools(seat, Map::empty()).seats.dom() =~= before.seats.dom().insert(seat));
}

/// Whatever a tool reported: if it last came into proximity of a window and last
/// moved to a place, and did not leave since, then the end of a frame queues one pen
/// event, for that window and at that place.
pub proof fn law_stay_is_reported(
    tool: PenTool,
    events: Seq<ToolEvent>,
    near: int,
    surface: ObjectId,
    moved: int,
    x: Double,
    y: Double,
    windows: Set<ObjectId>,
)
    requires
        0 <= near < events.len(),
        0 <= moved < events.len(),
        events[near] == (ToolEvent::ProximityIn { surface }),
        events[moved] == (ToolEvent::Motion { x, y }),
        forall|i: int|
            near < i < events.len() ==> !(#[trigger] events[i] is ProximityIn) && !(
            events[i] is ProximityOut),
        forall|i: int|
            moved < i < events.len() ==> !(#[trigger] events[i] is Motion) && !(
            events[i] is ProximityOut),
        windows.contains(surface),
    ensures
        ({
            let news = queued(after_all(tool, events), ToolEvent::Frame, windows);
            &&& news.len() == 1
            &&& news[0].1.id == surface
            &&& news[0].0 matches WindowEvent::Pen(pen)
            &&& pen.location.x == x
            &&& pen.location.y == y
            &&& after_all(tool, events).spec_pen_event() == Some(pen)
        }),
{
    law_last_surface(tool, events, near, surface);
    law_last_motion(tool, events, moved, x, y);
    law_who_is_told(after_all(tool, events), ToolEvent::Frame);
    law_frame_reports(after_all(tool, events), windows);
}

} // verus!
