//! Pixel data and requests of a toplevel icon.
//!
//! Unlike a launcher icon, a toplevel icon represents a single window and can be
//! changed at any time.

use vstd::prelude::*;

use crate::natural::Natural;
use crate::protocol::ObjectId;

verus! {

/// An image, four bytes a pixel: red, green, blue, alpha.
#[derive(Debug)]
pub struct PlatformIcon {
    pub rgba: Vec<u8>,
    pub width: u32,
    pub height: u32,
}

/// The pixel formats of shared memory that icons use.
#[derive(Debug, Clone, Copy, PartialEq, Eq, Structural)]
pub enum Format {
    /// Alpha, red, green and blue from the highest byte down, little-endian.
    Argb8888,
}

/// What the buffer of an image has to be.
#[derive(Debug, Clone, Copy, PartialEq, Eq, Structural)]
pub struct BufferParams {
    pub width: i32,
    pub height: i32,
    /// Bytes from one row to the next.
    pub stride: i32,
    pub format: Format,
}

/// A request to the compositor. `I` is what icon objects are named by.
#[derive(Debug, PartialEq, Eq)]
pub enum IconRequest<I> {
    /// Makes a new icon object, which is from then on known as `icon`.
    CreateIcon { manager: ObjectId, icon: I },
    /// Gives `icon` its image.
    AddBuffer { icon: I, buffer: ObjectId, scale: i32 },
    /// Shows the icon `shown` for `toplevel`, or none.
    SetIcon { manager: ObjectId, toplevel: ObjectId, shown: Option<I> },
}

/// An icon object that has no image and was not assigned. It can be assigned
/// once, through the manager that made it.
#[derive(Debug)]
pub struct FreshIcon {
    manager: ObjectId,
    icon: Natural,
}

/// An icon that was assigned, with the buffer that has to live as long.
#[derive(Debug, PartialEq, Eq)]
pub struct ToplevelIcon {
    pub icon: Natural,
    pub buffer: ObjectId,
}

/// The `xdg_toplevel_icon_manager_v1` global. It numbers its icons, so it is not
/// to be copied: a copy would use the same numbers again.
#[derive(Debug)]
pub struct XdgToplevelIconManager {
    manager: ObjectId,
    next_icon: Natural,
}

impl FreshIcon {
    /// The number of the icon, among those of its manager.
    pub closed spec fn view(self) -> nat {
        self.icon@
    }

    /// The manager that made the icon.
    pub closed spec fn manager(self) -> ObjectId {
        self.manager
    }
}

/// `request` with its icon by value.
pub open spec fn plain(request: IconRequest<Natural>) -> IconRequest<nat> {
    match request {
        IconRequest::CreateIcon { manager, icon } => IconRequest::CreateIcon {
            manager,
            icon: icon@,
        },
        IconRequest::AddBuffer { icon, buffer, scale } => IconRequest::AddBuffer {
            icon: icon@,
            buffer,
            scale,
        },
        IconRequest::SetIcon { manager, toplevel, shown } => IconRequest::SetIcon {
            manager,
            toplevel,
            shown: match shown {
                Some(icon) => Some(icon@),
                None => None,
            },
        },
    }
}

/// The requests one by one, with their icons by value.
pub open spec fn trace(requests: Seq<IconRequest<Natural>>) -> Seq<IconRequest<nat>> {
    requests.map_values(|request: IconRequest<Natural>| plain(request))
}

/// The requests that give `icon` its image and then show it for `toplevel`.
pub open spec fn assignment(
    manager: ObjectId,
    toplevel: ObjectId,
    icon: nat,
    buffer: ObjectId,
    scale: i32,
) -> Seq<IconRequest<nat>> {
    seq![
        IconRequest::AddBuffer { icon, buffer, scale },
        IconRequest::SetIcon { manager, toplevel, shown: Some(icon) },
    ]
}

/// Whether `request` has to do with `icon`.
pub open spec fn concerns(request: IconRequest<nat>, icon: nat) -> bool {
    match request {
        IconRequest::CreateIcon { icon: made, .. } => made == icon,
        IconRequest::AddBuffer { icon: filled, .. } => filled == icon,
        IconRequest::SetIcon { shown, .. } => shown == Some(icon),
    }
}

/// The icon that `toplevel` shows after `requests`, if any.
pub open spec fn shown_after(requests: Seq<IconRequest<nat>>, toplevel: ObjectId) -> Option<nat>
    decreases requests.len(),
{
    if requests.len() == 0 {
        None
    } else {
        let earlier = shown_after(requests.drop_last(), toplevel);
        match requests.last() {
            IconRequest::SetIcon { toplevel: of, shown, .. } => if of == toplevel {
                shown
            } else {
                earlier
            },
            _ => earlier,
        }
    }
}

/// `value` in 32 bits of two's complement.
pub open spec fn as_signed(value: u32) -> int {
    if value < 0x8000_0000 {
        value as int
    } else {
        value - 0x1_0000_0000
    }
}

/// A colour scaled by an alpha of at most 255, rounded down.
pub open spec fn scaled(colour: u8, alpha: u8) -> int {
    colour * alpha / 255
}

/// The bytes of a pixel in the buffer: blue, green and red, each scaled by alpha,
/// then alpha.
pub open spec fn pixel_bytes(red: u8, green: u8, blue: u8, alpha: u8) -> Seq<u8> {
    seq![scaled(blue, alpha) as u8, scaled(green, alpha) as u8, scaled(red, alpha) as u8, alpha]
}

/// The number of pixels of `rgba` that fit into `canvas`.
pub open spec fn pixel_count(canvas: Seq<u8>, rgba: Seq<u8>) -> int {
    if canvas.len() <= rgba.len() {
        canvas.len() as int / 4
    } else {
        rgba.len() as int / 4
    }
}

/// `canvas` with the first `count` pixels of `rgba` drawn from its start.
pub open spec fn drawn(canvas: Seq<u8>, rgba: Seq<u8>, count: int) -> Seq<u8> {
    Seq::new(
        canvas.len(),
        |i: int|
            {
                let p = i / 4;
                if p < count {
                    pixel_bytes(
                        rgba[4 * p],
                        rgba[4 * p + 1],
                        rgba[4 * p + 2],
                        rgba[4 * p + 3],
                    )[i % 4]
                } else {
                    canvas[i]
                }
            },
    )
}

/// `canvas` with all pixels of `rgba` that fit drawn from its start.
pub open spec fn painted(canvas: Seq<u8>, rgba: Seq<u8>) -> Seq<u8> {
    drawn(canvas, rgba, pixel_count(canvas, rgba))
}

proof fn lemma_scaled(colour: u8, alpha: u8)
    ensures
        0 <= scaled(colour, alpha) <= colour,
        scaled(colour, alpha) <= alpha,
        colour * alpha <= 65025,
{
    assert(colour * alpha <= colour * 255 && colour * alpha <= 255 * alpha && 0 <= colour * alpha)
        by (nonlinear_arith)
        requires
            0 <= colour <= 255,
            0 <= alpha <= 255,
    ;
}

/// Scales a colour by alpha.
pub fn premultiply(colour: u8, alpha: u8) -> (result: u8)
    ensures
        result == scaled(colour, alpha),
        result <= colour,
        result <= alpha,
{
    proof {
        lemma_scaled(colour, alpha);
    }
    let product: u32 = colour as u32 * alpha as u32;
    (product / 255) as u8
}

/// The bytes of a pixel in the buffer.
pub fn encode_pixel(red: u8, green: u8, blue: u8, alpha: u8) -> (bytes: [u8; 4])
    ensures
        bytes@ == pixel_bytes(red, green, blue, alpha),
{
    let bytes = [
        premultiply(blue, alpha),
        premultiply(green, alpha),
        premultiply(red, alpha),
        alpha,
    ];
    assert(bytes@ =~= pixel_bytes(red, green, blue, alpha));
    bytes
}

/// Draws `rgba` into `canvas`, as far as both go; the rest of `canvas` stays.
pub fn paint(canvas: &mut [u8], rgba: &[u8])
    ensures
        final(canvas)@ == painted(old(canvas)@, rgba@),
{
    let ghost before = canvas@;
    let count: usize = if canvas.len() <= rgba.len() {
        canvas.len() / 4
    } else {
        rgba.len() / 4
    };
    assert(canvas@ =~= drawn(before, rgba@, 0));
    for p in 0..count
        invariant
            canvas@ == drawn(before, rgba@, p as int),
            canvas@.len() == before.len(),
            4 * count <= before.len(),
            4 * count <= rgba.len(),
    {
        let at: usize = 4 * p;
        let bytes = encode_pixel(rgba[at], rgba[at + 1], rgba[at + 2], rgba[at + 3]);
        canvas[at] = bytes[0];
        canvas[at + 1] = bytes[1];
        canvas[at + 2] = bytes[2];
        canvas[at + 3] = bytes[3];
        assert(canvas@ =~= drawn(before, rgba@, p + 1));
    }
}

/// Whether the stride of rows of `width` pixels can be computed.
pub open spec fn stride_fits(width: u32) -> bool {
    i32::MIN <= 4 * as_signed(width) <= i32::MAX
}

impl PlatformIcon {
    /// The buffer that the image needs.
    pub open spec fn needed_buffer(self) -> BufferParams {
        BufferParams {
            width: as_signed(self.width) as i32,
            height: as_signed(self.height) as i32,
            stride: (4 * as_signed(self.width)) as i32,
            format: Format::Argb8888,
        }
    }

    /// The buffer that the image needs.
    pub fn buffer_params(&self) -> (params: BufferParams)
        requires
            stride_fits(self.width),
        ensures
            params == self.needed_buffer(),
            params.width == as_signed(self.width),
            params.height == as_signed(self.height),
            params.stride == 4 * as_signed(self.width),
            params.format == Format::Argb8888,
    {
        let width: i32 = to_signed(self.width);
        let height: i32 = to_signed(self.height);
        BufferParams { width, height, stride: 4 * width, format: Format::Argb8888 }
    }
}

/// Reads 32 bits as two's complement.
fn to_signed(value: u32) -> (result: i32)
    ensures
        result == as_signed(value),
{
    assert(value < 0x8000_0000 ==> (value as i32) == value) by (bit_vector);
    assert(value >= 0x8000_0000 ==> (value as i32) == value - 0x1_0000_0000) by (bit_vector);
    #[verifier::truncate]
    (value as i32)
}

/// Draws `rgba` into the canvas of a fresh buffer and requests that it become the
/// image of `icon`. Without a buffer it does nothing.
pub fn set_image(
    icon: &Natural,
    buffer: Option<ObjectId>,
    canvas: &mut [u8],
    rgba: &[u8],
    scale: i32,
    requests: &mut Vec<IconRequest<Natural>>,
) -> (attached: Option<ObjectId>)
    ensures
        attached == buffer,
        match buffer {
            Some(buffer) => {
                &&& final(canvas)@ == painted(old(canvas)@, rgba@)
                &&& trace(final(requests)@) == trace(old(requests)@).push(
                    IconRequest::AddBuffer { icon: icon@, buffer, scale },
                )
            },
            None => {
                &&& final(canvas)@ == old(canvas)@
                &&& final(requests)@ == old(requests)@
            },
        },
{
    let buffer: ObjectId = match buffer {
        Some(buffer) => buffer,
        None => return None,
    };
    paint(canvas, rgba);
    requests.push(IconRequest::AddBuffer { icon: icon.copied(), buffer, scale });
    assert(trace(requests@) =~= trace(old(requests)@).push(
        IconRequest::AddBuffer { icon: icon@, buffer, scale },
    ));
    Some(buffer)
}

impl XdgToplevelIconManager {
    /// The object that the requests go to.
    pub closed spec fn object(self) -> ObjectId {
        self.manager
    }

    /// How many icons the manager has made. They are numbered from zero.
    pub closed spec fn made(self) -> nat {
        self.next_icon@
    }

    /// The manager that is the object `manager`, and has made no icon.
    pub fn new(manager: ObjectId) -> (result: XdgToplevelIconManager)
        ensures
            result.object() == manager,
            result.made() == 0,
    {
        XdgToplevelIconManager { manager, next_icon: Natural::zero() }
    }

    /// Requests a new icon object, under a number that no other icon of the manager
    /// has. Icons are immutable once assigned, so each assignment needs one of its
    /// own.
    pub fn create_icon(&mut self, requests: &mut Vec<IconRequest<Natural>>) -> (icon: FreshIcon)
        ensures
            icon@ == old(self).made(),
            icon.manager() == old(self).object(),
            final(self).made() == old(self).made() + 1,
            final(self).object() == old(self).object(),
            trace(final(requests)@) == trace(old(requests)@).push(
                IconRequest::CreateIcon { manager: old(self).object(), icon: icon@ },
            ),
    {
        let icon = FreshIcon { manager: self.manager, icon: self.next_icon.copied() };
        self.next_icon.advance();
        requests.push(
            IconRequest::CreateIcon { manager: self.manager, icon: icon.icon.copied() },
        );
        assert(trace(requests@) =~= trace(old(requests)@).push(
            IconRequest::CreateIcon { manager: self.manager, icon: icon@ },
        ));
        icon
    }

    /// Assigns `image` as the icon of `toplevel`.
    ///
    /// `icon` is the object made for it. `buffer` is the buffer of
    /// [`PlatformIcon::buffer_params`] that was allocated for the pixels, with
    /// `canvas` its memory, or nothing where no slot was available; there is then no
    /// icon. The result has to be kept as long as the icon is shown.
    pub fn set_icon(
        &self,
        toplevel: ObjectId,
        icon: FreshIcon,
        buffer: Option<ObjectId>,
        canvas: &mut [u8],
        image: &PlatformIcon,
        scale: i32,
        requests: &mut Vec<IconRequest<Natural>>,
    ) -> (result: Option<ToplevelIcon>)
        requires
            icon.manager() == self.object(),
        ensures
            match buffer {
                Some(buffer) => {
                    &&& result matches Some(assigned)
                    &&& assigned.icon@ == icon@
                    &&& assigned.buffer == buffer
                    &&& final(canvas)@ == painted(old(canvas)@, image.rgba@)
                    &&& trace(final(requests)@) == trace(old(requests)@) + assignment(
                        self.object(),
                        toplevel,
                        icon@,
                        buffer,
                        scale,
                    )
                },
                None => {
                    &&& result is None
                    &&& final(canvas)@ == old(canvas)@
                    &&& final(requests)@ == old(requests)@
                },
            },
    {
        let icon = icon.icon;
        let buffer: ObjectId = match set_image(
            &icon,
            buffer,
            canvas,
            image.rgba.as_slice(),
            scale,
            requests,
        ) {
            Some(buffer) => buffer,
            None => return None,
        };
        let ghost attached = requests@;
        requests.push(
            IconRequest::SetIcon {
                manager: self.manager,
                toplevel,
                shown: Some(icon.copied()),
            },
        );
        proof {
            let shown = IconRequest::SetIcon {
                manager: self.object(),
                toplevel,
                shown: Some(icon@),
            };
            assert(trace(requests@) =~= trace(attached).push(shown));
            assert(trace(requests@) =~= trace(old(requests)@) + assignment(
                self.object(),
                toplevel,
                icon@,
                buffer,
                scale,
            ));
        }
        Some(ToplevelIcon { icon, buffer })
    }

    /// Removes the icon of `toplevel`.
    pub fn clear_icon(&self, toplevel: ObjectId, requests: &mut Vec<IconRequest<Natural>>)
        ensures
            trace(final(requests)@) == trace(old(requests)@).push(
                IconRequest::SetIcon { manager: self.object(), toplevel, shown: None },
            ),
    {
        requests.push(IconRequest::SetIcon { manager: self.manager, toplevel, shown: None });
        assert(trace(requests@) =~= trace(old(requests)@).push(
            IconRequest::SetIcon { manager: self.object(), toplevel, shown: None },
        ));
    }
}

/// The bytes of a pixel are, as a little-endian number, the alpha in the highest
/// byte and the scaled red, green and blue below it.
pub proof fn law_pixel_word(red: u8, green: u8, blue: u8, alpha: u8)
    ensures
        ({
            let bytes = pixel_bytes(red, green, blue, alpha);
            bytes.len() == 4 && bytes[0] + 0x100 * bytes[1] + 0x1_0000 * bytes[2] + 0x100_0000 * bytes[3] == 0x100_0000
                * alpha + 0x1_0000 * scaled(red, alpha) + 0x100 * scaled(green, alpha) + scaled(
                blue,
                alpha,
            )
        }),
{
    lemma_scaled(red, alpha);
    lemma_scaled(green, alpha);
    lemma_scaled(blue, alpha);
}

/// Alpha is premultiplied: no colour of a pixel in the buffer exceeds its alpha.
pub proof fn law_colours_within_alpha(red: u8, green: u8, blue: u8, alpha: u8, i: int)
    requires
        0 <= i < 4,
    ensures
        pixel_bytes(red, green, blue, alpha)[i] <= alpha,
{
    lemma_scaled(red, alpha);
    lemma_scaled(green, alpha);
    lemma_scaled(blue, alpha);
}

/// An opaque pixel keeps its colours, in the order of the buffer.
pub proof fn law_opaque_pixel(red: u8, green: u8, blue: u8)
    ensures
        pixel_bytes(red, green, blue, 255) == seq![blue, green, red, 255u8],
{
    assert(pixel_bytes(red, green, blue, 255) =~= seq![blue, green, red, 255u8]);
}

/// A transparent pixel is zero, whatever its colours.
pub proof fn law_transparent_pixel(red: u8, green: u8, blue: u8)
    ensures
        pixel_bytes(red, green, blue, 0) == seq![0u8, 0u8, 0u8, 0u8],
{
    assert(pixel_bytes(red, green, blue, 0) =~= seq![0u8, 0u8, 0u8, 0u8]);
}

/// Each pixel that fits stands in its place, and the bytes behind the last one
/// stay as they were.
pub proof fn law_painted_pixels(canvas: Seq<u8>, rgba: Seq<u8>)
    ensures
        painted(canvas, rgba).len() == canvas.len(),
        forall|p: int|
            0 <= p < pixel_count(canvas, rgba) ==> #[trigger] painted(canvas, rgba).subrange(
                4 * p,
                4 * p + 4,
            ) == pixel_bytes(rgba[4 * p], rgba[4 * p + 1], rgba[4 * p + 2], rgba[4 * p + 3]),
        painted(canvas, rgba).skip(4 * pixel_count(canvas, rgba)) == canvas.skip(
            4 * pixel_count(canvas, rgba),
        ),
{
    let count = pixel_count(canvas, rgba);
    assert forall|p: int| 0 <= p < count implies #[trigger] painted(canvas, rgba).subrange(
        4 * p,
        4 * p + 4,
    ) == pixel_bytes(rgba[4 * p], rgba[4 * p + 1], rgba[4 * p + 2], rgba[4 * p + 3]) by {
        assert(painted(canvas, rgba).subrange(4 * p, 4 * p + 4) =~= pixel_bytes(
            rgba[4 * p],
            rgba[4 * p + 1],
            rgba[4 * p + 2],
            rgba[4 * p + 3],
        ));
    }
    assert(painted(canvas, rgba).skip(4 * count) =~= canvas.skip(4 * count));
}

/// To paint an image twice is to paint it once.
pub proof fn law_paint_twice(canvas: Seq<u8>, rgba: Seq<u8>)
    ensures
        painted(painted(canvas, rgba), rgba) == painted(canvas, rgba),
{
    assert(painted(painted(canvas, rgba), rgba) =~= painted(canvas, rgba));
}

/// An image that covers a canvas of whole pixels leaves nothing of what was there.
pub proof fn law_paint_covers(canvas: Seq<u8>, other: Seq<u8>, rgba: Seq<u8>)
    requires
        canvas.len() == other.len(),
        canvas.len() % 4 == 0,
        canvas.len() <= rgba.len(),
    ensures
        painted(canvas, rgba) == painted(other, rgba),
{
    assert(painted(canvas, rgba) =~= painted(other, rgba));
}

/// The buffer that is asked for holds the whole image: all pixels of an image of
/// `width` by `height` are drawn.
pub proof fn law_image_fits(width: u32, height: u32, canvas: Seq<u8>, rgba: Seq<u8>)
    requires
        stride_fits(width),
        width < 0x8000_0000,
        height < 0x8000_0000,
        rgba.len() == 4 * (width * height),
        canvas.len() >= as_signed(height) * (4 * as_signed(width)),
    ensures
        pixel_count(canvas, rgba) == width * height,
{
    assert(height * (4 * width) == 4 * (width * height)) by (nonlinear_arith);
}

/// Each assignment has an icon of its own. Let `earlier` be an icon that a manager
/// made, and `later` the one that it makes next, after `made` icons in all, for
/// the same or another toplevel. Then the two differ, no request for `later`
/// concerns `earlier`, and afterwards `toplevel` shows `later` while every other
/// toplevel shows what it did before.
pub proof fn law_each_assignment_is_fresh(
    made: nat,
    earlier: nat,
    later: nat,
    manager: ObjectId,
    toplevel: ObjectId,
    buffer: ObjectId,
    scale: i32,
    history: Seq<IconRequest<nat>>,
)
    requires
        earlier < made,
        later == made,
    ensures
        earlier != later,
        !concerns(IconRequest::CreateIcon { manager, icon: later }, earlier),
        forall|i: int|
            0 <= i < assignment(manager, toplevel, later, buffer, scale).len() ==> !concerns(
                #[trigger] assignment(manager, toplevel, later, buffer, scale)[i],
                earlier,
            ),
        ({
            let requests = history.push(IconRequest::CreateIcon { manager, icon: later })
                + assignment(manager, toplevel, later, buffer, scale);
            &&& shown_after(requests, toplevel) == Some(later)
            &&& forall|other: ObjectId|
                other != toplevel ==> #[trigger] shown_after(requests, other) == shown_after(
                    history,
                    other,
                )
        }),
{
    let created = history.push(IconRequest::CreateIcon { manager, icon: later });
    let requests = created + assignment(manager, toplevel, later, buffer, scale);
    let filled = requests.drop_last();
    assert(filled.drop_last() =~= created);
    assert(created.drop_last() =~= history);
    assert(requests.last() == assignment(manager, toplevel, later, buffer, scale)[1]);
    assert(filled.last() == assignment(manager, toplevel, later, buffer, scale)[0]);
    assert forall|other: ObjectId| other != toplevel implies #[trigger] shown_after(requests, other)
        == shown_after(history, other) by {
        assert(shown_after(requests, other) == shown_after(filled, other));
        assert(shown_after(filled, other) == shown_after(created, other));
        assert(shown_after(created, other) == shown_after(history, other));
    }
}

/// An icon that is made and not assigned, for want of a buffer, leaves what each
/// toplevel shows as it was.
pub proof fn law_refused_icon_is_not_shown(
    history: Seq<IconRequest<nat>>,
    manager: ObjectId,
    icon: nat,
    toplevel: ObjectId,
)
    ensures
        shown_after(history.push(IconRequest::CreateIcon { manager, icon }), toplevel)
            == shown_after(history, toplevel),
{
    assert(history.push(IconRequest::CreateIcon { manager, icon }).drop_last() =~= history);
}

/// A toplevel whose icon was cleared shows none, and every other shows what it did
/// before.
pub proof fn law_clear_shows_none(
    history: Seq<IconRequest<nat>>,
    manager: ObjectId,
    toplevel: ObjectId,
    other: ObjectId,
)
    ensures
        ({
            let requests = history.push(IconRequest::SetIcon { manager, toplevel, shown: None });
            &&& shown_after(requests, toplevel) is None
            &&& other != toplevel ==> shown_after(requests, other) == shown_after(history, other)
        }),
{
    let requests = history.push(IconRequest::SetIcon { manager, toplevel, shown: None });
    assert(requests.drop_last() =~= history);
}

/// An assignment is two requests. The only one that adds a buffer comes first: it is
/// for the assigned icon, with the given buffer and exactly the given scale. The
/// only one that sets an icon comes after it: it shows that icon for the given
/// toplevel, through the manager. None makes an icon.
pub proof fn law_assignment_requests(
    manager: ObjectId,
    toplevel: ObjectId,
    icon: nat,
    buffer: ObjectId,
    scale: i32,
)
    ensures
        ({
            let requests = assignment(manager, toplevel, icon, buffer, scale);
            &&& requests.len() == 2
            &&& exists|i: int, j: int|
                0 <= i < j < requests.len() && #[trigger] requests[i] is AddBuffer
                    && #[trigger] requests[j] is SetIcon
            &&& forall|i: int, j: int|
                0 <= i < requests.len() && 0 <= j < requests.len() && #[trigger] requests[i]
                    is AddBuffer && #[trigger] requests[j] is AddBuffer ==> i == j
            &&& forall|i: int|
                0 <= i < requests.len() ==> match #[trigger] requests[i] {
                    IconRequest::CreateIcon { .. } => false,
                    IconRequest::AddBuffer { icon: filled, buffer: by, scale: at } => filled == icon
                        && by == buffer && at == scale,
                    IconRequest::SetIcon { manager: through, toplevel: of, shown } => through
                        == manager && of == toplevel && shown == Some(icon),
                }
        }),
{
    let requests = assignment(manager, toplevel, icon, buffer, scale);
    assert(requests[0] is AddBuffer);
    assert(requests[1] is SetIcon);
}

/// Assignments with different scales, buffers, icons, toplevels or managers are
/// different requests.
pub proof fn law_assignments_differ(
    manager: ObjectId,
    toplevel: ObjectId,
    icon: nat,
    buffer: ObjectId,
    scale: i32,
    other_manager: ObjectId,
    other_toplevel: ObjectId,
    other_icon: nat,
    other_buffer: ObjectId,
    other_scale: i32,
)
    requires
        assignment(manager, toplevel, icon, buffer, scale) == assignment(
            other_manager,
            other_toplevel,
            other_icon,
            other_buffer,
            other_scale,
        ),
    ensures
        manager == other_manager,
        toplevel == other_toplevel,
        icon == other_icon,
        buffer == other_buffer,
        scale == other_scale,
{
    let a = assignment(manager, toplevel, icon, buffer, scale);
    let b = assignment(other_manager, other_toplevel, other_icon, other_buffer, other_scale);
    assert(a[0] == b[0]);
    assert(a[1] == b[1]);
}

/// The trace of requests has one entry for each, in their order, with the same
/// objects and the same scale.
pub proof fn law_trace_is_faithful(requests: Seq<IconRequest<Natural>>, i: int)
    requires
        0 <= i < requests.len(),
    ensures
        trace(requests).len() == requests.len(),
        match (requests[i], trace(requests)[i]) {
            (
                IconRequest::CreateIcon { manager: m, icon: n },
                IconRequest::CreateIcon { manager, icon },
            ) => m == manager && n@ == icon,
            (
                IconRequest::AddBuffer { icon: n, buffer: b, scale: s },
                IconRequest::AddBuffer { icon, buffer, scale },
            ) => n@ == icon && b == buffer && s == scale,
            (
                IconRequest::SetIcon { manager: m, toplevel: t, shown: n },
                IconRequest::SetIcon { manager, toplevel, shown },
            ) => {
                &&& m == manager
                &&& t == toplevel
                &&& n is Some <==> shown is Some
                &&& n matches Some(number) ==> shown == Some(number@)
            },
            _ => false,
        },
{
}

/// Two's complement: the signed number differs from the unsigned one by a multiple
/// of 2^32, and lies between -2^31 and 2^31.
pub proof fn law_signed_range(value: u32)
    ensures
        -0x8000_0000 <= as_signed(value) < 0x8000_0000,
        as_signed(value) == value || as_signed(value) == value - 0x1_0000_0000,
{
}

/// A scaled colour is the largest whole number whose 255-fold does not exceed the
/// product of colour and alpha. More colour, or more alpha, never gives less.
pub proof fn law_scaled_rounds_down(colour: u8, alpha: u8, more: u8)
    ensures
        255 * scaled(colour, alpha) <= colour * alpha < 255 * scaled(colour, alpha) + 255,
        colour <= more ==> scaled(colour, alpha) <= scaled(more, alpha),
        alpha <= more ==> scaled(colour, alpha) <= scaled(colour, more),
{
    assert(colour <= more ==> colour * alpha <= more * alpha) by (nonlinear_arith)
        requires
            0 <= alpha,
    ;
    assert(alpha <= more ==> colour * alpha <= colour * more) by (nonlinear_arith)
        requires
            0 <= colour,
    ;
}

/// As many whole pixels are drawn as there are both in the image and on the canvas.
pub proof fn law_pixel_count(canvas: Seq<u8>, rgba: Seq<u8>)
    ensures
        0 <= 4 * pixel_count(canvas, rgba) <= canvas.len(),
        4 * pixel_count(canvas, rgba) <= rgba.len(),
        canvas.len() < 4 * pixel_count(canvas, rgba) + 4 || rgba.len() < 4 * pixel_count(
            canvas,
            rgba,
        ) + 4,
{
}

/// Each byte of the canvas after painting, for any canvas and image: a byte of a
/// drawn pixel is its blue, green or red, times alpha over 255 and rounded down, or
/// its alpha; any other byte is what it was.
pub proof fn law_painted_bytes(canvas: Seq<u8>, rgba: Seq<u8>, p: int)
    requires
        0 <= p,
    ensures
        painted(canvas, rgba).len() == canvas.len(),
        4 * p + 4 <= canvas.len() && 4 * p + 4 <= rgba.len() ==> {
            let at = painted(canvas, rgba);
            let alpha = rgba[4 * p + 3];
            &&& 255 * at[4 * p] <= rgba[4 * p + 2] * alpha < 255 * at[4 * p] + 255
            &&& 255 * at[4 * p + 1] <= rgba[4 * p + 1] * alpha < 255 * at[4 * p + 1] + 255
            &&& 255 * at[4 * p + 2] <= rgba[4 * p] * alpha < 255 * at[4 * p + 2] + 255
            &&& at[4 * p + 3] == alpha
        },
        4 * p + 4 > canvas.len() || 4 * p + 4 > rgba.len() ==> forall|i: int|
            4 * p <= i < canvas.len() ==> #[trigger] painted(canvas, rgba)[i] == canvas[i],
{
    if 4 * p + 4 <= canvas.len() && 4 * p + 4 <= rgba.len() {
        let alpha = rgba[4 * p + 3];
        lemma_scaled(rgba[4 * p], alpha);
        lemma_scaled(rgba[4 * p + 1], alpha);
        lemma_scaled(rgba[4 * p + 2], alpha);
        law_scaled_rounds_down(rgba[4 * p], alpha, alpha);
        law_scaled_rounds_down(rgba[4 * p + 1], alpha, alpha);
        law_scaled_rounds_down(rgba[4 * p + 2], alpha, alpha);
    }
}

/// A row of the buffer is four bytes for each pixel of its width, and an image of
/// ordinary size has a buffer of its own width and height.
pub proof fn law_buffer_has_the_size_of_the_image(image: PlatformIcon)
    requires
        stride_fits(image.width),
    ensures
        image.needed_buffer().stride == 4 * image.needed_buffer().width,
        image.width < 0x8000_0000 ==> image.needed_buffer().width == image.width,
        image.height < 0x8000_0000 ==> image.needed_buffer().height == image.height,
        image.width >= 0x8000_0000 ==> image.needed_buffer().width == image.width - 0x1_0000_0000,
        image.height >= 0x8000_0000 ==> image.needed_buffer().height == image.height
            - 0x1_0000_0000,
        image.needed_buffer().format == Format::Argb8888,
{
}

} // verus!
