//! Where the pointer is drawn: its shape kind, its region clipped to the desktop,
//! the layout of the pixels to composite, the texture it is uploaded as, and the
//! quad that places it on the desktop.

use crate::mask::{PointerLayout, I32_LIMIT};
use vstd::prelude::*;

verus! {

/// Bytes per pixel of the desktop and pointer textures (32-bit BGRA).
pub const BYTES_PER_PIXEL: u32 = 4;

/// The kinds of pointer shape that the duplication API reports.
#[derive(PartialEq, Eq, Structural, Clone, Copy, Debug)]
pub enum PointerShapeKind {
    /// An AND mask followed by an XOR mask, one bit per pixel.
    Monochrome,
    /// 32-bit BGRA pixels drawn as they are.
    Color,
    /// 32-bit pixels whose top byte says whether to XOR or replace.
    MaskedColor,
    /// A shape type this code does not draw.
    Unknown,
}

/// The shape kind of a raw shape-type value (1, 2 and 4 are the API's codes).
pub open spec fn shape_kind_of(raw: u32) -> PointerShapeKind {
    if raw == 1 {
        PointerShapeKind::Monochrome
    } else if raw == 2 {
        PointerShapeKind::Color
    } else if raw == 4 {
        PointerShapeKind::MaskedColor
    } else {
        PointerShapeKind::Unknown
    }
}

/// Reads the shape kind from the raw shape-type value.
pub fn pointer_shape_kind(raw: u32) -> (kind: PointerShapeKind)
    ensures
        kind == shape_kind_of(raw),
{
    if raw == 1 {
        PointerShapeKind::Monochrome
    } else if raw == 2 {
        PointerShapeKind::Color
    } else if raw == 4 {
        PointerShapeKind::MaskedColor
    } else {
        PointerShapeKind::Unknown
    }
}

/// The region of the desktop that the pointer covers.
#[derive(PartialEq, Eq, Structural, Clone, Copy, Debug)]
pub struct PointerRegion {
    pub left: i32,
    pub top: i32,
    pub width: i32,
    pub height: i32,
}

/// The extent along one axis of a shape of `size` placed at `given` on a desktop of
/// `limit`: the part hanging over the near edge is cut off, and so is the part past
/// the far edge of a shape that starts on the desktop.
pub open spec fn clip_extent(given: int, size: int, limit: int) -> int {
    if given < 0 {
        given + size
    } else if given + size > limit {
        limit - given
    } else {
        size
    }
}

/// The signed 32-bit arithmetic of `clip_extent` does not overflow.
pub open spec fn clip_computable(given: int, size: int, limit: int) -> bool {
    &&& i32::MIN <= given + size <= i32::MAX
    &&& (given >= 0 && given + size > limit ==> i32::MIN <= limit - given <= i32::MAX)
}

/// Clipping keeps the pointer on the desktop: a shape that starts on the desktop ends
/// at or before its far edge; a shape lying wholly on the desktop is kept whole; the
/// hidden and the visible part of a shape hanging over the near edge make up the whole
/// shape; and clipping never makes a shape larger.
pub proof fn lemma_clip_keeps_pointer_on_desktop(given: int, size: int, limit: int)
    ensures
        given >= 0 ==> given + clip_extent(given, size, limit) <= limit,
        given >= 0 && given + size <= limit ==> clip_extent(given, size, limit) == size,
        given < 0 ==> hidden_extent(given) + clip_extent(given, size, limit) == size,
        clip_extent(given, size, limit) <= size,
{
}

fn clip_axis(given: i32, size: i32, limit: i32) -> (extent: i32)
    requires
        clip_computable(given as int, size as int, limit as int),
    ensures
        extent == clip_extent(given as int, size as int, limit as int),
{
    if given < 0 {
        given + size
    } else if given + size > limit {
        limit - given
    } else {
        size
    }
}

/// The rows of a shape that one pixel layer spans: a monochrome shape stacks its AND
/// and XOR masks, so its layer is half its height.
pub open spec fn layer_rows(is_mono: bool, shape_height: u32) -> u32 {
    if is_mono {
        (shape_height / 2) as u32
    } else {
        shape_height
    }
}

/// What clipping a monochrome or masked-colour pointer yields: the region, and the
/// shape height as the clipping leaves it behind.
pub struct ClippedPointer {
    pub region: PointerRegion,
    pub shape_height: u32,
}

/// Clips a monochrome (`is_mono`) or masked-colour pointer placed at
/// (`given_left`, `given_top`) to a desktop of the given size. The shape height is
/// halved for the clipping of a monochrome shape and doubled again afterwards, which
/// drops the last row of an odd height.
pub fn clip_pointer(
    is_mono: bool,
    desktop_width: u32,
    desktop_height: u32,
    shape_width: u32,
    shape_height: u32,
    given_left: i32,
    given_top: i32,
) -> (clipped: ClippedPointer)
    requires
        clip_computable(
            given_left as int,
            (shape_width as i32) as int,
            (desktop_width as i32) as int,
        ),
        clip_computable(
            given_top as int,
            (layer_rows(is_mono, shape_height) as i32) as int,
            (desktop_height as i32) as int,
        ),
    ensures
        clipped.region.width == clip_extent(
            given_left as int,
            (shape_width as i32) as int,
            (desktop_width as i32) as int,
        ),
        clipped.region.height == clip_extent(
            given_top as int,
            (layer_rows(is_mono, shape_height) as i32) as int,
            (desktop_height as i32) as int,
        ),
        clipped.region.left == if given_left < 0 {
            0
        } else {
            given_left
        },
        clipped.region.top == if given_top < 0 {
            0
        } else {
            given_top
        },
        clipped.shape_height == if is_mono {
            (shape_height / 2) * 2
        } else {
            shape_height as int
        },
{
    let desktop_width_i = desktop_width as i32;
    let desktop_height_i = desktop_height as i32;
    let width = clip_axis(given_left, shape_width as i32, desktop_width_i);
    let mut rows = shape_height;
    if is_mono {
        rows = rows / 2;
    }
    let height = clip_axis(given_top, rows as i32, desktop_height_i);
    if is_mono {
        rows = rows * 2;
    }
    let left = if given_left < 0 {
        0
    } else {
        given_left
    };
    let top = if given_top < 0 {
        0
    } else {
        given_top
    };
    ClippedPointer { region: PointerRegion { left, top, width, height }, shape_height: rows }
}

fn axis_computable(given: i32, size: i32, limit: i32) -> (ok: bool)
    ensures
        ok == clip_computable(given as int, size as int, limit as int),
{
    let end: i64 = given as i64 + size as i64;
    let fits = i32::MIN as i64 <= end && end <= i32::MAX as i64;
    if given >= 0 && end > limit as i64 {
        let rest: i64 = limit as i64 - given as i64;
        fits && i32::MIN as i64 <= rest && rest <= i32::MAX as i64
    } else {
        fits
    }
}

/// Whether `clip_pointer` can clip this pointer without overflowing: the test that
/// it asks of its caller.
pub fn clip_pointer_computable(
    is_mono: bool,
    desktop_width: u32,
    desktop_height: u32,
    shape_width: u32,
    shape_height: u32,
    given_left: i32,
    given_top: i32,
) -> (ok: bool)
    ensures
        ok == (clip_computable(
            given_left as int,
            (shape_width as i32) as int,
            (desktop_width as i32) as int,
        ) && clip_computable(
            given_top as int,
            (layer_rows(is_mono, shape_height) as i32) as int,
            (desktop_height as i32) as int,
        )),
{
    let rows = if is_mono {
        shape_height / 2
    } else {
        shape_height
    };
    axis_computable(given_left, shape_width as i32, desktop_width as i32) && axis_computable(
        given_top,
        rows as i32,
        desktop_height as i32,
    )
}

/// The region of a colour pointer: its shape drawn whole at its position.
pub fn color_pointer_region(
    position_x: i32,
    position_y: i32,
    shape_width: u32,
    shape_height: u32,
) -> (region: PointerRegion)
    ensures
        region == (PointerRegion {
            left: position_x,
            top: position_y,
            width: shape_width as i32,
            height: shape_height as i32,
        }),
{
    PointerRegion {
        left: position_x,
        top: position_y,
        width: shape_width as i32,
        height: shape_height as i32,
    }
}

/// The empty region that a pointer of unknown kind gets.
pub fn empty_pointer_region() -> (region: PointerRegion)
    ensures
        region == (PointerRegion { left: 0, top: 0, width: 0, height: 0 }),
{
    PointerRegion { left: 0, top: 0, width: 0, height: 0 }
}

/// How many columns or rows of the shape lie beyond the near edge of the desktop.
pub open spec fn hidden_extent(given: int) -> int {
    if given < 0 {
        -given
    } else {
        0
    }
}

/// The layout for compositing a clipped monochrome (`is_mono`) or masked-colour
/// pointer: the clipped size, the hidden part of the shape, and the row pitches in
/// the units that compositing reads (mask bytes or colour pixels; desktop pixels).
pub fn pointer_layout(
    is_mono: bool,
    region: &PointerRegion,
    given_left: i32,
    given_top: i32,
    shape_pitch_bytes: u32,
    desktop_pitch_bytes: i32,
) -> (layout: PointerLayout)
    requires
        region.width >= 0,
        region.height >= 0,
        given_left > i32::MIN,
        given_top > i32::MIN,
        shape_pitch_bytes <= I32_LIMIT,
        desktop_pitch_bytes >= 0,
    ensures
        layout.in_range(),
        layout.width == region.width,
        layout.height == region.height,
        layout.skip_x == hidden_extent(given_left as int),
        layout.skip_y == hidden_extent(given_top as int),
        layout.shape_pitch == if is_mono {
            shape_pitch_bytes as int
        } else {
            (shape_pitch_bytes / 4) as int
        },
        layout.desktop_pitch == desktop_pitch_bytes / 4,
{
    let skip_x: i32 = if given_left < 0 {
        -given_left
    } else {
        0
    };
    let skip_y: i32 = if given_top < 0 {
        -given_top
    } else {
        0
    };
    let shape_pitch: u32 = if is_mono {
        shape_pitch_bytes
    } else {
        shape_pitch_bytes / 4
    };
    PointerLayout {
        width: region.width as u32,
        height: region.height as u32,
        skip_x: skip_x as u32,
        skip_y: skip_y as u32,
        shape_pitch,
        desktop_pitch: (desktop_pitch_bytes / 4) as u32,
    }
}

/// The box of the desktop texture copied from under a clipped pointer.
#[derive(PartialEq, Eq, Structural, Clone, Copy, Debug)]
pub struct CopyBox {
    pub left: u32,
    pub top: u32,
    pub right: u32,
    pub bottom: u32,
}

/// The desktop box under the pointer region: from its corner, its width across and
/// its height down.
pub fn region_box(region: &PointerRegion) -> (b: CopyBox)
    requires
        i32::MIN <= region.left + region.width <= i32::MAX,
        i32::MIN <= region.top + region.height <= i32::MAX,
    ensures
        b.left == region.left as u32,
        b.top == region.top as u32,
        b.right == (region.left + region.width) as i32 as u32,
        b.bottom == (region.top + region.height) as i32 as u32,
{
    CopyBox {
        left: region.left as u32,
        top: region.top as u32,
        right: (region.left + region.width) as u32,
        bottom: (region.top + region.height) as u32,
    }
}

/// The texture the pointer is uploaded as.
#[derive(PartialEq, Eq, Structural, Clone, Copy, Debug)]
pub struct PointerTexture {
    pub width: u32,
    pub height: u32,
    /// Bytes per row of the pixels uploaded.
    pub row_pitch: u32,
    /// Whether the pixels are the shape as the API gave it (a colour pointer) rather
    /// than the composited buffer.
    pub from_shape: bool,
}

/// The texture for a pointer of the given kind and region: a colour pointer uploads
/// its shape at the shape's pitch, any other the composited buffer, whose rows are
/// the region's width of 4-byte pixels.
pub fn pointer_texture(kind: PointerShapeKind, region: &PointerRegion, shape_pitch: u32) -> (t:
    PointerTexture)
    requires
        kind != PointerShapeKind::Color ==> (region.width as u32) * BYTES_PER_PIXEL <= u32::MAX,
    ensures
        t.width == region.width as u32,
        t.height == region.height as u32,
        t.from_shape == (kind == PointerShapeKind::Color),
        t.row_pitch == if kind == PointerShapeKind::Color {
            shape_pitch as int
        } else {
            (region.width as u32) * BYTES_PER_PIXEL
        },
{
    let color = match kind {
        PointerShapeKind::Color => true,
        _ => false,
    };
    let row_pitch = if color {
        shape_pitch
    } else {
        (region.width as u32) * BYTES_PER_PIXEL
    };
    PointerTexture {
        width: region.width as u32,
        height: region.height as u32,
        row_pitch,
        from_shape: color,
    }
}

/// The pointer's quad relative to the desktop centre, in pixels: the offsets of its
/// left and right edges across, and of its top and bottom edges down. Dividing by the
/// centre coordinates gives the quad's corners in normalised device coordinates.
#[derive(PartialEq, Eq, Structural, Clone, Copy, Debug)]
pub struct PointerQuad {
    pub center_x: i32,
    pub center_y: i32,
    pub left: i32,
    pub right: i32,
    pub top: i32,
    pub bottom: i32,
}

/// The signed 32-bit arithmetic of `pointer_quad` does not overflow.
pub open spec fn quad_computable(region: PointerRegion, desktop_width: u32, desktop_height: u32) -> bool {
    let cx = ((desktop_width / 2) as i32) as int;
    let cy = ((desktop_height / 2) as i32) as int;
    &&& i32::MIN <= region.left - cx <= i32::MAX
    &&& i32::MIN <= region.left + region.width <= i32::MAX
    &&& i32::MIN <= region.left + region.width - cx <= i32::MAX
    &&& i32::MIN <= region.top - cy <= i32::MAX
    &&& i32::MIN <= region.top + region.height <= i32::MAX
    &&& i32::MIN <= region.top + region.height - cy <= i32::MAX
}

/// Whether `pointer_quad` can place this region without overflowing: the test that
/// it asks of its caller.
pub fn pointer_quad_computable(region: &PointerRegion, desktop_width: u32, desktop_height: u32) -> (ok:
    bool)
    ensures
        ok == quad_computable(*region, desktop_width, desktop_height),
{
    let cx = (desktop_width / 2) as i32 as i64;
    let cy = (desktop_height / 2) as i32 as i64;
    let left = region.left as i64;
    let top = region.top as i64;
    let right = left + region.width as i64;
    let bottom = top + region.height as i64;
    let lo = i32::MIN as i64;
    let hi = i32::MAX as i64;
    lo <= left - cx && left - cx <= hi && lo <= right && right <= hi && lo <= right - cx && right
        - cx <= hi && lo <= top - cy && top - cy <= hi && lo <= bottom && bottom <= hi && lo
        <= bottom - cy && bottom - cy <= hi
}

/// Places the pointer region relative to the centre of a desktop of the given size.
pub fn pointer_quad(region: &PointerRegion, desktop_width: u32, desktop_height: u32) -> (q:
    PointerQuad)
    requires
        quad_computable(*region, desktop_width, desktop_height),
    ensures
        q.center_x == (desktop_width / 2) as i32,
        q.center_y == (desktop_height / 2) as i32,
        q.left == region.left - q.center_x,
        q.right == region.left + region.width - q.center_x,
        q.top == region.top - q.center_y,
        q.bottom == region.top + region.height - q.center_y,
{
    let center_x = (desktop_width / 2) as i32;
    let center_y = (desktop_height / 2) as i32;
    PointerQuad {
        center_x,
        center_y,
        left: region.left - center_x,
        right: region.left + region.width - center_x,
        top: region.top - center_y,
        bottom: region.top + region.height - center_y,
    }
}

} // verus!
