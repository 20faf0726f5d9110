//! Compositing of monochrome and masked-colour pointer shapes onto the desktop
//! patch beneath the pointer.

use vstd::prelude::*;

verus! {

/// The largest value that the duplication API's signed 32-bit positions and sizes reach.
pub const I32_LIMIT: u32 = 0x7fff_ffff;

/// Geometry of the visible part of a pointer shape and of the desktop patch under it.
///
/// All fields are non-negative values of signed 32-bit quantities.
pub struct PointerLayout {
    /// Visible columns of the pointer.
    pub width: u32,
    /// Visible rows of the pointer.
    pub height: u32,
    /// Columns of the shape hidden beyond the left edge of the desktop.
    pub skip_x: u32,
    /// Rows of the shape hidden beyond the top edge of the desktop.
    pub skip_y: u32,
    /// Row pitch of the shape: bytes for a monochrome mask, pixels for a colour shape.
    pub shape_pitch: u32,
    /// Row pitch of the desktop patch, in pixels.
    pub desktop_pitch: u32,
}

impl PointerLayout {
    /// Every field lies in the range of a non-negative signed 32-bit integer.
    pub open spec fn in_range(self) -> bool {
        &&& self.width <= I32_LIMIT
        &&& self.height <= I32_LIMIT
        &&& self.skip_x <= I32_LIMIT
        &&& self.skip_y <= I32_LIMIT
        &&& self.shape_pitch <= I32_LIMIT
        &&& self.desktop_pitch <= I32_LIMIT
    }
}

/// Index in the desktop patch of the pixel under visible pixel (`r`, `c`).
pub open spec fn desktop_index(l: PointerLayout, r: int, c: int) -> int {
    r * l.desktop_pitch + c
}

/// Index of the AND-mask byte that holds the bit of visible pixel (`r`, `c`).
pub open spec fn and_mask_index(l: PointerLayout, r: int, c: int) -> int {
    (c + l.skip_x) / 8 + (r + l.skip_y) * l.shape_pitch
}

/// Index of the XOR-mask byte that holds the bit of visible pixel (`r`, `c`); the XOR
/// mask follows the AND mask, `mask_rows` rows further down.
pub open spec fn xor_mask_index(l: PointerLayout, mask_rows: int, r: int, c: int) -> int {
    (c + l.skip_x) / 8 + (r + l.skip_y + mask_rows) * l.shape_pitch
}

/// Whether `byte` has the bit of shape column `x` set (most significant bit first).
pub open spec fn mask_bit(byte: u8, x: int) -> bool {
    byte & (0x80u8 >> ((x % 8) as u8)) != 0
}

/// A monochrome pointer pixel over desktop pixel `desktop`: the AND bit keeps or
/// clears the colour channels, the XOR bit then inverts them.
pub open spec fn mono_pixel(desktop: u32, and_bit: bool, xor_bit: bool) -> u32 {
    (desktop & (if and_bit { 0xffff_ffffu32 } else { 0xff00_0000u32 })) ^ (if xor_bit {
        0x00ff_ffffu32
    } else {
        0u32
    })
}

/// Pixel `i` (row-major over the visible region) of a composited monochrome pointer.
pub open spec fn mono_output(
    l: PointerLayout,
    mask_rows: int,
    shape: Seq<u8>,
    desktop: Seq<u32>,
    i: int,
) -> u32 {
    let r = i / (l.width as int);
    let c = i % (l.width as int);
    mono_pixel(
        desktop[desktop_index(l, r, c)],
        mask_bit(shape[and_mask_index(l, r, c)], c + l.skip_x),
        mask_bit(shape[xor_mask_index(l, mask_rows, r, c)], c + l.skip_x),
    )
}

/// Every byte and pixel that compositing a monochrome pointer reads lies in bounds.
pub open spec fn mono_fits(l: PointerLayout, mask_rows: int, shape_len: int, desktop_len: int) -> bool {
    forall|r: int, c: int|
        0 <= r < l.height && 0 <= c < l.width ==> #[trigger] xor_mask_index(l, mask_rows, r, c)
            < shape_len && desktop_index(l, r, c) < desktop_len
}

proof fn lemma_mask_step(k: u8)
    requires
        k < 8,
    ensures
        ((0x80u8 >> k) == 1u8) == (k == 7),
        k < 7 ==> (0x80u8 >> k) >> 1u8 == 0x80u8 >> ((k + 1) as u8),
{
    assert(((0x80u8 >> k) == 1u8) == (k == 7)) by (bit_vector)
        requires
            k < 8,
    ;
    assert(k < 7 ==> (0x80u8 >> k) >> 1u8 == 0x80u8 >> ((k + 1) as u8)) by (bit_vector)
        requires
            k < 8,
    ;
}

proof fn lemma_next_column_bit(x: int)
    requires
        0 <= x,
    ensures
        (x + 1) % 8 == if x % 8 == 7 {
            0
        } else {
            x % 8 + 1
        },
{
    let q = x / 8;
    let k = x % 8;
    vstd::arithmetic::div_mod::lemma_fundamental_div_mod(x, 8);
    if k == 7 {
        vstd::arithmetic::div_mod::lemma_fundamental_div_mod_converse(x + 1, 8, q + 1, 0);
    } else {
        vstd::arithmetic::div_mod::lemma_fundamental_div_mod_converse(x + 1, 8, q, k + 1);
    }
}

proof fn lemma_row_major(w: int, r: int, c: int)
    requires
        0 <= c < w,
        0 <= r,
    ensures
        (r * w + c) / w == r,
        (r * w + c) % w == c,
{
    vstd::arithmetic::div_mod::lemma_fundamental_div_mod_converse(r * w + c, w, r, c);
}

/// Composites a monochrome pointer (an AND mask followed by an XOR mask, one bit per
/// pixel) onto the desktop patch beneath it. Returns the visible pixels row by row.
pub fn compose_monochrome(
    layout: &PointerLayout,
    mask_rows: u32,
    shape: &[u8],
    desktop: &[u32],
) -> (out: Vec<u32>)
    requires
        layout.in_range(),
        mask_rows <= I32_LIMIT,
        mono_fits(*layout, mask_rows as int, shape@.len() as int, desktop@.len() as int),
    ensures
        out@.len() == layout.width * layout.height,
        forall|i: int|
            0 <= i < out@.len() ==> #[trigger] out@[i] == mono_output(
                *layout,
                mask_rows as int,
                shape@,
                desktop@,
                i,
            ),
{
    let w = layout.width;
    let h = layout.height;
    let sx = layout.skip_x;
    let mut out: Vec<u32> = Vec::new();
    let mut row: u32 = 0;
    while row < h
        invariant
            layout.in_range(),
            mask_rows <= I32_LIMIT,
            mono_fits(*layout, mask_rows as int, shape@.len() as int, desktop@.len() as int),
            w == layout.width,
            h == layout.height,
            sx == layout.skip_x,
            row <= h,
            out@.len() == row * w,
            forall|i: int|
                0 <= i < out@.len() ==> #[trigger] out@[i] == mono_output(
                    *layout,
                    mask_rows as int,
                    shape@,
                    desktop@,
                    i,
                ),
        decreases h - row,
    {
        let mut mask: u8 = 0x80u8 >> ((sx % 8) as u8);
        let mut col: u32 = 0;
        while col < w
            invariant
                layout.in_range(),
                mask_rows <= I32_LIMIT,
                mono_fits(*layout, mask_rows as int, shape@.len() as int, desktop@.len() as int),
                w == layout.width,
                h == layout.height,
                sx == layout.skip_x,
                row < h,
                col <= w,
                out@.len() == row * w + col,
                mask == 0x80u8 >> (((col + sx) % 8) as u8),
                forall|i: int|
                    0 <= i < out@.len() ==> #[trigger] out@[i] == mono_output(
                        *layout,
                        mask_rows as int,
                        shape@,
                        desktop@,
                        i,
                    ),
            decreases w - col,
        {
            let ghost r = row as int;
            let ghost c = col as int;
            proof {
                assert(xor_mask_index(*layout, mask_rows as int, r, c) < shape@.len());
                assert((r + layout.skip_y + mask_rows) * layout.shape_pitch <= 0x1_8000_0000 * 0x8000_0000) by (nonlinear_arith)
                    requires
                        0 <= r + layout.skip_y + mask_rows <= 0x1_8000_0000,
                        0 <= layout.shape_pitch <= 0x8000_0000,
                ;
                assert((r as int) * (layout.desktop_pitch as int) <= 0x8000_0000 * 0x8000_0000) by (nonlinear_arith)
                    requires
                        0 <= r <= 0x8000_0000,
                        0 <= layout.desktop_pitch <= 0x8000_0000,
                ;
            }
            let x: u64 = col as u64 + sx as u64;
            let byte: u64 = x / 8;
            let and_row: u64 = row as u64 + layout.skip_y as u64;
            let xor_row: u64 = and_row + mask_rows as u64;
            let pitch: u64 = layout.shape_pitch as u64;
            proof {
                assert(and_row * pitch <= xor_row * pitch) by (nonlinear_arith)
                    requires
                        and_row <= xor_row,
                ;
            }
            let and_index: u64 = byte + and_row * pitch;
            let xor_index: u64 = byte + xor_row * pitch;
            let desk_index: u64 = row as u64 * layout.desktop_pitch as u64 + col as u64;
            proof {
                assert(xor_index == xor_mask_index(*layout, mask_rows as int, r, c));
                assert(and_index == and_mask_index(*layout, r, c));
                assert(desk_index == desktop_index(*layout, r, c));
            }
            let and_bits: u8 = shape[and_index as usize] & mask;
            let xor_bits: u8 = shape[xor_index as usize] & mask;
            let and_32: u32 = if and_bits > 0 { 0xffff_ffff } else { 0xff00_0000 };
            let xor_32: u32 = if xor_bits > 0 { 0x00ff_ffff } else { 0 };
            let pixel: u32 = (desktop[desk_index as usize] & and_32) ^ xor_32;
            proof {
                lemma_row_major(w as int, r, c);
            }
            out.push(pixel);
            proof {
                lemma_mask_step(((col + sx) % 8) as u8);
                lemma_next_column_bit(col + sx);
            }
            if mask == 0x01 {
                mask = 0x80;
            } else {
                mask = mask >> 1u8;
            }
            col = col + 1;
            proof {
                let k = ((c + sx) % 8) as u8;
                assert(k as int == (c + sx) % 8);
                if k == 7 {
                    assert((col + sx) % 8 == 0);
                    assert(mask == 0x80u8);
                    assert(0x80u8 >> 0u8 == 0x80u8) by (bit_vector);
                } else {
                    assert((col + sx) % 8 == k + 1);
                    assert(mask == 0x80u8 >> ((k + 1) as u8));
                }
            }
            assert forall|i: int| 0 <= i < out@.len() implies #[trigger] out@[i] == mono_output(
                *layout,
                mask_rows as int,
                shape@,
                desktop@,
                i,
            ) by {
                if i == out@.len() - 1 {
                    assert(i == r * w + c);
                }
            }
        }
        row = row + 1;
        assert(out@.len() == row * w) by (nonlinear_arith)
            requires
                out@.len() == (row - 1) * w + w,
        ;
    }
    assert(out@.len() == w * h) by (nonlinear_arith)
        requires
            out@.len() == row * w,
            row == h,
    ;
    out
}

/// Whether a monochrome pointer with this layout fits its shape and desktop buffers:
/// the test that `compose_monochrome` asks of its caller.
pub fn monochrome_layout_fits(
    layout: &PointerLayout,
    mask_rows: u32,
    shape_len: usize,
    desktop_len: usize,
) -> (fits: bool)
    requires
        layout.in_range(),
        mask_rows <= I32_LIMIT,
    ensures
        fits == mono_fits(*layout, mask_rows as int, shape_len as int, desktop_len as int),
{
    if layout.width == 0 || layout.height == 0 {
        return true;
    }
    let last_row: u64 = layout.height as u64 - 1;
    let last_col: u64 = layout.width as u64 - 1;
    proof {
        assert((last_row + layout.skip_y + mask_rows) * layout.shape_pitch <= 0x1_8000_0000 * 0x8000_0000) by (nonlinear_arith)
            requires
                0 <= last_row + layout.skip_y + mask_rows <= 0x1_8000_0000,
                0 <= layout.shape_pitch <= 0x8000_0000,
        ;
        assert(last_row * layout.desktop_pitch <= 0x8000_0000 * 0x8000_0000) by (nonlinear_arith)
            requires
                0 <= last_row <= 0x8000_0000,
                0 <= layout.desktop_pitch <= 0x8000_0000,
        ;
    }
    let xor_last: u64 = (last_col + layout.skip_x as u64) / 8 + (last_row + layout.skip_y as u64
        + mask_rows as u64) * layout.shape_pitch as u64;
    let desk_last: u64 = last_row * layout.desktop_pitch as u64 + last_col;
    let fits = xor_last < shape_len as u64 && desk_last < desktop_len as u64;
    proof {
        let l = *layout;
        let lr = last_row as int;
        let lc = last_col as int;
        assert(xor_last == xor_mask_index(l, mask_rows as int, lr, lc));
        assert(desk_last == desktop_index(l, lr, lc));
        if fits {
            assert forall|r: int, c: int|
                0 <= r < l.height && 0 <= c < l.width implies #[trigger] xor_mask_index(
                l,
                mask_rows as int,
                r,
                c,
            ) < shape_len && desktop_index(l, r, c) < desktop_len by {
                vstd::arithmetic::div_mod::lemma_div_is_ordered(c + l.skip_x, lc + l.skip_x, 8);
                vstd::arithmetic::mul::lemma_mul_inequality(
                    r + l.skip_y + mask_rows,
                    lr + l.skip_y + mask_rows,
                    l.shape_pitch as int,
                );
                vstd::arithmetic::mul::lemma_mul_inequality(r, lr, l.desktop_pitch as int);
            }
        } else {
            assert(!(xor_mask_index(l, mask_rows as int, lr, lc) < shape_len && desktop_index(
                l,
                lr,
                lc,
            ) < desktop_len));
        }
    }
    fits
}

/// The four kinds of monochrome pointer pixel: AND set and XOR clear shows the desktop
/// pixel unchanged; AND set and XOR set inverts its colour; AND clear draws black, and
/// AND clear with XOR set draws white. The alpha byte of the desktop pixel is kept in
/// every case.
pub proof fn lemma_mono_pixel_kinds(desktop: u32)
    ensures
        mono_pixel(desktop, true, false) == desktop,
        mono_pixel(desktop, true, true) == desktop ^ 0x00ff_ffffu32,
        mono_pixel(desktop, false, false) == desktop & 0xff00_0000u32,
        mono_pixel(desktop, false, true) == (desktop & 0xff00_0000u32) | 0x00ff_ffffu32,
        forall|a: bool, x: bool| #[trigger] mono_pixel(desktop, a, x) & 0xff00_0000u32 == desktop & 0xff00_0000u32,
{
    assert(desktop & 0xffff_ffffu32 == desktop) by (bit_vector);
    assert(desktop ^ 0u32 == desktop) by (bit_vector);
    assert((desktop & 0xff00_0000u32) ^ 0u32 == desktop & 0xff00_0000u32) by (bit_vector);
    assert((desktop & 0xff00_0000u32) ^ 0x00ff_ffffu32 == (desktop & 0xff00_0000u32) | 0x00ff_ffffu32) by (bit_vector);
    assert(((desktop & 0xffff_ffffu32) ^ 0x00ff_ffffu32) & 0xff00_0000u32 == desktop & 0xff00_0000u32) by (bit_vector);
    assert(((desktop & 0xff00_0000u32) ^ 0x00ff_ffffu32) & 0xff00_0000u32 == desktop & 0xff00_0000u32) by (bit_vector);
    assert(((desktop & 0xff00_0000u32) ^ 0u32) & 0xff00_0000u32 == desktop & 0xff00_0000u32) by (bit_vector);
    assert(((desktop & 0xffff_ffffu32) ^ 0u32) & 0xff00_0000u32 == desktop & 0xff00_0000u32) by (bit_vector);
}

/// A masked-colour pointer pixel: where the shape's mask byte is set the shape pixel
/// is XOR-ed onto the desktop pixel, elsewhere it replaces it; the result is opaque.
pub open spec fn masked_pixel(shape: u32, desktop: u32) -> u32 {
    if shape & 0xff00_0000u32 != 0 {
        (desktop ^ shape) | 0xff00_0000u32
    } else {
        shape | 0xff00_0000u32
    }
}

/// Index in the colour shape of the pixel shown at visible pixel (`r`, `c`).
pub open spec fn masked_source_index(l: PointerLayout, r: int, c: int) -> int {
    (c + l.skip_x) + (r + l.skip_y) * l.shape_pitch
}

/// The colour shape after the first `k` visible pixels (row by row) have been
/// composited in place: pixel `k - 1` of the buffer receives the composite of the
/// shape pixel it shows, read from the buffer as it stands at that step.
pub open spec fn masked_after(l: PointerLayout, shape: Seq<u32>, desktop: Seq<u32>, k: nat) -> Seq<
    u32,
>
    decreases k,
{
    if k == 0 {
        shape
    } else {
        let prev = masked_after(l, shape, desktop, (k - 1) as nat);
        let r = (k - 1) / (l.width as int);
        let c = (k - 1) % (l.width as int);
        prev.update(
            k - 1,
            masked_pixel(
                prev[masked_source_index(l, r, c)],
                desktop[desktop_index(l, r, c)],
            ),
        )
    }
}

/// Every pixel that compositing a masked-colour pointer reads or writes lies in bounds.
pub open spec fn masked_fits(l: PointerLayout, shape_len: int, desktop_len: int) -> bool {
    &&& l.width * l.height <= shape_len
    &&& forall|r: int, c: int|
        0 <= r < l.height && 0 <= c < l.width ==> #[trigger] masked_source_index(l, r, c)
            < shape_len && desktop_index(l, r, c) < desktop_len
}

proof fn lemma_masked_after_len(l: PointerLayout, shape: Seq<u32>, desktop: Seq<u32>, k: nat)
    requires
        k <= shape.len(),
    ensures
        masked_after(l, shape, desktop, k).len() == shape.len(),
    decreases k,
{
    if k > 0 {
        lemma_masked_after_len(l, shape, desktop, (k - 1) as nat);
    }
}

/// Composites a masked-colour pointer in place: the visible pixels, row by row, are
/// written to the front of the shape buffer.
pub fn compose_masked_color(layout: &PointerLayout, shape: &mut [u32], desktop: &[u32])
    requires
        layout.in_range(),
        masked_fits(*layout, old(shape)@.len() as int, desktop@.len() as int),
    ensures
        final(shape)@ == masked_after(
            *layout,
            old(shape)@,
            desktop@,
            (layout.width * layout.height) as nat,
        ),
{
    let w = layout.width;
    let h = layout.height;
    let ghost original = shape@;
    let mut row: u32 = 0;
    proof {
        assert(w * h <= 0x8000_0000 * 0x8000_0000) by (nonlinear_arith)
            requires
                0 <= w <= 0x8000_0000,
                0 <= h <= 0x8000_0000,
        ;
    }
    while row < h
        invariant
            layout.in_range(),
            masked_fits(*layout, original.len() as int, desktop@.len() as int),
            w == layout.width,
            h == layout.height,
            row <= h,
            shape@.len() == original.len(),
            shape@ == masked_after(*layout, original, desktop@, (row * w) as nat),
        decreases h - row,
    {
        let mut col: u32 = 0;
        while col < w
            invariant
                layout.in_range(),
                masked_fits(*layout, original.len() as int, desktop@.len() as int),
                w == layout.width,
                h == layout.height,
                row < h,
                col <= w,
                shape@.len() == original.len(),
                shape@ == masked_after(*layout, original, desktop@, (row * w + col) as nat),
            decreases w - col,
        {
            let ghost r = row as int;
            let ghost c = col as int;
            proof {
                assert(masked_source_index(*layout, r, c) < original.len());
                assert((r + layout.skip_y) * layout.shape_pitch <= 0x1_0000_0000 * 0x8000_0000) by (nonlinear_arith)
                    requires
                        0 <= r + layout.skip_y <= 0x1_0000_0000,
                        0 <= layout.shape_pitch <= 0x8000_0000,
                ;
                assert(r * layout.desktop_pitch <= 0x8000_0000 * 0x8000_0000) by (nonlinear_arith)
                    requires
                        0 <= r <= 0x8000_0000,
                        0 <= layout.desktop_pitch <= 0x8000_0000,
                ;
                assert(r * w + c < w * h) by (nonlinear_arith)
                    requires
                        0 <= r < h,
                        0 <= c < w,
                ;
                assert(r * w <= 0x8000_0000 * 0x8000_0000) by (nonlinear_arith)
                    requires
                        0 <= r <= 0x8000_0000,
                        0 <= w <= 0x8000_0000,
                ;
                lemma_row_major(w as int, r, c);
            }
            let source_index: u64 = (col as u64 + layout.skip_x as u64) + (row as u64
                + layout.skip_y as u64) * layout.shape_pitch as u64;
            let desk_index: u64 = row as u64 * layout.desktop_pitch as u64 + col as u64;
            let target_index: u64 = row as u64 * w as u64 + col as u64;
            proof {
                assert(source_index == masked_source_index(*layout, r, c));
                assert(desk_index == desktop_index(*layout, r, c));
                assert(target_index == r * w + c);
            }
            let source: u32 = shape[source_index as usize];
            let below: u32 = desktop[desk_index as usize];
            let masked: u32 = 0xff00_0000u32 & source;
            let pixel: u32 = if masked > 0 {
                (below ^ source) | 0xff00_0000u32
            } else {
                source | 0xff00_0000u32
            };
            shape[target_index as usize] = pixel;
            col = col + 1;
            proof {
                assert(masked > 0 <==> source & 0xff00_0000u32 != 0) by (bit_vector)
                    requires
                        masked == 0xff00_0000u32 & source,
                ;
                assert(row * w + col == r * w + c + 1);
            }
        }
        row = row + 1;
        assert(row * w == (row - 1) * w + w) by (nonlinear_arith);
    }
    assert(row * w == w * h) by (nonlinear_arith)
        requires
            row == h,
    ;
}

/// When each shape row holds at least as many pixels as the visible region is wide,
/// compositing in place never reads a pixel that it has already written: every
/// visible pixel is the composite of the untouched shape pixel it shows, and the
/// buffer past the visible pixels is unchanged.
pub proof fn lemma_masked_reads_untouched(
    l: PointerLayout,
    shape: Seq<u32>,
    desktop: Seq<u32>,
    k: nat,
)
    requires
        l.width <= l.shape_pitch,
        k <= l.width * l.height,
        masked_fits(l, shape.len() as int, desktop.len() as int),
    ensures
        masked_after(l, shape, desktop, k).len() == shape.len(),
        forall|j: int|
            k <= j < shape.len() ==> #[trigger] masked_after(l, shape, desktop, k)[j] == shape[j],
        forall|j: int|
            0 <= j < k ==> #[trigger] masked_after(l, shape, desktop, k)[j] == masked_pixel(
                shape[masked_source_index(l, j / (l.width as int), j % (l.width as int))],
                desktop[desktop_index(l, j / (l.width as int), j % (l.width as int))],
            ),
    decreases k,
{
    lemma_masked_after_len(l, shape, desktop, k);
    if k > 0 {
        let j0 = k - 1;
        lemma_masked_reads_untouched(l, shape, desktop, (k - 1) as nat);
        let w = l.width as int;
        assert(w > 0) by (nonlinear_arith)
            requires
                0 < k <= l.width * l.height,
                w == l.width,
        ;
        let r = j0 / w;
        let c = j0 % w;
        vstd::arithmetic::div_mod::lemma_fundamental_div_mod(j0, w);
        assert(0 <= c < w);
        assert(0 <= r);
        assert(r < l.height) by (nonlinear_arith)
            requires
                j0 == w * r + c,
                0 <= c < w,
                j0 < l.width * l.height,
                w == l.width,
                0 <= r,
        ;
        let s = masked_source_index(l, r, c);
        assert(s < shape.len());
        assert(s >= j0) by (nonlinear_arith)
            requires
                s == (c + l.skip_x) + (r + l.skip_y) * l.shape_pitch,
                j0 == w * r + c,
                w <= l.shape_pitch,
                0 <= r,
                0 <= l.skip_x,
                0 <= l.skip_y,
        ;
    }
}

/// Whether a masked-colour pointer with this layout fits its shape and desktop
/// buffers: the test that `compose_masked_color` asks of its caller.
pub fn masked_layout_fits(layout: &PointerLayout, shape_len: usize, desktop_len: usize) -> (fits:
    bool)
    requires
        layout.in_range(),
    ensures
        fits == masked_fits(*layout, shape_len as int, desktop_len as int),
{
    proof {
        assert(layout.width * layout.height <= 0x8000_0000 * 0x8000_0000) by (nonlinear_arith)
            requires
                0 <= layout.width <= 0x8000_0000,
                0 <= layout.height <= 0x8000_0000,
        ;
    }
    let area: u64 = layout.width as u64 * layout.height as u64;
    if area > shape_len as u64 {
        return false;
    }
    if layout.width == 0 || layout.height == 0 {
        return true;
    }
    let last_row: u64 = layout.height as u64 - 1;
    let last_col: u64 = layout.width as u64 - 1;
    proof {
        assert((last_row + layout.skip_y) * layout.shape_pitch <= 0x1_0000_0000 * 0x8000_0000) by (nonlinear_arith)
            requires
                0 <= last_row + layout.skip_y <= 0x1_0000_0000,
                0 <= layout.shape_pitch <= 0x8000_0000,
        ;
        assert(last_row * layout.desktop_pitch <= 0x8000_0000 * 0x8000_0000) by (nonlinear_arith)
            requires
                0 <= last_row <= 0x8000_0000,
                0 <= layout.desktop_pitch <= 0x8000_0000,
        ;
    }
    let source_last: u64 = (last_col + layout.skip_x as u64) + (last_row + layout.skip_y as u64)
        * layout.shape_pitch as u64;
    let desk_last: u64 = last_row * layout.desktop_pitch as u64 + last_col;
    let fits = source_last < shape_len as u64 && desk_last < desktop_len as u64;
    proof {
        let l = *layout;
        let lr = last_row as int;
        let lc = last_col as int;
        assert(source_last == masked_source_index(l, lr, lc));
        assert(desk_last == desktop_index(l, lr, lc));
        if fits {
            assert forall|r: int, c: int|
                0 <= r < l.height && 0 <= c < l.width implies #[trigger] masked_source_index(
                l,
                r,
                c,
            ) < shape_len && desktop_index(l, r, c) < desktop_len by {
                vstd::arithmetic::mul::lemma_mul_inequality(
                    r + l.skip_y,
                    lr + l.skip_y,
                    l.shape_pitch as int,
                );
                vstd::arithmetic::mul::lemma_mul_inequality(r, lr, l.desktop_pitch as int);
            }
        } else {
            assert(!(masked_source_index(l, lr, lc) < shape_len && desktop_index(l, lr, lc)
                < desktop_len));
        }
    }
    fits
}

/// Composites a masked-colour pointer in place in its shape buffer and returns the
/// pointer buffer sized for the visible region, which this pass leaves zeroed.
pub fn process_masked_color(layout: &PointerLayout, shape: &mut [u32], desktop: &[u32]) -> (buffer:
    Vec<u32>)
    requires
        layout.in_range(),
        masked_fits(*layout, old(shape)@.len() as int, desktop@.len() as int),
    ensures
        final(shape)@ == masked_after(
            *layout,
            old(shape)@,
            desktop@,
            (layout.width * layout.height) as nat,
        ),
        buffer@ == Seq::new((layout.width * layout.height) as nat, |i: int| 0u32),
{
    proof {
        assert(layout.width * layout.height <= 0x8000_0000 * 0x8000_0000) by (nonlinear_arith)
            requires
                0 <= layout.width <= 0x8000_0000,
                0 <= layout.height <= 0x8000_0000,
        ;
    }
    let area: u64 = layout.width as u64 * layout.height as u64;
    let shape_len = shape.len();
    proof {
        assert(area <= old(shape)@.len());
        assert(old(shape)@.len() == shape_len);
        assert(area == layout.width * layout.height);
    }
    let buffer: Vec<u32> = vec![0u32; area as usize];
    compose_masked_color(layout, shape, desktop);
    assert forall|i: int| 0 <= i < buffer@.len() implies buffer@[i] == 0u32 by {
        assert(cloned(0u32, buffer@[i]));
    }
    assert(buffer@.len() == layout.width * layout.height);
    assert(buffer@ =~= Seq::new((layout.width * layout.height) as nat, |i: int| 0u32));
    buffer
}

/// The masked-colour pixel rule, stated on the bits: a shape pixel whose top byte is
/// set is XOR-ed onto the desktop pixel, so a white shape pixel inverts the desktop
/// colour; any other shape pixel replaces the desktop pixel; the result is always
/// opaque. Compositing the same XOR-type shape pixel twice gives the desktop pixel
/// back, made opaque.
pub proof fn lemma_masked_pixel_xor_or_replace(shape: u32, desktop: u32)
    ensures
        shape & 0xff00_0000u32 != 0 ==> masked_pixel(shape, desktop) == (desktop ^ shape)
            | 0xff00_0000u32,
        shape & 0xff00_0000u32 == 0 ==> masked_pixel(shape, desktop) == shape | 0xff00_0000u32,
        masked_pixel(shape, desktop) & 0xff00_0000u32 == 0xff00_0000u32,
        shape & 0xff00_0000u32 != 0 ==> masked_pixel(shape, masked_pixel(shape, desktop))
            == desktop | 0xff00_0000u32,
        shape & 0xff00_0000u32 != 0 ==> masked_pixel(shape, desktop) & 0x00ff_ffffu32 == (
        desktop & 0x00ff_ffffu32) ^ (shape & 0x00ff_ffffu32),
        masked_pixel(0xffff_ffffu32, 0xffff_ffffu32) == 0xff00_0000u32,
        masked_pixel(0xffff_ffffu32, desktop) == !desktop | 0xff00_0000u32,
{
    assert(((desktop ^ shape) | 0xff00_0000u32) & 0xff00_0000u32 == 0xff00_0000u32) by (bit_vector);
    assert((shape | 0xff00_0000u32) & 0xff00_0000u32 == 0xff00_0000u32) by (bit_vector);
    assert(shape & 0xff00_0000u32 != 0 ==> ((((desktop ^ shape) | 0xff00_0000u32) ^ shape)
        | 0xff00_0000u32) == desktop | 0xff00_0000u32) by (bit_vector);
    assert(((desktop ^ shape) | 0xff00_0000u32) & 0x00ff_ffffu32 == (desktop & 0x00ff_ffffu32) ^ (
    shape & 0x00ff_ffffu32)) by (bit_vector);
    assert(((0xffff_ffffu32 ^ 0xffff_ffffu32) | 0xff00_0000u32) == 0xff00_0000u32) by (bit_vector);
    assert(((desktop ^ 0xffff_ffffu32) | 0xff00_0000u32) == !desktop | 0xff00_0000u32) by (bit_vector);
    assert(0xffff_ffffu32 & 0xff00_0000u32 != 0) by (bit_vector);
}

/// What compositing a masked-colour pointer in place leaves in the shape buffer, when
/// every shape row is at least as wide as the visible region: visible pixel `j` (row
/// `j / width`, column `j % width`), showing shape pixel `s` over desktop pixel `d`,
/// is `(d ^ s) | 0xff000000` when the top byte of `s` is set and `s | 0xff000000`
/// otherwise; the rest of the buffer is unchanged.
pub proof fn lemma_masked_color_composites(l: PointerLayout, shape: Seq<u32>, desktop: Seq<u32>)
    requires
        l.width <= l.shape_pitch,
        masked_fits(l, shape.len() as int, desktop.len() as int),
    ensures
        ({
            let out = masked_after(l, shape, desktop, (l.width * l.height) as nat);
            &&& out.len() == shape.len()
            &&& forall|j: int|
                l.width * l.height <= j < shape.len() ==> #[trigger] out[j] == shape[j]
            &&& forall|j: int|
                0 <= j < l.width * l.height ==> {
                    let s = shape[masked_source_index(
                        l,
                        j / (l.width as int),
                        j % (l.width as int),
                    )];
                    let d = desktop[desktop_index(l, j / (l.width as int), j % (l.width as int))];
                    &&& (s & 0xff00_0000u32 != 0 ==> #[trigger] out[j] == (d ^ s)
                        | 0xff00_0000u32)
                    &&& (s & 0xff00_0000u32 == 0 ==> out[j] == s | 0xff00_0000u32)
                }
        }),
{
    let k = (l.width * l.height) as nat;
    lemma_masked_reads_untouched(l, shape, desktop, k);
    let out = masked_after(l, shape, desktop, k);
    assert forall|j: int| 0 <= j < l.width * l.height implies {
        let s = shape[masked_source_index(l, j / (l.width as int), j % (l.width as int))];
        let d = desktop[desktop_index(l, j / (l.width as int), j % (l.width as int))];
        &&& (s & 0xff00_0000u32 != 0 ==> #[trigger] out[j] == (d ^ s) | 0xff00_0000u32)
        &&& (s & 0xff00_0000u32 == 0 ==> out[j] == s | 0xff00_0000u32)
    } by {
        let s = shape[masked_source_index(l, j / (l.width as int), j % (l.width as int))];
        let d = desktop[desktop_index(l, j / (l.width as int), j % (l.width as int))];
        assert(out[j] == masked_pixel(s, d));
        lemma_masked_pixel_xor_or_replace(s, d);
    }
}

} // verus!
