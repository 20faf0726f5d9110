use mirrorx_core::mask::{
    compose_masked_color, compose_monochrome, masked_layout_fits, monochrome_layout_fits,
    process_masked_color, PointerLayout,
};

fn layout(width: u32, height: u32, skip_x: u32, skip_y: u32, shape_pitch: u32, desktop_pitch: u32) -> PointerLayout {
    PointerLayout { width, height, skip_x, skip_y, shape_pitch, desktop_pitch }
}

#[test]
fn monochrome_pixel_kinds() {
    // One row of 4 pixels; AND mask 0b1100_0000, XOR mask 0b1010_0000.
    // Pixel 0: AND 1 XOR 1 -> inverted; 1: AND 1 XOR 0 -> unchanged;
    // 2: AND 0 XOR 1 -> white; 3: AND 0 XOR 0 -> black.
    let l = layout(4, 1, 0, 0, 1, 4);
    let shape = [0b1100_0000u8, 0b1010_0000u8];
    let desktop = [0x80_12_34_56u32, 0x80_65_43_21, 0x80_11_11_11, 0x80_22_22_22];
    assert!(monochrome_layout_fits(&l, 1, shape.len(), desktop.len()));
    let out = compose_monochrome(&l, 1, &shape, &desktop);
    assert_eq!(out, vec![0x80_ed_cb_a9, 0x80_65_43_21, 0x80_ff_ff_ff, 0x80_00_00_00]);
}

#[test]
fn monochrome_bits_cross_byte_boundary_with_skip() {
    // 3 visible columns starting at shape column 6: bits 6, 7 of byte 0, bit 0 of byte 1.
    let l = layout(3, 1, 6, 0, 2, 3);
    // AND row: byte0 = 0b0000_0010 (column 6 set), byte1 = 0b1000_0000 (column 8 set)
    // XOR row: all clear.
    let shape = [0b0000_0010u8, 0b1000_0000u8, 0, 0];
    let desktop = [0x11_22_33_44u32, 0x55_66_77_88, 0x99_aa_bb_cc];
    let out = compose_monochrome(&l, 1, &shape, &desktop);
    assert_eq!(out, vec![0x11_22_33_44, 0x55_00_00_00, 0x99_aa_bb_cc]);
}

#[test]
fn monochrome_rows_skip_and_desktop_pitch() {
    // 1 visible column, 2 visible rows, one hidden row above; mask pitch 1 byte,
    // mask rows 3 (so the XOR mask starts 3 rows down); desktop pitch 2 pixels.
    let l = layout(1, 2, 0, 1, 1, 2);
    // AND rows 0..3: row1 clear, row2 set. XOR rows 3..6: row4 set, row5 set.
    let shape = [0u8, 0x00, 0x80, 0x00, 0x80, 0x80];
    let desktop = [0xff_10_20_30u32, 0, 0xff_40_50_60, 0];
    let out = compose_monochrome(&l, 3, &shape, &desktop);
    assert_eq!(out, vec![0xff_ff_ff_ff, 0xff_bf_af_9f]);
}

#[test]
fn monochrome_layout_too_small() {
    let l = layout(4, 2, 0, 0, 1, 4);
    assert!(!monochrome_layout_fits(&l, 2, 3, 8));
    assert!(!monochrome_layout_fits(&l, 2, 4, 7));
    assert!(monochrome_layout_fits(&l, 2, 4, 8));
    assert!(monochrome_layout_fits(&layout(0, 5, 0, 0, 1, 4), 2, 0, 0));
}

#[test]
fn masked_color_xor_and_replace() {
    // 2 visible pixels; shape pitch 2 pixels: first shape pixel has a mask byte (XOR),
    // second has none (replace).
    let l = layout(2, 1, 0, 0, 2, 2);
    let mut shape = [0xff_00_00_ffu32, 0x00_12_34_56];
    let desktop = [0x00_00_ff_00u32, 0x00_aa_aa_aa];
    assert!(masked_layout_fits(&l, shape.len(), desktop.len()));
    compose_masked_color(&l, &mut shape, &desktop);
    assert_eq!(shape, [0xff_00_ff_ff, 0xff_12_34_56]);
}

#[test]
fn masked_color_reads_untouched_pixels_when_rows_are_wide() {
    // 2x2 visible, skip one column and one row, shape pitch 3 >= width 2.
    let l = layout(2, 2, 1, 1, 3, 2);
    let mut shape = [0u32, 1, 2, 3, 4, 5, 6, 7, 8];
    let original = shape;
    let desktop = [0u32; 4];
    compose_masked_color(&l, &mut shape, &desktop);
    // visible pixel (r, c) shows shape pixel (c + 1) + (r + 1) * 3, made opaque.
    assert_eq!(shape[0], original[4] | 0xff00_0000);
    assert_eq!(shape[1], original[5] | 0xff00_0000);
    assert_eq!(shape[2], original[7] | 0xff00_0000);
    assert_eq!(shape[3], original[8] | 0xff00_0000);
    assert_eq!(&shape[4..], &original[4..]);
}

#[test]
fn masked_color_narrow_rows_read_written_pixels() {
    // Shape pitch 1 < width 2: visible pixel 1 of row 0 reads shape pixel 1, and the
    // first pixel of row 1 reads shape pixel 1 again after it was written.
    let l = layout(2, 2, 0, 0, 1, 2);
    let mut shape = [0x00_00_00_01u32, 0x00_00_00_02, 0x00_00_00_03, 0x00_00_00_04];
    let desktop = [0u32; 4];
    compose_masked_color(&l, &mut shape, &desktop);
    // step 0: s[0] = s[0] | A; step 1: s[1] = s[1] | A; step 2 (r1,c0): s[2] = s[1];
    // step 3 (r1,c1): s[3] = s[2].
    assert_eq!(shape, [0xff00_0001, 0xff00_0002, 0xff00_0002, 0xff00_0002]);
}

#[test]
fn masked_color_pass_returns_zeroed_buffer() {
    let l = layout(2, 1, 0, 0, 2, 2);
    let mut shape = [0x01u32, 0x02];
    let desktop = [0u32; 2];
    let buffer = process_masked_color(&l, &mut shape, &desktop);
    assert_eq!(buffer, vec![0, 0]);
    assert_eq!(shape, [0xff00_0001, 0xff00_0002]);
}

#[test]
fn masked_layout_checks_area_and_reads() {
    assert!(!masked_layout_fits(&layout(2, 2, 0, 0, 2, 2), 3, 4));
    assert!(!masked_layout_fits(&layout(2, 2, 1, 0, 2, 2), 4, 4));
    assert!(!masked_layout_fits(&layout(2, 2, 1, 0, 3, 2), 5, 4));
    assert!(masked_layout_fits(&layout(2, 2, 1, 0, 3, 2), 6, 4));
    assert!(!masked_layout_fits(&layout(2, 2, 0, 0, 2, 3), 4, 4));
}
