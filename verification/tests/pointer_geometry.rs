use mirrorx_core::cursor::{clip_pointer_computable, pointer_quad_computable};
use mirrorx_core::cursor::{
    clip_pointer, color_pointer_region, empty_pointer_region, pointer_layout, pointer_quad,
    pointer_shape_kind, pointer_texture, region_box, CopyBox, PointerRegion, PointerShapeKind,
};

#[test]
fn shape_kinds_from_raw_codes() {
    assert_eq!(pointer_shape_kind(1), PointerShapeKind::Monochrome);
    assert_eq!(pointer_shape_kind(2), PointerShapeKind::Color);
    assert_eq!(pointer_shape_kind(4), PointerShapeKind::MaskedColor);
    assert_eq!(pointer_shape_kind(3), PointerShapeKind::Unknown);
    assert_eq!(pointer_shape_kind(0), PointerShapeKind::Unknown);
}

#[test]
fn pointer_wholly_on_desktop_is_kept_whole() {
    let c = clip_pointer(false, 1920, 1080, 32, 32, 100, 200);
    assert_eq!(c.region, PointerRegion { left: 100, top: 200, width: 32, height: 32 });
    assert_eq!(c.shape_height, 32);
}

#[test]
fn pointer_over_left_and_top_edges() {
    let c = clip_pointer(false, 1920, 1080, 32, 32, -10, -5);
    assert_eq!(c.region, PointerRegion { left: 0, top: 0, width: 22, height: 27 });
}

#[test]
fn pointer_over_right_and_bottom_edges() {
    let c = clip_pointer(false, 1920, 1080, 32, 32, 1900, 1070);
    assert_eq!(c.region, PointerRegion { left: 1900, top: 1070, width: 20, height: 10 });
}

#[test]
fn monochrome_pointer_clips_half_height_and_restores_it() {
    // A 32x64 monochrome shape is 32 rows of AND mask and 32 of XOR mask.
    let c = clip_pointer(true, 1920, 1080, 32, 64, 10, 1060);
    assert_eq!(c.region, PointerRegion { left: 10, top: 1060, width: 32, height: 20 });
    assert_eq!(c.shape_height, 64);
    // An odd height loses its last row when halved and doubled.
    let odd = clip_pointer(true, 1920, 1080, 32, 65, 10, 10);
    assert_eq!(odd.region.height, 32);
    assert_eq!(odd.shape_height, 64);
}

#[test]
fn pointer_entirely_left_of_desktop_has_negative_width() {
    let c = clip_pointer(false, 1920, 1080, 32, 32, -40, 0);
    assert_eq!(c.region.width, -8);
    assert_eq!(c.region.left, 0);
}

#[test]
fn layouts_for_both_shape_kinds() {
    let region = PointerRegion { left: 0, top: 0, width: 22, height: 27 };
    let mono = pointer_layout(true, &region, -10, -5, 4, 88);
    assert_eq!((mono.width, mono.height, mono.skip_x, mono.skip_y), (22, 27, 10, 5));
    assert_eq!((mono.shape_pitch, mono.desktop_pitch), (4, 22));
    let color = pointer_layout(false, &region, 3, -5, 128, 90);
    assert_eq!((color.skip_x, color.skip_y), (0, 5));
    assert_eq!((color.shape_pitch, color.desktop_pitch), (32, 22));
}

#[test]
fn copy_box_spans_region() {
    let region = PointerRegion { left: 1900, top: 1070, width: 20, height: 10 };
    assert_eq!(region_box(&region), CopyBox { left: 1900, top: 1070, right: 1920, bottom: 1080 });
}

#[test]
fn color_and_empty_regions() {
    assert_eq!(
        color_pointer_region(-3, 7, 32, 48),
        PointerRegion { left: -3, top: 7, width: 32, height: 48 }
    );
    assert_eq!(empty_pointer_region(), PointerRegion { left: 0, top: 0, width: 0, height: 0 });
}

#[test]
fn textures_take_shape_pitch_only_for_color() {
    let region = PointerRegion { left: 0, top: 0, width: 22, height: 27 };
    let color = pointer_texture(PointerShapeKind::Color, &region, 128);
    assert_eq!((color.width, color.height, color.row_pitch, color.from_shape), (22, 27, 128, true));
    let mono = pointer_texture(PointerShapeKind::Monochrome, &region, 4);
    assert_eq!((mono.row_pitch, mono.from_shape), (88, false));
    let masked = pointer_texture(PointerShapeKind::MaskedColor, &region, 128);
    assert_eq!((masked.row_pitch, masked.from_shape), (88, false));
}

#[test]
fn quad_is_relative_to_desktop_centre() {
    let region = PointerRegion { left: 100, top: 200, width: 32, height: 48 };
    let q = pointer_quad(&region, 1920, 1080);
    assert_eq!((q.center_x, q.center_y), (960, 540));
    assert_eq!((q.left, q.right), (-860, -828));
    assert_eq!((q.top, q.bottom), (-340, -292));
    assert_eq!(q.right - q.left, region.width);
    assert_eq!(q.bottom - q.top, region.height);
}

#[test]
fn overflow_checks_for_clipping_and_placing() {
    assert!(clip_pointer_computable(false, 1920, 1080, 32, 32, 100, 200));
    assert!(!clip_pointer_computable(false, 1920, 1080, 32, 32, i32::MAX - 10, 200));
    assert!(!clip_pointer_computable(true, 1920, 1080, 32, 64, 0, i32::MAX - 10));
    assert!(clip_pointer_computable(true, 1920, 1080, 32, 64, 0, i32::MAX - 40));
    let region = PointerRegion { left: 100, top: 200, width: 32, height: 48 };
    assert!(pointer_quad_computable(&region, 1920, 1080));
    let far = PointerRegion { left: i32::MIN, top: 0, width: 1, height: 1 };
    assert!(!pointer_quad_computable(&far, 1920, 1080));
}
