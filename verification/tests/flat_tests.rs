use flat_samples::flat::FlatSamples;

fn geometry(
    channels: u8,
    channel_stride: usize,
    width: u32,
    width_stride: usize,
    height: u32,
    height_stride: usize,
) -> FlatSamples<Vec<u16>> {
    FlatSamples {
        samples: Vec::new(),
        channels,
        channel_stride,
        width,
        width_stride,
        height,
        height_stride,
    }
}

#[test]
fn index_matches_strided_formula() {
    let buffer = geometry(2, 3, 4, 7, 5, 11);
    assert_eq!(buffer.index(0, 0, 0), Some(0));
    assert_eq!(buffer.index(2, 3, 1), Some(2 * 7 + 3 * 11 + 3));
    assert_eq!(buffer.index(3, 4, 1), Some(3 * 7 + 4 * 11 + 3));
}

#[test]
fn index_allows_zero_strides() {
    let buffer = geometry(3, 0, 100, 0, 100, 0);
    assert_eq!(buffer.index(99, 99, 2), Some(0));
    assert_eq!(buffer.index(0, 0, 0), Some(0));
}

#[test]
fn index_rejects_out_of_bounds() {
    let buffer = geometry(2, 1, 3, 2, 3, 6);
    assert_eq!(buffer.index(3, 0, 0), None);
    assert_eq!(buffer.index(0, 3, 0), None);
    assert_eq!(buffer.index(0, 0, 2), None);
}

#[test]
fn index_rejects_overflow() {
    let buffer = geometry(1, 0, 3, usize::MAX, 1, 0);
    assert_eq!(buffer.index(1, 0, 0), Some(usize::MAX));
    assert_eq!(buffer.index(2, 0, 0), None);
}

#[test]
fn max_index_survives_degenerate_geometries() {
    assert_eq!(geometry(3, 1, 0, 3, 7, 21).max_index(), None);
    assert_eq!(geometry(3, 1, 7, 3, 0, 21).max_index(), None);
    assert_eq!(geometry(0, 1, 7, 3, 7, 21).max_index(), None);
    assert_eq!(geometry(0, 0, 0, 0, 0, 0).max_index(), None);
}

#[test]
fn max_index_is_last_coordinate() {
    let buffer = geometry(2, 1, 3, 2, 3, 6);
    assert_eq!(buffer.max_index(), Some(17));
    let single = geometry(1, 1, 1, 1, 1, 1);
    assert_eq!(single.max_index(), Some(0));
}

#[test]
fn aliasing_found_in_overlapping_layouts() {
    // The width stride does not clear the two channels of each pixel.
    let overlap = geometry(2, 1, 3, 1, 3, 6);
    assert!(overlap.has_aliased_samples());
    // The height stride does not clear a whole row.
    let short_rows = geometry(2, 1, 3, 2, 3, 5);
    assert!(short_rows.has_aliased_samples());
}

#[test]
fn aliasing_absent_in_packed_layouts() {
    // Row-major with packed pixels: each footprint meets the next stride.
    let packed = geometry(2, 1, 3, 2, 3, 6);
    assert!(!packed.has_aliased_samples());
    // Planar layout: channel planes after the pixel rows.
    let planar = geometry(2, 9, 3, 1, 3, 3);
    assert!(!planar.has_aliased_samples());
}

#[test]
fn aliasing_assumed_on_footprint_overflow() {
    let huge = geometry(2, usize::MAX, 3, 1, 3, 3);
    assert!(huge.has_aliased_samples());
}

#[test]
fn strides_hwc_orders_outer_to_inner() {
    let buffer = geometry(2, 1, 3, 2, 3, 6);
    assert_eq!(buffer.strides_hwc(), (6, 2, 1));
}

#[test]
fn extents_orders_outer_to_inner() {
    let buffer = geometry(2, 1, 3, 2, 5, 6);
    assert_eq!(buffer.extents(), (5, 3, 2));
}

#[test]
fn in_bounds_compares_extents() {
    let buffer = geometry(2, 1, 3, 2, 3, 6);
    assert!(buffer.in_bounds(2, 2, 1));
    assert!(!buffer.in_bounds(3, 2, 1));
    assert!(!buffer.in_bounds(2, 3, 1));
    assert!(!buffer.in_bounds(2, 2, 2));
}

#[test]
fn in_bounds_index_matches_index() {
    let buffer = geometry(2, 1, 3, 2, 3, 6);
    assert_eq!(buffer.in_bounds_index(1, 2, 1), 1 * 2 + 2 * 6 + 1);
    assert_eq!(buffer.index(1, 2, 1), Some(buffer.in_bounds_index(1, 2, 1)));
}

#[test]
fn as_ref_preserves_geometry_and_storage() {
    let buffer = FlatSamples {
        samples: vec![1u16, 2, 3, 4],
        channels: 1,
        channel_stride: 1,
        width: 2,
        width_stride: 1,
        height: 2,
        height_stride: 2,
    };
    let by_ref = buffer.as_ref();
    assert_eq!(by_ref.samples, &[1, 2, 3, 4]);
    assert_eq!(by_ref.channels, 1);
    assert_eq!(by_ref.channel_stride, 1);
    assert_eq!(by_ref.width, 2);
    assert_eq!(by_ref.width_stride, 1);
    assert_eq!(by_ref.height, 2);
    assert_eq!(by_ref.height_stride, 2);
    assert_eq!(by_ref.as_ref().samples, &[1, 2, 3, 4]);
    assert_eq!(buffer.as_slice(), &[1, 2, 3, 4]);
    assert_eq!(by_ref.as_slice(), &[1, 2, 3, 4]);
}
