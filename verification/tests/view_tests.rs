use flat_samples::flat::FlatSamples;
use flat_samples::pixel::LumaA;
use flat_samples::pixel::Pixel;
use flat_samples::pixel::Rgb;
use flat_samples::view::Error;
use flat_samples::view::NormalForm;

#[test]
fn aliasing_view() {
    let buffer: FlatSamples<&[usize]> = FlatSamples {
        samples: &[42],
        channels: 3,
        channel_stride: 0,
        width: 100,
        width_stride: 0,
        height: 100,
        height_stride: 0,
    };

    let view = buffer.as_view::<Rgb<usize>>().expect("This is a valid view");
    let mut pixel_count: usize = 0;
    for x in 0..100u32 {
        for y in 0..100u32 {
            assert!(view.get_pixel(x, y) == Rgb(42, 42, 42));
            pixel_count += 1;
        }
    }
    assert_eq!(pixel_count, 100 * 100);
}

#[test]
fn mutable_view() {
    let buffer: FlatSamples<Vec<usize>> = FlatSamples {
        samples: vec![0; 18],
        channels: 2,
        channel_stride: 1,
        width: 3,
        width_stride: 2,
        height: 3,
        height_stride: 6,
    };

    let mut view = buffer
        .as_view_mut::<LumaA<usize>>()
        .expect("This should be a valid mutable buffer");
    let mut pixel_count: usize = 0;
    for y in 0..3u32 {
        for x in 0..3u32 {
            let idx: usize = (y as usize) * 3 + (x as usize);
            view.put_pixel(x, y, LumaA(2 * idx, 2 * idx + 1));
            pixel_count += 1;
        }
    }
    assert_eq!(pixel_count, 9);

    let buffer = view.into_inner();
    buffer
        .samples
        .iter()
        .enumerate()
        .for_each(|(idx, sample)| assert_eq!(idx, *sample));
}

#[test]
fn colliding_coordinates_refuse_mutable_view() {
    // index(1, y, 0) == index(0, y, 1), though the channel stride is 1.
    let buffer: FlatSamples<Vec<usize>> = FlatSamples {
        samples: vec![0; 32],
        channels: 2,
        channel_stride: 1,
        width: 3,
        width_stride: 1,
        height: 3,
        height_stride: 4,
    };
    let result = buffer.as_view_mut::<LumaA<usize>>();
    let (returned, error) = result.err().expect("aliased layout must be refused");
    assert_eq!(error, Error::NormalFormRequired(NormalForm::Unaliased));
    // The descriptor comes back unchanged beside the error.
    assert_eq!(returned.samples.len(), 32);
    assert_eq!(returned.width_stride, 1);
}

#[test]
fn unpacked_channels_refuse_mutable_view() {
    // Planar storage: unaliased, but the channel stride is not 1.
    let buffer: FlatSamples<Vec<usize>> = FlatSamples {
        samples: vec![0; 18],
        channels: 2,
        channel_stride: 9,
        width: 3,
        width_stride: 1,
        height: 3,
        height_stride: 3,
    };
    let (_, error) = buffer.as_view_mut::<LumaA<usize>>().err().unwrap();
    assert_eq!(error, Error::NormalFormRequired(NormalForm::PixelPacked));
}

#[test]
fn wrong_channel_count_refuses_view() {
    let buffer: FlatSamples<&[usize]> = FlatSamples {
        samples: &[0; 64],
        channels: 2,
        channel_stride: 1,
        width: 3,
        width_stride: 2,
        height: 3,
        height_stride: 6,
    };
    // Plenty of storage: only the arity mismatch remains.
    assert_eq!(buffer.as_view::<Rgb<usize>>().err(), Some(Error::WrongColor));
    assert!(buffer.as_view::<LumaA<usize>>().is_ok());
}

#[test]
fn wrong_channel_count_refuses_mutable_view() {
    let buffer: FlatSamples<Vec<usize>> = FlatSamples {
        samples: vec![0; 64],
        channels: 2,
        channel_stride: 1,
        width: 3,
        width_stride: 2,
        height: 3,
        height_stride: 6,
    };
    let (_, error) = buffer.as_view_mut::<Rgb<usize>>().err().unwrap();
    assert_eq!(error, Error::WrongColor);
}

#[test]
fn storage_one_sample_short_refuses_view() {
    // The maximum reachable index is 17, so 18 samples are needed.
    let buffer: FlatSamples<&[usize]> = FlatSamples {
        samples: &[0; 17],
        channels: 2,
        channel_stride: 1,
        width: 3,
        width_stride: 2,
        height: 3,
        height_stride: 6,
    };
    assert_eq!(buffer.as_view::<LumaA<usize>>().err(), Some(Error::TooLarge));

    let owned: FlatSamples<Vec<usize>> = FlatSamples {
        samples: vec![0; 17],
        channels: 2,
        channel_stride: 1,
        width: 3,
        width_stride: 2,
        height: 3,
        height_stride: 6,
    };
    let (_, error) = owned.as_view_mut::<LumaA<usize>>().err().unwrap();
    assert_eq!(error, Error::TooLarge);
}

#[test]
fn unrepresentable_maximum_refuses_view() {
    let buffer: FlatSamples<&[usize]> = FlatSamples {
        samples: &[0; 8],
        channels: 3,
        channel_stride: 1,
        width: 3,
        width_stride: usize::MAX,
        height: 2,
        height_stride: 0,
    };
    assert_eq!(buffer.as_view::<Rgb<usize>>().err(), Some(Error::TooLarge));
}

#[test]
fn short_storage_reported_before_color() {
    // The length check comes first: a buffer both too short and of the
    // wrong color counts as too large.
    let buffer: FlatSamples<&[usize]> = FlatSamples {
        samples: &[0; 3],
        channels: 2,
        channel_stride: 1,
        width: 3,
        width_stride: 2,
        height: 3,
        height_stride: 6,
    };
    assert_eq!(buffer.as_view::<Rgb<usize>>().err(), Some(Error::TooLarge));
}

#[test]
fn degenerate_geometries_build_vacuous_views() {
    let empty: FlatSamples<&[usize]> = FlatSamples {
        samples: &[],
        channels: 3,
        channel_stride: 1,
        width: 0,
        width_stride: 3,
        height: 7,
        height_stride: 21,
    };
    let view = empty.as_view::<Rgb<usize>>().expect("no coordinate is reachable");
    assert_eq!(view.dimensions(), (0, 7));
    assert!(!view.in_bounds(0, 0));

    let owned: FlatSamples<Vec<usize>> = FlatSamples {
        samples: Vec::new(),
        channels: 2,
        channel_stride: 1,
        width: 3,
        width_stride: 2,
        height: 0,
        height_stride: 6,
    };
    let view = owned.as_view_mut::<LumaA<usize>>().expect("no coordinate is reachable");
    assert_eq!(view.dimensions(), (3, 0));
}

#[test]
fn view_reports_dimensions_and_bounds() {
    let buffer: FlatSamples<&[usize]> = FlatSamples {
        samples: &[0; 18],
        channels: 2,
        channel_stride: 1,
        width: 3,
        width_stride: 2,
        height: 3,
        height_stride: 6,
    };
    let view = buffer.as_view::<LumaA<usize>>().unwrap();
    assert_eq!(view.dimensions(), (3, 3));
    assert_eq!(view.bounds(), (0, 3, 0, 3));
    assert!(view.in_bounds(2, 2));
    assert!(!view.in_bounds(3, 2));
    assert_eq!(view.inner().dimensions(), (3, 3));
}

#[test]
fn view_gathers_samples_by_stride() {
    let samples: Vec<usize> = (0..18).collect();
    let buffer: FlatSamples<Vec<usize>> = FlatSamples {
        samples,
        channels: 2,
        channel_stride: 1,
        width: 3,
        width_stride: 2,
        height: 3,
        height_stride: 6,
    };
    let by_ref = buffer.as_ref();
    let view = by_ref.as_view::<LumaA<usize>>().unwrap();
    assert_eq!(view.get_pixel(0, 0), LumaA(0, 1));
    assert_eq!(view.get_pixel(2, 1), LumaA(10, 11));
    assert_eq!(view.get_pixel(2, 2), LumaA(16, 17));
}

#[test]
fn mutable_view_reads_and_blends() {
    let buffer: FlatSamples<Vec<usize>> = FlatSamples {
        samples: vec![0; 18],
        channels: 2,
        channel_stride: 1,
        width: 3,
        width_stride: 2,
        height: 3,
        height_stride: 6,
    };
    let mut view = buffer.as_view_mut::<LumaA<usize>>().unwrap();
    assert_eq!(view.dimensions(), (3, 3));
    assert_eq!(view.bounds(), (0, 3, 0, 3));
    assert!(view.in_bounds(2, 2));
    assert!(!view.in_bounds(2, 3));
    view.put_pixel(1, 1, LumaA(5, 6));
    assert_eq!(view.get_pixel(1, 1), LumaA(5, 6));
    // The provided pixel types blend by replacement.
    view.blend_pixel(1, 1, LumaA(7, 8));
    assert_eq!(view.get_pixel(1, 1), LumaA(7, 8));
    assert_eq!(view.inner().dimensions(), (3, 3));
    let rest = view.into_inner();
    assert_eq!(rest.samples[8], 7);
    assert_eq!(rest.samples[9], 8);
    assert_eq!(rest.samples[0], 0);
}

#[test]
fn pixels_round_trip_through_samples() {
    let rgb = Rgb::<usize>::from_samples(&[4, 5, 6]);
    assert_eq!(rgb, Rgb(4, 5, 6));
    assert_eq!(rgb.to_samples(), vec![4, 5, 6]);
    assert_eq!(Rgb::<usize>::channel_count(), 3);

    let la = LumaA::<usize>::from_samples(&[8, 9]);
    assert_eq!(la, LumaA(8, 9));
    assert_eq!(la.to_samples(), vec![8, 9]);
    assert_eq!(LumaA::<usize>::channel_count(), 2);

    let mut base = Rgb(1, 2, 3);
    base.blend(&Rgb(7, 8, 9));
    assert_eq!(base, Rgb(7, 8, 9));
}
