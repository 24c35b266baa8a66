use portkiller::icon::{decode_png_to_rgba, frame_to_rgba, IconDecodeError, PngColorKind};

#[test]
fn rgb_frames_gain_opacity() {
    let bytes = vec![1, 2, 3, 4, 5, 6];
    let rgba = frame_to_rgba(&bytes, PngColorKind::Rgb).expect("rgb converts");
    assert_eq!(rgba, vec![1, 2, 3, 255, 4, 5, 6, 255]);
}

#[test]
fn rgba_frames_pass_through() {
    let bytes = vec![9, 8, 7, 6];
    let rgba = frame_to_rgba(&bytes, PngColorKind::Rgba).expect("rgba converts");
    assert_eq!(rgba, bytes);
}

#[test]
fn gray_alpha_frames_spread_gray() {
    let bytes = vec![7, 8, 9, 10];
    let rgba = frame_to_rgba(&bytes, PngColorKind::GrayscaleAlpha).expect("gray-alpha converts");
    assert_eq!(rgba, vec![7, 7, 7, 8, 9, 9, 9, 10]);
}

#[test]
fn gray_frames_become_opaque_gray() {
    let bytes = vec![5, 200];
    let rgba = frame_to_rgba(&bytes, PngColorKind::Grayscale).expect("gray converts");
    assert_eq!(rgba, vec![5, 5, 5, 255, 200, 200, 200, 255]);
}

#[test]
fn indexed_frames_are_refused() {
    let bytes = vec![0, 1];
    assert_eq!(
        frame_to_rgba(&bytes, PngColorKind::Indexed),
        Err(IconDecodeError::IndexedUnsupported)
    );
}

#[test]
fn malformed_streams_are_refused() {
    assert!(matches!(
        decode_png_to_rgba(&[1, 2, 3, 4]),
        Err(IconDecodeError::Malformed)
    ));
}

#[test]
fn png_stream_round_trips_to_rgba() {
    let mut stream: Vec<u8> = Vec::new();
    {
        let mut encoder = png::Encoder::new(&mut stream, 2, 1);
        encoder.set_color(png::ColorType::Rgb);
        encoder.set_depth(png::BitDepth::Eight);
        let mut writer = encoder.write_header().expect("header written");
        writer
            .write_image_data(&[10, 20, 30, 40, 50, 60])
            .expect("pixels written");
    }
    let img = decode_png_to_rgba(&stream).expect("valid png decodes");
    assert_eq!(img.width, 2);
    assert_eq!(img.height, 1);
    assert_eq!(img.rgba, vec![10, 20, 30, 255, 40, 50, 60, 255]);
}
