use gpu_dispatch::ppm::{header, image, pixel_line, push_decimal, push_header, push_pixel};

fn quantize(channel: f32) -> u8 {
    (channel * 255.0) as u8
}

#[test]
fn header_of_the_raytracer_image() {
    assert_eq!(header(1024, 512), b"P3\n1024 512\n255\n".to_vec());
}

#[test]
fn header_of_an_empty_image() {
    assert_eq!(header(0, 0), b"P3\n0 0\n255\n".to_vec());
}

#[test]
fn pixel_line_has_three_channels() {
    assert_eq!(pixel_line([255, 127, 0]), b"255 127 0\n".to_vec());
    assert_eq!(pixel_line([0, 0, 0]), b"0 0 0\n".to_vec());
    assert_eq!(pixel_line([9, 10, 100]), b"9 10 100\n".to_vec());
}

#[test]
fn colour_is_written_as_floor_of_channel_times_255() {
    let pixel = [quantize(1.0), quantize(0.5), quantize(0.0)];
    assert_eq!(pixel, [255, 127, 0]);
    assert_eq!(pixel_line(pixel), b"255 127 0\n".to_vec());
}

#[test]
fn decimal_has_no_leading_zeros() {
    let mut out = Vec::new();
    push_decimal(&mut out, 0);
    out.push(b',');
    push_decimal(&mut out, 7);
    out.push(b',');
    push_decimal(&mut out, 10);
    out.push(b',');
    push_decimal(&mut out, 1024);
    out.push(b',');
    push_decimal(&mut out, u64::MAX);
    assert_eq!(out, b"0,7,10,1024,18446744073709551615".to_vec());
}

#[test]
fn pushing_appends_to_what_is_there() {
    let mut out = b"# comment\n".to_vec();
    push_header(&mut out, 2, 1);
    push_pixel(&mut out, [1, 2, 3]);
    push_pixel(&mut out, [40, 50, 60]);
    assert_eq!(out, b"# comment\nP3\n2 1\n255\n1 2 3\n40 50 60\n".to_vec());
}

#[test]
fn image_is_the_header_and_one_line_per_pixel() {
    let pixels = [[255u8, 0, 0], [0, 255, 0], [0, 0, 255], [12, 34, 56]];
    assert_eq!(
        image(2, 2, &pixels),
        b"P3\n2 2\n255\n255 0 0\n0 255 0\n0 0 255\n12 34 56\n".to_vec()
    );
    assert_eq!(image(0, 0, &[]), b"P3\n0 0\n255\n".to_vec());
}
