use ray_tracer::ppm::{channel_byte, header, push_decimal, push_pixel, PpmWriter, Rgb};

fn lines_after_header(text: &[u8]) -> Vec<String> {
    let s = String::from_utf8(text.to_vec()).unwrap();
    s.lines().skip(3).map(|l| l.to_string()).collect()
}

#[test]
fn channel_byte_clamps_into_byte_range() {
    assert_eq!(channel_byte(-5), 0);
    assert_eq!(channel_byte(0), 0);
    assert_eq!(channel_byte(128), 128);
    assert_eq!(channel_byte(255), 255);
    assert_eq!(channel_byte(256), 255);
    assert_eq!(channel_byte(i32::MAX), 255);
    assert_eq!(channel_byte(i32::MIN), 0);
}

#[test]
fn decimal_digits() {
    let mut out = b"x".to_vec();
    push_decimal(&mut out, 0);
    assert_eq!(out, b"x0".to_vec());
    let mut out = Vec::new();
    push_decimal(&mut out, 10);
    assert_eq!(out, b"10".to_vec());
    let mut out = Vec::new();
    push_decimal(&mut out, 4294967295);
    assert_eq!(out, b"4294967295".to_vec());
}

#[test]
fn header_of_two_by_two_image() {
    assert_eq!(header(2, 2), b"P3\n2 2\n255\n".to_vec());
    assert_eq!(header(400, 225), b"P3\n400 225\n255\n".to_vec());
}

#[test]
fn pixel_line_format() {
    let mut out = Vec::new();
    push_pixel(&mut out, Rgb { r: 0, g: 128, b: 255 });
    assert_eq!(out, b"0 128 255\n".to_vec());
}

#[test]
fn two_by_two_image_has_header_and_four_triples() {
    let mut w = PpmWriter::new(2, 2);
    assert!(!w.is_complete());
    let pixels = [
        Rgb { r: 255, g: 0, b: 0 },
        Rgb { r: 0, g: 255, b: 0 },
        Rgb { r: 0, g: 0, b: 255 },
        Rgb { r: 7, g: 8, b: 9 },
    ];
    for p in pixels.iter() {
        w.emit(*p);
    }
    assert!(w.is_complete());
    let text = w.into_bytes();
    assert!(text.starts_with(b"P3\n2 2\n255\n"));
    let lines = lines_after_header(&text);
    assert_eq!(lines.len(), 4);
    for l in lines.iter() {
        let vals: Vec<i64> = l.split(' ').map(|v| v.parse().unwrap()).collect();
        assert_eq!(vals.len(), 3);
        assert!(vals.iter().all(|v| (0..=255).contains(v)));
    }
    assert_eq!(lines[3], "7 8 9");
    assert_eq!(
        String::from_utf8(text).unwrap(),
        "P3\n2 2\n255\n255 0 0\n0 255 0\n0 0 255\n7 8 9\n"
    );
}

#[test]
fn new_writer_holds_only_header() {
    let w = PpmWriter::new(3, 1);
    assert_eq!(w.as_bytes().clone(), b"P3\n3 1\n255\n".to_vec());
}
