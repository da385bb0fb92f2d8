use raytracer::canvas::{Canvas, Rgb};

const BLACK: (f64, f64, f64) = (0.0, 0.0, 0.0);

fn ppm_of(c: &Canvas<Rgb>) -> String {
    let mut io: Vec<u8> = Vec::new();
    c.to_ppm(&mut io);
    String::from_utf8(io).unwrap()
}

fn grey(v: u8) -> Rgb {
    Rgb { r: v, g: v, b: v }
}

#[test]
fn creating_a_canvas() {
    let c = Canvas::new(20, 10, BLACK);
    assert_eq!(20, c.width);
    assert_eq!(10, c.height);

    let pixels: Vec<(f64, f64, f64)> = c.pixels;
    let expected = vec![BLACK; 200];
    assert_eq!(expected, pixels)
}

#[test]
fn setting_a_pixel_value() {
    let mut c = Canvas::new(20, 10, BLACK);
    c.set(3, 1, (1.0, 1.0, 1.0));
    assert_eq!((1.0, 1.0, 1.0), c.get(3, 1))
}

#[test]
fn setting_a_pixel_value_on_the_edges() {
    let mut c = Canvas::new(20, 10, BLACK);
    c.set(0, 0, (1.0, 0.5, 1.0));
    c.set(19, 9, (1.0, 1.0, 1.0));

    assert_eq!((1.0, 0.5, 1.0), c.get(0, 0));
    assert_eq!((1.0, 1.0, 1.0), c.get(19, 9))
}

#[test]
#[should_panic]
fn setting_a_pixel_value_out_of_bounds() {
    let mut c = Canvas::new(20, 10, BLACK);
    c.set(20, 9, (1.0, 1.0, 1.0));
}

#[test]
fn write_ppm() {
    let mut c = Canvas::new(2, 2, grey(0));
    c.set(0, 0, grey(255));

    assert_eq!("P3\n2 2\n255\n255 255 255\n0 0 0 0 0 0 0 0 0\n", ppm_of(&c))
}

#[test]
fn setting_a_pixel_leaves_the_others() {
    let mut c = Canvas::new(3, 2, 0u32);
    c.set(1, 1, 7);
    assert_eq!(vec![0, 0, 0, 0, 7, 0], c.pixels);
    c.set(2, 0, 9);
    assert_eq!(vec![0, 0, 9, 0, 7, 0], c.pixels);
    assert_eq!(9, c.get(2, 0));
    assert_eq!(0, c.get(0, 1));
}

#[test]
fn empty_canvas_holds_nothing() {
    let c = Canvas::new(0, 5, 1u8);
    assert_eq!(0, c.pixels.len());
    let c = Canvas::new(5, 0, 1u8);
    assert_eq!(0, c.pixels.len());
}

#[test]
fn ppm_of_one_pixel() {
    let c = Canvas::new(1, 1, Rgb { r: 0, g: 9, b: 10 });
    assert_eq!("P3\n1 1\n255\n0 9 10\n", ppm_of(&c));
}

#[test]
fn ppm_channels_in_decimal() {
    let mut out: Vec<u8> = Vec::new();
    Canvas::write_pixel(&Rgb { r: 7, g: 42, b: 255 }, &mut out);
    assert_eq!(b"7 42 255".to_vec(), out);
    let mut out: Vec<u8> = vec![b'>'];
    Canvas::write_pixel(&Rgb { r: 100, g: 0, b: 99 }, &mut out);
    assert_eq!(b">100 0 99".to_vec(), out);
}

#[test]
fn ppm_breaks_the_line_after_every_twentieth_pixel() {
    let c = Canvas::new(11, 4, grey(1));
    let text = ppm_of(&c);
    let mut expected = String::from("P3\n11 4\n255\n");
    for i in 0..44 {
        expected.push_str("1 1 1");
        expected.push(if i == 43 || i % 20 == 0 { '\n' } else { ' ' });
    }
    assert_eq!(expected, text);
    let lines: Vec<&str> = text.lines().collect();
    assert_eq!(3 + 4, lines.len());
    assert_eq!("1 1 1", lines[3]);
    assert_eq!(20, lines[4].split(' ').count() / 3);
    assert_eq!(3, lines[6].split(' ').count() / 3);
}

#[test]
fn ppm_is_appended_to_what_is_there() {
    let c = Canvas::new(1, 1, grey(3));
    let mut io: Vec<u8> = b"# ".to_vec();
    c.to_ppm(&mut io);
    assert_eq!(b"# P3\n1 1\n255\n3 3 3\n".to_vec(), io);
}

#[test]
fn ppm_header_of_a_wide_canvas() {
    let c = Canvas::new(1200, 1, grey(0));
    let text = ppm_of(&c);
    assert!(text.starts_with("P3\n1200 1\n255\n0 0 0\n0 0 0 "));
    assert!(text.ends_with(" 0 0 0\n"));
}

#[test]
fn decimal_digits_of_numbers() {
    let mut out: Vec<u8> = Vec::new();
    raytracer::canvas::push_decimal(0, &mut out);
    out.push(b',');
    raytracer::canvas::push_decimal(10, &mut out);
    out.push(b',');
    raytracer::canvas::push_decimal(907, &mut out);
    out.push(b',');
    raytracer::canvas::push_decimal(usize::MAX, &mut out);
    assert_eq!(format!("0,10,907,{}", usize::MAX).into_bytes(), out);
}
