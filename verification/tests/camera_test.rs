use raytracer::camera::Camera;

fn camera(hsize: usize, vsize: usize) -> Camera<f64, u8> {
    Camera::new(hsize, vsize, 1.5, 1.0, 0.75, 0.0125, 1)
}

#[test]
fn creating_a_camera() {
    let camera = camera(160, 120);
    assert_eq!(160, camera.hsize);
    assert_eq!(120, camera.vsize);
    assert_eq!(1.5, camera.field_of_view);
    assert_eq!(1, camera.transform);
    assert_eq!(1, camera.inverse_transform);
    assert_eq!(1.0, camera.half_width);
    assert_eq!(0.75, camera.half_height);
    assert_eq!(0.0125, camera.pixel_size);
}

#[test]
fn placing_a_camera_keeps_its_measures() {
    let c = camera(4, 3).transform(7, 9);
    assert_eq!(7, c.transform);
    assert_eq!(9, c.inverse_transform);
    assert_eq!(4, c.hsize);
    assert_eq!(3, c.vsize);
    assert_eq!(1.5, c.field_of_view);
    assert_eq!(0.0125, c.pixel_size);
}

#[test]
fn render_shades_every_pixel() {
    let c = camera(11, 7);
    let image = c.render((0, 0), |x, y| (x, y));
    assert_eq!(11, image.width);
    assert_eq!(7, image.height);
    for y in 0..7 {
        for x in 0..11 {
            assert_eq!((x, y), image.get(x, y));
        }
    }
    assert_eq!((10, 6), image.get(10, 6));
}

#[test]
fn render_goes_row_by_row() {
    let c = camera(3, 2);
    let order = std::cell::RefCell::new(Vec::new());
    let image = c.render(0usize, |x, y| {
        order.borrow_mut().push((x, y));
        10 * y + x
    });
    assert_eq!(vec![0, 1, 2, 10, 11, 12], image.pixels);
    assert_eq!(vec![(0, 0), (1, 0), (2, 0), (0, 1), (1, 1), (2, 1)], order.into_inner());
}

#[test]
fn render_of_an_empty_frame() {
    let image = camera(0, 4).render(1u8, |_, _| 2u8);
    assert!(image.pixels.is_empty());
    let image = camera(4, 0).render(1u8, |_, _| 2u8);
    assert!(image.pixels.is_empty());
}
