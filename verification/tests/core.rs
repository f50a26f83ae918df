use evoraster::canvas::{Canvas, Pixel};
use evoraster::color::Color;
use evoraster::fixed::{CHAN_MAX, FX_SCALE};
use evoraster::geom::Point2D;
use evoraster::random::uniform;
use evoraster::shape::Shape;
use evoraster::EvoError;

fn black_canvas(h: usize, w: usize) -> Canvas {
    Canvas::new(h, w, (0, 0, 0))
}

fn color_in_range(c: &Color) -> bool {
    0 <= c.r && c.r <= CHAN_MAX && 0 <= c.g && c.g <= CHAN_MAX && 0 <= c.b && c.b <= CHAN_MAX
        && 0 <= c.a && c.a <= FX_SCALE
}

#[test]
fn color_mutation_stays_in_range() {
    let amps: [i64; 6] = [0, 1024, -1024, i64::MAX, i64::MIN, 123456789];
    for &amp in amps.iter() {
        let mut c = Color::rand_new();
        assert!(color_in_range(&c));
        for _ in 0..50 {
            c.mutate(amp);
            assert!(color_in_range(&c));
        }
    }
}

#[test]
fn uniform_range_and_degenerate() {
    for _ in 0..100 {
        let v = uniform(-5, 7);
        assert!(-5 <= v && v < 7);
    }
    // a one-element range pins the draw completely
    assert_eq!(uniform(41, 42), 41);
}

#[test]
fn distance_of_canvas_with_itself_is_zero() {
    let mut a = black_canvas(4, 6);
    let red = Color { r: 255 * FX_SCALE, g: 0, b: 0, a: FX_SCALE };
    a.draw_horizontal_line(2, 1, 4, &red);
    assert_eq!(Canvas::l2_diff(&a, &a), Ok(0));
}

#[test]
fn distance_is_symmetric() {
    let a = black_canvas(5, 5);
    let mut b = black_canvas(5, 5);
    let c = Color { r: 200 * FX_SCALE, g: 31 * FX_SCALE, b: 9 * FX_SCALE, a: FX_SCALE / 2 };
    b.draw_horizontal_line(0, 0, 4, &c);
    b.draw_horizontal_line(3, 2, 2, &c);
    let d_ab = Canvas::l2_diff(&a, &b).unwrap();
    let d_ba = Canvas::l2_diff(&b, &a).unwrap();
    assert_eq!(d_ab, d_ba);
    assert!(d_ab > 0);
}

#[test]
fn distance_is_positive_for_any_difference() {
    // a difference far below one whole channel unit still registers
    let a = Canvas::new(1, 1, (0, 0, 0));
    let b = Canvas::new(1, 1, (1, 0, 0));
    let d = Canvas::l2_diff(&a, &b).unwrap();
    assert_eq!(d, 1);
    // and only identity gives zero
    assert_eq!(Canvas::l2_diff(&a, &a), Ok(0));
}

#[test]
fn distance_rejects_mismatched_dimensions() {
    let a = black_canvas(2, 3);
    let b = black_canvas(3, 2);
    assert_eq!(Canvas::l2_diff(&a, &b), Err(EvoError::DimensionMismatch));
    let c = black_canvas(2, 4);
    assert_eq!(Canvas::l2_diff(&a, &c), Err(EvoError::DimensionMismatch));
}

#[test]
fn rectangle_fills_exactly_its_cells() {
    let mut canvas = black_canvas(6, 6);
    let red = Color { r: 255 * FX_SCALE, g: 0, b: 0, a: FX_SCALE };
    let rect = Shape::Rectangle {
        p1: Point2D::new(0, 0),
        p2: Point2D::new(3 * FX_SCALE, 3 * FX_SCALE),
        color: red,
    };
    rect.draw_to(&mut canvas);
    for i in 0..6usize {
        for j in 0..6usize {
            let p = canvas.pixels[i * 6 + j];
            if i <= 3 && j <= 3 {
                assert_eq!(p, Pixel { r: 255 * FX_SCALE, g: 0, b: 0 });
            } else {
                assert_eq!(p, Pixel { r: 0, g: 0, b: 0 });
            }
        }
    }
}

#[test]
fn degenerate_triangles_do_not_panic() {
    let c = Color { r: 100 * FX_SCALE, g: 100 * FX_SCALE, b: 100 * FX_SCALE, a: FX_SCALE };
    // collinear points
    let t1 = Shape::Triangle {
        p1: Point2D::new(0, 0),
        p2: Point2D::new(2 * FX_SCALE, 2 * FX_SCALE),
        p3: Point2D::new(4 * FX_SCALE, 4 * FX_SCALE),
        color: c,
    };
    // a vertical edge: two vertices share their primary coordinate
    let t2 = Shape::Triangle {
        p1: Point2D::new(FX_SCALE, 0),
        p2: Point2D::new(FX_SCALE, 4 * FX_SCALE),
        p3: Point2D::new(3 * FX_SCALE, 2 * FX_SCALE),
        color: c,
    };
    // all three vertices equal
    let t3 = Shape::Triangle {
        p1: Point2D::new(2 * FX_SCALE, 2 * FX_SCALE),
        p2: Point2D::new(2 * FX_SCALE, 2 * FX_SCALE),
        p3: Point2D::new(2 * FX_SCALE, 2 * FX_SCALE),
        color: c,
    };
    // far outside the canvas
    let t4 = Shape::Triangle {
        p1: Point2D::new(-1000 * FX_SCALE, -1000 * FX_SCALE),
        p2: Point2D::new(1000 * FX_SCALE, -500 * FX_SCALE),
        p3: Point2D::new(0, 2000 * FX_SCALE),
        color: c,
    };
    for t in [t1, t2, t3, t4].iter() {
        let mut canvas = black_canvas(8, 8);
        t.draw_to(&mut canvas);
        assert_eq!(canvas.x_height, 8);
        assert_eq!(canvas.y_width, 8);
        assert_eq!(canvas.pixels.len(), 64);
    }
}

#[test]
fn circle_touches_no_row_outside_its_radius() {
    let mut canvas = black_canvas(7, 7);
    let c = Color { r: 255 * FX_SCALE, g: 255 * FX_SCALE, b: 255 * FX_SCALE, a: FX_SCALE };
    // centred on cell (2, 2) with radius one pixel: rows 1 to 3 only
    let circle = Shape::Circle {
        center: Point2D::new(2 * FX_SCALE, 2 * FX_SCALE),
        radius: FX_SCALE,
        color: c,
    };
    circle.draw_to(&mut canvas);
    for i in 0..7usize {
        for j in 0..7usize {
            let p = canvas.pixels[i * 7 + j];
            if i < 1 || i > 3 {
                assert_eq!(p, Pixel { r: 0, g: 0, b: 0 });
            }
        }
    }
    // the centre row is painted
    assert_ne!(canvas.pixels[2 * 7 + 2], Pixel { r: 0, g: 0, b: 0 });
}

#[test]
fn compositing_alpha_zero_and_one() {
    let bg = (100 * FX_SCALE, 50 * FX_SCALE, 25 * FX_SCALE);
    let mut a = Canvas::new(1, 1, bg);
    let transparent = Color { r: 255 * FX_SCALE, g: 255 * FX_SCALE, b: 255 * FX_SCALE, a: 0 };
    a.draw_horizontal_line(0, 0, 0, &transparent);
    assert_eq!(a.pixels[0], Pixel { r: bg.0, g: bg.1, b: bg.2 });

    let opaque = Color { r: 7 * FX_SCALE, g: 8 * FX_SCALE, b: 9 * FX_SCALE, a: FX_SCALE };
    a.draw_horizontal_line(0, 0, 0, &opaque);
    assert_eq!(a.pixels[0], Pixel { r: 7 * FX_SCALE, g: 8 * FX_SCALE, b: 9 * FX_SCALE });
}

#[test]
fn half_alpha_blends_midway() {
    let mut a = Canvas::new(1, 2, (0, 0, 0));
    let half = Color { r: 200 * FX_SCALE, g: 0, b: 100 * FX_SCALE, a: FX_SCALE / 2 };
    a.draw_horizontal_line(0, 0, 1, &half);
    assert_eq!(a.pixels[0], Pixel { r: 100 * FX_SCALE, g: 0, b: 50 * FX_SCALE });
    assert_eq!(a.pixels[1], a.pixels[0]);
}

#[test]
fn rgb_bytes_round_trip() {
    let bytes: Vec<u8> = vec![0, 1, 2, 253, 254, 255, 10, 20, 30, 40, 50, 60];
    let canvas = Canvas::from_rgb_bytes(2, 2, &bytes);
    assert_eq!(canvas.pixels[1], Pixel {
        r: 253 * FX_SCALE,
        g: 254 * FX_SCALE,
        b: 255 * FX_SCALE,
    });
    let back = canvas.to_rgb_bytes();
    assert_eq!(back, bytes);
}

#[test]
fn ascii_dump_format() {
    let canvas = Canvas::new(1, 2, (255 * FX_SCALE, 0, FX_SCALE));
    let mut buf: Vec<u8> = Vec::new();
    canvas.print_as_ascii(&mut buf);
    let text = String::from_utf8(buf).unwrap();
    assert_eq!(text, format!("h=1 w=2\n{0} 0 {1}\n{0} 0 {1}\n", 255 * FX_SCALE, FX_SCALE));
}

#[test]
fn shape_kind_names() {
    assert!(Shape::rand_new("triangle", 10, 10).is_ok());
    assert!(Shape::rand_new("TRIANGLE", 10, 10).is_ok());
    assert!(Shape::rand_new("Circle", 10, 10).is_ok());
    assert!(Shape::rand_new("rectangle", 10, 10).is_ok());
    assert_eq!(
        Shape::rand_new("hexagon", 10, 10).err(),
        Some(EvoError::UnknownShapeKind)
    );
    assert_eq!(Shape::rand_new("", 10, 10).err(), Some(EvoError::UnknownShapeKind));
    assert_eq!(
        Shape::rand_new("triangles", 10, 10).err(),
        Some(EvoError::UnknownShapeKind)
    );
}

#[test]
fn random_circle_radius_is_at_least_one_pixel() {
    // a tenth of a 10-wide canvas is below one pixel, so the floor
    // always applies and the radius is exactly one pixel
    for _ in 0..20 {
        match Shape::rand_new("circle", 10, 10).unwrap() {
            Shape::Circle { radius, .. } => assert_eq!(radius, FX_SCALE),
            _ => panic!("expected a circle"),
        }
    }
}

#[test]
fn random_circle_radius_is_at_most_a_tenth_of_the_short_side() {
    for _ in 0..50 {
        match Shape::rand_new("circle", 100, 50).unwrap() {
            Shape::Circle { radius, .. } => {
                assert!(radius >= FX_SCALE);
                assert!(radius <= 50 * FX_SCALE / 10);
            },
            _ => panic!("expected a circle"),
        }
    }
}

#[test]
fn zero_amplitude_mutation_changes_nothing() {
    let mut c = Color::rand_new();
    let before = c;
    c.mutate(0);
    assert_eq!(c, before);

    let mut s = Shape::rand_new("triangle", 20, 20).unwrap();
    let t = s;
    s.mutate(20, 0);
    assert_eq!(s, t);
}

#[test]
fn shape_mutation_keeps_its_variant_and_ranges() {
    let mut s = Shape::rand_new("circle", 20, 20).unwrap();
    for _ in 0..30 {
        s.mutate(20, 2048);
        match s {
            Shape::Circle { color, .. } => assert!(color_in_range(&color)),
            _ => panic!("the variant changed under mutation"),
        }
    }
}
