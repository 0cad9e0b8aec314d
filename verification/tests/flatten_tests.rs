use path_flatten::point::{Point, MAX_COORD};
use path_flatten::segment::Segment;
use path_flatten::subdivision::{
    calc_sq_distance, subdivide, subdivide_with, Subdivision, SubdivisionParams, RECURSION_LIMIT,
};

fn pt(x: i64, y: i64) -> Point {
    Point::new(x, y)
}

fn logical(p: &Point) -> (f64, f64) {
    (p.x as f64 / 256.0, p.y as f64 / 256.0)
}

fn dist(a: (f64, f64), b: (f64, f64)) -> f64 {
    let dx = b.0 - a.0;
    let dy = b.1 - a.1;
    (dx * dx + dy * dy).sqrt()
}

fn curve_point(ctrl: [(f64, f64); 4], t: f64) -> (f64, f64) {
    let u = 1.0 - t;
    let b0 = u * u * u;
    let b1 = 3.0 * u * u * t;
    let b2 = 3.0 * u * t * t;
    let b3 = t * t * t;
    (
        b0 * ctrl[0].0 + b1 * ctrl[1].0 + b2 * ctrl[2].0 + b3 * ctrl[3].0,
        b0 * ctrl[0].1 + b1 * ctrl[1].1 + b2 * ctrl[2].1 + b3 * ctrl[3].1,
    )
}

fn polyline_length(points: &[Point]) -> f64 {
    let mut len = 0.0;
    for w in points.windows(2) {
        len += dist(logical(&w[0]), logical(&w[1]));
    }
    len
}

#[test]
fn collinear_run_emits_no_interior_points() {
    // P1 (0,0), P2 (1,0), P3 (2,0), P4 (3,0) in logical units: a straight
    // run with both controls strictly between the endpoints stops at once.
    let seg = Segment::Cubic(pt(0, 0), pt(256, 0), pt(512, 0), pt(768, 0));
    let interior = Subdivision::new(&seg).flatten();
    assert!(interior.is_empty());
    // Consumers still connect P1 to P4: the full polyline is the two endpoints.
    assert_eq!(subdivide(&seg), vec![pt(0, 0), pt(768, 0)]);
}

#[test]
fn zero_length_chord_terminates_with_a_point() {
    // P1 = P4 = (0,0) with offset controls: no division by zero, and at
    // least one representative interior point comes out.
    let seg = Segment::Cubic(pt(0, 0), pt(256, 256), pt(-256, 256), pt(0, 0));
    let interior = Subdivision::new(&seg).flatten();
    assert!(!interior.is_empty());
    let poly = subdivide(&seg);
    assert_eq!(poly.first(), Some(&pt(0, 0)));
    assert_eq!(poly.last(), Some(&pt(0, 0)));
    assert!(poly.len() >= 3);
}

#[test]
fn s_curve_length_converges_with_scale() {
    // An S-shaped cubic, 512 logical units across. The reference arc length
    // comes from dense parametric sampling.
    let seg = Segment::Cubic(
        pt(0, 0),
        pt(512 * 256, 0),
        pt(0, 512 * 256),
        pt(512 * 256, 512 * 256),
    );
    let ctrl = [(0.0, 0.0), (512.0, 0.0), (0.0, 512.0), (512.0, 512.0)];
    let n = 1 << 14;
    let mut samples: Vec<(f64, f64)> = Vec::with_capacity(n + 1);
    for i in 0..=n {
        samples.push(curve_point(ctrl, i as f64 / n as f64));
    }
    let mut ref_len = 0.0;
    for w in samples.windows(2) {
        ref_len += dist(w[0], w[1]);
    }

    let mut last_err = f64::INFINITY;
    for scale in [1i64, 2, 4, 8] {
        let params = SubdivisionParams::new(scale, 0, 0, RECURSION_LIMIT);
        let poly = subdivide_with(&seg, params);
        let err = (ref_len - polyline_length(&poly)).abs();
        // Monotone improvement, up to the noise floor of the 1/256 grid.
        assert!(
            err <= last_err + ref_len * 1e-5,
            "arc-length error grew from {} to {} at scale {}",
            last_err,
            err,
            scale
        );
        last_err = err;

        // Every emitted point stays near the true curve, within a bound
        // proportional to the distance tolerance.
        let tol = 0.5 / scale as f64;
        for p in &poly {
            let fp = logical(p);
            let mut best = f64::INFINITY;
            for q in &samples {
                let d = dist(fp, *q);
                if d < best {
                    best = d;
                }
            }
            assert!(
                best <= 2.0 * tol + 0.1,
                "point {:?} is {} from the curve at scale {}",
                fp,
                best,
                scale
            );
        }
    }
    assert!(last_err < ref_len * 0.01);
}

#[test]
fn recursion_bound_on_adversarial_controls() {
    // Jittered control points at the coordinate extremes: flattening must
    // terminate and give a finite point count.
    let m = MAX_COORD;
    let seg = Segment::Cubic(
        pt(-m, m - 1),
        pt(m, -m + 3),
        pt(-m + 7, m),
        pt(m - 13, -m + 5),
    );
    let poly = subdivide(&seg);
    assert!(poly.len() >= 2);
    assert!(poly.len() < 1 << 22);
    assert_eq!(poly[0], pt(-m, m - 1));
    assert_eq!(*poly.last().unwrap(), pt(m - 13, -m + 5));

    // With a tight recursion limit the output obeys the 2^(limit + 1) cap.
    let low = SubdivisionParams::new(1, 0, 0, 3);
    let poly_low = subdivide_with(&seg, low);
    assert!(poly_low.len() <= 2 + (1 << 4));
}

#[test]
fn flattening_is_deterministic() {
    let seg = Segment::Cubic(pt(0, 0), pt(131072, 0), pt(0, 131072), pt(131072, 131072));
    assert_eq!(subdivide(&seg), subdivide(&seg));
    let params = SubdivisionParams::new(4, 0, 0, 32);
    assert_eq!(subdivide_with(&seg, params), subdivide_with(&seg, params));
}

#[test]
fn line_passes_through_unchanged() {
    let seg = Segment::Line(pt(-100, 7), pt(900, -200));
    assert_eq!(subdivide(&seg), vec![pt(-100, 7), pt(900, -200)]);
}

#[test]
fn quadratic_elevates_to_equivalent_cubic() {
    // Degree elevation: controls at one third and two thirds of the way,
    // here chosen so the thirds are exact.
    let quad = Segment::Quad(pt(0, 0), pt(768, 768), pt(1536, 0));
    let cubic = Segment::Cubic(pt(0, 0), pt(512, 512), pt(1024, 512), pt(1536, 0));
    assert_eq!(subdivide(&quad), subdivide(&cubic));
}

#[test]
fn squared_distance_formula() {
    assert_eq!(calc_sq_distance(0, 0, 3, 4), 25);
    assert_eq!(calc_sq_distance(-2, -3, 1, 1), 25);
    assert_eq!(calc_sq_distance(5, 5, 5, 5), 0);
}

#[test]
fn tolerance_derivation_from_scale() {
    let p1 = SubdivisionParams::new(1, 0, 0, 32);
    assert_eq!(p1.distance_tolerance_square, 128 * 128);
    let p4 = SubdivisionParams::new(4, 0, 0, 32);
    assert_eq!(p4.distance_tolerance_square, 32 * 32);
    let d = SubdivisionParams::default();
    assert_eq!(d, p1);
    assert_eq!(d.recursion_limit, RECURSION_LIMIT);
    assert_eq!(d.angle_tolerance, 0);
    assert_eq!(d.cusp_limit, 0);
}

#[test]
fn subdivision_new_uses_defaults() {
    let seg = Segment::Cubic(pt(1, 2), pt(3, 4), pt(5, 6), pt(7, 8));
    let sd = Subdivision::new(&seg);
    assert_eq!(sd.params, SubdivisionParams::default());
    assert_eq!((sd.x1, sd.y1, sd.x4, sd.y4), (1, 2, 7, 8));
    assert_eq!((sd.x2, sd.y2, sd.x3, sd.y3), (3, 4, 5, 6));
    assert!(sd.points.is_empty());
    assert!(!sd.limit_reached);
}

#[test]
fn limit_exhaustion_is_observable_not_fatal() {
    let m = MAX_COORD;
    // A wide bulge over a zero-length chord: a recursion limit of zero cannot
    // reach flatness, yet the run still terminates, and the compromise is
    // recorded, not raised.
    let seg = Segment::Cubic(pt(0, 0), pt(m, m), pt(-m, m), pt(0, 0));
    let mut tight = Subdivision::with_params(&seg, SubdivisionParams::new(1, 0, 0, 0));
    tight.run();
    assert!(tight.limit_reached);
    // A straight run never needs the limit.
    let line_like = Segment::Cubic(pt(0, 0), pt(256, 0), pt(512, 0), pt(768, 0));
    let mut easy = Subdivision::new(&line_like);
    easy.run();
    assert!(!easy.limit_reached);
    assert!(easy.points.is_empty());
}

#[test]
fn subdivide_wraps_interior_with_endpoints() {
    let seg = Segment::Cubic(pt(0, 0), pt(131072, 0), pt(0, 131072), pt(131072, 131072));
    let interior = Subdivision::new(&seg).flatten();
    let full = subdivide(&seg);
    assert_eq!(full.len(), interior.len() + 2);
    assert_eq!(full[0], pt(0, 0));
    assert_eq!(*full.last().unwrap(), pt(131072, 131072));
    assert_eq!(&full[1..full.len() - 1], &interior[..]);
}

#[test]
fn angle_tolerance_refines_output() {
    let seg = Segment::Cubic(pt(0, 0), pt(131072, 0), pt(0, 131072), pt(131072, 131072));
    let plain = subdivide_with(&seg, SubdivisionParams::new(1, 0, 0, 32));
    let tight = subdivide_with(&seg, SubdivisionParams::new(1, 500, 0, 32));
    assert!(tight.len() >= plain.len());
    assert_eq!(tight[0], pt(0, 0));
    assert_eq!(*tight.last().unwrap(), pt(131072, 131072));
}

#[test]
fn cusp_limit_branch_terminates() {
    let seg = Segment::Cubic(pt(0, 0), pt(131072, 131072), pt(-131072, 131072), pt(0, 0));
    let params = SubdivisionParams::new(1, 600, 550, 32);
    let poly = subdivide_with(&seg, params);
    assert!(poly.len() >= 2);
    assert_eq!(poly.first(), Some(&pt(0, 0)));
    assert_eq!(poly.last(), Some(&pt(0, 0)));
}
