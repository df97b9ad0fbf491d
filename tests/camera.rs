use life_runner::{Camera, Size, MAX_ZOOM, ONE};

const VIEW: Size = Size { width: 800, height: 600 };

fn grid_coord(t: u64, c: u32, s: u32, zoom: u64) -> i128 {
    let inv = (ONE as u128 * ONE as u128) / zoom as u128;
    t as i128 + (c as u128 * inv / s as u128) as i128
}

fn max_pan(zoom: u64) -> u64 {
    ONE - (ONE * ONE) / zoom
}

#[test]
fn new_camera_is_unzoomed() {
    let c = Camera::new();
    assert_eq!(c.zoom, ONE);
    assert_eq!((c.translate_x, c.translate_y), (0, 0));
    assert_eq!(Camera::default(), c);
}

#[test]
fn zoom_at_centre_holds_the_point_under_the_cursor() {
    let mut c = Camera::new();
    c.scroll(100_000, 400, 300, VIEW);
    assert_eq!(c.zoom, 1_100_000);
    assert_eq!(c.translate_x, 45_455);
    assert_eq!(c.translate_y, 45_455);
    assert_eq!(grid_coord(c.translate_x, 400, 800, c.zoom), 500_000);
    assert_eq!(grid_coord(c.translate_y, 300, 600, c.zoom), 500_000);
}

#[test]
fn zoom_holds_the_cursor_within_a_millionth() {
    let mut c = Camera::new();
    let steps: [(i64, u32, u32); 6] = [
        (300_000, 120, 80),
        (250_000, 500, 410),
        (-100_000, 300, 200),
        (400_000, 640, 90),
        (-200_000, 410, 333),
        (50_000, 399, 299),
    ];
    for (delta, x, y) in steps {
        let before_x = grid_coord(c.translate_x, x, 800, c.zoom);
        let before_y = grid_coord(c.translate_y, y, 600, c.zoom);
        let prev = c;
        c.scroll(delta, x, y, VIEW);
        let limit = max_pan(c.zoom);
        if c.translate_x != 0 && c.translate_x != limit {
            assert!((grid_coord(c.translate_x, x, 800, c.zoom) - before_x).abs() <= 1, "{prev:?} -> {c:?}");
        }
        if c.translate_y != 0 && c.translate_y != limit {
            assert!((grid_coord(c.translate_y, y, 600, c.zoom) - before_y).abs() <= 1, "{prev:?} -> {c:?}");
        }
    }
}

#[test]
fn zoom_in_at_corner_is_clamped_to_the_grid() {
    let mut c = Camera::new();
    c.scroll(100_000, 800, 600, VIEW);
    assert_eq!(c.translate_x, max_pan(c.zoom));
    assert_eq!(c.translate_y, max_pan(c.zoom));
    let mut d = Camera::new();
    d.scroll(100_000, 0, 0, VIEW);
    assert_eq!((d.translate_x, d.translate_y), (0, 0));
}

#[test]
fn zoom_stays_between_one_and_a_hundred() {
    let mut c = Camera::new();
    c.scroll(-500_000, 10, 10, VIEW);
    assert_eq!(c.zoom, ONE);
    c.scroll(-2_000_000, 10, 10, VIEW);
    assert_eq!(c.zoom, ONE);
    c.scroll(1_000_000_000, 10, 10, VIEW);
    assert_eq!(c.zoom, MAX_ZOOM);
    c.scroll(i64::MAX, 10, 10, VIEW);
    assert_eq!(c.zoom, MAX_ZOOM);
    c.scroll(-990_000, 10, 10, VIEW);
    assert_eq!(c.zoom, ONE);
}

#[test]
fn zooming_out_fully_recentres() {
    let mut c = Camera::new();
    c.scroll(3_000_000, 700, 500, VIEW);
    assert!(c.translate_x > 0 && c.translate_y > 0);
    c.scroll(-900_000, 100, 100, VIEW);
    assert_eq!(c.zoom, ONE);
    assert_eq!((c.translate_x, c.translate_y), (0, 0));
}

#[test]
fn pan_stays_clamped_over_many_scrolls() {
    let mut c = Camera::new();
    let mut seed: u64 = 12345;
    for _ in 0..500 {
        seed = seed.wrapping_mul(6364136223846793005).wrapping_add(1442695040888963407);
        let delta = ((seed >> 33) % 1_400_000) as i64 - 600_000;
        let x = ((seed >> 7) % 900) as u32;
        let y = ((seed >> 17) % 700) as u32;
        c.scroll(delta, x, y, VIEW);
        assert!(c.zoom >= ONE && c.zoom <= MAX_ZOOM);
        assert!(c.translate_x <= max_pan(c.zoom));
        assert!(c.translate_y <= max_pan(c.zoom));
    }
}

#[test]
fn empty_viewport_does_not_pan() {
    let mut c = Camera::new();
    c.scroll(500_000, 10, 10, Size { width: 0, height: 0 });
    assert_eq!(c.zoom, 1_500_000);
    assert_eq!((c.translate_x, c.translate_y), (0, 0));
}
