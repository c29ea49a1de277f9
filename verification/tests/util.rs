use litio::util::{pick, rand_int, rand_intr, rand_usize, same_col, shifted, uid};
use litio::wire::Color;

fn color(r: f32, g: f32, b: f32) -> Color {
    Color { r: r.to_bits(), g: g.to_bits(), b: b.to_bits() }
}

#[test]
fn draws_stay_in_range() {
    for _ in 0..500 {
        assert!(rand_int(7) < 7);
        assert!(rand_usize(3) < 3);
        let v = rand_intr(-5, 5);
        assert!((-5..5).contains(&v));
        let id = uid();
        assert!((100000..999999).contains(&id));
    }
    assert_eq!(rand_int(1), 0);
    assert_eq!(rand_usize(1), 0);
    assert_eq!(rand_intr(i32::MIN, i32::MIN + 1), i32::MIN);
    assert_eq!(rand_intr(i32::MAX - 1, i32::MAX), i32::MAX - 1);
}

#[test]
fn draws_cover_the_range() {
    let mut seen = [false; 4];
    for _ in 0..2000 {
        seen[rand_usize(4)] = true;
    }
    assert_eq!(seen, [true; 4]);
    let mut low = false;
    let mut high = false;
    for _ in 0..2000 {
        let v = rand_intr(i32::MIN, i32::MAX);
        low |= v < 0;
        high |= v > 0;
    }
    assert!(low && high);
}

#[test]
fn pick_returns_a_member() {
    let values = [4usize, 8, 15, 16, 23, 42];
    let mut seen = vec![];
    for _ in 0..2000 {
        let v = pick(&values);
        assert!(values.contains(&v));
        if !seen.contains(&v) {
            seen.push(v);
        }
    }
    assert_eq!(seen.len(), values.len());
    assert_eq!(pick(&[99]), 99);
}

#[test]
fn colours_compare_as_floats() {
    let samples = [0.0f32, -0.0, 1.0, -1.0, 0.7, f32::INFINITY, f32::NEG_INFINITY, f32::NAN,
        f32::MIN_POSITIVE, f32::MAX, 1.0e-45];
    for &x in &samples {
        for &y in &samples {
            let a = color(x, 0.5, 0.5);
            let b = color(y, 0.5, 0.5);
            assert_eq!(same_col(&a, &b), x == y);
            let a = color(0.5, 0.5, x);
            let b = color(0.5, 0.5, y);
            assert_eq!(same_col(&a, &b), x == y);
        }
    }
    assert!(same_col(&color(0.1, 0.2, 0.3), &color(0.1, 0.2, 0.3)));
    assert!(!same_col(&color(0.1, 0.2, 0.3), &color(0.1, 0.25, 0.3)));
}

#[test]
fn shifting_adds_the_offset() {
    assert_eq!(shifted(-5, 3), -2);
    assert_eq!(shifted(0, 0), 0);
    assert_eq!(shifted(7, 0), 7);
    assert_eq!(shifted(i32::MIN, u32::MAX as u64), i32::MAX);
    assert_eq!(shifted(i32::MIN, 1 << 31), 0);
    assert_eq!(shifted(i32::MAX - 1, 1), i32::MAX);
}
