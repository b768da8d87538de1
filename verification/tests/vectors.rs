use kinetics::vec2::V;
use kinetics::vec2::COORD_LIMIT;

#[test]
fn new_keeps_both_components() {
    let v = V::new(-7, 12);
    assert_eq!(v.0, -7);
    assert_eq!(v.1, 12);
    assert_eq!(v, V(-7, 12));
}

#[test]
fn dot_of_two_vectors() {
    assert_eq!(V::dot(V::new(3, 4), V::new(-2, 5)), 14);
    assert_eq!(V::dot(V::new(1, 0), V::new(0, 1)), 0);
    assert_eq!(
        V::dot(V::new(2 * COORD_LIMIT, 2 * COORD_LIMIT), V::new(2 * COORD_LIMIT, 2 * COORD_LIMIT)),
        1i128 << 63
    );
    assert_eq!(
        V::dot(V::new(-2 * COORD_LIMIT, 2 * COORD_LIMIT), V::new(2 * COORD_LIMIT, 2 * COORD_LIMIT)),
        0
    );
}

#[test]
fn norm_sq_is_the_dot_with_itself() {
    assert_eq!(V::new(3, -4).norm_sq(), 25);
    assert_eq!(V::new(0, 0).norm_sq(), 0);
    assert_eq!(V::new(2 * COORD_LIMIT, -2 * COORD_LIMIT).norm_sq(), 1u64 << 63);
}

#[test]
fn norm_rounds_down() {
    assert_eq!(V::new(3, 4).norm(), 5);
    assert_eq!(V::new(1, 1).norm(), 1);
    assert_eq!(V::new(0, 0).norm(), 0);
    assert_eq!(V::new(0, -1).norm(), 1);
    assert_eq!(V::new(2, 2).norm(), 2);
    assert_eq!(V::new(-120, 119).norm(), 169);
    assert_eq!(V::new(2_147_483_648, 2_147_483_648).norm(), 3_037_000_499);
}

#[test]
fn norm_brackets_the_squared_length() {
    let mut x: i64 = -40;
    while x <= 40 {
        let mut y: i64 = -40;
        while y <= 40 {
            let v = V::new(x * 1001, y * 997);
            let r = v.norm();
            let n = v.norm_sq();
            assert!(r * r <= n);
            assert!(n < (r + 1) * (r + 1));
            y += 7;
        }
        x += 3;
    }
}

#[test]
fn dist_sq_is_symmetric_and_exact() {
    let a = V::new(-COORD_LIMIT, COORD_LIMIT);
    let b = V::new(COORD_LIMIT, -COORD_LIMIT);
    assert_eq!(V::dist_sq(a, b), 1u64 << 63);
    assert_eq!(V::dist_sq(b, a), 1u64 << 63);
    assert_eq!(V::dist_sq(V::new(1, 2), V::new(4, 6)), 25);
    assert_eq!(V::dist_sq(V::new(1, 2), V::new(1, 2)), 0);
}

#[test]
fn range_check_includes_the_limit() {
    assert!(V::new(COORD_LIMIT, -COORD_LIMIT).is_in_range());
    assert!(V::new(0, 0).is_in_range());
    assert!(!V::new(COORD_LIMIT + 1, 0).is_in_range());
    assert!(!V::new(0, -COORD_LIMIT - 1).is_in_range());
}

#[test]
fn sum_difference_and_opposite() {
    let a = V::new(5, -3);
    let b = V::new(-2, 10);
    assert_eq!(a + b, V(3, 7));
    assert_eq!(a - b, V(7, -13));
    assert_eq!(-a, V(-5, 3));
    assert_eq!(a - a, V(0, 0));
    assert_eq!(a + (-a), V(0, 0));
}
