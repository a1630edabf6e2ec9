use gridkit::coord::Cartesian;
use gridkit::parse::{Axis, ParseError};

#[test]
fn test_add() {
    let a = Cartesian::new(1, 1);
    let b = Cartesian::new(2, 2);
    let c = Cartesian::new(3, 3);
    let mut d = Cartesian::new(2, 2);

    assert_eq!(&a + &b, c);
    d += &a;
    assert_eq!(&d, &c);
    assert_eq!(a + b, c);
}

#[test]
fn test_ops() {
    let mut a = Cartesian::new(2, 2);
    let b = Cartesian::new(10, 10);

    assert_eq!(&a * 5, b);
    a *= 5;
    assert_eq!(&a, &b);
}

#[test]
fn add_is_componentwise_by_value_and_reference() {
    let p = Cartesian::new(-7, 40);
    let q = Cartesian::new(12, -45);
    assert_eq!(&p + &q, Cartesian::new(5, -5));
    assert_eq!(p + q, Cartesian::new(5, -5));
    let mut r = Cartesian::new(-7, 40);
    r += q;
    assert_eq!(r, Cartesian::new(5, -5));
}

#[test]
fn scale_by_one_and_zero() {
    let p = Cartesian::new(-13, 99);
    assert_eq!(p * 1, p);
    assert_eq!(&p * 1, p);
    assert_eq!(p * 0, Cartesian::new(0, 0));
    assert_eq!(&p * -3, Cartesian::new(39, -297));
    let mut q = p;
    q *= 0;
    assert_eq!(q, Cartesian::new(0, 0));
}

#[test]
fn in_place_ops_wrap_past_i32() {
    let mut p = Cartesian::new(i32::MAX, 0);
    p += Cartesian::new(1, -1);
    assert_eq!(p, Cartesian::new(i32::MIN, -1));
    let mut q = Cartesian::new(i32::MAX, 3);
    q *= 2;
    assert_eq!(q, Cartesian::new(-2, 6));
}

#[test]
fn neigh4_order() {
    let p = Cartesian::new(5, -2);
    let n = p.neigh4();
    assert_eq!(
        n,
        vec![
            Cartesian::new(4, -2),
            Cartesian::new(5, -1),
            Cartesian::new(6, -2),
            Cartesian::new(5, -3),
        ]
    );
    for q in &n {
        assert_eq!(q.manhattan_distance(&p), 1);
    }
}

#[test]
fn neigh8_order() {
    let p = Cartesian::new(0, 0);
    let n = p.neigh8();
    assert_eq!(
        n,
        vec![
            Cartesian::new(-1, 0),
            Cartesian::new(-1, 1),
            Cartesian::new(0, 1),
            Cartesian::new(1, 1),
            Cartesian::new(1, 0),
            Cartesian::new(1, -1),
            Cartesian::new(0, -1),
            Cartesian::new(-1, -1),
        ]
    );
    for q in &n {
        assert!(q != &p);
        assert!((q.x - p.x).abs() <= 1 && (q.y - p.y).abs() <= 1);
    }
}

#[test]
fn manhattan_values() {
    let p = Cartesian::new(1, 2);
    let q = Cartesian::new(-3, 7);
    assert_eq!(p.manhattan_distance(&q), 9);
    assert_eq!(q.manhattan_distance(&p), 9);
    assert_eq!(p.manhattan_distance(&p), 0);
}

#[test]
fn manhattan_at_the_extremes() {
    let p = Cartesian::new(i32::MIN, i32::MIN);
    let q = Cartesian::new(i32::MAX, i32::MAX);
    assert_eq!(p.manhattan_distance(&q) as u64, 2 * (u32::MAX as u64));
    assert_eq!(q.manhattan_distance(&p) as u64, 2 * (u32::MAX as u64));
}

#[test]
fn parse_forms() {
    assert_eq!(Cartesian::parse("(3, -4)"), Ok(Cartesian::new(3, -4)));
    assert_eq!(Cartesian::parse("3,-4"), Ok(Cartesian::new(3, -4)));
    assert_eq!(Cartesian::parse("(3,-4)"), Ok(Cartesian::new(3, -4)));
    assert_eq!(Cartesian::parse("  +12 ,\t7 "), Ok(Cartesian::new(12, 7)));
    assert_eq!("(1,2)".parse::<Cartesian>(), Ok(Cartesian::new(1, 2)));
}

#[test]
fn parse_round_trips_canonical_text() {
    let p = Cartesian::new(-2147483648, 2147483647);
    let text = format!("({},{})", p.x, p.y);
    assert_eq!(Cartesian::parse(&text), Ok(p));
}

#[test]
fn parse_missing_field() {
    assert_eq!(Cartesian::parse("(1)"), Err(ParseError::MalformedInput));
    assert_eq!(Cartesian::parse(""), Err(ParseError::MalformedInput));
}

#[test]
fn parse_bad_integer() {
    assert_eq!(
        Cartesian::parse("(a,1)"),
        Err(ParseError::InvalidInteger { field: Axis::X, text: "a".to_string() })
    );
    assert_eq!(
        Cartesian::parse("(1, b )"),
        Err(ParseError::InvalidInteger { field: Axis::Y, text: "b".to_string() })
    );
    assert_eq!(
        Cartesian::parse("1,2,3"),
        Err(ParseError::InvalidInteger { field: Axis::Y, text: "2,3".to_string() })
    );
    assert_eq!(
        Cartesian::parse("2147483648,0"),
        Err(ParseError::InvalidInteger { field: Axis::X, text: "2147483648".to_string() })
    );
    assert_eq!(
        Cartesian::parse("(, 4)"),
        Err(ParseError::InvalidInteger { field: Axis::X, text: "".to_string() })
    );
    assert_eq!(
        Cartesian::parse("5,-"),
        Err(ParseError::InvalidInteger { field: Axis::Y, text: "-".to_string() })
    );
}
