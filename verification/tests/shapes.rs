use shapes::{Circle, Comp, Gender, ParseError, Rect, Triangle};

#[test]
fn rect_default_area_perimeter() {
    let r = Rect::default();
    assert_eq!(r.get_length(), 6);
    assert_eq!(r.get_width(), 7);
    assert_eq!(r.get_name(), "rectangle_name");
    assert_eq!(r.area(), 42);
    assert_eq!(r.perimeter(), 26);
}

#[test]
fn rect_new_and_from_compare() {
    let r2 = Rect::new(1, 3, "Rectangle2");
    let r3 = Rect::from("4,5,Rectangle3");
    assert_eq!(r2.area(), 3);
    assert_eq!(r3.area(), 20);
    assert!(!(r2 == r3));
    assert!(r2 != r3);
    assert!(r2 < r3);
    assert_eq!(r2.partial_cmp(&r3), Some(std::cmp::Ordering::Less));
    assert!(r2.le(&r3));
}

#[test]
fn rect_parse_missing_fields_default() {
    let r = Rect::parse("5").unwrap();
    assert_eq!(r.get_length(), 5);
    assert_eq!(r.get_width(), 0);
    assert_eq!(r.get_name(), "");
}

#[test]
fn rect_parse_full_record() {
    let r = Rect::parse("4,5,Rectangle3").unwrap();
    assert_eq!(r.get_length(), 4);
    assert_eq!(r.get_width(), 5);
    assert_eq!(r.get_name(), "Rectangle3");
}

#[test]
fn rect_parse_extra_fields_discarded() {
    let r = Rect::parse("1,2,a,b").unwrap();
    assert_eq!(r.get_length(), 1);
    assert_eq!(r.get_width(), 2);
    assert_eq!(r.get_name(), "a");
}

#[test]
fn rect_parse_rejects_non_numeric() {
    assert_eq!(Rect::parse(""), Err(ParseError::NotNumeric));
    assert_eq!(Rect::parse("a"), Err(ParseError::NotNumeric));
    assert_eq!(Rect::parse("5,x"), Err(ParseError::NotNumeric));
    assert_eq!(Rect::parse("5,"), Err(ParseError::NotNumeric));
    assert_eq!(Rect::parse(" 5"), Err(ParseError::NotNumeric));
    assert_eq!(Rect::parse("5 "), Err(ParseError::NotNumeric));
    assert_eq!(Rect::parse("-"), Err(ParseError::NotNumeric));
    assert_eq!(Rect::parse("+"), Err(ParseError::NotNumeric));
}

#[test]
fn rect_parse_numeric_bounds() {
    assert_eq!(Rect::parse("2147483647").unwrap().get_length(), 2147483647);
    assert_eq!(Rect::parse("-2147483648").unwrap().get_length(), -2147483648);
    assert_eq!(Rect::parse("2147483648"), Err(ParseError::NotNumeric));
    assert_eq!(Rect::parse("-2147483649"), Err(ParseError::NotNumeric));
    assert_eq!(Rect::parse("+5").unwrap().get_length(), 5);
    assert_eq!(Rect::parse("-0").unwrap().get_length(), 0);
    assert_eq!(Rect::parse("0005").unwrap().get_length(), 5);
    assert_eq!(
        Rect::parse("99999999999999999999999999"),
        Err(ParseError::NotNumeric)
    );
}

#[test]
fn rect_record_round_trip() {
    let r = Rect::new(4, 5, "abc");
    assert_eq!(r.to_record(), "4,5,abc");
    let back = Rect::parse(&r.to_record()).unwrap();
    assert_eq!(back.get_length(), 4);
    assert_eq!(back.get_width(), 5);
    assert_eq!(back.get_name(), "abc");
}

#[test]
fn rect_record_round_trip_negative_and_empty_name() {
    let r = Rect::new(-12, 0, "");
    assert_eq!(r.to_record(), "-12,0,");
    let back = Rect::parse(&r.to_record()).unwrap();
    assert_eq!(back.get_length(), -12);
    assert_eq!(back.get_width(), 0);
    assert_eq!(back.get_name(), "");
}

#[test]
fn rect_setters_and_getters() {
    let mut r = Rect::new(1, 2, "x");
    r.set_length(10);
    r.set_width(20);
    r.set_name("renamed");
    assert_eq!(r.get_length(), 10);
    assert_eq!(r.get_width(), 20);
    assert_eq!(r.get_name(), "renamed");
    assert_eq!(r.area(), 200);
    assert_eq!(r.perimeter(), 60);
}

#[test]
fn rect_equality_is_by_area() {
    let a = Rect::new(2, 6, "a");
    let b = Rect::new(3, 4, "b");
    assert!(a == b);
    assert!(!(a != b));
    assert_eq!(a.partial_cmp(&b), Some(std::cmp::Ordering::Equal));
}

#[test]
fn circle_default_area_perimeter() {
    let c = Circle::default();
    assert_eq!(c.get_length(), 5);
    assert_eq!(c.get_name(), "circle_name");
    assert_eq!(c.area(), 37);
    assert_eq!(c.perimeter(), 31);
}

#[test]
fn circle_formulas() {
    let c = Circle::new(3, 0, "c");
    assert_eq!(c.area(), 13);
    assert_eq!(c.perimeter(), 19);
    let z = Circle::new(0, 0, "z");
    assert_eq!(z.area(), 0);
    assert_eq!(z.perimeter(), 0);
    let n = Circle::new(-2, 0, "n");
    assert_eq!(n.area(), 6);
    assert_eq!(n.perimeter(), -13);
}

#[test]
fn circle_width_is_a_noop() {
    let mut c = Circle::new(3, 0, "c");
    c.set_width(99);
    assert_eq!(c.get_width(), 0);
    assert_eq!(c.get_length(), 3);
}

#[test]
fn circle_parse_two_fields() {
    let c = Circle::from("3,3,Circle3");
    assert_eq!(c.get_length(), 3);
    assert_eq!(c.get_name(), "3");
    let d = Circle::parse("7").unwrap();
    assert_eq!(d.get_length(), 7);
    assert_eq!(d.get_name(), "");
    assert_eq!(Circle::parse("x"), Err(ParseError::NotNumeric));
    assert_eq!(Circle::parse(""), Err(ParseError::NotNumeric));
}

#[test]
fn circle_record_round_trip() {
    let c = Circle::new(9, 0, "ring");
    assert_eq!(c.to_record(), "9,ring");
    let back = Circle::parse(&c.to_record()).unwrap();
    assert_eq!(back.get_length(), 9);
    assert_eq!(back.get_name(), "ring");
}

#[test]
fn circle_compare_by_area() {
    let big = Circle::default();
    let small = Circle::new(2, 0, "Circle2");
    assert!(small < big);
    assert!(small.le(&big));
    assert!(small != big);
    let same = Circle::new(-2, 0, "mirror");
    assert!(small == same);
}

#[test]
fn triangle_default_area_perimeter() {
    let t = Triangle::default();
    assert_eq!(t.get_length(), 4);
    assert_eq!(t.get_name(), "triangle_name");
    assert_eq!(t.area(), 16);
    assert_eq!(t.perimeter(), 12);
}

#[test]
fn triangle_formulas_truncate_toward_zero() {
    let t = Triangle::new(3, 5, "t");
    assert_eq!(t.area(), 7);
    assert_eq!(t.perimeter(), 9);
    let n = Triangle::new(-3, 5, "n");
    assert_eq!(n.area(), -7);
    assert_eq!(n.perimeter(), -9);
    let m = Triangle::new(3, -5, "m");
    assert_eq!(m.area(), -7);
    let p = Triangle::new(-3, -5, "p");
    assert_eq!(p.area(), 7);
}

#[test]
fn triangle_width_is_a_noop() {
    let mut t = Triangle::new(3, 5, "t");
    t.set_width(42);
    assert_eq!(t.get_width(), 0);
    assert_eq!(t.get_length(), 3);
}

#[test]
fn triangle_parse_three_fields() {
    let t = Triangle::from("4,7,Triangle3");
    assert_eq!(t.get_length(), 4);
    assert_eq!(t.area(), 14);
    assert_eq!(t.get_name(), "Triangle3");
    let d = Triangle::parse("5").unwrap();
    assert_eq!(d.get_length(), 5);
    assert_eq!(d.get_width(), 0);
    assert_eq!(d.get_name(), "");
    let e = Triangle::parse("1,2,3,4").unwrap();
    assert_eq!(e.get_name(), "3");
    assert_eq!(Triangle::parse("1,b,c"), Err(ParseError::NotNumeric));
}

#[test]
fn triangle_record_round_trip() {
    let t = Triangle::new(-4, 7, "tri");
    assert_eq!(t.to_record(), "-4,7,tri");
    let back = Triangle::parse(&t.to_record()).unwrap();
    assert_eq!(back.get_length(), -4);
    assert_eq!(back.area(), -14);
    assert_eq!(back.get_name(), "tri");
}

#[test]
fn triangle_setters_and_compare() {
    let mut t = Triangle::new(3, 0, "Triangle2");
    t.set_length(2);
    t.set_name("resized");
    assert_eq!(t.get_length(), 2);
    assert_eq!(t.get_name(), "resized");
    let u = Triangle::new(1, 12, "u");
    assert!(t < u);
    assert_eq!(t.partial_cmp(&u), Some(std::cmp::Ordering::Less));
}

#[test]
fn comparison_and_gender_variants() {
    let c = Comp::LessThan;
    let told = match c {
        Comp::LessThan => "smaller",
        Comp::GreaterThan => "larger",
        Comp::Equal => "same",
    };
    assert_eq!(told, "smaller");
    let g = Gender::Female;
    assert!(matches!(g, Gender::Female));
    assert!(!matches!(g, Gender::Male));
    assert!(matches!(Comp::Equal, Comp::Equal));
}
