//! Circles: a radius and a label. The area keeps the catalogue's deliberate
//! simplification, three radius-squared halves with integer truncation; the
//! perimeter is two pi times the radius, rounded to the nearest integer.

use vstd::prelude::*;
use vstd::string::*;

use core::cmp::Ordering;

use vstd::std_specs::cmp::{PartialEqSpec, PartialOrdSpec};

use crate::arith::{lemma_i32_mul_bounds, lemma_square_nonneg};
use crate::text::{
    field1, field2, has_field2, int_of, parses_as_i32, find_comma, parse_i32, int_seq,
    lemma_int_seq, lemma_record2_fields, no_comma, push_i32, record2, ParseError,
};

verus! {

/// Two pi in binary fixed point: TWO_PI_NUMER / FIX_DENOM, the numerator
/// carrying 47 fractional bits.
pub const TWO_PI_NUMER: u64 = 884279719003555;

pub const FIX_DENOM: u64 = 140737488355328;

/// Half of FIX_DENOM, added before dividing so the quotient rounds to the
/// nearest integer instead of truncating.
pub const FIX_HALF: u64 = 70368744177664;

/// Two pi times `r`, rounded to the nearest integer (the magnitude is
/// rounded, so the result is symmetric in the sign of `r`).
pub open spec fn round_two_pi(r: int) -> int {
    if r >= 0 {
        (TWO_PI_NUMER * r + FIX_HALF) / (FIX_DENOM as int)
    } else {
        -((TWO_PI_NUMER * (-r) + FIX_HALF) / (FIX_DENOM as int))
    }
}

/// A circle: a radius and a text label.
#[derive(Debug, Clone)]
pub struct Circle {
    pub radius: i32,
    pub name: String,
}

/// The first record field read as the radius (it must be numeric), the
/// second as the name; further fields are discarded.
pub open spec fn circle_rec_ok(s: Seq<char>) -> bool {
    parses_as_i32(field1(s))
}

pub open spec fn circle_rec_radius(s: Seq<char>) -> int {
    int_of(field1(s))
}

pub open spec fn circle_rec_name(s: Seq<char>) -> Seq<char> {
    if has_field2(s) {
        field2(s)
    } else {
        Seq::empty()
    }
}

/// The record text of a circle: radius and name, comma-joined.
pub open spec fn circle_record(c: &Circle) -> Seq<char> {
    record2(int_seq(c.radius as int), c.name@)
}

/// Printing a circle as a record and splitting it again recovers the
/// fields, for any name free of commas.
pub proof fn lemma_circle_round_trip(c: &Circle)
    requires
        no_comma(c.name@),
    ensures
        circle_rec_ok(circle_record(c)),
        circle_rec_radius(circle_record(c)) == c.radius,
        circle_rec_name(circle_record(c)) == c.name@,
{
    lemma_int_seq(c.radius as int);
    lemma_record2_fields(int_seq(c.radius as int), c.name@);
}

/// Circle equality is by computed area: reflexive, symmetric, transitive,
/// and it tracks area equality exactly.
pub proof fn lemma_circle_eq_laws(a: &Circle, b: &Circle, c: &Circle)
    ensures
        a.eq_spec(a),
        a.eq_spec(b) == b.eq_spec(a),
        a.eq_spec(b) && b.eq_spec(c) ==> a.eq_spec(c),
        a.eq_spec(b) <==> a.spec_area() == b.spec_area(),
{
}

/// Circle ordering is consistent with area.
pub proof fn lemma_circle_order_matches_area(a: &Circle, b: &Circle)
    ensures
        (a.partial_cmp_spec(b) == Some(Ordering::Less)) <==> a.spec_area() < b.spec_area(),
        (a.partial_cmp_spec(b) == Some(Ordering::Equal)) <==> a.spec_area() == b.spec_area(),
        (a.partial_cmp_spec(b) == Some(Ordering::Greater)) <==> a.spec_area() > b.spec_area(),
{
}

impl Circle {
    /// The area: three radius-squared halves, truncated.
    pub open spec fn spec_area(&self) -> int {
        (3 * self.radius * self.radius) / 2
    }

    /// The perimeter: two pi times the radius, rounded.
    pub open spec fn spec_perimeter(&self) -> int {
        round_two_pi(self.radius as int)
    }

    /// The sample circle.
    pub fn default() -> (r: Circle)
        ensures
            r.radius == 5,
            r.name@ == "circle_name"@,
    {
        Circle { radius: 5, name: String::from_str("circle_name") }
    }

    pub fn new(radius: i32, _width: i32, name: &str) -> (r: Circle)
        ensures
            r.radius == radius,
            r.name@ == name@,
    {
        Circle { radius, name: String::from_str(name) }
    }

    /// The area widened to 64 bits, defined for every circle.
    pub fn area_wide(&self) -> (a: i64)
        ensures
            a == self.spec_area(),
    {
        proof {
            lemma_square_nonneg(self.radius as int);
            lemma_i32_mul_bounds(self.radius as int, self.radius as int);
        }
        let r64: i64 = self.radius as i64;
        let sq: u64 = (r64 * r64) as u64;
        let t: u64 = 3 * sq;
        let h: u64 = t / 2;
        proof {
            let r: int = self.radius as int;
            assert(3 * (r * r) == 3 * r * r) by (nonlinear_arith);
            assert(t == 3 * (self.radius as int) * (self.radius as int));
            vstd::arithmetic::div_mod::lemma_div_is_ordered(
                t as int,
                13835058055282163712,
                2,
            );
        }
        h as i64
    }

    pub fn area(&self) -> (a: i32)
        requires
            i32::MIN <= self.spec_area() <= i32::MAX,
        ensures
            a == self.spec_area(),
    {
        self.area_wide() as i32
    }

    /// The perimeter widened to 64 bits, defined for every circle.
    pub fn perimeter_wide(&self) -> (p: i64)
        ensures
            p == self.spec_perimeter(),
    {
        let neg: bool = self.radius < 0;
        let mag: u64 = if neg {
            (-(self.radius as i64)) as u64
        } else {
            self.radius as u64
        };
        let m: u128 = (TWO_PI_NUMER as u128) * (mag as u128);
        proof {
            assert(m <= 884279719003555u128 * 2147483648u128);
        }
        let q: u128 = (m + (FIX_HALF as u128)) / (FIX_DENOM as u128);
        proof {
            vstd::arithmetic::div_mod::lemma_div_is_ordered(
                (m + FIX_HALF) as int,
                (884279719003555u128 * 2147483648u128 + FIX_HALF) as int,
                FIX_DENOM as int,
            );
        }
        if neg {
            -(q as i64)
        } else {
            q as i64
        }
    }

    pub fn perimeter(&self) -> (p: i32)
        requires
            i32::MIN <= self.spec_perimeter() <= i32::MAX,
        ensures
            p == self.spec_perimeter(),
    {
        self.perimeter_wide() as i32
    }

    /// Sets the radius: the primary dimension plays the length's part.
    pub fn set_length(&mut self, radius: i32)
        ensures
            final(self).radius == radius,
            final(self).name == old(self).name,
    {
        self.radius = radius;
    }

    pub fn get_length(&self) -> (r: i32)
        ensures
            r == self.radius,
    {
        self.radius
    }

    /// Width does not apply to circles: the call changes nothing.
    pub fn set_width(&mut self, _width: i32)
        ensures
            *final(self) == *old(self),
    {
    }

    /// Width does not apply to circles: always 0.
    pub fn get_width(&self) -> (r: i32)
        ensures
            r == 0,
    {
        0
    }

    pub fn set_name(&mut self, name: &str)
        ensures
            final(self).name@ == name@,
            final(self).radius == old(self).radius,
    {
        self.name = String::from_str(name);
    }

    pub fn get_name(&self) -> (r: &str)
        ensures
            r@ == self.name@,
    {
        self.name.as_str()
    }

    /// Splits the record at commas: the radius, then the name (empty when
    /// missing); further fields are discarded. Fails exactly when the first
    /// field is not a 32-bit integer.
    pub fn parse(s: &str) -> (r: Result<Circle, ParseError>)
        ensures
            r is Ok <==> circle_rec_ok(s@),
            r is Ok ==> r->Ok_0.radius == circle_rec_radius(s@),
            r is Ok ==> r->Ok_0.name@ == circle_rec_name(s@),
            r is Err ==> r->Err_0 == ParseError::NotNumeric,
    {
        let n: usize = s.unicode_len();
        let c1: usize = find_comma(s, 0);
        let radius: i32 = match parse_i32(s.substring_char(0, c1)) {
            Ok(v) => v,
            Err(e) => {
                return Err(e);
            },
        };
        let mut name: String = String::new();
        if c1 < n {
            let c2: usize = find_comma(s, c1 + 1);
            name = String::from_str(s.substring_char(c1 + 1, c2));
        }
        Ok(Circle { radius, name })
    }

    /// Construction from a record that is known to be well formed, as the
    /// panicking string conversion of unchecked callers reads it.
    pub fn from(s: &str) -> (r: Circle)
        requires
            circle_rec_ok(s@),
        ensures
            r.radius == circle_rec_radius(s@),
            r.name@ == circle_rec_name(s@),
    {
        match Circle::parse(s) {
            Ok(r) => r,
            Err(_) => unreached(),
        }
    }

    /// The record text of this circle, the form `parse` reads back.
    pub fn to_record(&self) -> (r: String)
        ensures
            r@ == circle_record(self),
    {
        let mut out: String = String::new();
        push_i32(&mut out, self.radius);
        out.append(",");
        out.append(self.name.as_str());
        proof {
            reveal_strlit(",");
            assert(","@ =~= seq![',']);
            assert(out@ =~= circle_record(self));
        }
        out
    }
}

impl PartialEq for Circle {
    fn eq(&self, other: &Self) -> (r: bool) {
        self.area_wide() == other.area_wide()
    }

    fn ne(&self, other: &Self) -> (r: bool) {
        !self.eq(other)
    }
}

impl vstd::std_specs::cmp::PartialEqSpecImpl for Circle {
    open spec fn obeys_eq_spec() -> bool {
        true
    }

    open spec fn eq_spec(&self, other: &Circle) -> bool {
        self.spec_area() == other.spec_area()
    }
}

impl PartialOrd for Circle {
    fn partial_cmp(&self, other: &Self) -> (r: Option<Ordering>) {
        let a: i64 = self.area_wide();
        let b: i64 = other.area_wide();
        if a < b {
            Some(Ordering::Less)
        } else if a == b {
            Some(Ordering::Equal)
        } else {
            Some(Ordering::Greater)
        }
    }
}

impl vstd::std_specs::cmp::PartialOrdSpecImpl for Circle {
    open spec fn obeys_partial_cmp_spec() -> bool {
        true
    }

    open spec fn partial_cmp_spec(&self, other: &Circle) -> Option<Ordering> {
        if self.spec_area() < other.spec_area() {
            Some(Ordering::Less)
        } else if self.spec_area() == other.spec_area() {
            Some(Ordering::Equal)
        } else {
            Some(Ordering::Greater)
        }
    }
}

} // verus!
