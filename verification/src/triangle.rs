//! Triangles: a base, a height, and a label. The area is half the product
//! of base and height, truncated toward zero; the perimeter keeps the
//! catalogue's deliberate simplification of an equilateral outline, three
//! times the base, with the height playing no part.

use vstd::prelude::*;
use vstd::string::*;

use core::cmp::Ordering;

use vstd::std_specs::cmp::{PartialEqSpec, PartialOrdSpec};

use crate::arith::{div2_trunc, lemma_i32_mul_bounds};
use crate::text::{
    field1, field2, field3, has_field2, has_field3, int_of, parses_as_i32, find_comma, parse_i32,
    int_seq, lemma_int_seq, lemma_record3_fields, no_comma, push_i32, record3, ParseError,
};

verus! {

/// A triangle: a base, a height, and a text label.
#[derive(Debug, Clone)]
pub struct Triangle {
    pub base: i32,
    pub height: i32,
    pub name: String,
}

/// The first record field read as the base, the second (0 when missing) as
/// the height: both must be numeric.
pub open spec fn triangle_rec_ok(s: Seq<char>) -> bool {
    &&& parses_as_i32(field1(s))
    &&& has_field2(s) ==> parses_as_i32(field2(s))
}

pub open spec fn triangle_rec_base(s: Seq<char>) -> int {
    int_of(field1(s))
}

pub open spec fn triangle_rec_height(s: Seq<char>) -> int {
    if has_field2(s) {
        int_of(field2(s))
    } else {
        0
    }
}

pub open spec fn triangle_rec_name(s: Seq<char>) -> Seq<char> {
    if has_field3(s) {
        field3(s)
    } else {
        Seq::empty()
    }
}

/// The record text of a triangle: base, height and name, comma-joined.
pub open spec fn triangle_record(t: &Triangle) -> Seq<char> {
    record3(int_seq(t.base as int), int_seq(t.height as int), t.name@)
}

/// Printing a triangle as a record and splitting it again recovers the
/// fields, for any name free of commas.
pub proof fn lemma_triangle_round_trip(t: &Triangle)
    requires
        no_comma(t.name@),
    ensures
        triangle_rec_ok(triangle_record(t)),
        triangle_rec_base(triangle_record(t)) == t.base,
        triangle_rec_height(triangle_record(t)) == t.height,
        triangle_rec_name(triangle_record(t)) == t.name@,
{
    lemma_int_seq(t.base as int);
    lemma_int_seq(t.height as int);
    lemma_record3_fields(int_seq(t.base as int), int_seq(t.height as int), t.name@);
}

/// Triangle equality is by computed area: reflexive, symmetric, transitive,
/// and it tracks area equality exactly.
pub proof fn lemma_triangle_eq_laws(a: &Triangle, b: &Triangle, c: &Triangle)
    ensures
        a.eq_spec(a),
        a.eq_spec(b) == b.eq_spec(a),
        a.eq_spec(b) && b.eq_spec(c) ==> a.eq_spec(c),
        a.eq_spec(b) <==> a.spec_area() == b.spec_area(),
{
}

/// Triangle ordering is consistent with area.
pub proof fn lemma_triangle_order_matches_area(a: &Triangle, b: &Triangle)
    ensures
        (a.partial_cmp_spec(b) == Some(Ordering::Less)) <==> a.spec_area() < b.spec_area(),
        (a.partial_cmp_spec(b) == Some(Ordering::Equal)) <==> a.spec_area() == b.spec_area(),
        (a.partial_cmp_spec(b) == Some(Ordering::Greater)) <==> a.spec_area() > b.spec_area(),
{
}

impl Triangle {
    /// The area: half the product of base and height, truncated toward zero.
    pub open spec fn spec_area(&self) -> int {
        div2_trunc(self.base * self.height)
    }

    /// The perimeter: three times the base.
    pub open spec fn spec_perimeter(&self) -> int {
        3 * self.base
    }

    /// The sample triangle.
    pub fn default() -> (r: Triangle)
        ensures
            r.base == 4,
            r.height == 8,
            r.name@ == "triangle_name"@,
    {
        Triangle { base: 4, height: 8, name: String::from_str("triangle_name") }
    }

    pub fn new(base: i32, height: i32, name: &str) -> (r: Triangle)
        ensures
            r.base == base,
            r.height == height,
            r.name@ == name@,
    {
        Triangle { base, height, name: String::from_str(name) }
    }

    /// The area widened to 64 bits, defined for every triangle.
    pub fn area_wide(&self) -> (a: i64)
        ensures
            a == self.spec_area(),
    {
        proof {
            lemma_i32_mul_bounds(self.base as int, self.height as int);
        }
        let p: i64 = (self.base as i64) * (self.height as i64);
        if p >= 0 {
            ((p as u64) / 2) as i64
        } else {
            let m: u64 = (-p) as u64;
            -((m / 2) as i64)
        }
    }

    pub fn area(&self) -> (a: i32)
        requires
            i32::MIN <= self.spec_area() <= i32::MAX,
        ensures
            a == self.spec_area(),
    {
        self.area_wide() as i32
    }

    /// The perimeter widened to 64 bits, defined for every triangle.
    pub fn perimeter_wide(&self) -> (p: i64)
        ensures
            p == self.spec_perimeter(),
    {
        3 * (self.base as i64)
    }

    pub fn perimeter(&self) -> (p: i32)
        requires
            i32::MIN <= self.spec_perimeter() <= i32::MAX,
        ensures
            p == self.spec_perimeter(),
    {
        self.perimeter_wide() as i32
    }

    /// Sets the base: the primary dimension plays the length's part.
    pub fn set_length(&mut self, base: i32)
        ensures
            final(self).base == base,
            final(self).height == old(self).height,
            final(self).name == old(self).name,
    {
        self.base = base;
    }

    pub fn get_length(&self) -> (r: i32)
        ensures
            r == self.base,
    {
        self.base
    }

    /// Width does not apply to triangles: the call changes nothing.
    pub fn set_width(&mut self, _height: i32)
        ensures
            *final(self) == *old(self),
    {
    }

    /// Width does not apply to triangles: always 0.
    pub fn get_width(&self) -> (r: i32)
        ensures
            r == 0,
    {
        0
    }

    pub fn set_name(&mut self, name: &str)
        ensures
            final(self).name@ == name@,
            final(self).base == old(self).base,
            final(self).height == old(self).height,
    {
        self.name = String::from_str(name);
    }

    pub fn get_name(&self) -> (r: &str)
        ensures
            r@ == self.name@,
    {
        self.name.as_str()
    }

    /// Splits the record at commas: base, then height (0 when missing),
    /// then the name (empty when missing); further fields are discarded.
    /// Fails exactly when a present numeric field is not a 32-bit integer.
    pub fn parse(s: &str) -> (r: Result<Triangle, ParseError>)
        ensures
            r is Ok <==> triangle_rec_ok(s@),
            r is Ok ==> r->Ok_0.base == triangle_rec_base(s@),
            r is Ok ==> r->Ok_0.height == triangle_rec_height(s@),
            r is Ok ==> r->Ok_0.name@ == triangle_rec_name(s@),
            r is Err ==> r->Err_0 == ParseError::NotNumeric,
    {
        let n: usize = s.unicode_len();
        let c1: usize = find_comma(s, 0);
        let base: i32 = match parse_i32(s.substring_char(0, c1)) {
            Ok(v) => v,
            Err(e) => {
                return Err(e);
            },
        };
        let mut height: i32 = 0;
        let mut name: String = String::new();
        if c1 < n {
            let c2: usize = find_comma(s, c1 + 1);
            height = match parse_i32(s.substring_char(c1 + 1, c2)) {
                Ok(v) => v,
                Err(e) => {
                    return Err(e);
                },
            };
            if c2 < n {
                let c3: usize = find_comma(s, c2 + 1);
                name = String::from_str(s.substring_char(c2 + 1, c3));
            }
        }
        Ok(Triangle { base, height, name })
    }

    /// Construction from a record that is known to be well formed, as the
    /// panicking string conversion of unchecked callers reads it.
    pub fn from(s: &str) -> (r: Triangle)
        requires
            triangle_rec_ok(s@),
        ensures
            r.base == triangle_rec_base(s@),
            r.height == triangle_rec_height(s@),
            r.name@ == triangle_rec_name(s@),
    {
        match Triangle::parse(s) {
            Ok(r) => r,
            Err(_) => unreached(),
        }
    }

    /// The record text of this triangle, the form `parse` reads back.
    pub fn to_record(&self) -> (r: String)
        ensures
            r@ == triangle_record(self),
    {
        let mut out: String = String::new();
        push_i32(&mut out, self.base);
        out.append(",");
        push_i32(&mut out, self.height);
        out.append(",");
        out.append(self.name.as_str());
        proof {
            reveal_strlit(",");
            assert(","@ =~= seq![',']);
            assert(out@ =~= triangle_record(self));
        }
        out
    }
}

impl PartialEq for Triangle {
    fn eq(&self, other: &Self) -> (r: bool) {
        self.area_wide() == other.area_wide()
    }

    fn ne(&self, other: &Self) -> (r: bool) {
        !self.eq(other)
    }
}

impl vstd::std_specs::cmp::PartialEqSpecImpl for Triangle {
    open spec fn obeys_eq_spec() -> bool {
        true
    }

    open spec fn eq_spec(&self, other: &Triangle) -> bool {
        self.spec_area() == other.spec_area()
    }
}

impl PartialOrd for Triangle {
    fn partial_cmp(&self, other: &Self) -> (r: Option<Ordering>) {
        let a: i64 = self.area_wide();
        let b: i64 = other.area_wide();
        if a < b {
            Some(Ordering::Less)
        } else if a == b {
            Some(Ordering::Equal)
        } else {
            Some(Ordering::Greater)
        }
    }
}

impl vstd::std_specs::cmp::PartialOrdSpecImpl for Triangle {
    open spec fn obeys_partial_cmp_spec() -> bool {
        true
    }

    open spec fn partial_cmp_spec(&self, other: &Triangle) -> Option<Ordering> {
        if self.spec_area() < other.spec_area() {
            Some(Ordering::Less)
        } else if self.spec_area() == other.spec_area() {
            Some(Ordering::Equal)
        } else {
            Some(Ordering::Greater)
        }
    }
}

} // verus!
