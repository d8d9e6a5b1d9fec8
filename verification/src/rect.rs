//! Rectangles: two side lengths and a label. Area is the product of the
//! sides, the perimeter twice their sum, and two rectangles compare by area.

use vstd::prelude::*;
use vstd::string::*;

use core::cmp::Ordering;

use vstd::std_specs::cmp::{PartialEqSpec, PartialOrdSpec};

use crate::arith::lemma_i32_mul_bounds;
use crate::text::{
    field1, field2, field3, has_field2, has_field3, int_of, parses_as_i32, find_comma, parse_i32,
    int_seq, lemma_int_seq, lemma_record3_fields, no_comma, push_i32, record3, ParseError,
};

verus! {

/// A rectangle: a length, a width, and a text label.
#[derive(Debug, Clone)]
pub struct Rect {
    pub length: i32,
    pub width: i32,
    pub name: String,
}

/// The first record field read as the length, the second (0 when missing)
/// as the width: both must be numeric.
pub open spec fn rect_rec_ok(s: Seq<char>) -> bool {
    &&& parses_as_i32(field1(s))
    &&& has_field2(s) ==> parses_as_i32(field2(s))
}

pub open spec fn rect_rec_length(s: Seq<char>) -> int {
    int_of(field1(s))
}

pub open spec fn rect_rec_width(s: Seq<char>) -> int {
    if has_field2(s) {
        int_of(field2(s))
    } else {
        0
    }
}

pub open spec fn rect_rec_name(s: Seq<char>) -> Seq<char> {
    if has_field3(s) {
        field3(s)
    } else {
        Seq::empty()
    }
}

/// The record text of a rectangle: length, width and name, comma-joined.
pub open spec fn rect_record(r: &Rect) -> Seq<char> {
    record3(int_seq(r.length as int), int_seq(r.width as int), r.name@)
}

/// Printing a rectangle as a record and splitting it again recovers the
/// fields, for any name free of commas.
pub proof fn lemma_rect_round_trip(r: &Rect)
    requires
        no_comma(r.name@),
    ensures
        rect_rec_ok(rect_record(r)),
        rect_rec_length(rect_record(r)) == r.length,
        rect_rec_width(rect_record(r)) == r.width,
        rect_rec_name(rect_record(r)) == r.name@,
{
    lemma_int_seq(r.length as int);
    lemma_int_seq(r.width as int);
    lemma_record3_fields(int_seq(r.length as int), int_seq(r.width as int), r.name@);
}

/// Rectangle equality is by computed area: reflexive, symmetric,
/// transitive, and it tracks area equality exactly.
pub proof fn lemma_rect_eq_laws(a: &Rect, b: &Rect, c: &Rect)
    ensures
        a.eq_spec(a),
        a.eq_spec(b) == b.eq_spec(a),
        a.eq_spec(b) && b.eq_spec(c) ==> a.eq_spec(c),
        a.eq_spec(b) <==> a.spec_area() == b.spec_area(),
{
}

/// Rectangle ordering is consistent with area.
pub proof fn lemma_rect_order_matches_area(a: &Rect, b: &Rect)
    ensures
        (a.partial_cmp_spec(b) == Some(Ordering::Less)) <==> a.spec_area() < b.spec_area(),
        (a.partial_cmp_spec(b) == Some(Ordering::Equal)) <==> a.spec_area() == b.spec_area(),
        (a.partial_cmp_spec(b) == Some(Ordering::Greater)) <==> a.spec_area() > b.spec_area(),
{
}

impl Rect {
    /// The area: the product of the sides.
    pub open spec fn spec_area(&self) -> int {
        self.length * self.width
    }

    /// The perimeter: twice the sum of the sides.
    pub open spec fn spec_perimeter(&self) -> int {
        2 * (self.length + self.width)
    }

    /// The sample rectangle.
    pub fn default() -> (r: Rect)
        ensures
            r.length == 6,
            r.width == 7,
            r.name@ == "rectangle_name"@,
    {
        Rect { length: 6, width: 7, name: String::from_str("rectangle_name") }
    }

    pub fn new(length: i32, width: i32, name: &str) -> (r: Rect)
        ensures
            r.length == length,
            r.width == width,
            r.name@ == name@,
    {
        Rect { length, width, name: String::from_str(name) }
    }

    /// The area widened to 64 bits, defined for every rectangle.
    pub fn area_wide(&self) -> (a: i64)
        ensures
            a == self.spec_area(),
    {
        proof {
            lemma_i32_mul_bounds(self.length as int, self.width as int);
        }
        (self.length as i64) * (self.width as i64)
    }

    pub fn area(&self) -> (a: i32)
        requires
            i32::MIN <= self.spec_area() <= i32::MAX,
        ensures
            a == self.spec_area(),
    {
        self.area_wide() as i32
    }

    /// The perimeter widened to 64 bits, defined for every rectangle.
    pub fn perimeter_wide(&self) -> (p: i64)
        ensures
            p == self.spec_perimeter(),
    {
        2 * ((self.length as i64) + (self.width as i64))
    }

    pub fn perimeter(&self) -> (p: i32)
        requires
            i32::MIN <= self.spec_perimeter() <= i32::MAX,
        ensures
            p == self.spec_perimeter(),
    {
        self.perimeter_wide() as i32
    }

    pub fn set_length(&mut self, length: i32)
        ensures
            final(self).length == length,
            final(self).width == old(self).width,
            final(self).name == old(self).name,
    {
        self.length = length;
    }

    pub fn get_length(&self) -> (r: i32)
        ensures
            r == self.length,
    {
        self.length
    }

    pub fn set_width(&mut self, width: i32)
        ensures
            final(self).width == width,
            final(self).length == old(self).length,
            final(self).name == old(self).name,
    {
        self.width = width;
    }

    pub fn get_width(&self) -> (r: i32)
        ensures
            r == self.width,
    {
        self.width
    }

    pub fn set_name(&mut self, name: &str)
        ensures
            final(self).name@ == name@,
            final(self).length == old(self).length,
            final(self).width == old(self).width,
    {
        self.name = String::from_str(name);
    }

    pub fn get_name(&self) -> (r: &str)
        ensures
            r@ == self.name@,
    {
        self.name.as_str()
    }

    /// Splits the record at commas: length, then width (0 when missing),
    /// then the name (empty when missing); further fields are discarded.
    /// Fails exactly when a present numeric field is not a 32-bit integer.
    pub fn parse(s: &str) -> (r: Result<Rect, ParseError>)
        ensures
            r is Ok <==> rect_rec_ok(s@),
            r is Ok ==> r->Ok_0.length == rect_rec_length(s@),
            r is Ok ==> r->Ok_0.width == rect_rec_width(s@),
            r is Ok ==> r->Ok_0.name@ == rect_rec_name(s@),
            r is Err ==> r->Err_0 == ParseError::NotNumeric,
    {
        let n: usize = s.unicode_len();
        let c1: usize = find_comma(s, 0);
        let length: i32 = match parse_i32(s.substring_char(0, c1)) {
            Ok(v) => v,
            Err(e) => {
                return Err(e);
            },
        };
        let mut width: i32 = 0;
        let mut name: String = String::new();
        if c1 < n {
            let c2: usize = find_comma(s, c1 + 1);
            width = match parse_i32(s.substring_char(c1 + 1, c2)) {
                Ok(v) => v,
                Err(e) => {
                    return Err(e);
                },
            };
            if c2 < n {
                let c3: usize = find_comma(s, c2 + 1);
                name = String::from_str(s.substring_char(c2 + 1, c3));
            }
        }
        Ok(Rect { length, width, name })
    }

    /// Construction from a record that is known to be well formed, as the
    /// panicking string conversion of unchecked callers reads it.
    pub fn from(s: &str) -> (r: Rect)
        requires
            rect_rec_ok(s@),
        ensures
            r.length == rect_rec_length(s@),
            r.width == rect_rec_width(s@),
            r.name@ == rect_rec_name(s@),
    {
        match Rect::parse(s) {
            Ok(r) => r,
            Err(_) => unreached(),
        }
    }

    /// The record text of this rectangle, the form `parse` reads back.
    pub fn to_record(&self) -> (r: String)
        ensures
            r@ == rect_record(self),
    {
        let mut out: String = String::new();
        push_i32(&mut out, self.length);
        out.append(",");
        push_i32(&mut out, self.width);
        out.append(",");
        out.append(self.name.as_str());
        proof {
            reveal_strlit(",");
            assert(","@ =~= seq![',']);
            assert(out@ =~= rect_record(self));
        }
        out
    }
}

impl PartialEq for Rect {
    fn eq(&self, other: &Self) -> (r: bool) {
        self.area_wide() == other.area_wide()
    }

    fn ne(&self, other: &Self) -> (r: bool) {
        !self.eq(other)
    }
}

impl vstd::std_specs::cmp::PartialEqSpecImpl for Rect {
    open spec fn obeys_eq_spec() -> bool {
        true
    }

    open spec fn eq_spec(&self, other: &Rect) -> bool {
        self.spec_area() == other.spec_area()
    }
}

impl PartialOrd for Rect {
    fn partial_cmp(&self, other: &Self) -> (r: Option<Ordering>) {
        let a: i64 = self.area_wide();
        let b: i64 = other.area_wide();
        if a < b {
            Some(Ordering::Less)
        } else if a == b {
            Some(Ordering::Equal)
        } else {
            Some(Ordering::Greater)
        }
    }
}

impl vstd::std_specs::cmp::PartialOrdSpecImpl for Rect {
    open spec fn obeys_partial_cmp_spec() -> bool {
        true
    }

    open spec fn partial_cmp_spec(&self, other: &Rect) -> Option<Ordering> {
        if self.spec_area() < other.spec_area() {
            Some(Ordering::Less)
        } else if self.spec_area() == other.spec_area() {
            Some(Ordering::Equal)
        } else {
            Some(Ordering::Greater)
        }
    }
}

} // verus!
