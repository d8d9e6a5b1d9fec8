//! A small catalogue of geometric shape values -- rectangles, circles and
//! triangles -- with a uniform operation set: area and perimeter, accessors,
//! construction from explicit values and from comma-delimited text records,
//! and comparison by computed area.

use vstd::prelude::*;

pub mod arith;
pub mod circle;
pub mod rect;
pub mod text;
pub mod triangle;

pub use circle::Circle;
pub use rect::Rect;
pub use text::ParseError;
pub use triangle::Triangle;

verus! {

/// Outcome of comparing two values by size.
pub enum Comp {
    LessThan,
    GreaterThan,
    Equal,
}

/// A person's gender.
pub enum Gender {
    Male,
    Female,
}

} // verus!
