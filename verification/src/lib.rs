use vstd::prelude::*;
use vstd::string::StringExecFns;

pub mod arith;
pub mod guess;
pub mod mapping;
pub mod rect;
pub mod vectors;
pub mod words;

pub use guess::Guess;
pub use guess::GuessError;
pub use rect::Rectangle;
pub use rect::area_width_x_height;
pub use rect::area_dimensions;
pub use rect::area_rectangle;

verus! {

/// Sum of two machine-word integers; the caller rules out overflow.
pub fn add(left: usize, right: usize) -> (sum: usize)
    requires
        left + right <= usize::MAX,
    ensures
        sum == left + right,
{
    left + right
}

/// Builds the greeting for `name`: the word of welcome, the name, and an
/// exclamation mark.
pub fn greeting(name: &str) -> (g: String)
    ensures
        g@ == "Hello "@ + name@ + "!"@,
{
    let mut g = "Hello ".to_owned();
    g.append(name);
    g.append("!");
    g
}

} // verus!
