use vstd::prelude::*;

pub mod any;
pub mod text;
pub mod symbols;
pub mod compiler;
pub mod invoker;
pub mod command;
pub mod samples;

verus! {

/// Adds two integers; the sum must fit in an `i32`.
pub fn add(a: i32, b: i32) -> (r: i32)
    requires
        i32::MIN <= a + b <= i32::MAX,
    ensures
        r == a + b,
{
    a + b
}

} // verus!
