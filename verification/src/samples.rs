//! The functions of the sample library that the invoker compiles and loads.
use vstd::prelude::*;

verus! {

/// One more than `a`.
pub fn add1(a: i32) -> (r: i32)
    requires
        a < i32::MAX,
    ensures
        r == a + 1,
{
    a + 1
}

/// The sum of `a` and `b`.
pub fn add2(a: i32, b: i32) -> (r: i32)
    requires
        i32::MIN <= a + b <= i32::MAX,
    ensures
        r == a + b,
{
    a + b
}

/// The greeting for `name`: `Hello, NAME!`.
pub fn greet(name: &str) -> (r: String)
    ensures
        r@ == "Hello, "@ + name@ + "!"@,
{
    let mut s = "Hello, ".to_owned();
    s.append(name);
    s.append("!");
    s
}

/// The greeting for `name`: `Hello, NAME!`.
pub fn greet2(name: &str) -> (r: String)
    ensures
        r@ == "Hello, "@ + name@ + "!"@,
{
    greet(name)
}

} // verus!
