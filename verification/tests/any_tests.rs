use invoker::any::Any;
use invoker::samples::{add1, add2, greet, greet2};
use invoker::add;

#[test]
fn conversions_into_any() {
    assert_eq!(Any::from(5i16), Any::Short(5));
    assert_eq!(Any::from(-5i32), Any::Int(-5));
    assert_eq!(Any::from(1i64 << 40), Any::Long(1 << 40));
    assert_eq!(Any::from(true), Any::Bool(true));
    assert_eq!(Any::from(65i8), Any::Char('A'));
    assert_eq!(Any::from(-1i8), Any::Char('\u{ff}'));
    assert_eq!(Any::from(String::from("text")), Any::Str(String::from("text")));
    assert_eq!(Any::default(), Any::Null);
}

#[test]
fn sample_functions() {
    assert_eq!(add(2, 3), 5);
    assert_eq!(add(-7, 7), 0);
    assert_eq!(add1(3), 4);
    assert_eq!(add2(13, 29), 42);
    assert_eq!(greet("Rust"), "Hello, Rust!");
    assert_eq!(greet2("fresh coffee"), "Hello, fresh coffee!");
}
