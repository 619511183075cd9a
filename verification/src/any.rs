//! The dynamic value type exchanged with loaded libraries.
use vstd::prelude::*;

verus! {

/// A value of one of the C-compatible types that the invoker knows how to pass
/// to and receive from a loaded library.
///
/// The same enum doubles as a type tag: a function's signature is recorded as a
/// list of `Any` values whose variant names the parameter type (the payload is
/// then a placeholder, `0`, `0.0` or `true`).
///
/// Floating-point payloads are carried as their IEEE-754 bit patterns
/// (`f32::to_bits` / `f64::to_bits`).
#[derive(Debug, PartialEq)]
pub enum Any {
    /// no value (`void`)
    Null,
    /// `c_short`
    Short(i16),
    /// `c_int`
    Int(i32),
    /// `c_long`
    Long(i64),
    /// `c_float`, as its bit pattern
    Float(u32),
    /// `c_double`, as its bit pattern
    Double(u64),
    /// `bool`
    Bool(bool),
    /// `c_char`
    Char(char),
    /// a NUL-terminated string
    Str(String),
    /// an array of values
    Array(Vec<Any>),
    /// raw binary data
    Buffer(Vec<u8>),
    /// a pointer to a value
    Pointer(Box<Any>),
    /// the address of a C function
    Function(usize),
}

/// Two values (or type tags) name the same type exactly when they are the same variant.
pub open spec fn same_kind(a: Any, b: Any) -> bool {
    match (a, b) {
        (Any::Null, Any::Null) => true,
        (Any::Short(_), Any::Short(_)) => true,
        (Any::Int(_), Any::Int(_)) => true,
        (Any::Long(_), Any::Long(_)) => true,
        (Any::Float(_), Any::Float(_)) => true,
        (Any::Double(_), Any::Double(_)) => true,
        (Any::Bool(_), Any::Bool(_)) => true,
        (Any::Char(_), Any::Char(_)) => true,
        (Any::Str(_), Any::Str(_)) => true,
        (Any::Array(_), Any::Array(_)) => true,
        (Any::Buffer(_), Any::Buffer(_)) => true,
        (Any::Pointer(_), Any::Pointer(_)) => true,
        (Any::Function(_), Any::Function(_)) => true,
        _ => false,
    }
}

impl From<i16> for Any {
    fn from(val: i16) -> (r: Any) {
        Any::Short(val)
    }
}

impl vstd::std_specs::convert::FromSpecImpl<i16> for Any {
    open spec fn obeys_from_spec() -> bool {
        true
    }

    open spec fn from_spec(val: i16) -> Any {
        Any::Short(val)
    }
}

impl From<i32> for Any {
    fn from(val: i32) -> (r: Any) {
        Any::Int(val)
    }
}

impl vstd::std_specs::convert::FromSpecImpl<i32> for Any {
    open spec fn obeys_from_spec() -> bool {
        true
    }

    open spec fn from_spec(val: i32) -> Any {
        Any::Int(val)
    }
}

impl From<i64> for Any {
    fn from(val: i64) -> (r: Any) {
        Any::Long(val)
    }
}

impl vstd::std_specs::convert::FromSpecImpl<i64> for Any {
    open spec fn obeys_from_spec() -> bool {
        true
    }

    open spec fn from_spec(val: i64) -> Any {
        Any::Long(val)
    }
}

impl From<bool> for Any {
    fn from(val: bool) -> (r: Any) {
        Any::Bool(val)
    }
}

impl vstd::std_specs::convert::FromSpecImpl<bool> for Any {
    open spec fn obeys_from_spec() -> bool {
        true
    }

    open spec fn from_spec(val: bool) -> Any {
        Any::Bool(val)
    }
}

impl From<String> for Any {
    fn from(val: String) -> (r: Any) {
        Any::Str(val)
    }
}

impl vstd::std_specs::convert::FromSpecImpl<String> for Any {
    open spec fn obeys_from_spec() -> bool {
        true
    }

    open spec fn from_spec(val: String) -> Any {
        Any::Str(val)
    }
}

/// The character that a C `char` byte stands for: the byte read as unsigned,
/// taken as a code point in `0..=255`.
pub open spec fn c_char_to_char(val: i8) -> char {
    ((val as u8) as u32) as char
}

impl From<i8> for Any {
    fn from(val: i8) -> (r: Any) {
        Any::Char(val as u8 as char)
    }
}

impl vstd::std_specs::convert::FromSpecImpl<i8> for Any {
    open spec fn obeys_from_spec() -> bool {
        true
    }

    open spec fn from_spec(val: i8) -> Any {
        Any::Char(c_char_to_char(val))
    }
}

impl Default for Any {
    fn default() -> (r: Any)
        ensures
            r == Any::Null,
    {
        Any::Null
    }
}

} // verus!
