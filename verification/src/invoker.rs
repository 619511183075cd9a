//! The invoker's state, and the decisions it makes when it loads, calls into
//! and unloads a compiled library. Opening the library, looking up symbols and
//! making the foreign call are left to the caller, which hands the outcomes back.
use vstd::prelude::*;
use crate::any::{same_kind, Any};
use crate::compiler::{CompilingResult, FunctionView};
use crate::text::{
    int_text, law_parse_reads_decimal_writing, parse_i16, parse_i32, parse_i64, parse_in_range,
};

verus! {

/// The state of an interactive session: where the compiled library was
/// written, the handle of the opened library, and what compiling it recorded.
#[derive(Debug)]
pub struct Invoker {
    pub lib_path: String,
    /// the (non-null) handle of the opened library
    pub lib: Option<usize>,
    pub compile_result: Option<CompilingResult>,
}

impl Default for Invoker {
    fn default() -> (r: Invoker)
        ensures
            r.lib_path@.len() == 0,
            r.lib is None,
            r.compile_result is None,
    {
        Invoker { lib_path: String::new(), lib: None, compile_result: None }
    }
}

/// What loading a source file starts with.
#[derive(Debug, PartialEq)]
pub enum LoadStep {
    /// the source file does not exist; nothing changes
    Missing,
    /// a library is loaded already; nothing changes
    AlreadyLoaded,
    /// compile the source file into a library written to `output`, then open it
    Compile { output: String },
}

/// What unloading released.
#[derive(Debug, PartialEq)]
pub struct Unloaded {
    /// whether there was a compilation result to drop
    pub had_result: bool,
    /// the handle of the library to close, if one was open
    pub closed: Option<usize>,
}

/// How an argument given as text is passed to a function parameter.
#[derive(Debug, PartialEq)]
pub enum ArgSlot {
    /// the parsed value of an integer parameter
    Value(Any),
    /// the text of a `c_float` parameter, still to be parsed
    Float(String),
    /// the text of a `c_double` parameter, still to be parsed
    Double(String),
    /// the text does not parse as the parameter's integer type
    Invalid,
    /// the parameter's type cannot be passed
    Unsupported,
}

/// The return types the invoker can receive from a call.
#[derive(Clone, Copy, Debug, PartialEq, Eq, Structural)]
pub enum ReturnKind {
    Int,
    Short,
    Long,
    Float,
    Double,
    Unit,
    Unsupported,
}

/// What a call comes to, once the function has been found in the library.
#[derive(Debug, PartialEq)]
pub enum CallPlan {
    /// no signature is recorded for the function; the call is not made
    NoSignature,
    /// the number of arguments differs from the number of recorded parameters
    ArgCountMismatch,
    /// pass the arguments as given, and receive a result of the given kind
    Ready { args: Vec<ArgSlot>, ret: ReturnKind },
}

/// How `text` is passed to a parameter whose type tag is `kind`.
pub open spec fn arg_slot_for(kind: Any, text: Seq<char>, slot: ArgSlot) -> bool {
    match kind {
        Any::Int(_) => match parse_in_range(text, i32::MIN as int, i32::MAX as int) {
            Some(v) => slot == ArgSlot::Value(Any::Int(v as i32)),
            None => slot is Invalid,
        },
        Any::Short(_) => match parse_in_range(text, i16::MIN as int, i16::MAX as int) {
            Some(v) => slot == ArgSlot::Value(Any::Short(v as i16)),
            None => slot is Invalid,
        },
        Any::Long(_) => match parse_in_range(text, i64::MIN as int, i64::MAX as int) {
            Some(v) => slot == ArgSlot::Value(Any::Long(v as i64)),
            None => slot is Invalid,
        },
        Any::Float(_) => slot matches ArgSlot::Float(t) && t@ == text,
        Any::Double(_) => slot matches ArgSlot::Double(t) && t@ == text,
        _ => slot is Unsupported,
    }
}

/// An argument parsed for a parameter has the parameter's type.
pub proof fn law_parsed_arg_has_parameter_type(kind: Any, text: Seq<char>, slot: ArgSlot)
    requires
        arg_slot_for(kind, text, slot),
    ensures
        slot matches ArgSlot::Value(v) ==> same_kind(v, kind),
{
}

/// For an integer parameter, the decimal writing of an integer converts to
/// exactly that integer when it is in the range of the parameter's type, and
/// is refused when it is not.
pub proof fn law_integer_arguments_read_their_value(kind: Any, v: int, slot: ArgSlot)
    requires
        arg_slot_for(kind, int_text(v), slot),
    ensures
        kind is Int ==> if i32::MIN <= v <= i32::MAX {
            slot == ArgSlot::Value(Any::Int(v as i32))
        } else {
            slot is Invalid
        },
        kind is Short ==> if i16::MIN <= v <= i16::MAX {
            slot == ArgSlot::Value(Any::Short(v as i16))
        } else {
            slot is Invalid
        },
        kind is Long ==> if i64::MIN <= v <= i64::MAX {
            slot == ArgSlot::Value(Any::Long(v as i64))
        } else {
            slot is Invalid
        },
{
    law_parse_reads_decimal_writing(v, i32::MIN as int, i32::MAX as int);
    law_parse_reads_decimal_writing(v, i16::MIN as int, i16::MAX as int);
    law_parse_reads_decimal_writing(v, i64::MIN as int, i64::MAX as int);
}

/// The kind of result a call returns, by the return type tag.
pub open spec fn spec_return_kind(ret: Any) -> ReturnKind {
    match ret {
        Any::Int(_) => ReturnKind::Int,
        Any::Short(_) => ReturnKind::Short,
        Any::Long(_) => ReturnKind::Long,
        Any::Float(_) => ReturnKind::Float,
        Any::Double(_) => ReturnKind::Double,
        Any::Null => ReturnKind::Unit,
        _ => ReturnKind::Unsupported,
    }
}

/// How the text `text` is passed to a parameter whose type tag is `kind`.
pub fn parse_arg(kind: &Any, text: &str) -> (r: ArgSlot)
    ensures
        arg_slot_for(*kind, text@, r),
{
    match kind {
        Any::Int(_) => match parse_i32(text) {
            Some(v) => ArgSlot::Value(Any::from(v)),
            None => ArgSlot::Invalid,
        },
        Any::Short(_) => match parse_i16(text) {
            Some(v) => ArgSlot::Value(Any::from(v)),
            None => ArgSlot::Invalid,
        },
        Any::Long(_) => match parse_i64(text) {
            Some(v) => ArgSlot::Value(Any::from(v)),
            None => ArgSlot::Invalid,
        },
        Any::Float(_) => ArgSlot::Float(text.to_owned()),
        Any::Double(_) => ArgSlot::Double(text.to_owned()),
        _ => ArgSlot::Unsupported,
    }
}

/// How each argument is passed to the parameters `kinds`; `None` when the
/// numbers of arguments and parameters differ.
pub fn plan_args(kinds: &Vec<Any>, args: &Vec<String>) -> (r: Option<Vec<ArgSlot>>)
    ensures
        match r {
            None => kinds@.len() != args@.len(),
            Some(slots) => {
                &&& kinds@.len() == args@.len()
                &&& slots@.len() == args@.len()
                &&& forall|i: int|
                    0 <= i < args@.len() ==> arg_slot_for(kinds@[i], args@[i]@, #[trigger] slots@[i])
            },
        },
{
    if kinds.len() != args.len() {
        return None;
    }
    let mut slots: Vec<ArgSlot> = Vec::new();
    let mut i: usize = 0;
    while i < args.len()
        invariant
            kinds@.len() == args@.len(),
            i <= args@.len(),
            slots@.len() == i,
            forall|j: int| 0 <= j < i ==> arg_slot_for(kinds@[j], args@[j]@, #[trigger] slots@[j]),
        decreases args@.len() - i,
    {
        let slot = parse_arg(&kinds[i], args[i].as_str());
        slots.push(slot);
        i = i + 1;
    }
    Some(slots)
}

/// The kind of result a call returns, by the return type tag.
pub fn return_kind(ret: &Any) -> (r: ReturnKind)
    ensures
        r == spec_return_kind(*ret),
{
    match ret {
        Any::Int(_) => ReturnKind::Int,
        Any::Short(_) => ReturnKind::Short,
        Any::Long(_) => ReturnKind::Long,
        Any::Float(_) => ReturnKind::Float,
        Any::Double(_) => ReturnKind::Double,
        Any::Null => ReturnKind::Unit,
        _ => ReturnKind::Unsupported,
    }
}

/// The plan for calling a function with signature `f` on `args`.
pub open spec fn plan_matches(f: FunctionView, args: Seq<String>, plan: CallPlan) -> bool {
    if f.args.len() != args.len() {
        plan is ArgCountMismatch
    } else {
        &&& plan matches CallPlan::Ready { args: slots, ret }
        &&& ret == spec_return_kind(f.ret)
        &&& slots@.len() == args.len()
        &&& forall|i: int|
            0 <= i < args.len() ==> arg_slot_for(f.args[i], args[i]@, #[trigger] slots@[i])
    }
}

/// A step of a session, as it bears on the handle of the opened library.
#[derive(Clone, Copy, Debug, PartialEq, Eq, Structural)]
pub enum LibEvent {
    /// a library was opened under this handle (`finish_load`)
    Open(usize),
    /// the loaded library was let go (`unload`)
    Close,
    /// any other step (`begin_load`, `inspect`, `begin_call`, `plan_call`)
    Keep,
}

/// The handle held after a step.
pub open spec fn lib_after(lib: Option<usize>, e: LibEvent) -> Option<usize> {
    match e {
        LibEvent::Open(h) => Some(h),
        LibEvent::Close => None,
        LibEvent::Keep => lib,
    }
}

/// The handle a step hands back to be closed.
pub open spec fn released_by(lib: Option<usize>, e: LibEvent) -> Option<usize> {
    match e {
        LibEvent::Close => lib,
        _ => None,
    }
}

/// The handle held after a sequence of steps from a fresh session.
pub open spec fn lib_after_all(events: Seq<LibEvent>) -> Option<usize>
    decreases events.len(),
{
    if events.len() == 0 {
        None
    } else {
        lib_after(lib_after_all(events.drop_last()), events.last())
    }
}

/// How many times a sequence of steps hands back the handle `h` to be closed.
pub open spec fn released_count(events: Seq<LibEvent>, h: usize) -> nat
    decreases events.len(),
{
    if events.len() == 0 {
        0
    } else {
        released_count(events.drop_last(), h) + if released_by(
            lib_after_all(events.drop_last()),
            events.last(),
        ) == Some(h) {
            1nat
        } else {
            0nat
        }
    }
}

/// How many times a sequence of steps opens a library under the handle `h`.
pub open spec fn opened_count(events: Seq<LibEvent>, h: usize) -> nat
    decreases events.len(),
{
    if events.len() == 0 {
        0
    } else {
        opened_count(events.drop_last(), h) + if events.last() == LibEvent::Open(h) {
            1nat
        } else {
            0nat
        }
    }
}

/// Over any sequence of steps from a fresh session, a handle is let go (handed
/// back by `unload`, or still held when the session ends and is closed then)
/// at most as many times as a library was opened under it: no opened library
/// is closed twice.
pub proof fn law_handles_released_at_most_once(events: Seq<LibEvent>, h: usize)
    ensures
        released_count(events, h) + (if lib_after_all(events) == Some(h) {
            1nat
        } else {
            0nat
        }) <= opened_count(events, h),
    decreases events.len(),
{
    if events.len() > 0 {
        law_handles_released_at_most_once(events.drop_last(), h);
    }
}

impl Invoker {
    /// Starts a call: the handle of the library to look the function up in;
    /// `None` when no library is loaded, and the call is refused.
    pub fn begin_call(&self) -> (r: Option<usize>)
        ensures
            r == self.lib,
            r == lib_after(self.lib, LibEvent::Keep),
    {
        self.lib
    }

    /// Starts loading the source file `file_exists` speaks of: refuses a missing
    /// file, refuses while a library is loaded, and otherwise sets where the
    /// library is to be written.
    pub fn begin_load(&mut self, file_exists: bool) -> (r: LoadStep)
        ensures
            !file_exists ==> r is Missing && *final(self) == *old(self),
            file_exists && old(self).lib is Some ==> r is AlreadyLoaded && *final(self)
                == *old(self),
            file_exists && old(self).lib is None ==> {
                &&& r matches LoadStep::Compile { output } && output@ == "tmp/temp.so"@
                &&& final(self).lib_path@ == "tmp/temp.so"@
                &&& final(self).lib == old(self).lib
                &&& final(self).compile_result == old(self).compile_result
            },
            final(self).lib == lib_after(old(self).lib, LibEvent::Keep),
    {
        if !file_exists {
            return LoadStep::Missing;
        }
        if self.lib.is_some() {
            return LoadStep::AlreadyLoaded;
        }
        self.lib_path = "tmp/temp.so".to_owned();
        LoadStep::Compile { output: "tmp/temp.so".to_owned() }
    }

    /// Finishes loading: keeps what compiling recorded, if compiling succeeded,
    /// and the handle of the opened library.
    pub fn finish_load(&mut self, compiled: Option<CompilingResult>, lib: usize)
        requires
            lib != 0,
        ensures
            final(self).lib == Some(lib),
            final(self).lib == lib_after(old(self).lib, LibEvent::Open(lib)),
            final(self).lib_path == old(self).lib_path,
            final(self).compile_result == (if compiled is Some {
                compiled
            } else {
                old(self).compile_result
            }),
    {
        if compiled.is_some() {
            self.compile_result = compiled;
        }
        self.lib = Some(lib);
    }

    /// What compiling the loaded library recorded, if anything.
    pub fn inspect(&self) -> (r: Option<&CompilingResult>)
        ensures
            match r {
                Some(c) => self.compile_result == Some(*c),
                None => self.compile_result is None,
            },
    {
        match &self.compile_result {
            Some(c) => Some(c),
            None => None,
        }
    }

    /// Plans a call of the function `name` on `args`, by its recorded signature.
    pub fn plan_call(&self, name: &str, args: &Vec<String>) -> (r: CallPlan)
        ensures
            match self.compile_result {
                None => r is NoSignature,
                Some(res) => if res@.functions.contains_key(name@) {
                    plan_matches(res@.functions[name@], args@, r)
                } else {
                    r is NoSignature
                },
            },
    {
        let res = match &self.compile_result {
            Some(res) => res,
            None => return CallPlan::NoSignature,
        };
        let f = match res.functions.get(name) {
            Some(f) => f,
            None => return CallPlan::NoSignature,
        };
        match plan_args(&f.args, args) {
            None => CallPlan::ArgCountMismatch,
            Some(slots) => CallPlan::Ready { args: slots, ret: return_kind(&f.ret) },
        }
    }

    /// Drops what compiling recorded and gives back the handle of the loaded
    /// library to be closed.
    pub fn unload(&mut self) -> (r: Unloaded)
        ensures
            r.had_result == old(self).compile_result is Some,
            r.closed == old(self).lib,
            r.closed == released_by(old(self).lib, LibEvent::Close),
            final(self).compile_result is None,
            final(self).lib is None,
            final(self).lib == lib_after(old(self).lib, LibEvent::Close),
            final(self).lib_path == old(self).lib_path,
    {
        let had_result = self.compile_result.is_some();
        self.compile_result = None;
        let closed = self.lib;
        self.lib = None;
        Unloaded { had_result, closed }
    }
}

} // verus!
