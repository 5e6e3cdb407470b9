//! The table of built-in functions: the fixed set of names that resolve
//! without any scope binding.  The numeric work of each built-in is done
//! by whoever runs the finished arithmetic; here the table only decides
//! which names exist.  Every built-in requires at least one argument.

use vstd::prelude::*;

use crate::chars::str_eq;

verus! {

/// One of the built-in functions.  The trigonometric ones take their
/// argument in degrees.
#[derive(Clone, Copy, Debug, PartialEq, Eq, Structural)]
pub enum BuiltinFunction {
    Min,
    Max,
    Abs,
    Sqrt,
    Cbrt,
    Sin,
    Cos,
    Tan,
}

/// The built-in a name resolves to, if any.
pub open spec fn spec_builtin(name: Seq<char>) -> Option<BuiltinFunction> {
    if name == "min"@ {
        Option::Some(BuiltinFunction::Min)
    } else if name == "max"@ {
        Option::Some(BuiltinFunction::Max)
    } else if name == "abs"@ {
        Option::Some(BuiltinFunction::Abs)
    } else if name == "sqrt"@ {
        Option::Some(BuiltinFunction::Sqrt)
    } else if name == "cbrt"@ {
        Option::Some(BuiltinFunction::Cbrt)
    } else if name == "sin"@ {
        Option::Some(BuiltinFunction::Sin)
    } else if name == "cos"@ {
        Option::Some(BuiltinFunction::Cos)
    } else if name == "tan"@ {
        Option::Some(BuiltinFunction::Tan)
    } else {
        Option::None
    }
}

/// Looks a name up in the built-in table.
pub fn builtin_function(name: &str) -> (r: Option<BuiltinFunction>)
    ensures
        r == spec_builtin(name@),
{
    if str_eq(name, "min") {
        Some(BuiltinFunction::Min)
    } else if str_eq(name, "max") {
        Some(BuiltinFunction::Max)
    } else if str_eq(name, "abs") {
        Some(BuiltinFunction::Abs)
    } else if str_eq(name, "sqrt") {
        Some(BuiltinFunction::Sqrt)
    } else if str_eq(name, "cbrt") {
        Some(BuiltinFunction::Cbrt)
    } else if str_eq(name, "sin") {
        Some(BuiltinFunction::Sin)
    } else if str_eq(name, "cos") {
        Some(BuiltinFunction::Cos)
    } else if str_eq(name, "tan") {
        Some(BuiltinFunction::Tan)
    } else {
        None
    }
}

} // verus!
