//! Built-in functions and the calling convention they share.
//!
//! A built-in reads its evaluated argument through one `&mut Resolved` and
//! writes its outcome into another; it never touches the record.
use vstd::prelude::*;
use crate::value::{Val, Value};

verus! {

/// The outcome of evaluating an expression or calling a built-in.
pub type Resolved = Result<Value, RuntimeError>;

/// The built-in functions that a program can call.
#[derive(Clone, Copy, Debug, PartialEq, Eq, Structural)]
pub enum Builtin {
    /// Converts a byte string to upper case.
    Upcase,
    /// Converts a byte string to lower case.
    Downcase,
    /// Returns its argument when it is a byte string.
    String,
}

/// A runtime error, carried as the error of a [`Resolved`].
#[derive(Clone, Copy, Debug, PartialEq, Eq, Structural)]
pub enum RuntimeError {
    /// The built-in was given an argument that is not a byte string.
    ExpectedBytes(Builtin),
}

/// The model of a [`Resolved`].
pub open spec fn resolved_model(r: Resolved) -> Result<Val, RuntimeError> {
    match r {
        Ok(v) => Ok(v@),
        Err(e) => Err(e),
    }
}

/// The upper-case form of a string, as `str::to_uppercase` gives it.
pub uninterp spec fn upper_of(s: Seq<char>) -> Seq<char>;

/// The lower-case form of a string, as `str::to_lowercase` gives it.
pub uninterp spec fn lower_of(s: Seq<char>) -> Seq<char>;

/// Relies on `str::to_uppercase`: its result depends on the characters alone.
#[verifier::external_body]
fn to_upper(s: &String) -> (r: String)
    ensures
        r@ == upper_of(s@),
{
    s.to_uppercase()
}

/// Relies on `str::to_lowercase`: its result depends on the characters alone.
#[verifier::external_body]
fn to_lower(s: &String) -> (r: String)
    ensures
        r@ == lower_of(s@),
{
    s.to_lowercase()
}

/// What built-in `f` gives for the argument `arg`.
pub open spec fn builtin_spec(f: Builtin, arg: Val) -> Result<Val, RuntimeError> {
    match arg {
        Val::Bytes(s) => match f {
            Builtin::Upcase => Ok(Val::Bytes(upper_of(s))),
            Builtin::Downcase => Ok(Val::Bytes(lower_of(s))),
            Builtin::String => Ok(Val::Bytes(s)),
        },
        _ => Err(RuntimeError::ExpectedBytes(f)),
    }
}

/// What built-in `f` writes for the argument outcome `arg`: an error in the
/// argument is passed on unchanged.
pub open spec fn call_spec(f: Builtin, arg: Result<Val, RuntimeError>) -> Result<Val, RuntimeError> {
    match arg {
        Ok(v) => builtin_spec(f, v),
        Err(e) => Err(e),
    }
}

/// Upper-cases a byte string.
pub fn upcase(value: &mut Resolved, resolved: &mut Resolved)
    ensures
        *final(value) == *old(value),
        resolved_model(*final(resolved)) == call_spec(Builtin::Upcase, resolved_model(*old(value))),
{
    call(Builtin::Upcase, value, resolved)
}

/// Lower-cases a byte string.
pub fn downcase(value: &mut Resolved, resolved: &mut Resolved)
    ensures
        *final(value) == *old(value),
        resolved_model(*final(resolved)) == call_spec(
            Builtin::Downcase,
            resolved_model(*old(value)),
        ),
{
    call(Builtin::Downcase, value, resolved)
}

/// Passes a byte string through; rejects any other value.
pub fn string(value: &mut Resolved, resolved: &mut Resolved)
    ensures
        *final(value) == *old(value),
        resolved_model(*final(resolved)) == call_spec(Builtin::String, resolved_model(*old(value))),
{
    call(Builtin::String, value, resolved)
}

/// Dispatches built-in `f` by the shared calling convention.
pub fn call(f: Builtin, value: &mut Resolved, resolved: &mut Resolved)
    ensures
        *final(value) == *old(value),
        resolved_model(*final(resolved)) == call_spec(f, resolved_model(*old(value))),
{
    let out: Resolved = match &*value {
        Ok(Value::Bytes(s)) => match f {
            Builtin::Upcase => Ok(Value::Bytes(to_upper(s))),
            Builtin::Downcase => Ok(Value::Bytes(to_lower(s))),
            Builtin::String => Ok(Value::Bytes(s.clone())),
        },
        Ok(_) => Err(RuntimeError::ExpectedBytes(f)),
        Err(e) => Err(*e),
    };
    *resolved = out;
}

} // verus!
