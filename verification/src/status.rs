//! Translation of a numeric status code into a success/failure result.
//!
//! Every underlying call returns one status code; exactly one reserved value
//! means success. A successful call hands back a caller-supplied payload
//! (usually the parameter holder itself), any other code is surfaced as a
//! typed failure carrying that code, or an alternate context value where the
//! call site prefers one.

use vstd::prelude::*;

verus! {

/// The one status code that means success.
pub const BRP_OK: u32 = 0;

/// Construction parameters of a communication context: port name, baud rate,
/// and parity character. Carried inside a context-creation failure so the
/// caller can see what was asked for.
#[derive(Debug, Clone, PartialEq, Eq)]
pub struct ContextParams {
    pub port: Vec<u8>,
    pub baudrate: u32,
    pub parity: u8,
}

/// A typed failure: either a non-success status code from an underlying
/// call, or a context creation that produced no usable handle.
#[derive(Debug, Clone, PartialEq, Eq)]
pub enum BrpError {
    ErrorCode(u32),
    FailedToCreateContext(ContextParams),
}

pub type BrpResult<T> = Result<T, BrpError>;

/// What translating a status code with a payload yields: the success
/// sentinel maps to the payload, every other code maps to a failure
/// carrying the substitute error.
pub open spec fn translate_spec<T>(code: u32, ok_value: T, or_value: BrpError) -> BrpResult<T> {
    if code == BRP_OK {
        Ok(ok_value)
    } else {
        Err(or_value)
    }
}

/// Translates a status code, substituting a caller-chosen error for a
/// non-success code.
pub fn try_ok_or<T>(code: u32, ok_value: T, or_value: BrpError) -> (r: BrpResult<T>)
    ensures
        r == translate_spec(code, ok_value, or_value),
{
    if code == BRP_OK {
        Ok(ok_value)
    } else {
        Err(or_value)
    }
}

/// Translates a status code: the success sentinel yields the payload, any
/// other code yields a failure carrying exactly that code.
pub fn try_ok<T>(code: u32, ok_value: T) -> (r: BrpResult<T>)
    ensures
        r == translate_spec(code, ok_value, BrpError::ErrorCode(code)),
        code == BRP_OK ==> r == BrpResult::<T>::Ok(ok_value),
        code != BRP_OK ==> r == BrpResult::<T>::Err(BrpError::ErrorCode(code)),
{
    try_ok_or(code, ok_value, BrpError::ErrorCode(code))
}

/// Translates a status code with no payload, substituting a caller-chosen
/// error for a non-success code.
pub fn try_default_or(code: u32, or_value: BrpError) -> (r: BrpResult<()>)
    ensures
        r == translate_spec(code, (), or_value),
{
    try_ok_or(code, (), or_value)
}

/// Translates a status code with no payload.
pub fn try_default(code: u32) -> (r: BrpResult<()>)
    ensures
        r == translate_spec(code, (), BrpError::ErrorCode(code)),
        code == BRP_OK ==> r == BrpResult::<()>::Ok(()),
        code != BRP_OK ==> r == BrpResult::<()>::Err(BrpError::ErrorCode(code)),
{
    try_ok(code, ())
}

} // verus!
