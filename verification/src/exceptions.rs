//! Architectural traps and the policy entry point that decides whether
//! execution continues after one.
use vstd::prelude::*;

verus! {

/// Errors of the exception handler itself.  The default policy never
/// fails, so no handler ever returns this variant yet.
#[derive(Debug, Clone, Copy, PartialEq, Eq, Structural)]
pub enum ExceptionHandlerErr {
    HandlerFailure,
}

/// The reason an environment call or breakpoint trap was requested.
#[derive(Debug, Clone, Copy, PartialEq, Eq, Structural)]
pub enum RequestedTrap {
    EnvironmentCall,
    Breakpoint,
}

/// Synchronous exceptions an instruction can raise.  Addresses are guest
/// addresses.
#[derive(Debug, Clone, Copy, PartialEq, Eq, Structural)]
pub enum Exceptions {
    ExceptionInstructionAddressMisaligned(u64),
    ExceptionAccessFault(u64),
    ExceptionPageFault(u64),
    ExceptionRequested(RequestedTrap),
}

/// The single policy entry point: decide whether the fetch/decode/execute
/// loop continues after `exception`.  The default policy halts on every
/// trap.
pub fn handle_expection(exception: Exceptions) -> (r: Result<bool, ExceptionHandlerErr>)
    ensures
        r == Ok::<bool, ExceptionHandlerErr>(false),
{
    let _trap = exception;
    Ok(false)
}

} // verus!
