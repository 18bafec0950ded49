//! Result codes and type tags of the runtime, with their integer encodings.

use vstd::prelude::*;
use vstd::std_specs::convert::FromSpecImpl;

verus! {

/// The success results that an operation of the runtime may return.
#[derive(Debug, Clone, Copy, PartialEq, Eq, Structural)]
pub enum StateSuccess {
    /// Successful execution.
    Generic,
    /// Successfully executed as module.
    ModuleSuccess,
}

/// The error results that an operation of the runtime may return.
#[derive(Debug, Clone, Copy, PartialEq, Eq, Structural)]
pub enum StateError {
    /// Generic error.
    Generic,
    /// The interpreter state has not been correctly initialised.
    InitError,
    /// Syntax error during compilation.
    SyntaxError,
    /// Type error (at runtime).
    TypeError,
    /// Division by zero error (at runtime).
    DivideByZeroError,
    /// Invalid items (at runtime).
    ValueError,
    /// Too many variables in current scope.
    TooManyVarError,
    /// Platform specific code not supported for this platform.
    PlatformNotSupp,
    /// Assertion failed.
    AssertError,
    /// Stack overflow occurred.
    StackOverflowError,
}

/// The type tags that a value on the runtime's stack may carry.
#[derive(Debug, Clone, Copy, PartialEq, Eq, Structural)]
pub enum Type {
    Undef,
    Float,
    Int,
    Bool,
    Str,
    List,
    Table,
    Fn,
    Closure,
    CFn,
    UserPtr,
    UserData,
}

impl StateSuccess {
    /// The integer that the runtime uses for this result.
    pub open spec fn code(self) -> int {
        match self {
            StateSuccess::Generic => 0,
            StateSuccess::ModuleSuccess => 1,
        }
    }

    /// The success result with the given code, if there is one.
    pub fn from_code(code: i32) -> (r: Option<StateSuccess>)
        ensures
            r is Some <==> 0 <= code <= 1,
            r matches Some(s) ==> s.code() == code,
    {
        match code {
            0 => Some(StateSuccess::Generic),
            1 => Some(StateSuccess::ModuleSuccess),
            _ => None,
        }
    }
}

impl StateError {
    /// The integer that the runtime uses for this result.
    pub open spec fn code(self) -> int {
        match self {
            StateError::Generic => 2,
            StateError::InitError => 3,
            StateError::SyntaxError => 4,
            StateError::TypeError => 5,
            StateError::DivideByZeroError => 6,
            StateError::ValueError => 7,
            StateError::TooManyVarError => 8,
            StateError::PlatformNotSupp => 9,
            StateError::AssertError => 10,
            StateError::StackOverflowError => 11,
        }
    }

    /// The error result with the given code, if there is one.
    pub fn from_code(code: i32) -> (r: Option<StateError>)
        ensures
            r is Some <==> 2 <= code <= 11,
            r matches Some(e) ==> e.code() == code,
    {
        match code {
            2 => Some(StateError::Generic),
            3 => Some(StateError::InitError),
            4 => Some(StateError::SyntaxError),
            5 => Some(StateError::TypeError),
            6 => Some(StateError::DivideByZeroError),
            7 => Some(StateError::ValueError),
            8 => Some(StateError::TooManyVarError),
            9 => Some(StateError::PlatformNotSupp),
            10 => Some(StateError::AssertError),
            11 => Some(StateError::StackOverflowError),
            _ => None,
        }
    }
}

impl Type {
    /// The integer that the runtime uses for this tag.
    pub open spec fn code(self) -> int {
        match self {
            Type::Undef => 0,
            Type::Float => 1,
            Type::Int => 2,
            Type::Bool => 3,
            Type::Str => 4,
            Type::List => 5,
            Type::Table => 6,
            Type::Fn => 7,
            Type::Closure => 8,
            Type::CFn => 9,
            Type::UserPtr => 10,
            Type::UserData => 11,
        }
    }

    /// The tag with the given code, if there is one.
    pub fn from_code(code: i32) -> (r: Option<Type>)
        ensures
            r is Some <==> 0 <= code <= 11,
            r matches Some(t) ==> t.code() == code,
    {
        match code {
            0 => Some(Type::Undef),
            1 => Some(Type::Float),
            2 => Some(Type::Int),
            3 => Some(Type::Bool),
            4 => Some(Type::Str),
            5 => Some(Type::List),
            6 => Some(Type::Table),
            7 => Some(Type::Fn),
            8 => Some(Type::Closure),
            9 => Some(Type::CFn),
            10 => Some(Type::UserPtr),
            11 => Some(Type::UserData),
            _ => None,
        }
    }
}

/// Whether `code` is one of the result codes of the runtime.
pub open spec fn is_status_code(code: int) -> bool {
    0 <= code <= 11
}

/// What a result code of the runtime means: a success for the two success
/// codes, the matching error for the ten error codes.
pub open spec fn status_of(code: int) -> Result<StateSuccess, StateError> {
    if code == 0 {
        Ok(StateSuccess::Generic)
    } else if code == 1 {
        Ok(StateSuccess::ModuleSuccess)
    } else if code == 2 {
        Err(StateError::Generic)
    } else if code == 3 {
        Err(StateError::InitError)
    } else if code == 4 {
        Err(StateError::SyntaxError)
    } else if code == 5 {
        Err(StateError::TypeError)
    } else if code == 6 {
        Err(StateError::DivideByZeroError)
    } else if code == 7 {
        Err(StateError::ValueError)
    } else if code == 8 {
        Err(StateError::TooManyVarError)
    } else if code == 9 {
        Err(StateError::PlatformNotSupp)
    } else if code == 10 {
        Err(StateError::AssertError)
    } else {
        Err(StateError::StackOverflowError)
    }
}

/// Turns a result code of the runtime into a `Result`.
pub fn state_result(r: i32) -> (res: Result<StateSuccess, StateError>)
    requires
        is_status_code(r as int),
    ensures
        res == status_of(r as int),
        res matches Ok(s) ==> s.code() == r,
        res matches Err(e) ==> e.code() == r,
{
    match StateSuccess::from_code(r) {
        Some(s) => Ok(s),
        None => match StateError::from_code(r) {
            Some(e) => Err(e),
            None => Err(StateError::Generic),
        },
    }
}

impl From<StateSuccess> for i32 {
    fn from(s: StateSuccess) -> (code: i32) {
        match s {
            StateSuccess::Generic => 0,
            StateSuccess::ModuleSuccess => 1,
        }
    }
}

impl FromSpecImpl<StateSuccess> for i32 {
    open spec fn obeys_from_spec() -> bool {
        true
    }

    open spec fn from_spec(s: StateSuccess) -> i32 {
        s.code() as i32
    }
}

impl From<StateError> for i32 {
    fn from(e: StateError) -> (code: i32) {
        match e {
            StateError::Generic => 2,
            StateError::InitError => 3,
            StateError::SyntaxError => 4,
            StateError::TypeError => 5,
            StateError::DivideByZeroError => 6,
            StateError::ValueError => 7,
            StateError::TooManyVarError => 8,
            StateError::PlatformNotSupp => 9,
            StateError::AssertError => 10,
            StateError::StackOverflowError => 11,
        }
    }
}

impl FromSpecImpl<StateError> for i32 {
    open spec fn obeys_from_spec() -> bool {
        true
    }

    open spec fn from_spec(e: StateError) -> i32 {
        e.code() as i32
    }
}

impl From<Type> for i32 {
    fn from(t: Type) -> (code: i32) {
        match t {
            Type::Undef => 0,
            Type::Float => 1,
            Type::Int => 2,
            Type::Bool => 3,
            Type::Str => 4,
            Type::List => 5,
            Type::Table => 6,
            Type::Fn => 7,
            Type::Closure => 8,
            Type::CFn => 9,
            Type::UserPtr => 10,
            Type::UserData => 11,
        }
    }
}

impl FromSpecImpl<Type> for i32 {
    open spec fn obeys_from_spec() -> bool {
        true
    }

    open spec fn from_spec(t: Type) -> i32 {
        t.code() as i32
    }
}

} // verus!
