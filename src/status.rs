//! The exit status that the interpreter reports to its host.

use vstd::prelude::*;

verus! {

/// How a run of the interpreter ended.
#[derive(Clone, Copy, Debug, PartialEq, Eq, Structural)]
pub enum ExitStatus {
    Success,
    UnknownOpcode,
    UnknownCallNumber,
    BytecodeAccessViolation,
    StackOverflow,
    StackAccessViolation,
    ArithmeticOverflow,
    DivideByZero,
    InvalidHeaderSize,
    InvalidMagicNumber,
    Unknown,
}

/// The numeric code of each status; codes that name no status read as `Unknown`.
pub open spec fn status_of_code(v: u32) -> ExitStatus {
    if v == 0 {
        ExitStatus::Success
    } else if v == 1 {
        ExitStatus::UnknownOpcode
    } else if v == 2 {
        ExitStatus::UnknownCallNumber
    } else if v == 3 {
        ExitStatus::BytecodeAccessViolation
    } else if v == 4 {
        ExitStatus::StackOverflow
    } else if v == 5 {
        ExitStatus::StackAccessViolation
    } else if v == 6 {
        ExitStatus::ArithmeticOverflow
    } else if v == 7 {
        ExitStatus::DivideByZero
    } else if v == 8 {
        ExitStatus::InvalidHeaderSize
    } else if v == 9 {
        ExitStatus::InvalidMagicNumber
    } else {
        ExitStatus::Unknown
    }
}

impl ExitStatus {
    pub open spec fn spec_code(self) -> u32 {
        match self {
            ExitStatus::Success => 0,
            ExitStatus::UnknownOpcode => 1,
            ExitStatus::UnknownCallNumber => 2,
            ExitStatus::BytecodeAccessViolation => 3,
            ExitStatus::StackOverflow => 4,
            ExitStatus::StackAccessViolation => 5,
            ExitStatus::ArithmeticOverflow => 6,
            ExitStatus::DivideByZero => 7,
            ExitStatus::InvalidHeaderSize => 8,
            ExitStatus::InvalidMagicNumber => 9,
            ExitStatus::Unknown => 10,
        }
    }

    /// The status as a numeric code, suitable for a process exit code.
    pub fn code(&self) -> (r: u32)
        ensures
            r == self.spec_code(),
            status_of_code(r) == *self,
    {
        match self {
            ExitStatus::Success => 0,
            ExitStatus::UnknownOpcode => 1,
            ExitStatus::UnknownCallNumber => 2,
            ExitStatus::BytecodeAccessViolation => 3,
            ExitStatus::StackOverflow => 4,
            ExitStatus::StackAccessViolation => 5,
            ExitStatus::ArithmeticOverflow => 6,
            ExitStatus::DivideByZero => 7,
            ExitStatus::InvalidHeaderSize => 8,
            ExitStatus::InvalidMagicNumber => 9,
            ExitStatus::Unknown => 10,
        }
    }

    pub open spec fn spec_name(self) -> &'static str {
        match self {
            ExitStatus::Success => "SUCCESS",
            ExitStatus::UnknownOpcode => "UNKNOWN_OPCODE",
            ExitStatus::UnknownCallNumber => "UNKNOWN_CALL_NUMBER",
            ExitStatus::BytecodeAccessViolation => "BYTECODE_ACCESS_VIOLATION",
            ExitStatus::StackOverflow => "STACK_OVERFLOW",
            ExitStatus::StackAccessViolation => "STACK_ACCESS_VIOLATION",
            ExitStatus::ArithmeticOverflow => "ARITHMETIC_OVERFLOW",
            ExitStatus::DivideByZero => "DIVIDE_BY_ZERO",
            ExitStatus::InvalidHeaderSize => "INVALID_HEADER_SIZE",
            ExitStatus::InvalidMagicNumber => "INVALID_MAGIC_NUMBER",
            ExitStatus::Unknown => "UNKNOWN",
        }
    }

    /// The upper-case name under which the status is shown.
    pub fn name(&self) -> (r: &'static str)
        ensures
            r == self.spec_name(),
    {
        match self {
            ExitStatus::Success => "SUCCESS",
            ExitStatus::UnknownOpcode => "UNKNOWN_OPCODE",
            ExitStatus::UnknownCallNumber => "UNKNOWN_CALL_NUMBER",
            ExitStatus::BytecodeAccessViolation => "BYTECODE_ACCESS_VIOLATION",
            ExitStatus::StackOverflow => "STACK_OVERFLOW",
            ExitStatus::StackAccessViolation => "STACK_ACCESS_VIOLATION",
            ExitStatus::ArithmeticOverflow => "ARITHMETIC_OVERFLOW",
            ExitStatus::DivideByZero => "DIVIDE_BY_ZERO",
            ExitStatus::InvalidHeaderSize => "INVALID_HEADER_SIZE",
            ExitStatus::InvalidMagicNumber => "INVALID_MAGIC_NUMBER",
            ExitStatus::Unknown => "UNKNOWN",
        }
    }
}

impl From<u32> for ExitStatus {
    fn from(v: u32) -> (r: ExitStatus)
        ensures
            r == status_of_code(v),
    {
        match v {
            0 => ExitStatus::Success,
            1 => ExitStatus::UnknownOpcode,
            2 => ExitStatus::UnknownCallNumber,
            3 => ExitStatus::BytecodeAccessViolation,
            4 => ExitStatus::StackOverflow,
            5 => ExitStatus::StackAccessViolation,
            6 => ExitStatus::ArithmeticOverflow,
            7 => ExitStatus::DivideByZero,
            8 => ExitStatus::InvalidHeaderSize,
            9 => ExitStatus::InvalidMagicNumber,
            _ => ExitStatus::Unknown,
        }
    }
}

impl vstd::std_specs::convert::FromSpecImpl<u32> for ExitStatus {
    open spec fn obeys_from_spec() -> bool {
        true
    }

    open spec fn from_spec(v: u32) -> ExitStatus {
        status_of_code(v)
    }
}

} // verus!
