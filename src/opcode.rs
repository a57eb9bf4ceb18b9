//! The one-byte opcodes of the instruction stream.

use vstd::prelude::*;

verus! {

/// The operation that an opcode byte selects; `Unknown` for bytes outside the table.
#[derive(Clone, Copy, Debug, PartialEq, Eq, Structural)]
pub enum Opcode {
    Unknown,
    Nop,
    Exit,
    Call,
    Invoke,
    Ret,
    BPush,
    SPush,
    IPush,
    LPush,
    Dup,
    Dup2,
    Pop,
    Pop2,
    Load,
    Load2,
    Store,
    Store2,
    IAdd,
    LAdd,
    ISub,
    LSub,
    IMul,
    LMul,
    IDiv,
    LDiv,
    IEq,
    LEq,
    IOrd,
    LOrd,
    IEqOrd,
    LEqOrd,
    Goto,
    If,
}

/// The operation that byte `b` encodes.
pub open spec fn opcode_of(b: u8) -> Opcode {
    if b == 0x00 {
        Opcode::Nop
    } else if b == 0x01 {
        Opcode::Exit
    } else if b == 0x02 {
        Opcode::Call
    } else if b == 0x03 {
        Opcode::Invoke
    } else if b == 0x04 {
        Opcode::Ret
    } else if b == 0x05 {
        Opcode::BPush
    } else if b == 0x06 {
        Opcode::SPush
    } else if b == 0x07 {
        Opcode::IPush
    } else if b == 0x08 {
        Opcode::LPush
    } else if b == 0x09 {
        Opcode::Dup
    } else if b == 0x0a {
        Opcode::Dup2
    } else if b == 0x0b {
        Opcode::Pop
    } else if b == 0x0c {
        Opcode::Pop2
    } else if b == 0x0d {
        Opcode::Load
    } else if b == 0x0e {
        Opcode::Load2
    } else if b == 0x0f {
        Opcode::Store
    } else if b == 0x10 {
        Opcode::Store2
    } else if b == 0x11 {
        Opcode::IAdd
    } else if b == 0x12 {
        Opcode::LAdd
    } else if b == 0x13 {
        Opcode::ISub
    } else if b == 0x14 {
        Opcode::LSub
    } else if b == 0x15 {
        Opcode::IMul
    } else if b == 0x16 {
        Opcode::LMul
    } else if b == 0x17 {
        Opcode::IDiv
    } else if b == 0x18 {
        Opcode::LDiv
    } else if b == 0x19 {
        Opcode::IEq
    } else if b == 0x1a {
        Opcode::LEq
    } else if b == 0x1b {
        Opcode::IOrd
    } else if b == 0x1c {
        Opcode::LOrd
    } else if b == 0x1d {
        Opcode::IEqOrd
    } else if b == 0x1e {
        Opcode::LEqOrd
    } else if b == 0x1f {
        Opcode::Goto
    } else if b == 0x20 {
        Opcode::If
    } else {
        Opcode::Unknown
    }
}

impl Opcode {
    /// The byte that encodes a known operation.
    pub open spec fn spec_byte(self) -> u8 {
        match self {
            Opcode::Unknown => 0xff,
            Opcode::Nop => 0x00,
            Opcode::Exit => 0x01,
            Opcode::Call => 0x02,
            Opcode::Invoke => 0x03,
            Opcode::Ret => 0x04,
            Opcode::BPush => 0x05,
            Opcode::SPush => 0x06,
            Opcode::IPush => 0x07,
            Opcode::LPush => 0x08,
            Opcode::Dup => 0x09,
            Opcode::Dup2 => 0x0a,
            Opcode::Pop => 0x0b,
            Opcode::Pop2 => 0x0c,
            Opcode::Load => 0x0d,
            Opcode::Load2 => 0x0e,
            Opcode::Store => 0x0f,
            Opcode::Store2 => 0x10,
            Opcode::IAdd => 0x11,
            Opcode::LAdd => 0x12,
            Opcode::ISub => 0x13,
            Opcode::LSub => 0x14,
            Opcode::IMul => 0x15,
            Opcode::LMul => 0x16,
            Opcode::IDiv => 0x17,
            Opcode::LDiv => 0x18,
            Opcode::IEq => 0x19,
            Opcode::LEq => 0x1a,
            Opcode::IOrd => 0x1b,
            Opcode::LOrd => 0x1c,
            Opcode::IEqOrd => 0x1d,
            Opcode::LEqOrd => 0x1e,
            Opcode::Goto => 0x1f,
            Opcode::If => 0x20,
        }
    }

    /// The byte that encodes this operation, or `None` for `Unknown`.
    pub fn byte(&self) -> (r: Option<u8>)
        ensures
            *self == Opcode::Unknown ==> r is None,
            *self != Opcode::Unknown ==> r == Some(self.spec_byte()) && opcode_of(self.spec_byte())
                == *self,
    {
        match self {
            Opcode::Unknown => None,
            Opcode::Nop => Some(0x00),
            Opcode::Exit => Some(0x01),
            Opcode::Call => Some(0x02),
            Opcode::Invoke => Some(0x03),
            Opcode::Ret => Some(0x04),
            Opcode::BPush => Some(0x05),
            Opcode::SPush => Some(0x06),
            Opcode::IPush => Some(0x07),
            Opcode::LPush => Some(0x08),
            Opcode::Dup => Some(0x09),
            Opcode::Dup2 => Some(0x0a),
            Opcode::Pop => Some(0x0b),
            Opcode::Pop2 => Some(0x0c),
            Opcode::Load => Some(0x0d),
            Opcode::Load2 => Some(0x0e),
            Opcode::Store => Some(0x0f),
            Opcode::Store2 => Some(0x10),
            Opcode::IAdd => Some(0x11),
            Opcode::LAdd => Some(0x12),
            Opcode::ISub => Some(0x13),
            Opcode::LSub => Some(0x14),
            Opcode::IMul => Some(0x15),
            Opcode::LMul => Some(0x16),
            Opcode::IDiv => Some(0x17),
            Opcode::LDiv => Some(0x18),
            Opcode::IEq => Some(0x19),
            Opcode::LEq => Some(0x1a),
            Opcode::IOrd => Some(0x1b),
            Opcode::LOrd => Some(0x1c),
            Opcode::IEqOrd => Some(0x1d),
            Opcode::LEqOrd => Some(0x1e),
            Opcode::Goto => Some(0x1f),
            Opcode::If => Some(0x20),
        }
    }

    pub open spec fn spec_mnemonic(self) -> &'static str {
        match self {
            Opcode::Unknown => "unknown",
            Opcode::Nop => "nop",
            Opcode::Exit => "exit",
            Opcode::Call => "call",
            Opcode::Invoke => "invoke",
            Opcode::Ret => "ret",
            Opcode::BPush => "bpush",
            Opcode::SPush => "spush",
            Opcode::IPush => "ipush",
            Opcode::LPush => "lpush",
            Opcode::Dup => "dup",
            Opcode::Dup2 => "dup2",
            Opcode::Pop => "pop",
            Opcode::Pop2 => "pop2",
            Opcode::Load => "load",
            Opcode::Load2 => "load2",
            Opcode::Store => "store",
            Opcode::Store2 => "store2",
            Opcode::IAdd => "iadd",
            Opcode::LAdd => "ladd",
            Opcode::ISub => "isub",
            Opcode::LSub => "lsub",
            Opcode::IMul => "imul",
            Opcode::LMul => "lmul",
            Opcode::IDiv => "idiv",
            Opcode::LDiv => "ldiv",
            Opcode::IEq => "ieq",
            Opcode::LEq => "leq",
            Opcode::IOrd => "iord",
            Opcode::LOrd => "lord",
            Opcode::IEqOrd => "ieqord",
            Opcode::LEqOrd => "leqord",
            Opcode::Goto => "goto",
            Opcode::If => "if",
        }
    }

    /// The lower-case mnemonic of the operation.
    pub fn mnemonic(&self) -> (r: &'static str)
        ensures
            r == self.spec_mnemonic(),
    {
        match self {
            Opcode::Unknown => "unknown",
            Opcode::Nop => "nop",
            Opcode::Exit => "exit",
            Opcode::Call => "call",
            Opcode::Invoke => "invoke",
            Opcode::Ret => "ret",
            Opcode::BPush => "bpush",
            Opcode::SPush => "spush",
            Opcode::IPush => "ipush",
            Opcode::LPush => "lpush",
            Opcode::Dup => "dup",
            Opcode::Dup2 => "dup2",
            Opcode::Pop => "pop",
            Opcode::Pop2 => "pop2",
            Opcode::Load => "load",
            Opcode::Load2 => "load2",
            Opcode::Store => "store",
            Opcode::Store2 => "store2",
            Opcode::IAdd => "iadd",
            Opcode::LAdd => "ladd",
            Opcode::ISub => "isub",
            Opcode::LSub => "lsub",
            Opcode::IMul => "imul",
            Opcode::LMul => "lmul",
            Opcode::IDiv => "idiv",
            Opcode::LDiv => "ldiv",
            Opcode::IEq => "ieq",
            Opcode::LEq => "leq",
            Opcode::IOrd => "iord",
            Opcode::LOrd => "lord",
            Opcode::IEqOrd => "ieqord",
            Opcode::LEqOrd => "leqord",
            Opcode::Goto => "goto",
            Opcode::If => "if",
        }
    }
}

impl From<u8> for Opcode {
    fn from(value: u8) -> (r: Opcode)
        ensures
            r == opcode_of(value),
    {
        match value {
            0x00 => Opcode::Nop,
            0x01 => Opcode::Exit,
            0x02 => Opcode::Call,
            0x03 => Opcode::Invoke,
            0x04 => Opcode::Ret,
            0x05 => Opcode::BPush,
            0x06 => Opcode::SPush,
            0x07 => Opcode::IPush,
            0x08 => Opcode::LPush,
            0x09 => Opcode::Dup,
            0x0a => Opcode::Dup2,
            0x0b => Opcode::Pop,
            0x0c => Opcode::Pop2,
            0x0d => Opcode::Load,
            0x0e => Opcode::Load2,
            0x0f => Opcode::Store,
            0x10 => Opcode::Store2,
            0x11 => Opcode::IAdd,
            0x12 => Opcode::LAdd,
            0x13 => Opcode::ISub,
            0x14 => Opcode::LSub,
            0x15 => Opcode::IMul,
            0x16 => Opcode::LMul,
            0x17 => Opcode::IDiv,
            0x18 => Opcode::LDiv,
            0x19 => Opcode::IEq,
            0x1a => Opcode::LEq,
            0x1b => Opcode::IOrd,
            0x1c => Opcode::LOrd,
            0x1d => Opcode::IEqOrd,
            0x1e => Opcode::LEqOrd,
            0x1f => Opcode::Goto,
            0x20 => Opcode::If,
            _ => Opcode::Unknown,
        }
    }
}

impl vstd::std_specs::convert::FromSpecImpl<u8> for Opcode {
    open spec fn obeys_from_spec() -> bool {
        true
    }

    open spec fn from_spec(v: u8) -> Opcode {
        opcode_of(v)
    }
}

} // verus!
