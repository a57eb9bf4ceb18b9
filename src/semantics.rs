//! What one dispatch cycle of the machine does, as spec functions over
//! the machine's state.

use vstd::prelude::*;
use vstd::bytes::*;
use crate::bytecode::{
    header_status, DESCRIPTOR_SIZE, POOL_OFFSET, POOL_SLOT_SIZE, POOL_TABLE_OFFSET,
};
use crate::opcode::{Opcode, opcode_of};
use crate::stack::{
    above_guard, load_spec, pop_spec, push_spec, store_spec, top_spec, write_bytes, zeroed,
    StackView, FRAME_HEADER_SIZE, SLOT_SIZE, WORD_SIZE,
};
use crate::status::ExitStatus;

verus! {

/// The machine between two cycles: the container, the operand stack and the
/// program counter (an absolute offset into the container).
pub struct MachineState {
    pub code: Seq<u8>,
    pub stack: StackView,
    pub pc: int,
}

/// What one cycle leads to.
pub enum Transition {
    /// The machine goes on in the given state.
    Next(MachineState),
    /// The machine goes on in the given state after handing the bytes to the host.
    Output(MachineState, Seq<u8>),
    /// The machine stops with the given status.
    Halt(ExitStatus),
}

/// Little-endian value of a 4- or 8-byte word.
pub open spec fn le_value(b: Seq<u8>) -> int {
    if b.len() == 4 {
        spec_u32_from_le_bytes(b) as int
    } else {
        spec_u64_from_le_bytes(b) as int
    }
}

/// Little-endian bytes of a value of width `w` (4 or 8).
pub open spec fn le_bytes(v: int, w: int) -> Seq<u8> {
    if w == 4 {
        spec_u32_to_le_bytes(v as u32)
    } else {
        spec_u64_to_le_bytes(v as u64)
    }
}

/// One more than the largest value of width `w` (4 or 8).
pub open spec fn word_limit(w: int) -> int {
    if w == 4 {
        0x1_0000_0000
    } else {
        0x1_0000_0000_0000_0000
    }
}

/// The signed value of a little-endian 16-bit relative offset.
pub open spec fn offset_of(b: Seq<u8>) -> int {
    let u = spec_u16_from_le_bytes(b) as int;
    if u < 0x8000 {
        u
    } else {
        u - 0x10000
    }
}

/// The 64-bit word stored at `at`.
pub open spec fn word_at(mem: Seq<u8>, at: int) -> int {
    spec_u64_from_le_bytes(mem.subrange(at, at + 8)) as int
}

/// The `n` instruction bytes at the program counter, and the state past them.
pub open spec fn fetch(s: MachineState, n: int) -> Result<(MachineState, Seq<u8>), ExitStatus> {
    if s.pc + n > s.code.len() {
        Err(ExitStatus::BytecodeAccessViolation)
    } else {
        Ok((MachineState { pc: s.pc + n, ..s }, s.code.subrange(s.pc, s.pc + n)))
    }
}

/// The state with the program counter at `target`.
pub open spec fn jump(s: MachineState, target: int) -> Transition {
    if target < 0 || target > s.code.len() {
        Transition::Halt(ExitStatus::BytecodeAccessViolation)
    } else {
        Transition::Next(MachineState { pc: target, ..s })
    }
}

/// Goes on with the stack that `r` gives, or stops with its error.
pub open spec fn with_stack(s: MachineState, r: Result<StackView, ExitStatus>) -> Transition {
    match r {
        Ok(t) => Transition::Next(MachineState { stack: t, ..s }),
        Err(e) => Transition::Halt(e),
    }
}

/// Width of the operands of an arithmetic or comparison opcode.
pub open spec fn operand_width(op: Opcode) -> int {
    match op {
        Opcode::LAdd | Opcode::LSub | Opcode::LMul | Opcode::LDiv | Opcode::LEq | Opcode::LOrd
        | Opcode::LEqOrd => 8,
        _ => 4,
    }
}

pub open spec fn is_arithmetic(op: Opcode) -> bool {
    match op {
        Opcode::IAdd | Opcode::LAdd | Opcode::ISub | Opcode::LSub | Opcode::IMul | Opcode::LMul
        | Opcode::IDiv | Opcode::LDiv => true,
        _ => false,
    }
}

pub open spec fn is_comparison(op: Opcode) -> bool {
    match op {
        Opcode::IEq | Opcode::LEq | Opcode::IOrd | Opcode::LOrd | Opcode::IEqOrd
        | Opcode::LEqOrd => true,
        _ => false,
    }
}

pub open spec fn is_division(op: Opcode) -> bool {
    op == Opcode::IDiv || op == Opcode::LDiv
}

/// The exact result of `left OP right` for an arithmetic opcode.
pub open spec fn arithmetic_value(op: Opcode, left: int, right: int) -> int {
    match op {
        Opcode::IAdd | Opcode::LAdd => left + right,
        Opcode::ISub | Opcode::LSub => left - right,
        Opcode::IMul | Opcode::LMul => left * right,
        _ => left / right,
    }
}

/// `left OP right` for a comparison opcode.
pub open spec fn comparison_holds(op: Opcode, left: int, right: int) -> bool {
    match op {
        Opcode::IEq | Opcode::LEq => left == right,
        Opcode::IOrd | Opcode::LOrd => left < right,
        _ => left <= right,
    }
}

/// Pops `right` then `left`, and pushes `left OP right`; a zero divisor and a
/// result outside the operand width stop the machine.
pub open spec fn arithmetic(s: MachineState, op: Opcode) -> Transition {
    let w = operand_width(op);
    match pop_spec(s.stack, w) {
        Err(e) => Transition::Halt(e),
        Ok((st1, rb)) => match pop_spec(st1, w) {
            Err(e) => Transition::Halt(e),
            Ok((st2, lb)) => {
                let right = le_value(rb);
                let left = le_value(lb);
                if is_division(op) && right == 0 {
                    Transition::Halt(ExitStatus::DivideByZero)
                } else {
                    let v = arithmetic_value(op, left, right);
                    if v < 0 || v >= word_limit(w) {
                        Transition::Halt(ExitStatus::ArithmeticOverflow)
                    } else {
                        with_stack(s, push_spec(st2, le_bytes(v, w)))
                    }
                }
            },
        },
    }
}

/// Pops `right` then `left`, and pushes 1 or 0 as a 32-bit word.
pub open spec fn comparison(s: MachineState, op: Opcode) -> Transition {
    let w = operand_width(op);
    match pop_spec(s.stack, w) {
        Err(e) => Transition::Halt(e),
        Ok((st1, rb)) => match pop_spec(st1, w) {
            Err(e) => Transition::Halt(e),
            Ok((st2, lb)) => {
                let flag: u32 = if comparison_holds(op, le_value(lb), le_value(rb)) {
                    1
                } else {
                    0
                };
                with_stack(s, push_spec(st2, spec_u32_to_le_bytes(flag)))
            },
        },
    }
}

/// Reads a relative offset and jumps by it from just past the offset.
pub open spec fn goto(s: MachineState) -> Transition {
    match fetch(s, 2) {
        Err(e) => Transition::Halt(e),
        Ok((s1, b)) => jump(s1, s1.pc + offset_of(b)),
    }
}

/// Pops a 32-bit condition; jumps as `goto` when it is nonzero, and otherwise
/// still moves past the offset.
pub open spec fn branch(s: MachineState) -> Transition {
    match pop_spec(s.stack, 4) {
        Err(e) => Transition::Halt(e),
        Ok((st1, cb)) => {
            let s1 = MachineState { stack: st1, ..s };
            if le_value(cb) != 0 {
                goto(s1)
            } else {
                match fetch(s1, 2) {
                    Err(e) => Transition::Halt(e),
                    Ok((s2, _)) => Transition::Next(s2),
                }
            }
        },
    }
}

/// The descriptor `(start, local slots, arguments)` of pool entry `index`: the
/// pool's table holds at `POOL_TABLE_OFFSET + 8 * index` the absolute address
/// of the descriptor.
pub open spec fn descriptor(code: Seq<u8>, index: int) -> Result<(int, int, int), ExitStatus> {
    let slot = POOL_TABLE_OFFSET + POOL_SLOT_SIZE * index;
    if slot + 8 > code.len() {
        Err(ExitStatus::BytecodeAccessViolation)
    } else {
        let addr = word_at(code, slot);
        if addr + DESCRIPTOR_SIZE > code.len() {
            Err(ExitStatus::BytecodeAccessViolation)
        } else {
            Ok(
                (
                    word_at(code, addr),
                    spec_u16_from_le_bytes(code.subrange(addr + 8, addr + 10)) as int,
                    code[addr + 10] as int,
                ),
            )
        }
    }
}

/// The arena after a call: the arguments, which ended at the stack pointer,
/// move up past a new frame header holding the caller's base pointer and the
/// return address.
pub open spec fn frame_memory(st: StackView, base: int, ret: int) -> Seq<u8> {
    write_bytes(
        write_bytes(
            write_bytes(st.mem, base, spec_u64_to_le_bytes(st.bp as u64)),
            base + 8,
            spec_u64_to_le_bytes(ret as u64),
        ),
        base + 16,
        st.mem.subrange(base, st.sp),
    )
}

/// Calls the function of the pool entry named by the inline operand.
pub open spec fn invoke(s: MachineState) -> Transition {
    match fetch(s, 8) {
        Err(e) => Transition::Halt(e),
        Ok((s1, ib)) => match descriptor(s.code, le_value(ib)) {
            Err(e) => Transition::Halt(e),
            Ok((start, vars, args)) => {
                let st = s1.stack;
                if vars < args || !above_guard(st, SLOT_SIZE * args) {
                    Transition::Halt(ExitStatus::StackAccessViolation)
                } else {
                    let base = st.sp - SLOT_SIZE * args;
                    if base + FRAME_HEADER_SIZE + SLOT_SIZE * args > st.mem.len() {
                        Transition::Halt(ExitStatus::StackOverflow)
                    } else if base + FRAME_HEADER_SIZE + SLOT_SIZE * vars > st.mem.len() {
                        Transition::Halt(ExitStatus::StackAccessViolation)
                    } else if start > s.code.len() {
                        Transition::Halt(ExitStatus::BytecodeAccessViolation)
                    } else {
                        Transition::Next(
                            MachineState {
                                code: s.code,
                                stack: StackView {
                                    mem: frame_memory(st, base, s1.pc),
                                    sp: base + FRAME_HEADER_SIZE + SLOT_SIZE * vars,
                                    bp: base,
                                },
                                pc: start,
                            },
                        )
                    }
                }
            },
        },
    }
}

/// Unwinds the current frame: the stack pointer goes back to the frame's base,
/// the program counter to the return address and the base pointer to the
/// caller's.
pub open spec fn ret(s: MachineState) -> Transition {
    let st = s.stack;
    if st.sp < st.bp + FRAME_HEADER_SIZE {
        Transition::Halt(ExitStatus::StackAccessViolation)
    } else {
        let target = word_at(st.mem, st.bp + 8);
        if target > s.code.len() {
            Transition::Halt(ExitStatus::BytecodeAccessViolation)
        } else {
            Transition::Next(
                MachineState {
                    code: s.code,
                    stack: StackView { mem: st.mem, sp: st.bp, bp: word_at(st.mem, st.bp) },
                    pc: target,
                },
            )
        }
    }
}

/// A host call: code 0 hands the top word's bytes to the host.
pub open spec fn host_call(s: MachineState) -> Transition {
    match fetch(s, 1) {
        Err(e) => Transition::Halt(e),
        Ok((s1, b)) => if b[0] != 0 {
            Transition::Halt(ExitStatus::UnknownCallNumber)
        } else if s1.stack.sp < WORD_SIZE {
            Transition::Halt(ExitStatus::StackAccessViolation)
        } else {
            Transition::Output(s1, s1.stack.mem.subrange(s1.stack.sp - WORD_SIZE, s1.stack.sp))
        },
    }
}

/// Reads an inline operand of `n` bytes and pushes it as a 32-bit word.
pub open spec fn push_immediate(s: MachineState, n: int) -> Transition {
    match fetch(s, n) {
        Err(e) => Transition::Halt(e),
        Ok((s1, b)) => {
            let v: u32 = if n == 1 {
                b[0] as u32
            } else if n == 2 {
                spec_u16_from_le_bytes(b) as u32
            } else {
                spec_u32_from_le_bytes(b)
            };
            with_stack(s1, push_spec(s1.stack, spec_u32_to_le_bytes(v)))
        },
    }
}

/// Reads an inline 64-bit operand and pushes it.
pub open spec fn push_long(s: MachineState) -> Transition {
    match fetch(s, 8) {
        Err(e) => Transition::Halt(e),
        Ok((s1, b)) => with_stack(s1, push_spec(s1.stack, b)),
    }
}

/// Pushes a copy of the top `w` bytes.
pub open spec fn duplicate(s: MachineState, w: int) -> Transition {
    match top_spec(s.stack, w) {
        Err(e) => Transition::Halt(e),
        Ok(b) => with_stack(s, push_spec(s.stack, b)),
    }
}

/// Discards the top `w` bytes.
pub open spec fn discard(s: MachineState, w: int) -> Transition {
    match pop_spec(s.stack, w) {
        Err(e) => Transition::Halt(e),
        Ok((st1, _)) => Transition::Next(MachineState { stack: st1, ..s }),
    }
}

/// Reads a slot index and pushes that local slot's `w` bytes.
pub open spec fn load_local(s: MachineState, w: int) -> Transition {
    match fetch(s, 2) {
        Err(e) => Transition::Halt(e),
        Ok((s1, b)) => with_stack(s1, load_spec(s1.stack, spec_u16_from_le_bytes(b) as int, w)),
    }
}

/// Reads a slot index, pops `w` bytes and writes them to that local slot.
pub open spec fn store_local(s: MachineState, w: int) -> Transition {
    match fetch(s, 2) {
        Err(e) => Transition::Halt(e),
        Ok((s1, b)) => match pop_spec(s1.stack, w) {
            Err(e) => Transition::Halt(e),
            Ok((st2, v)) => with_stack(
                s1,
                store_spec(st2, spec_u16_from_le_bytes(b) as int, v),
            ),
        },
    }
}

/// The effect of operation `op`, whose opcode byte has just been read.
pub open spec fn execute(s: MachineState, op: Opcode) -> Transition {
    match op {
        Opcode::Nop => Transition::Next(s),
        Opcode::Exit => Transition::Halt(ExitStatus::Success),
        Opcode::Call => host_call(s),
        Opcode::Invoke => invoke(s),
        Opcode::Ret => ret(s),
        Opcode::BPush => push_immediate(s, 1),
        Opcode::SPush => push_immediate(s, 2),
        Opcode::IPush => push_immediate(s, 4),
        Opcode::LPush => push_long(s),
        Opcode::Dup => duplicate(s, 4),
        Opcode::Dup2 => duplicate(s, 8),
        Opcode::Pop => discard(s, 4),
        Opcode::Pop2 => discard(s, 8),
        Opcode::Load => load_local(s, 4),
        Opcode::Load2 => load_local(s, 8),
        Opcode::Store => store_local(s, 4),
        Opcode::Store2 => store_local(s, 8),
        Opcode::Goto => goto(s),
        Opcode::If => branch(s),
        Opcode::Unknown => Transition::Halt(ExitStatus::UnknownOpcode),
        _ => if is_arithmetic(op) {
            arithmetic(s, op)
        } else {
            comparison(s, op)
        },
    }
}

/// One dispatch cycle: read the opcode byte at the program counter and execute it.
#[verifier::opaque]
pub open spec fn step(s: MachineState) -> Transition {
    match fetch(s, 1) {
        Err(e) => Transition::Halt(e),
        Ok((s1, b)) => execute(s1, opcode_of(b[0])),
    }
}

/// The program counter of the entry-point function: the word at `POOL_OFFSET`
/// names a pool entry, whose descriptor starts with the function's address.
pub open spec fn entry_point(code: Seq<u8>) -> Result<int, ExitStatus> {
    if POOL_OFFSET + 8 > code.len() {
        Err(ExitStatus::BytecodeAccessViolation)
    } else {
        let slot = POOL_TABLE_OFFSET + POOL_SLOT_SIZE * word_at(code, POOL_OFFSET as int);
        if slot + 8 > code.len() {
            Err(ExitStatus::BytecodeAccessViolation)
        } else {
            let addr = word_at(code, slot);
            if addr + 8 > code.len() {
                Err(ExitStatus::BytecodeAccessViolation)
            } else {
                Ok(word_at(code, addr))
            }
        }
    }
}

/// The arena of a fresh machine: the entry frame's header holds base pointer 0
/// and the sentinel return address, the container's last byte.
pub open spec fn initial_memory(code_len: int, capacity: nat) -> Seq<u8> {
    write_bytes(
        write_bytes(zeroed(capacity), 0, spec_u64_to_le_bytes(0)),
        8,
        spec_u64_to_le_bytes((code_len - 1) as u64),
    )
}

/// The machine ready to run `code` with a stack of `capacity` bytes, or the
/// status that stops it before the first cycle.
pub open spec fn initial_state(code: Seq<u8>, capacity: nat) -> Result<MachineState, ExitStatus> {
    match header_status(code) {
        Err(e) => Err(e),
        Ok(_) => match entry_point(code) {
            Err(e) => Err(e),
            Ok(pc) => if pc >= code.len() {
                Err(ExitStatus::BytecodeAccessViolation)
            } else if capacity < FRAME_HEADER_SIZE {
                Err(ExitStatus::StackOverflow)
            } else {
                Ok(
                    MachineState {
                        code,
                        stack: StackView {
                            mem: initial_memory(code.len() as int, capacity),
                            sp: FRAME_HEADER_SIZE as int,
                            bp: 0,
                        },
                        pc,
                    },
                )
            },
        },
    }
}

/// At most `fuel` cycles from `s`: the status the machine stopped with, if it
/// did, and every byte it handed to the host.
pub open spec fn run(s: MachineState, fuel: nat) -> (Option<ExitStatus>, Seq<u8>)
    decreases fuel,
{
    if fuel == 0 {
        (None, Seq::empty())
    } else {
        match step(s) {
            Transition::Next(t) => run(t, (fuel - 1) as nat),
            Transition::Output(t, out) => {
                let (status, rest) = run(t, (fuel - 1) as nat);
                (status, out + rest)
            },
            Transition::Halt(e) => (Some(e), Seq::empty()),
        }
    }
}

} // verus!
