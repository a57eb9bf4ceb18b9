//! Properties of the machine that hold across operations and cycles.

use vstd::prelude::*;
use vstd::bytes::*;
use crate::opcode::{Opcode, opcode_of};
use crate::bytecode::{magic, HEADER_SIZE};
use crate::runtime::launch_spec;
use crate::semantics::{
    descriptor, execute, initial_memory, initial_state, invoke, is_arithmetic, is_comparison,
    le_bytes, le_value, operand_width, ret, step, word_at, word_limit, MachineState, Transition,
};
use crate::status::ExitStatus;
use crate::stack::{
    above_guard, load_spec, pop_spec, push_spec, store_spec, top_spec, write_bytes, zeroed,
    StackView, FRAME_HEADER_SIZE,
};

verus! {

/// The chain of frames below `bp` is intact: each frame header holds the base
/// of the frame below it, and the outermost frame, at 0, holds base pointer 0
/// and the sentinel return address `code_len - 1`.
pub open spec fn frames_intact(code_len: int, mem: Seq<u8>, bp: int) -> bool
    decreases bp,
{
    if bp < 0 || bp + FRAME_HEADER_SIZE > mem.len() {
        false
    } else if bp == 0 {
        word_at(mem, 0) == 0 && word_at(mem, 8) == code_len - 1
    } else {
        let saved = word_at(mem, bp);
        saved + FRAME_HEADER_SIZE <= bp && frames_intact(code_len, mem, saved)
    }
}

/// The stack of a machine inside some frame.
pub open spec fn stack_intact(code_len: int, st: StackView) -> bool {
    &&& frames_intact(code_len, st.mem, st.bp)
    &&& st.bp + FRAME_HEADER_SIZE <= st.sp <= st.mem.len()
}

/// What holds of the machine at every cycle boundary: the stack pointer lies
/// within the arena and above the base pointer, and either the frames are
/// intact or the outermost frame has returned to the sentinel address.
pub open spec fn running(s: MachineState) -> bool {
    &&& 0 <= s.stack.bp <= s.stack.sp <= s.stack.mem.len()
    &&& 0 <= s.pc <= s.code.len()
    &&& 1 <= s.code.len() <= u64::MAX
    &&& s.stack.mem.len() <= u64::MAX
    &&& stack_intact(s.code.len() as int, s.stack) || (s.stack.sp == 0 && s.stack.bp == 0 && s.pc
        + 1 >= s.code.len())
}

/// What writing `b` at `at` does to each byte of `m`.
pub(crate) proof fn lemma_write_bytes_index(m: Seq<u8>, at: int, b: Seq<u8>)
    requires
        0 <= at,
        at + b.len() <= m.len(),
    ensures
        write_bytes(m, at, b).len() == m.len(),
        forall|i: int| 0 <= i < at ==> #[trigger] write_bytes(m, at, b)[i] == m[i],
        forall|i: int| at <= i < at + b.len() ==> #[trigger] write_bytes(m, at, b)[i] == b[i - at],
        forall|i: int| at + b.len() <= i < m.len() ==> #[trigger] write_bytes(m, at, b)[i] == m[i],
        write_bytes(m, at, b).subrange(at, at + b.len()) == b,
{
    let w = write_bytes(m, at, b);
    assert(w.subrange(at, at + b.len()) =~= b);
}

/// The chain of frames depends only on the bytes below its top frame's header end.
proof fn lemma_frames_prefix(code_len: int, m1: Seq<u8>, m2: Seq<u8>, bp: int)
    requires
        frames_intact(code_len, m1, bp),
        m1.len() == m2.len(),
        forall|i: int| 0 <= i < bp + FRAME_HEADER_SIZE ==> m1[i] == m2[i],
    ensures
        frames_intact(code_len, m2, bp),
    decreases bp,
{
    assert(m1.subrange(bp, bp + 8) =~= m2.subrange(bp, bp + 8));
    if bp == 0 {
        assert(m1.subrange(8, 16) =~= m2.subrange(8, 16));
    } else {
        let saved = word_at(m1, bp);
        lemma_frames_prefix(code_len, m1, m2, saved);
    }
}

/// Writing at or above a frame's guard keeps the frames below it intact.
proof fn lemma_write_above_guard(code_len: int, mem: Seq<u8>, bp: int, at: int, b: Seq<u8>)
    requires
        frames_intact(code_len, mem, bp),
        bp + FRAME_HEADER_SIZE <= at,
        at + b.len() <= mem.len(),
    ensures
        frames_intact(code_len, write_bytes(mem, at, b), bp),
        write_bytes(mem, at, b).len() == mem.len(),
{
    lemma_write_bytes_index(mem, at, b);
    lemma_frames_prefix(code_len, mem, write_bytes(mem, at, b), bp);
}

/// Pushes, pops, loads and stores keep the frames intact.
proof fn lemma_stack_ops_keep(code_len: int)
    ensures
        forall|st: StackView, b: Seq<u8>|
            stack_intact(code_len, st) && #[trigger] push_spec(st, b) is Ok ==> stack_intact(
                code_len,
                push_spec(st, b)->Ok_0,
            ),
        forall|st: StackView, n: int|
            stack_intact(code_len, st) && n >= 0 && #[trigger] pop_spec(st, n) is Ok
                ==> stack_intact(code_len, pop_spec(st, n)->Ok_0.0),
        forall|st: StackView, i: int, b: Seq<u8>|
            stack_intact(code_len, st) && i >= 0 && #[trigger] store_spec(st, i, b) is Ok
                ==> stack_intact(code_len, store_spec(st, i, b)->Ok_0),
        forall|st: StackView, i: int, n: int|
            stack_intact(code_len, st) && i >= 0 && n >= 0 && #[trigger] load_spec(st, i, n) is Ok
                ==> stack_intact(code_len, load_spec(st, i, n)->Ok_0),
{
    assert forall|st: StackView, b: Seq<u8>|
        stack_intact(code_len, st) && #[trigger] push_spec(st, b) is Ok implies stack_intact(
            code_len,
            push_spec(st, b)->Ok_0,
        ) by {
        lemma_write_above_guard(code_len, st.mem, st.bp, st.sp, b);
    }
    assert forall|st: StackView, i: int, b: Seq<u8>|
        stack_intact(code_len, st) && i >= 0 && #[trigger] store_spec(st, i, b) is Ok
            implies stack_intact(code_len, store_spec(st, i, b)->Ok_0) by {
        let a = st.bp + FRAME_HEADER_SIZE + 4 * i;
        lemma_write_above_guard(code_len, st.mem, st.bp, a, b);
    }
    assert forall|st: StackView, i: int, n: int|
        stack_intact(code_len, st) && i >= 0 && n >= 0 && #[trigger] load_spec(st, i, n) is Ok
            implies stack_intact(code_len, load_spec(st, i, n)->Ok_0) by {
        let a = st.bp + FRAME_HEADER_SIZE + 4 * i;
        lemma_write_above_guard(code_len, st.mem, st.bp, st.sp, st.mem.subrange(a, a + n));
    }
}

/// A call pushes a frame whose header links back to the caller's frame.
proof fn lemma_invoke_keeps(s: MachineState)
    requires
        running(s),
        stack_intact(s.code.len() as int, s.stack),
    ensures
        invoke(s) is Next ==> running(invoke(s)->Next_0),
{
    if invoke(s) is Next {
        let t = invoke(s)->Next_0;
        let len = s.code.len() as int;
        let st = s.stack;
        let base = t.stack.bp;
        let ret_addr = s.pc + 8;
        let w1 = write_bytes(st.mem, base, spec_u64_to_le_bytes(st.bp as u64));
        let w2 = write_bytes(w1, base + 8, spec_u64_to_le_bytes(ret_addr as u64));
        let args = st.mem.subrange(base, st.sp);
        let w3 = write_bytes(w2, base + 16, args);
        lemma_auto_spec_u64_to_from_le_bytes();
        assert(t.stack.mem == w3);
        lemma_write_above_guard(len, st.mem, st.bp, base, spec_u64_to_le_bytes(st.bp as u64));
        lemma_write_above_guard(len, w1, st.bp, base + 8, spec_u64_to_le_bytes(ret_addr as u64));
        lemma_write_above_guard(len, w2, st.bp, base + 16, args);
        lemma_write_bytes_index(st.mem, base, spec_u64_to_le_bytes(st.bp as u64));
        lemma_write_bytes_index(w1, base + 8, spec_u64_to_le_bytes(ret_addr as u64));
        lemma_write_bytes_index(w2, base + 16, args);
        assert(w3.subrange(base, base + 8) =~= w1.subrange(base, base + 8));
        assert(word_at(w3, base) == st.bp);
        assert(frames_intact(len, w3, base));
    }
}

/// A return either lands in the caller's intact frame or, from the outermost
/// frame, at the sentinel address with an empty stack.
proof fn lemma_ret_keeps(s: MachineState)
    requires
        running(s),
        stack_intact(s.code.len() as int, s.stack),
    ensures
        ret(s) is Next ==> running(ret(s)->Next_0),
{
}

/// Whether a transition that goes on leads to a state where the invariant holds.
pub open spec fn keeps(t: Transition) -> bool {
    match t {
        Transition::Next(u) => running(u),
        Transition::Output(u, _) => running(u),
        Transition::Halt(_) => true,
    }
}

/// Inside an intact frame, pushes of inline operands keep the invariant.
#[verifier::spinoff_prover]
proof fn lemma_immediates_keep(s: MachineState, op: Opcode)
    requires
        running(s),
        stack_intact(s.code.len() as int, s.stack),
        op == Opcode::BPush || op == Opcode::SPush || op == Opcode::IPush || op == Opcode::LPush,
    ensures
        keeps(execute(s, op)),
{
    lemma_stack_ops_keep(s.code.len() as int);
    match op {
        Opcode::BPush => assert(keeps(execute(s, Opcode::BPush))),
        Opcode::SPush => assert(keeps(execute(s, Opcode::SPush))),
        Opcode::IPush => assert(keeps(execute(s, Opcode::IPush))),
        Opcode::LPush => assert(keeps(execute(s, Opcode::LPush))),
        _ => {},
    }
}

/// Inside an intact frame, copies, discards, loads and stores keep the invariant.
#[verifier::spinoff_prover]
proof fn lemma_stack_moves_keep(s: MachineState, op: Opcode)
    requires
        running(s),
        stack_intact(s.code.len() as int, s.stack),
        op == Opcode::Dup || op == Opcode::Dup2 || op == Opcode::Pop || op == Opcode::Pop2 || op == Opcode::Load || op == Opcode::Load2 || op == Opcode::Store || op == Opcode::Store2,
    ensures
        keeps(execute(s, op)),
{
    lemma_stack_ops_keep(s.code.len() as int);
    match op {
        Opcode::Dup => assert(keeps(execute(s, Opcode::Dup))),
        Opcode::Dup2 => assert(keeps(execute(s, Opcode::Dup2))),
        Opcode::Pop => assert(keeps(execute(s, Opcode::Pop))),
        Opcode::Pop2 => assert(keeps(execute(s, Opcode::Pop2))),
        Opcode::Load => assert(keeps(execute(s, Opcode::Load))),
        Opcode::Load2 => assert(keeps(execute(s, Opcode::Load2))),
        Opcode::Store => assert(keeps(execute(s, Opcode::Store))),
        Opcode::Store2 => assert(keeps(execute(s, Opcode::Store2))),
        _ => {},
    }
}

/// Inside an intact frame, arithmetic keep the invariant.
#[verifier::spinoff_prover]
proof fn lemma_arithmetic_keep(s: MachineState, op: Opcode)
    requires
        running(s),
        stack_intact(s.code.len() as int, s.stack),
        op == Opcode::IAdd || op == Opcode::LAdd || op == Opcode::ISub || op == Opcode::LSub || op == Opcode::IMul || op == Opcode::LMul || op == Opcode::IDiv || op == Opcode::LDiv,
    ensures
        keeps(execute(s, op)),
{
    lemma_stack_ops_keep(s.code.len() as int);
    match op {
        Opcode::IAdd => assert(keeps(execute(s, Opcode::IAdd))),
        Opcode::LAdd => assert(keeps(execute(s, Opcode::LAdd))),
        Opcode::ISub => assert(keeps(execute(s, Opcode::ISub))),
        Opcode::LSub => assert(keeps(execute(s, Opcode::LSub))),
        Opcode::IMul => assert(keeps(execute(s, Opcode::IMul))),
        Opcode::LMul => assert(keeps(execute(s, Opcode::LMul))),
        Opcode::IDiv => assert(keeps(execute(s, Opcode::IDiv))),
        Opcode::LDiv => assert(keeps(execute(s, Opcode::LDiv))),
        _ => {},
    }
}

/// Inside an intact frame, comparisons keep the invariant.
#[verifier::spinoff_prover]
proof fn lemma_comparisons_keep(s: MachineState, op: Opcode)
    requires
        running(s),
        stack_intact(s.code.len() as int, s.stack),
        op == Opcode::IEq || op == Opcode::LEq || op == Opcode::IOrd || op == Opcode::LOrd || op == Opcode::IEqOrd || op == Opcode::LEqOrd,
    ensures
        keeps(execute(s, op)),
{
    lemma_stack_ops_keep(s.code.len() as int);
    match op {
        Opcode::IEq => assert(keeps(execute(s, Opcode::IEq))),
        Opcode::LEq => assert(keeps(execute(s, Opcode::LEq))),
        Opcode::IOrd => assert(keeps(execute(s, Opcode::IOrd))),
        Opcode::LOrd => assert(keeps(execute(s, Opcode::LOrd))),
        Opcode::IEqOrd => assert(keeps(execute(s, Opcode::IEqOrd))),
        Opcode::LEqOrd => assert(keeps(execute(s, Opcode::LEqOrd))),
        _ => {},
    }
}

/// Inside an intact frame, control-flow operations keep the invariant.
#[verifier::spinoff_prover]
proof fn lemma_control_keep(s: MachineState, op: Opcode)
    requires
        running(s),
        stack_intact(s.code.len() as int, s.stack),
        op == Opcode::Nop || op == Opcode::Exit || op == Opcode::Call || op == Opcode::Goto || op == Opcode::If || op == Opcode::Unknown,
    ensures
        keeps(execute(s, op)),
{
    lemma_stack_ops_keep(s.code.len() as int);
    match op {
        Opcode::Nop => assert(keeps(execute(s, Opcode::Nop))),
        Opcode::Exit => assert(keeps(execute(s, Opcode::Exit))),
        Opcode::Call => assert(keeps(execute(s, Opcode::Call))),
        Opcode::Goto => assert(keeps(execute(s, Opcode::Goto))),
        Opcode::If => assert(keeps(execute(s, Opcode::If))),
        Opcode::Unknown => assert(keeps(execute(s, Opcode::Unknown))),
        _ => {},
    }
}

/// Inside an intact frame, every operation keeps the invariant.
proof fn lemma_execute_keeps(s: MachineState, op: Opcode)
    requires
        running(s),
        stack_intact(s.code.len() as int, s.stack),
    ensures
        keeps(execute(s, op)),
{
    match op {
        Opcode::Invoke => lemma_invoke_keeps(s),
        Opcode::Ret => lemma_ret_keeps(s),
        Opcode::BPush | Opcode::SPush | Opcode::IPush | Opcode::LPush => lemma_immediates_keep(s, op),
        Opcode::Dup | Opcode::Dup2 | Opcode::Pop | Opcode::Pop2 | Opcode::Load | Opcode::Load2 | Opcode::Store | Opcode::Store2 => lemma_stack_moves_keep(s, op),
        Opcode::IAdd | Opcode::LAdd | Opcode::ISub | Opcode::LSub | Opcode::IMul | Opcode::LMul | Opcode::IDiv | Opcode::LDiv => lemma_arithmetic_keep(s, op),
        Opcode::IEq | Opcode::LEq | Opcode::IOrd | Opcode::LOrd | Opcode::IEqOrd | Opcode::LEqOrd => lemma_comparisons_keep(s, op),
        Opcode::Nop | Opcode::Exit | Opcode::Call | Opcode::Goto | Opcode::If | Opcode::Unknown => lemma_control_keep(s, op),
    }
}

/// After the outermost frame has returned, the only operation that goes on is
/// a no-op, and it leaves the program counter at the end of the container.
proof fn lemma_execute_after_sentinel(s: MachineState, op: Opcode)
    requires
        running(s),
        s.stack.sp == 0,
        s.stack.bp == 0,
        s.pc == s.code.len(),
    ensures
        keeps(execute(s, op)),
{
    match op {
        Opcode::Nop => assert(keeps(execute(s, Opcode::Nop))),
        Opcode::Exit => assert(keeps(execute(s, Opcode::Exit))),
        Opcode::Call => assert(keeps(execute(s, Opcode::Call))),
        Opcode::Invoke => assert(keeps(execute(s, Opcode::Invoke))),
        Opcode::Ret => assert(keeps(execute(s, Opcode::Ret))),
        Opcode::BPush => assert(keeps(execute(s, Opcode::BPush))),
        Opcode::SPush => assert(keeps(execute(s, Opcode::SPush))),
        Opcode::IPush => assert(keeps(execute(s, Opcode::IPush))),
        Opcode::LPush => assert(keeps(execute(s, Opcode::LPush))),
        Opcode::Dup => assert(keeps(execute(s, Opcode::Dup))),
        Opcode::Dup2 => assert(keeps(execute(s, Opcode::Dup2))),
        Opcode::Pop => assert(keeps(execute(s, Opcode::Pop))),
        Opcode::Pop2 => assert(keeps(execute(s, Opcode::Pop2))),
        Opcode::Load => assert(keeps(execute(s, Opcode::Load))),
        Opcode::Load2 => assert(keeps(execute(s, Opcode::Load2))),
        Opcode::Store => assert(keeps(execute(s, Opcode::Store))),
        Opcode::Store2 => assert(keeps(execute(s, Opcode::Store2))),
        Opcode::IAdd => assert(keeps(execute(s, Opcode::IAdd))),
        Opcode::LAdd => assert(keeps(execute(s, Opcode::LAdd))),
        Opcode::ISub => assert(keeps(execute(s, Opcode::ISub))),
        Opcode::LSub => assert(keeps(execute(s, Opcode::LSub))),
        Opcode::IMul => assert(keeps(execute(s, Opcode::IMul))),
        Opcode::LMul => assert(keeps(execute(s, Opcode::LMul))),
        Opcode::IDiv => assert(keeps(execute(s, Opcode::IDiv))),
        Opcode::LDiv => assert(keeps(execute(s, Opcode::LDiv))),
        Opcode::IEq => assert(keeps(execute(s, Opcode::IEq))),
        Opcode::LEq => assert(keeps(execute(s, Opcode::LEq))),
        Opcode::IOrd => assert(keeps(execute(s, Opcode::IOrd))),
        Opcode::LOrd => assert(keeps(execute(s, Opcode::LOrd))),
        Opcode::IEqOrd => assert(keeps(execute(s, Opcode::IEqOrd))),
        Opcode::LEqOrd => assert(keeps(execute(s, Opcode::LEqOrd))),
        Opcode::Goto => assert(keeps(execute(s, Opcode::Goto))),
        Opcode::If => assert(keeps(execute(s, Opcode::If))),
        Opcode::Unknown => assert(keeps(execute(s, Opcode::Unknown))),
    }
}

/// The invariant holds after every cycle that does not stop the machine.
pub proof fn lemma_step_keeps_running(s: MachineState)
    requires
        running(s),
    ensures
        keeps(step(s)),
{
    reveal(step);
    if s.pc + 1 <= s.code.len() {
        let len = s.code.len() as int;
        let s1 = MachineState { pc: s.pc + 1, ..s };
        let op = opcode_of(s.code[s.pc]);
        assert(step(s) == execute(s1, op));
        if !stack_intact(len, s.stack) {
            lemma_execute_after_sentinel(s1, op);
        } else {
            lemma_execute_keeps(s1, op);
        }
    }
}

/// A freshly loaded machine satisfies the invariant.
pub proof fn lemma_initial_state_running(code: Seq<u8>, capacity: nat)
    requires
        initial_state(code, capacity) is Ok,
        code.len() <= u64::MAX,
        capacity <= u64::MAX,
    ensures
        running(initial_state(code, capacity)->Ok_0),
{
    let s = initial_state(code, capacity)->Ok_0;
    let len = code.len() as int;
    let z = zeroed(capacity);
    let w1 = write_bytes(z, 0, spec_u64_to_le_bytes(0));
    lemma_auto_spec_u64_to_from_le_bytes();
    lemma_write_bytes_index(z, 0, spec_u64_to_le_bytes(0));
    lemma_write_bytes_index(w1, 8, spec_u64_to_le_bytes((len - 1) as u64));
    let m = initial_memory(len, capacity);
    assert(m.subrange(0, 8) =~= w1.subrange(0, 8));
    assert(word_at(m, 0) == 0);
    assert(word_at(m, 8) == len - 1);
    assert(frames_intact(len, m, 0));
}

/// A return from the frame that a call opened, taken while that frame is
/// current and its header is as the call left it, restores the caller's base
/// pointer, resumes just past the call's operand, and leaves the stack pointer
/// where the call's arguments began: the call and the return together pop
/// exactly the bytes the caller pushed as arguments, and no others.
pub(crate) proof fn lemma_return_matches_call(s: MachineState, callee: MachineState, r: MachineState)
    requires
        running(s),
        s.pc < s.code.len(),
        opcode_of(s.code[s.pc]) == Opcode::Invoke,
        step(s) == Transition::Next(callee),
        r.code == s.code,
        0 <= r.pc < r.code.len(),
        opcode_of(r.code[r.pc]) == Opcode::Ret,
        r.stack.bp == callee.stack.bp,
        r.stack.sp >= r.stack.bp + FRAME_HEADER_SIZE,
        r.stack.sp <= r.stack.mem.len(),
        r.stack.mem.subrange(r.stack.bp, r.stack.bp + FRAME_HEADER_SIZE)
            == callee.stack.mem.subrange(callee.stack.bp, callee.stack.bp + FRAME_HEADER_SIZE),
    ensures
        descriptor(s.code, word_at(s.code, s.pc + 1)) is Ok,
        callee.stack.bp + 4 * descriptor(s.code, word_at(s.code, s.pc + 1))->Ok_0.2
            == s.stack.sp,
        step(r) is Next,
        step(r)->Next_0.stack.bp == s.stack.bp,
        step(r)->Next_0.stack.sp == callee.stack.bp,
        step(r)->Next_0.pc == s.pc + 9,
{
    reveal(step);
    lemma_auto_spec_u64_to_from_le_bytes();
    let s1 = MachineState { pc: s.pc + 1, ..s };
    assert(step(s) == invoke(s1));
    let base = callee.stack.bp;
    let st = s.stack;
    let w1 = write_bytes(st.mem, base, spec_u64_to_le_bytes(st.bp as u64));
    let w2 = write_bytes(w1, base + 8, spec_u64_to_le_bytes((s.pc + 9) as u64));
    let w3 = write_bytes(w2, base + 16, st.mem.subrange(base, st.sp));
    assert(callee.stack.mem == w3);
    lemma_write_bytes_index(st.mem, base, spec_u64_to_le_bytes(st.bp as u64));
    lemma_write_bytes_index(w1, base + 8, spec_u64_to_le_bytes((s.pc + 9) as u64));
    lemma_write_bytes_index(w2, base + 16, st.mem.subrange(base, st.sp));
    let hdr = r.stack.mem.subrange(base, base + 16);
    assert(r.stack.mem.subrange(base, base + 8) =~= hdr.subrange(0, 8));
    assert(r.stack.mem.subrange(base + 8, base + 16) =~= hdr.subrange(8, 16));
    assert(w3.subrange(base, base + 8) =~= w3.subrange(base, base + 16).subrange(0, 8));
    assert(w3.subrange(base + 8, base + 16) =~= w3.subrange(base, base + 16).subrange(8, 16));
    assert(w3.subrange(base, base + 8) =~= spec_u64_to_le_bytes(st.bp as u64));
    assert(w3.subrange(base + 8, base + 16) =~= spec_u64_to_le_bytes((s.pc + 9) as u64));
    assert(word_at(r.stack.mem, base) == st.bp);
    assert(word_at(r.stack.mem, base + 8) == s.pc + 9);
    let r1 = MachineState { pc: r.pc + 1, ..r };
    assert(step(r) == ret(r1));
}

/// An arithmetic operation that goes on leaves the stack exactly one operand
/// width lower: two operands in, one result out.
pub proof fn lemma_arithmetic_shrinks_stack(s: MachineState)
    requires
        0 <= s.pc < s.code.len(),
        is_arithmetic(opcode_of(s.code[s.pc])),
        step(s) is Next,
    ensures
        step(s)->Next_0.stack.sp == s.stack.sp - operand_width(opcode_of(s.code[s.pc])),
{
    reveal(step);
    lemma_auto_spec_u32_to_from_le_bytes();
    lemma_auto_spec_u64_to_from_le_bytes();
}

/// A comparison that goes on leaves the stack two operand widths lower and one
/// 32-bit flag higher.
pub proof fn lemma_comparison_shrinks_stack(s: MachineState)
    requires
        0 <= s.pc < s.code.len(),
        is_comparison(opcode_of(s.code[s.pc])),
        step(s) is Next,
    ensures
        step(s)->Next_0.stack.sp == s.stack.sp - 2 * operand_width(opcode_of(s.code[s.pc])) + 4,
{
    reveal(step);
    lemma_auto_spec_u32_to_from_le_bytes();
}

/// Popping a value right after pushing it, inside a frame, returns the value
/// and restores the stack pointer, the base pointer and every byte below the
/// stack pointer.
pub proof fn lemma_push_then_pop(st: StackView, x: int, w: int)
    requires
        w == 4 || w == 8,
        0 <= x < word_limit(w),
        0 <= st.bp,
        st.bp + FRAME_HEADER_SIZE <= st.sp,
        push_spec(st, le_bytes(x, w)) is Ok,
    ensures
        pop_spec(push_spec(st, le_bytes(x, w))->Ok_0, w) is Ok,
        ({
            let (t, v) = pop_spec(push_spec(st, le_bytes(x, w))->Ok_0, w)->Ok_0;
            &&& le_value(v) == x
            &&& t.sp == st.sp
            &&& t.bp == st.bp
            &&& t.mem.len() == st.mem.len()
            &&& t.mem.subrange(0, st.sp) == st.mem.subrange(0, st.sp)
        }),
{
    lemma_auto_spec_u32_to_from_le_bytes();
    lemma_auto_spec_u64_to_from_le_bytes();
    let b = le_bytes(x, w);
    lemma_write_bytes_index(st.mem, st.sp, b);
    let t1 = push_spec(st, b)->Ok_0;
    assert(t1.mem.subrange(st.sp, st.sp + w) =~= b);
    assert(t1.mem.subrange(0, st.sp) =~= st.mem.subrange(0, st.sp));
}

/// Pushing a value, duplicating it and popping the copy gives the state that
/// the push alone gave, up to the bytes above the stack pointer.
pub proof fn lemma_push_dup_pop(st: StackView, x: int, w: int)
    requires
        w == 4 || w == 8,
        0 <= x < word_limit(w),
        0 <= st.bp,
        st.bp + FRAME_HEADER_SIZE <= st.sp,
        push_spec(st, le_bytes(x, w)) is Ok,
        push_spec(push_spec(st, le_bytes(x, w))->Ok_0, le_bytes(x, w)) is Ok,
    ensures
        ({
            let pushed = push_spec(st, le_bytes(x, w))->Ok_0;
            &&& top_spec(pushed, w) == Ok::<Seq<u8>, ExitStatus>(le_bytes(x, w))
            &&& pop_spec(push_spec(pushed, le_bytes(x, w))->Ok_0, w) is Ok
            &&& ({
                let (t, v) = pop_spec(push_spec(pushed, le_bytes(x, w))->Ok_0, w)->Ok_0;
                &&& v == le_bytes(x, w)
                &&& t.sp == pushed.sp
                &&& t.bp == pushed.bp
                &&& t.mem.len() == pushed.mem.len()
                &&& t.mem.subrange(0, pushed.sp) == pushed.mem.subrange(0, pushed.sp)
            })
        }),
{
    lemma_auto_spec_u32_to_from_le_bytes();
    lemma_auto_spec_u64_to_from_le_bytes();
    let b = le_bytes(x, w);
    let t1 = push_spec(st, b)->Ok_0;
    lemma_write_bytes_index(st.mem, st.sp, b);
    assert(t1.mem.subrange(st.sp, st.sp + w) =~= b);
    let t2 = push_spec(t1, b)->Ok_0;
    lemma_write_bytes_index(t1.mem, t1.sp, b);
    assert(t2.mem.subrange(t1.sp, t1.sp + w) =~= b);
    assert(t2.mem.subrange(0, t1.sp) =~= t1.mem.subrange(0, t1.sp));
}

/// Storing the top value into a local slot and loading that slot again leaves
/// the stored value on top, at the stack pointer the store started from.
pub proof fn lemma_store_then_load(st: StackView, i: int, w: int)
    requires
        w == 4 || w == 8,
        0 <= i,
        0 <= st.bp,
        st.sp <= st.mem.len(),
        pop_spec(st, w) is Ok,
        store_spec(pop_spec(st, w)->Ok_0.0, i, pop_spec(st, w)->Ok_0.1) is Ok,
    ensures
        ({
            let (st1, v) = pop_spec(st, w)->Ok_0;
            let st2 = store_spec(st1, i, v)->Ok_0;
            &&& load_spec(st2, i, w) is Ok
            &&& top_spec(load_spec(st2, i, w)->Ok_0, w) == Ok::<Seq<u8>, ExitStatus>(v)
            &&& load_spec(st2, i, w)->Ok_0.sp == st.sp
        }),
{
    let (st1, v) = pop_spec(st, w)->Ok_0;
    let a = st.bp + FRAME_HEADER_SIZE + 4 * i;
    lemma_write_bytes_index(st1.mem, a, v);
    let st2 = store_spec(st1, i, v)->Ok_0;
    assert(st2.mem.subrange(a, a + w) =~= v);
    let st3 = load_spec(st2, i, w)->Ok_0;
    lemma_write_bytes_index(st2.mem, st2.sp, v);
    assert(st3.mem.subrange(st3.sp - w, st3.sp) =~= v);
}

/// A container shorter than the header is rejected before any cycle.
pub proof fn lemma_short_container_rejected(code: Seq<u8>, fuel: nat)
    requires
        code.len() < HEADER_SIZE,
    ensures
        launch_spec(code, fuel) == (Some(ExitStatus::InvalidHeaderSize), Seq::<u8>::empty()),
{
}

/// A container whose first eight bytes are not the magic number is rejected
/// before any cycle.
pub proof fn lemma_bad_magic_rejected(code: Seq<u8>, fuel: nat)
    requires
        code.len() >= HEADER_SIZE,
        code.subrange(0, 8) != magic(),
    ensures
        launch_spec(code, fuel) == (Some(ExitStatus::InvalidMagicNumber), Seq::<u8>::empty()),
{
}

/// An addition whose exact sum does not fit in 32 bits stops the machine with
/// `ArithmeticOverflow`.
pub proof fn lemma_iadd_overflow(s: MachineState)
    requires
        0 <= s.stack.bp,
        above_guard(s.stack, 8),
        s.stack.sp <= s.stack.mem.len(),
        le_value(s.stack.mem.subrange(s.stack.sp - 8, s.stack.sp - 4)) + le_value(
            s.stack.mem.subrange(s.stack.sp - 4, s.stack.sp),
        ) > u32::MAX,
    ensures
        execute(s, Opcode::IAdd) == Transition::Halt(ExitStatus::ArithmeticOverflow),
{
}

/// A division whose right operand is zero stops the machine with
/// `DivideByZero`, before any overflow check.
pub proof fn lemma_divide_by_zero(s: MachineState, op: Opcode)
    requires
        op == Opcode::IDiv || op == Opcode::LDiv,
        0 <= s.stack.bp,
        above_guard(s.stack, 2 * operand_width(op)),
        s.stack.sp <= s.stack.mem.len(),
        le_value(s.stack.mem.subrange(s.stack.sp - operand_width(op), s.stack.sp)) == 0,
    ensures
        execute(s, op) == Transition::Halt(ExitStatus::DivideByZero),
{
}

/// `IF` with a zero condition pops it and moves past its two-byte offset.
pub proof fn lemma_if_zero_falls_through(s: MachineState)
    requires
        0 <= s.pc,
        s.pc + 3 <= s.code.len(),
        opcode_of(s.code[s.pc]) == Opcode::If,
        0 <= s.stack.bp,
        above_guard(s.stack, 4),
        s.stack.sp <= s.stack.mem.len(),
        le_value(s.stack.mem.subrange(s.stack.sp - 4, s.stack.sp)) == 0,
    ensures
        step(s) is Next,
        step(s)->Next_0.pc == s.pc + 3,
        step(s)->Next_0.stack.sp == s.stack.sp - 4,
{
    reveal(step);
}

/// Every byte past the opcode table stops the machine with `UnknownOpcode`
/// when dispatch reaches it.
pub proof fn lemma_unknown_opcode(s: MachineState)
    requires
        0 <= s.pc < s.code.len(),
        s.code[s.pc] >= 0x21,
    ensures
        step(s) == Transition::Halt(ExitStatus::UnknownOpcode),
{
    reveal(step);
}

} // verus!
