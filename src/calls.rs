//! Calls and returns: what a return restores, proved along the whole run of
//! the called function.

use vstd::prelude::*;
use vstd::bytes::*;
use crate::laws::{
    lemma_return_matches_call, lemma_step_keeps_running, lemma_write_bytes_index, running,
    stack_intact,
};
use crate::opcode::{Opcode, opcode_of};
use crate::semantics::{
    descriptor, execute, invoke, step, word_at, MachineState, Transition,
};
use crate::stack::{
    load_spec, pop_spec, push_spec, store_spec, write_bytes, StackView, FRAME_HEADER_SIZE,
};

verus! {

/// `b` is the base of the frame at `bp` or of one of the frames that the
/// saved base pointers link it to.
pub open spec fn in_chain(mem: Seq<u8>, bp: int, b: int) -> bool
    decreases bp,
{
    if bp == b {
        true
    } else if bp < b || bp + FRAME_HEADER_SIZE > mem.len() {
        false
    } else {
        let saved = word_at(mem, bp);
        0 <= saved < bp && in_chain(mem, saved, b)
    }
}

/// Two arenas of one size that hold the same bytes below `k`.
pub open spec fn agrees_below(m1: Seq<u8>, m2: Seq<u8>, k: int) -> bool {
    &&& m1.len() == m2.len()
    &&& forall|i: int| 0 <= i < k ==> #[trigger] m1[i] == m2[i]
}

/// Whether the machine is about to execute a return.
pub open spec fn at_return(s: MachineState) -> bool {
    0 <= s.pc < s.code.len() && opcode_of(s.code[s.pc]) == Opcode::Ret
}

/// `t` is reached from `s` in `n` cycles, none of which is a return from the
/// frame at `b`.
pub open spec fn runs_in_frame(s: MachineState, t: MachineState, n: nat, b: int) -> bool
    decreases n,
{
    if n == 0 {
        s == t
    } else {
        &&& !(s.stack.bp == b && at_return(s))
        &&& match step(s) {
            Transition::Next(u) => runs_in_frame(u, t, (n - 1) as nat, b),
            Transition::Output(u, _) => runs_in_frame(u, t, (n - 1) as nat, b),
            Transition::Halt(_) => false,
        }
    }
}

/// A transition that goes on keeps the base pointer and every byte below the
/// current frame's guard.
spec fn frame_kept(s: MachineState, tr: Transition) -> bool {
    match tr {
        Transition::Next(u) => u.code == s.code && u.stack.bp == s.stack.bp && agrees_below(
            s.stack.mem,
            u.stack.mem,
            s.stack.bp + FRAME_HEADER_SIZE,
        ),
        Transition::Output(u, _) => u.code == s.code && u.stack.bp == s.stack.bp && agrees_below(
            s.stack.mem,
            u.stack.mem,
            s.stack.bp + FRAME_HEADER_SIZE,
        ),
        Transition::Halt(_) => true,
    }
}

/// A frame is admitted: the stack pointer lies between its guard and the capacity.
spec fn admitted(st: StackView) -> bool {
    0 <= st.bp && st.bp + FRAME_HEADER_SIZE <= st.sp <= st.mem.len()
}

/// Pushes, pops, loads and stores inside an admitted frame keep the base
/// pointer, the bytes below the guard, and the frame admitted.
proof fn lemma_stack_ops_keep_frame()
    ensures
        forall|st: StackView, b: Seq<u8>|
            admitted(st) && #[trigger] push_spec(st, b) is Ok ==> {
                let t = push_spec(st, b)->Ok_0;
                admitted(t) && t.bp == st.bp && agrees_below(
                    st.mem,
                    t.mem,
                    st.bp + FRAME_HEADER_SIZE,
                )
            },
        forall|st: StackView, n: int|
            admitted(st) && n >= 0 && #[trigger] pop_spec(st, n) is Ok ==> {
                let t = pop_spec(st, n)->Ok_0.0;
                admitted(t) && t.bp == st.bp && t.mem == st.mem
            },
        forall|st: StackView, i: int, b: Seq<u8>|
            admitted(st) && i >= 0 && #[trigger] store_spec(st, i, b) is Ok ==> {
                let t = store_spec(st, i, b)->Ok_0;
                admitted(t) && t.bp == st.bp && agrees_below(
                    st.mem,
                    t.mem,
                    st.bp + FRAME_HEADER_SIZE,
                )
            },
        forall|st: StackView, i: int, n: int|
            admitted(st) && i >= 0 && n >= 0 && #[trigger] load_spec(st, i, n) is Ok ==> {
                let t = load_spec(st, i, n)->Ok_0;
                admitted(t) && t.bp == st.bp && agrees_below(
                    st.mem,
                    t.mem,
                    st.bp + FRAME_HEADER_SIZE,
                )
            },
{
    assert forall|st: StackView, b: Seq<u8>| admitted(st) && #[trigger] push_spec(st, b) is Ok implies {
        let t = push_spec(st, b)->Ok_0;
        admitted(t) && t.bp == st.bp && agrees_below(st.mem, t.mem, st.bp + FRAME_HEADER_SIZE)
    } by {
        lemma_write_bytes_index(st.mem, st.sp, b);
    }
    assert forall|st: StackView, i: int, b: Seq<u8>|
        admitted(st) && i >= 0 && #[trigger] store_spec(st, i, b) is Ok implies {
            let t = store_spec(st, i, b)->Ok_0;
            admitted(t) && t.bp == st.bp && agrees_below(
                st.mem,
                t.mem,
                st.bp + FRAME_HEADER_SIZE,
            )
        } by {
        let a = st.bp + FRAME_HEADER_SIZE + 4 * i;
        lemma_write_bytes_index(st.mem, a, b);
    }
    assert forall|st: StackView, i: int, n: int|
        admitted(st) && i >= 0 && n >= 0 && #[trigger] load_spec(st, i, n) is Ok implies {
            let t = load_spec(st, i, n)->Ok_0;
            admitted(t) && t.bp == st.bp && agrees_below(
                st.mem,
                t.mem,
                st.bp + FRAME_HEADER_SIZE,
            )
        } by {
        let a = st.bp + FRAME_HEADER_SIZE + 4 * i;
        lemma_write_bytes_index(st.mem, st.sp, st.mem.subrange(a, a + n));
    }
}

/// Inside an admitted frame, pushes of inline operands keep the frame.
#[verifier::spinoff_prover]
proof fn lemma_immediates_keep_frame(s: MachineState, op: Opcode)
    requires
        admitted(s.stack),
        op == Opcode::BPush || op == Opcode::SPush || op == Opcode::IPush || op == Opcode::LPush,
    ensures
        frame_kept(s, execute(s, op)),
{
    lemma_stack_ops_keep_frame();
    match op {
        Opcode::BPush => assert(frame_kept(s, execute(s, Opcode::BPush))),
        Opcode::SPush => assert(frame_kept(s, execute(s, Opcode::SPush))),
        Opcode::IPush => assert(frame_kept(s, execute(s, Opcode::IPush))),
        Opcode::LPush => assert(frame_kept(s, execute(s, Opcode::LPush))),
        _ => {},
    }
}

/// Inside an admitted frame, copies, discards, loads and stores keep the frame.
#[verifier::spinoff_prover]
proof fn lemma_stack_moves_keep_frame(s: MachineState, op: Opcode)
    requires
        admitted(s.stack),
        op == Opcode::Dup || op == Opcode::Dup2 || op == Opcode::Pop || op == Opcode::Pop2 || op == Opcode::Load || op == Opcode::Load2 || op == Opcode::Store || op == Opcode::Store2,
    ensures
        frame_kept(s, execute(s, op)),
{
    lemma_stack_ops_keep_frame();
    match op {
        Opcode::Dup => assert(frame_kept(s, execute(s, Opcode::Dup))),
        Opcode::Dup2 => assert(frame_kept(s, execute(s, Opcode::Dup2))),
        Opcode::Pop => assert(frame_kept(s, execute(s, Opcode::Pop))),
        Opcode::Pop2 => assert(frame_kept(s, execute(s, Opcode::Pop2))),
        Opcode::Load => assert(frame_kept(s, execute(s, Opcode::Load))),
        Opcode::Load2 => assert(frame_kept(s, execute(s, Opcode::Load2))),
        Opcode::Store => assert(frame_kept(s, execute(s, Opcode::Store))),
        Opcode::Store2 => assert(frame_kept(s, execute(s, Opcode::Store2))),
        _ => {},
    }
}

/// Inside an admitted frame, arithmetic keep the frame.
#[verifier::spinoff_prover]
proof fn lemma_arithmetic_keep_frame(s: MachineState, op: Opcode)
    requires
        admitted(s.stack),
        op == Opcode::IAdd || op == Opcode::LAdd || op == Opcode::ISub || op == Opcode::LSub || op == Opcode::IMul || op == Opcode::LMul || op == Opcode::IDiv || op == Opcode::LDiv,
    ensures
        frame_kept(s, execute(s, op)),
{
    lemma_stack_ops_keep_frame();
    match op {
        Opcode::IAdd => assert(frame_kept(s, execute(s, Opcode::IAdd))),
        Opcode::LAdd => assert(frame_kept(s, execute(s, Opcode::LAdd))),
        Opcode::ISub => assert(frame_kept(s, execute(s, Opcode::ISub))),
        Opcode::LSub => assert(frame_kept(s, execute(s, Opcode::LSub))),
        Opcode::IMul => assert(frame_kept(s, execute(s, Opcode::IMul))),
        Opcode::LMul => assert(frame_kept(s, execute(s, Opcode::LMul))),
        Opcode::IDiv => assert(frame_kept(s, execute(s, Opcode::IDiv))),
        Opcode::LDiv => assert(frame_kept(s, execute(s, Opcode::LDiv))),
        _ => {},
    }
}

/// Inside an admitted frame, comparisons keep the frame.
#[verifier::spinoff_prover]
proof fn lemma_comparisons_keep_frame(s: MachineState, op: Opcode)
    requires
        admitted(s.stack),
        op == Opcode::IEq || op == Opcode::LEq || op == Opcode::IOrd || op == Opcode::LOrd || op == Opcode::IEqOrd || op == Opcode::LEqOrd,
    ensures
        frame_kept(s, execute(s, op)),
{
    lemma_stack_ops_keep_frame();
    match op {
        Opcode::IEq => assert(frame_kept(s, execute(s, Opcode::IEq))),
        Opcode::LEq => assert(frame_kept(s, execute(s, Opcode::LEq))),
        Opcode::IOrd => assert(frame_kept(s, execute(s, Opcode::IOrd))),
        Opcode::LOrd => assert(frame_kept(s, execute(s, Opcode::LOrd))),
        Opcode::IEqOrd => assert(frame_kept(s, execute(s, Opcode::IEqOrd))),
        Opcode::LEqOrd => assert(frame_kept(s, execute(s, Opcode::LEqOrd))),
        _ => {},
    }
}

/// Inside an admitted frame, control-flow operations keep the frame.
#[verifier::spinoff_prover]
proof fn lemma_control_keep_frame(s: MachineState, op: Opcode)
    requires
        admitted(s.stack),
        op == Opcode::Nop || op == Opcode::Exit || op == Opcode::Call || op == Opcode::Goto || op == Opcode::If || op == Opcode::Unknown,
    ensures
        frame_kept(s, execute(s, op)),
{
    lemma_stack_ops_keep_frame();
    match op {
        Opcode::Nop => assert(frame_kept(s, execute(s, Opcode::Nop))),
        Opcode::Exit => assert(frame_kept(s, execute(s, Opcode::Exit))),
        Opcode::Call => assert(frame_kept(s, execute(s, Opcode::Call))),
        Opcode::Goto => assert(frame_kept(s, execute(s, Opcode::Goto))),
        Opcode::If => assert(frame_kept(s, execute(s, Opcode::If))),
        Opcode::Unknown => assert(frame_kept(s, execute(s, Opcode::Unknown))),
        _ => {},
    }
}

/// Inside an admitted frame, every operation but a call or a return keeps the frame.
proof fn lemma_execute_keeps_frame(s: MachineState, op: Opcode)
    requires
        admitted(s.stack),
        op != Opcode::Invoke,
        op != Opcode::Ret,
    ensures
        frame_kept(s, execute(s, op)),
{
    match op {
        Opcode::BPush | Opcode::SPush | Opcode::IPush | Opcode::LPush => lemma_immediates_keep_frame(s, op),
        Opcode::Dup | Opcode::Dup2 | Opcode::Pop | Opcode::Pop2 | Opcode::Load | Opcode::Load2 | Opcode::Store | Opcode::Store2 => lemma_stack_moves_keep_frame(s, op),
        Opcode::IAdd | Opcode::LAdd | Opcode::ISub | Opcode::LSub | Opcode::IMul | Opcode::LMul | Opcode::IDiv | Opcode::LDiv => lemma_arithmetic_keep_frame(s, op),
        Opcode::IEq | Opcode::LEq | Opcode::IOrd | Opcode::LOrd | Opcode::IEqOrd | Opcode::LEqOrd => lemma_comparisons_keep_frame(s, op),
        Opcode::Nop | Opcode::Exit | Opcode::Call | Opcode::Goto | Opcode::If | Opcode::Unknown => lemma_control_keep_frame(s, op),
        _ => {},
    }
}

/// The chain of frames depends only on the bytes below its top frame's header.
proof fn lemma_chain_prefix(m1: Seq<u8>, m2: Seq<u8>, bp: int, b: int)
    requires
        in_chain(m1, bp, b),
        agrees_below(m1, m2, bp + FRAME_HEADER_SIZE),
    ensures
        in_chain(m2, bp, b),
    decreases bp,
{
    if bp != b {
        assert(m1.subrange(bp, bp + 8) =~= m2.subrange(bp, bp + 8));
        lemma_chain_prefix(m1, m2, word_at(m1, bp), b);
    }
}

/// One cycle inside the frame at `b`, or inside a frame it called, keeps that
/// frame in the chain and every byte below its guard, unless it is the return
/// from that frame itself.
proof fn lemma_step_in_frame(u: MachineState, b: int)
    requires
        running(u),
        stack_intact(u.code.len() as int, u.stack),
        0 <= b,
        in_chain(u.stack.mem, u.stack.bp, b),
        !(u.stack.bp == b && at_return(u)),
        !(step(u) is Halt),
    ensures
        ({
            let t = match step(u) {
                Transition::Next(t) => t,
                Transition::Output(t, _) => t,
                Transition::Halt(_) => u,
            };
            &&& running(t)
            &&& stack_intact(t.code.len() as int, t.stack)
            &&& in_chain(t.stack.mem, t.stack.bp, b)
            &&& agrees_below(u.stack.mem, t.stack.mem, b + FRAME_HEADER_SIZE)
            &&& t.code == u.code
        }),
{
    lemma_step_keeps_running(u);
    reveal(step);
    let u1 = MachineState { pc: u.pc + 1, ..u };
    let op = opcode_of(u.code[u.pc]);
    assert(step(u) == execute(u1, op));
    let t = match step(u) {
        Transition::Next(t) => t,
        Transition::Output(t, _) => t,
        Transition::Halt(_) => u,
    };
    if op == Opcode::Invoke {
        let st = u.stack;
        let base = t.stack.bp;
        lemma_auto_spec_u64_to_from_le_bytes();
        let w1 = write_bytes(st.mem, base, spec_u64_to_le_bytes(st.bp as u64));
        let w2 = write_bytes(w1, base + 8, spec_u64_to_le_bytes((u.pc + 9) as u64));
        let w3 = write_bytes(w2, base + 16, st.mem.subrange(base, st.sp));
        assert(t.stack.mem == w3);
        lemma_write_bytes_index(st.mem, base, spec_u64_to_le_bytes(st.bp as u64));
        lemma_write_bytes_index(w1, base + 8, spec_u64_to_le_bytes((u.pc + 9) as u64));
        lemma_write_bytes_index(w2, base + 16, st.mem.subrange(base, st.sp));
        assert(w3.subrange(base, base + 8) =~= spec_u64_to_le_bytes(st.bp as u64));
        assert(word_at(w3, base) == st.bp);
        lemma_chain_prefix(st.mem, w3, st.bp, b);
    } else if op == Opcode::Ret {
        assert(u.stack.bp != b);
    } else {
        lemma_execute_keeps_frame(u1, op);
        lemma_chain_prefix(u.stack.mem, t.stack.mem, u.stack.bp, b);
    }
}

/// Along a run inside the frame at `b` the invariant holds, the frame stays in
/// the chain, and no byte below its guard changes.
proof fn lemma_run_in_frame(u: MachineState, r: MachineState, n: nat, b: int)
    requires
        running(u),
        stack_intact(u.code.len() as int, u.stack),
        0 <= b,
        in_chain(u.stack.mem, u.stack.bp, b),
        runs_in_frame(u, r, n, b),
    ensures
        running(r),
        stack_intact(r.code.len() as int, r.stack),
        in_chain(r.stack.mem, r.stack.bp, b),
        agrees_below(u.stack.mem, r.stack.mem, b + FRAME_HEADER_SIZE),
        r.code == u.code,
    decreases n,
{
    if n > 0 {
        lemma_step_in_frame(u, b);
        let t = match step(u) {
            Transition::Next(t) => t,
            Transition::Output(t, _) => t,
            Transition::Halt(_) => u,
        };
        lemma_run_in_frame(t, r, (n - 1) as nat, b);
    }
}

/// After a call, the return that leaves the called function's frame, however
/// many cycles, nested calls and returns came between, restores the caller's
/// base pointer as the call saved it, resumes just past the call's operand,
/// and leaves the stack pointer where the call's arguments began: over the
/// call and the return, the bytes pushed and the bytes popped balance, but for
/// the arguments the caller pushed, which the call consumed.
pub proof fn lemma_call_returns_to_caller(
    s: MachineState,
    callee: MachineState,
    r: MachineState,
    n: nat,
)
    requires
        running(s),
        0 <= s.pc < s.code.len(),
        opcode_of(s.code[s.pc]) == Opcode::Invoke,
        step(s) == Transition::Next(callee),
        runs_in_frame(callee, r, n, callee.stack.bp),
        at_return(r),
        r.stack.bp == callee.stack.bp,
    ensures
        descriptor(s.code, word_at(s.code, s.pc + 1)) is Ok,
        callee.stack.bp + 4 * descriptor(s.code, word_at(s.code, s.pc + 1))->Ok_0.2
            == s.stack.sp,
        step(r) is Next,
        step(r)->Next_0.stack.bp == s.stack.bp,
        step(r)->Next_0.stack.sp == callee.stack.bp,
        step(r)->Next_0.pc == s.pc + 9,
{
    lemma_step_keeps_running(s);
    reveal(step);
    let s1 = MachineState { pc: s.pc + 1, ..s };
    assert(step(s) == invoke(s1));
    let b = callee.stack.bp;
    assert(callee.stack.sp >= b + FRAME_HEADER_SIZE);
    assert(stack_intact(callee.code.len() as int, callee.stack));
    lemma_run_in_frame(callee, r, n, b);
    assert(r.stack.mem.subrange(b, b + FRAME_HEADER_SIZE) =~= callee.stack.mem.subrange(
        b,
        b + FRAME_HEADER_SIZE,
    ));
    lemma_return_matches_call(s, callee, r);
}

} // verus!
