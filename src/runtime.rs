//! The interpreter: executes a container's instruction stream on an operand
//! stack, one dispatch cycle at a time.

use vstd::prelude::*;
use vstd::bytes::*;
use crate::bytecode::{entry_point_address, pool_descriptor, Bytecode, HEADER_SIZE};
use crate::cursor::Cursor;
use crate::laws::{lemma_initial_state_running, lemma_step_keeps_running, running};
use crate::opcode::Opcode;
use crate::semantics::{
    arithmetic, branch, comparison, descriptor, discard, duplicate, fetch,
    goto, host_call, initial_memory, initial_state, invoke, le_value, load_local,
    push_immediate, push_long, ret, run, step, store_local, word_at, MachineState, Transition,
};
use crate::stack::{OperandStack, StackView, FRAME_HEADER_SIZE, WORD_SIZE};
use crate::status::ExitStatus;

verus! {

/// Capacity in bytes of the operand stack of a launched machine.
pub const STACK_CAPACITY: usize = 1024;

/// What one dispatch cycle led to.
#[derive(Debug)]
pub enum StepResult {
    /// The machine goes on.
    Running,
    /// The machine goes on; these bytes are for the host's standard output.
    Output(Vec<u8>),
    /// The machine has stopped with this status.
    Halted(ExitStatus),
}

/// The result of a bounded run.
#[derive(Debug)]
pub struct RunReport {
    /// The status the machine stopped with; `None` when the cycle budget ran out first.
    pub status: Option<ExitStatus>,
    /// Every byte the program handed to the host, in order.
    pub output: Vec<u8>,
}

/// Whether an operation's result `r` and the state `after` are what the
/// transition `t` describes; `t` goes on without output or stops.
pub open spec fn follows(t: Transition, r: Result<(), ExitStatus>, after: MachineState) -> bool {
    match t {
        Transition::Next(u) => r is Ok && after == u,
        Transition::Output(_, _) => false,
        Transition::Halt(e) => r == Err::<(), ExitStatus>(e),
    }
}

/// Whether a cycle's result `r` and the state `after` are what `t` describes.
pub open spec fn reports(t: Transition, r: StepResult, after: MachineState) -> bool {
    match t {
        Transition::Next(u) => r is Running && after == u,
        Transition::Output(u, b) => r is Output && r->Output_0@ == b && after == u,
        Transition::Halt(e) => r == StepResult::Halted(e),
    }
}

/// What a launch with `fuel` cycles reports for `code`.
pub open spec fn launch_spec(code: Seq<u8>, fuel: nat) -> (Option<ExitStatus>, Seq<u8>) {
    match initial_state(code, STACK_CAPACITY as nat) {
        Err(e) => (Some(e), Seq::empty()),
        Ok(s) => run(s, fuel),
    }
}

/// Appends `bytes` to `out`.
fn append_bytes(out: &mut Vec<u8>, bytes: &Vec<u8>)
    ensures
        final(out)@ == old(out)@ + bytes@,
{
    let mut i: usize = 0;
    while i < bytes.len()
        invariant
            i <= bytes@.len(),
            out@ == old(out)@ + bytes@.subrange(0, i as int),
        decreases bytes@.len() - i,
    {
        out.push(bytes[i]);
        i = i + 1;
        assert(out@ =~= old(out)@ + bytes@.subrange(0, i as int));
    }
    assert(bytes@.subrange(0, bytes@.len() as int) =~= bytes@);
}

/// A machine loaded with a validated container.
pub struct Interpreter {
    code: Vec<u8>,
    stack: OperandStack,
    pc: Cursor,
    status: Option<ExitStatus>,
}

impl View for Interpreter {
    type V = MachineState;

    closed spec fn view(&self) -> MachineState {
        MachineState { code: self.code@, stack: self.stack@, pc: self.pc@.position }
    }
}

impl Interpreter {
    /// The status the machine has stopped with, if it has.
    pub closed spec fn halted(&self) -> Option<ExitStatus> {
        self.status
    }

    /// The machine is consistent, and, until it stops, its state satisfies the
    /// invariant of every cycle boundary.
    pub closed spec fn wf(&self) -> bool {
        &&& self.sound()
        &&& self.status is None ==> running(self@)
    }

    /// The parts agree with each other: the program counter reads the whole container.
    closed spec fn sound(&self) -> bool {
        &&& self.stack.wf()
        &&& self.pc.wf()
        &&& self.pc@.limit == self.code@.len()
        &&& self.code@.len() >= HEADER_SIZE
    }

    /// The stack pointer: bytes in use on the operand stack.
    pub fn sp(&self) -> (r: usize)
        requires
            self.wf(),
        ensures
            r == self@.stack.sp,
            self.halted() is None ==> self@.stack.bp <= r <= self@.stack.mem.len(),
    {
        self.stack.sp()
    }

    /// The base pointer of the current frame.
    pub fn bp(&self) -> (r: u64)
        ensures
            r == self@.stack.bp,
    {
        self.stack.bp()
    }

    /// The program counter: offset of the next instruction byte in the container.
    pub fn pc(&self) -> (r: usize)
        ensures
            r == self@.pc,
    {
        self.pc.position()
    }

    /// Capacity in bytes of the operand stack.
    pub fn stack_capacity(&self) -> (r: usize)
        ensures
            r == self@.stack.mem.len(),
    {
        self.stack.capacity()
    }

    /// The status the machine has stopped with, if it has.
    pub fn status(&self) -> (r: Option<ExitStatus>)
        ensures
            r == self.halted(),
    {
        self.status
    }

    /// Loads `bytecode_bytes` with a stack of `capacity` bytes: validates the
    /// header, finds the entry point and pushes the entry frame.
    pub fn start(bytecode_bytes: Vec<u8>, capacity: usize) -> (r: Result<Interpreter, ExitStatus>)
        ensures
            match initial_state(bytecode_bytes@, capacity as nat) {
                Ok(s) => r is Ok && r->Ok_0.wf() && r->Ok_0@ == s && r->Ok_0.halted() is None,
                Err(e) => r is Err && r->Err_0 == e,
            },
    {
        let bytecode = Bytecode::new(bytecode_bytes);
        match bytecode.validate() {
            Ok(_) => {},
            Err(e) => return Err(e),
        }
        let code: Vec<u8> = *bytecode.into_vec();
        let entry = match entry_point_address(&code) {
            Ok(pc) => pc,
            Err(e) => return Err(e),
        };
        if entry >= code.len() as u64 {
            return Err(ExitStatus::BytecodeAccessViolation);
        }
        if capacity < FRAME_HEADER_SIZE {
            return Err(ExitStatus::StackOverflow);
        }
        proof {
            lemma_auto_spec_u64_to_from_le_bytes();
        }
        let mut stack = OperandStack::new(capacity);
        let _ = stack.push_u64(0);
        let _ = stack.push_u64((code.len() - 1) as u64);
        assert(stack@.mem =~= initial_memory(code@.len() as int, capacity as nat));
        let mut pc = Cursor::new(code.len());
        let _ = pc.jump_to(entry as usize);
        proof {
            lemma_initial_state_running(code@, capacity as nat);
        }
        Ok(Interpreter { code, stack, pc, status: None })
    }

    /// Loads `bytecode_bytes` with a stack of `STACK_CAPACITY` bytes and runs
    /// at most `max_steps` cycles, collecting what the program hands to the host.
    pub fn launch(bytecode_bytes: Vec<u8>, max_steps: u64) -> (r: RunReport)
        ensures
            (r.status, r.output@) == launch_spec(bytecode_bytes@, max_steps as nat),
    {
        let ghost code = bytecode_bytes@;
        let mut vm = match Interpreter::start(bytecode_bytes, STACK_CAPACITY) {
            Ok(vm) => vm,
            Err(e) => return RunReport { status: Some(e), output: Vec::new() },
        };
        let ghost s0 = vm@;
        let mut output: Vec<u8> = Vec::new();
        let mut left: u64 = max_steps;
        while left > 0
            invariant
                vm.wf(),
                vm.halted() is None,
                code == bytecode_bytes@,
                initial_state(code, STACK_CAPACITY as nat) == Ok::<MachineState, ExitStatus>(s0),
                run(s0, max_steps as nat).0 == run(vm@, left as nat).0,
                run(s0, max_steps as nat).1 == output@ + run(vm@, left as nat).1,
            decreases left,
        {
            let ghost before = vm@;
            let ghost out_before = output@;
            let r = vm.step();
            left = left - 1;
            match r {
                StepResult::Running => {},
                StepResult::Output(bytes) => {
                    append_bytes(&mut output, &bytes);
                    proof {
                        let (st, rest) = run(vm@, left as nat);
                        assert(run(before, (left + 1) as nat) == (st, bytes@ + rest));
                        assert(out_before + (bytes@ + rest) =~= output@ + rest);
                    }
                },
                StepResult::Halted(e) => {
                    proof {
                        assert(run(before, (left + 1) as nat) == (
                            Some(e),
                            Seq::<u8>::empty(),
                        ));
                        assert(out_before + Seq::<u8>::empty() =~= out_before);
                    }
                    return RunReport { status: Some(e), output };
                },
            }
        }
        assert(output@ + Seq::<u8>::empty() =~= output@);
        RunReport { status: None, output }
    }
}

impl Interpreter {
    /// `self` is well formed and differs from `before` at most in its stack and
    /// program counter.
    closed spec fn kept(&self, before: &Self) -> bool {
        &&& self.sound()
        &&& self.code@ == before.code@
        &&& self.status == before.status
    }

    /// Executes one dispatch cycle. Once the machine has stopped, it stays
    /// stopped and every further call reports the same status.
    pub fn step(&mut self) -> (r: StepResult)
        requires
            old(self).wf(),
        ensures
            final(self).wf(),
            final(self)@.code == old(self)@.code,
            match old(self).halted() {
                Some(e) => r == StepResult::Halted(e) && final(self)@ == old(self)@
                    && final(self).halted() == Some(e),
                None => {
                    &&& reports(step(old(self)@), r, final(self)@)
                    &&& r is Halted ==> final(self).halted() == Some(r->Halted_0)
                    &&& !(r is Halted) ==> final(self).halted() is None
                },
            },
    {
        match self.status {
            Some(e) => return StepResult::Halted(e),
            None => {},
        }
        proof {
            lemma_step_keeps_running(self@);
        }
        let r = self.cycle();
        match &r {
            StepResult::Halted(e) => {
                self.status = Some(*e);
            },
            _ => {},
        }
        r
    }

    fn cycle(&mut self) -> (r: StepResult)
        requires
            old(self).sound(),
        ensures
            final(self).kept(old(self)),
            reports(step(old(self)@), r, final(self)@),
    {
        reveal(step);
        let b = match self.fetch_u8() {
            Ok(b) => b,
            Err(e) => return StepResult::Halted(e),
        };
        let op = Opcode::from(b);
        let r = match op {
            Opcode::Nop => Ok(()),
            Opcode::Exit => return StepResult::Halted(ExitStatus::Success),
            Opcode::Call => match self.op_host_call() {
                Ok(bytes) => return StepResult::Output(bytes),
                Err(e) => Err(e),
            },
            Opcode::Invoke => self.op_invoke(),
            Opcode::Ret => self.op_ret(),
            Opcode::BPush => self.op_push_immediate(1),
            Opcode::SPush => self.op_push_immediate(2),
            Opcode::IPush => self.op_push_immediate(4),
            Opcode::LPush => self.op_push_long(),
            Opcode::Dup => self.op_duplicate(4),
            Opcode::Dup2 => self.op_duplicate(8),
            Opcode::Pop => self.op_discard(4),
            Opcode::Pop2 => self.op_discard(8),
            Opcode::Load => self.op_load(4),
            Opcode::Load2 => self.op_load(8),
            Opcode::Store => self.op_store(4),
            Opcode::Store2 => self.op_store(8),
            Opcode::IAdd | Opcode::ISub | Opcode::IMul | Opcode::IDiv => self.op_arithmetic32(op),
            Opcode::LAdd | Opcode::LSub | Opcode::LMul | Opcode::LDiv => self.op_arithmetic64(op),
            Opcode::IEq | Opcode::IOrd | Opcode::IEqOrd => self.op_comparison32(op),
            Opcode::LEq | Opcode::LOrd | Opcode::LEqOrd => self.op_comparison64(op),
            Opcode::Goto => self.op_goto(),
            Opcode::If => self.op_branch(),
            Opcode::Unknown => Err(ExitStatus::UnknownOpcode),
        };
        match r {
            Ok(()) => StepResult::Running,
            Err(e) => StepResult::Halted(e),
        }
    }

    fn fetch_u8(&mut self) -> (r: Result<u8, ExitStatus>)
        requires
            old(self).sound(),
        ensures
            final(self).kept(old(self)),
            match fetch(old(self)@, 1) {
                Ok((s1, b)) => r == Ok::<u8, ExitStatus>(b[0]) && final(self)@ == s1,
                Err(e) => r == Err::<u8, ExitStatus>(e),
            },
    {
        self.pc.next_u8(self.code.as_slice())
    }

    fn fetch_u16(&mut self) -> (r: Result<u16, ExitStatus>)
        requires
            old(self).sound(),
        ensures
            final(self).kept(old(self)),
            match fetch(old(self)@, 2) {
                Ok((s1, b)) => r == Ok::<u16, ExitStatus>(spec_u16_from_le_bytes(b))
                    && final(self)@ == s1,
                Err(e) => r == Err::<u16, ExitStatus>(e),
            },
    {
        self.pc.next_u16(self.code.as_slice())
    }

    fn fetch_u32(&mut self) -> (r: Result<u32, ExitStatus>)
        requires
            old(self).sound(),
        ensures
            final(self).kept(old(self)),
            match fetch(old(self)@, 4) {
                Ok((s1, b)) => r == Ok::<u32, ExitStatus>(spec_u32_from_le_bytes(b))
                    && final(self)@ == s1,
                Err(e) => r == Err::<u32, ExitStatus>(e),
            },
    {
        self.pc.next_u32(self.code.as_slice())
    }

    fn fetch_u64(&mut self) -> (r: Result<u64, ExitStatus>)
        requires
            old(self).sound(),
        ensures
            final(self).kept(old(self)),
            match fetch(old(self)@, 8) {
                Ok((s1, b)) => r == Ok::<u64, ExitStatus>(spec_u64_from_le_bytes(b))
                    && final(self)@ == s1,
                Err(e) => r == Err::<u64, ExitStatus>(e),
            },
    {
        self.pc.next_u64(self.code.as_slice())
    }

    fn fetch_bytes(&mut self, n: usize) -> (r: Result<Vec<u8>, ExitStatus>)
        requires
            old(self).sound(),
        ensures
            final(self).kept(old(self)),
            match fetch(old(self)@, n as int) {
                Ok((s1, b)) => r is Ok && r->Ok_0@ == b && final(self)@ == s1,
                Err(e) => r is Err && r->Err_0 == e,
            },
    {
        self.pc.next_bytes(self.code.as_slice(), n)
    }

    fn op_push_immediate(&mut self, n: usize) -> (r: Result<(), ExitStatus>)
        requires
            old(self).sound(),
            n == 1 || n == 2 || n == 4,
        ensures
            final(self).kept(old(self)),
            follows(push_immediate(old(self)@, n as int), r, final(self)@),
    {
        let v: u32 = if n == 1 {
            match self.fetch_u8() {
                Ok(b) => b as u32,
                Err(e) => return Err(e),
            }
        } else if n == 2 {
            match self.fetch_u16() {
                Ok(b) => b as u32,
                Err(e) => return Err(e),
            }
        } else {
            match self.fetch_u32() {
                Ok(b) => b,
                Err(e) => return Err(e),
            }
        };
        self.stack.push_u32(v)
    }

    fn op_push_long(&mut self) -> (r: Result<(), ExitStatus>)
        requires
            old(self).sound(),
        ensures
            final(self).kept(old(self)),
            follows(push_long(old(self)@), r, final(self)@),
    {
        let b = match self.fetch_bytes(8) {
            Ok(b) => b,
            Err(e) => return Err(e),
        };
        self.stack.push_bytes(b.as_slice())
    }

    fn op_duplicate(&mut self, w: usize) -> (r: Result<(), ExitStatus>)
        requires
            old(self).sound(),
        ensures
            final(self).kept(old(self)),
            follows(duplicate(old(self)@, w as int), r, final(self)@),
    {
        let b = match self.stack.top_bytes(w) {
            Ok(b) => b,
            Err(e) => return Err(e),
        };
        self.stack.push_bytes(b.as_slice())
    }

    fn op_discard(&mut self, w: usize) -> (r: Result<(), ExitStatus>)
        requires
            old(self).sound(),
        ensures
            final(self).kept(old(self)),
            follows(discard(old(self)@, w as int), r, final(self)@),
    {
        match self.stack.pop_bytes(w) {
            Ok(_) => Ok(()),
            Err(e) => Err(e),
        }
    }

    fn op_load(&mut self, w: usize) -> (r: Result<(), ExitStatus>)
        requires
            old(self).sound(),
            w == 4 || w == 8,
        ensures
            final(self).kept(old(self)),
            follows(load_local(old(self)@, w as int), r, final(self)@),
    {
        let slot = match self.fetch_u16() {
            Ok(v) => v,
            Err(e) => return Err(e),
        };
        self.stack.load(slot, w)
    }

    fn op_store(&mut self, w: usize) -> (r: Result<(), ExitStatus>)
        requires
            old(self).sound(),
            w == 4 || w == 8,
        ensures
            final(self).kept(old(self)),
            follows(store_local(old(self)@, w as int), r, final(self)@),
    {
        let slot = match self.fetch_u16() {
            Ok(v) => v,
            Err(e) => return Err(e),
        };
        let b = match self.stack.pop_bytes(w) {
            Ok(b) => b,
            Err(e) => return Err(e),
        };
        self.stack.store(slot, b.as_slice())
    }

    fn op_arithmetic32(&mut self, op: Opcode) -> (r: Result<(), ExitStatus>)
        requires
            old(self).sound(),
            op == Opcode::IAdd || op == Opcode::ISub || op == Opcode::IMul || op == Opcode::IDiv,
        ensures
            final(self).kept(old(self)),
            follows(arithmetic(old(self)@, op), r, final(self)@),
    {
        let right = match self.stack.pop_u32() {
            Ok(v) => v,
            Err(e) => return Err(e),
        };
        let left = match self.stack.pop_u32() {
            Ok(v) => v,
            Err(e) => return Err(e),
        };
        let v: Option<u32> = match op {
            Opcode::IAdd => left.checked_add(right),
            Opcode::ISub => left.checked_sub(right),
            Opcode::IMul => left.checked_mul(right),
            _ => {
                if right == 0 {
                    return Err(ExitStatus::DivideByZero);
                }
                assert(left / right <= left) by (nonlinear_arith)
                    requires
                        right > 0,
                ;
                left.checked_div(right)
            },
        };
        match v {
            Some(x) => self.stack.push_u32(x),
            None => Err(ExitStatus::ArithmeticOverflow),
        }
    }

    fn op_arithmetic64(&mut self, op: Opcode) -> (r: Result<(), ExitStatus>)
        requires
            old(self).sound(),
            op == Opcode::LAdd || op == Opcode::LSub || op == Opcode::LMul || op == Opcode::LDiv,
        ensures
            final(self).kept(old(self)),
            follows(arithmetic(old(self)@, op), r, final(self)@),
    {
        let right = match self.stack.pop_u64() {
            Ok(v) => v,
            Err(e) => return Err(e),
        };
        let left = match self.stack.pop_u64() {
            Ok(v) => v,
            Err(e) => return Err(e),
        };
        let v: Option<u64> = match op {
            Opcode::LAdd => left.checked_add(right),
            Opcode::LSub => left.checked_sub(right),
            Opcode::LMul => left.checked_mul(right),
            _ => {
                if right == 0 {
                    return Err(ExitStatus::DivideByZero);
                }
                assert(left / right <= left) by (nonlinear_arith)
                    requires
                        right > 0,
                ;
                left.checked_div(right)
            },
        };
        match v {
            Some(x) => self.stack.push_u64(x),
            None => Err(ExitStatus::ArithmeticOverflow),
        }
    }

    fn op_comparison32(&mut self, op: Opcode) -> (r: Result<(), ExitStatus>)
        requires
            old(self).sound(),
            op == Opcode::IEq || op == Opcode::IOrd || op == Opcode::IEqOrd,
        ensures
            final(self).kept(old(self)),
            follows(comparison(old(self)@, op), r, final(self)@),
    {
        let right = match self.stack.pop_u32() {
            Ok(v) => v,
            Err(e) => return Err(e),
        };
        let left = match self.stack.pop_u32() {
            Ok(v) => v,
            Err(e) => return Err(e),
        };
        let holds = match op {
            Opcode::IEq => left == right,
            Opcode::IOrd => left < right,
            _ => left <= right,
        };
        self.stack.push_u32(if holds { 1 } else { 0 })
    }

    fn op_comparison64(&mut self, op: Opcode) -> (r: Result<(), ExitStatus>)
        requires
            old(self).sound(),
            op == Opcode::LEq || op == Opcode::LOrd || op == Opcode::LEqOrd,
        ensures
            final(self).kept(old(self)),
            follows(comparison(old(self)@, op), r, final(self)@),
    {
        let right = match self.stack.pop_u64() {
            Ok(v) => v,
            Err(e) => return Err(e),
        };
        let left = match self.stack.pop_u64() {
            Ok(v) => v,
            Err(e) => return Err(e),
        };
        let holds = match op {
            Opcode::LEq => left == right,
            Opcode::LOrd => left < right,
            _ => left <= right,
        };
        self.stack.push_u32(if holds { 1 } else { 0 })
    }

    fn op_goto(&mut self) -> (r: Result<(), ExitStatus>)
        requires
            old(self).sound(),
        ensures
            final(self).kept(old(self)),
            follows(goto(old(self)@), r, final(self)@),
    {
        let u = match self.fetch_u16() {
            Ok(v) => v,
            Err(e) => return Err(e),
        };
        let pc = self.pc.position();
        let len = self.code.len();
        let target: usize = if u < 0x8000 {
            if (u as usize) > len - pc {
                return Err(ExitStatus::BytecodeAccessViolation);
            }
            pc + u as usize
        } else {
            let back = (0x10000u32 - u as u32) as usize;
            if back > pc {
                return Err(ExitStatus::BytecodeAccessViolation);
            }
            pc - back
        };
        self.pc.jump_to(target)
    }

    fn op_branch(&mut self) -> (r: Result<(), ExitStatus>)
        requires
            old(self).sound(),
        ensures
            final(self).kept(old(self)),
            follows(branch(old(self)@), r, final(self)@),
    {
        let cond = match self.stack.pop_u32() {
            Ok(v) => v,
            Err(e) => return Err(e),
        };
        if cond != 0 {
            self.op_goto()
        } else {
            match self.fetch_u16() {
                Ok(_) => Ok(()),
                Err(e) => Err(e),
            }
        }
    }

    fn op_host_call(&mut self) -> (r: Result<Vec<u8>, ExitStatus>)
        requires
            old(self).sound(),
        ensures
            final(self).kept(old(self)),
            match host_call(old(self)@) {
                Transition::Output(u, b) => r is Ok && r->Ok_0@ == b && final(self)@ == u,
                Transition::Halt(e) => r is Err && r->Err_0 == e,
                Transition::Next(_) => false,
            },
    {
        let code = match self.fetch_u8() {
            Ok(v) => v,
            Err(e) => return Err(e),
        };
        if code != 0 {
            return Err(ExitStatus::UnknownCallNumber);
        }
        self.stack.raw_top_bytes(WORD_SIZE)
    }

    fn op_ret(&mut self) -> (r: Result<(), ExitStatus>)
        requires
            old(self).sound(),
        ensures
            final(self).kept(old(self)),
            follows(ret(old(self)@), r, final(self)@),
    {
        proof {
            lemma_auto_spec_u64_to_from_le_bytes();
        }
        let sp = self.stack.sp();
        let bp = self.stack.bp();
        if (sp as u64) < bp || (sp as u64) - bp < FRAME_HEADER_SIZE as u64 {
            return Err(ExitStatus::StackAccessViolation);
        }
        let ghost st = self.stack@;
        let _ = self.stack.move_sp(bp as usize + FRAME_HEADER_SIZE);
        assert(self.stack@.sp == st.bp + 16);
        let target = match self.stack.unguarded_pop_u64() {
            Ok(v) => v,
            Err(e) => return Err(e),
        };
        assert(st.mem.subrange(st.bp + 16 - 8, st.bp + 16) =~= st.mem.subrange(st.bp + 8, st.bp + 16));
        assert(target == word_at(st.mem, st.bp + 8));
        if target > self.code.len() as u64 {
            return Err(ExitStatus::BytecodeAccessViolation);
        }
        let _ = self.pc.jump_to(target as usize);
        let saved = match self.stack.unguarded_pop_u64() {
            Ok(v) => v,
            Err(e) => return Err(e),
        };
        self.stack.set_bp(saved);
        assert(self.stack@ == (StackView { mem: st.mem, sp: st.bp, bp: word_at(st.mem, st.bp) }));
        Ok(())
    }

    fn op_invoke(&mut self) -> (r: Result<(), ExitStatus>)
        requires
            old(self).sound(),
        ensures
            final(self).kept(old(self)),
            follows(invoke(old(self)@), r, final(self)@),
    {
        proof {
            lemma_auto_spec_u64_to_from_le_bytes();
        }
        let ghost s0 = self@;
        let index = match self.fetch_u64() {
            Ok(v) => v,
            Err(e) => return Err(e),
        };
        let ghost s1 = self@;
        proof {
            let ib = s0.code.subrange(s0.pc, s0.pc + 8);
            assert(fetch(s0, 8) == Ok::<(MachineState, Seq<u8>), ExitStatus>((s1, ib)));
            assert(ib.len() == 8);
            assert(le_value(ib) == index as int);
        }
        let ret_addr = self.pc.position();
        let (start, vars, args) = match pool_descriptor(&self.code, index) {
            Ok(d) => d,
            Err(e) => return Err(e),
        };
        assert(descriptor(s0.code, index as int) == Ok::<(int, int, int), ExitStatus>(
            (start as int, vars as int, args as int),
        ));
        let arg_len: usize = 4 * (args as usize);
        let sp = self.stack.sp();
        let bp = self.stack.bp();
        if vars < args as u16 || (sp as u64) < bp || (sp as u64) - bp < FRAME_HEADER_SIZE as u64
            || (sp as u64) - bp - (FRAME_HEADER_SIZE as u64) < arg_len as u64 {
            return Err(ExitStatus::StackAccessViolation);
        }
        let arg_bytes = match self.stack.pop_bytes(arg_len) {
            Ok(b) => b,
            Err(e) => return Err(e),
        };
        let base = self.stack.sp();
        match self.stack.push_u64(bp) {
            Ok(_) => {},
            Err(e) => return Err(e),
        }
        self.stack.set_bp(base as u64);
        match self.stack.push_u64(ret_addr as u64) {
            Ok(_) => {},
            Err(e) => return Err(e),
        }
        match self.stack.push_bytes(arg_bytes.as_slice()) {
            Ok(_) => {},
            Err(e) => return Err(e),
        }
        let reserve: usize = 4 * ((vars - args as u16) as usize);
        let top = self.stack.sp();
        if reserve > self.stack.capacity() - top {
            return Err(ExitStatus::StackAccessViolation);
        }
        let _ = self.stack.move_sp(top + reserve);
        if start > self.code.len() as u64 {
            return Err(ExitStatus::BytecodeAccessViolation);
        }
        let _ = self.pc.jump_to(start as usize);
        Ok(())
    }
}

} // verus!
