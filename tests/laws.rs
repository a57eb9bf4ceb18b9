use chesvm::runtime::{Interpreter, StepResult, STACK_CAPACITY};
use chesvm::stack::OperandStack;
use chesvm::status::ExitStatus;

const MAGIC: [u8; 8] = [0x43, 0x48, 0x45, 0x53, 0x43, 0x43, 0x42, 0x43];

fn container(funcs: &[(u16, u8, Vec<u8>)], entry: u64) -> Vec<u8> {
    let mut c = vec![0u8; 128];
    c[..8].copy_from_slice(&MAGIC);
    c.extend_from_slice(&entry.to_le_bytes());
    let n = funcs.len();
    let desc = 136 + 8 * n;
    let code_start = desc + 11 * n;
    for i in 0..n {
        c.extend_from_slice(&((desc + 11 * i) as u64).to_le_bytes());
    }
    let mut start = code_start;
    for (vars, args, body) in funcs {
        c.extend_from_slice(&(start as u64).to_le_bytes());
        c.extend_from_slice(&vars.to_le_bytes());
        c.push(*args);
        start += body.len();
    }
    for (_, _, body) in funcs {
        c.extend_from_slice(body);
    }
    c.push(0x01);
    c
}

/// A stack holding one frame header, so that pops have room above the guard.
fn framed_stack() -> OperandStack {
    let mut st = OperandStack::new(64);
    st.push_u64(0).unwrap();
    st.push_u64(0).unwrap();
    st
}

#[test]
fn invariant_holds_at_every_cycle() {
    let callee = vec![0x0d, 0, 0, 0x0d, 1, 0, 0x11, 0x0b, 0x04];
    let mut caller = vec![0x07, 7, 0, 0, 0, 0x07, 9, 0, 0, 0, 0x03];
    caller.extend_from_slice(&0u64.to_le_bytes());
    caller.push(0x01);
    let bytes = container(&[(3, 2, callee), (0, 0, caller)], 1);
    let mut vm = Interpreter::start(bytes, STACK_CAPACITY).unwrap();
    loop {
        assert!(vm.bp() as usize <= vm.sp());
        assert!(vm.sp() <= vm.stack_capacity());
        match vm.step() {
            StepResult::Halted(e) => {
                assert_eq!(e, ExitStatus::Success);
                break;
            },
            _ => {},
        }
    }
}

#[test]
fn return_restores_caller_frame() {
    // callee: two arguments, three local slots; returns at once.
    let callee = vec![0x04];
    let mut caller = vec![0x07, 7, 0, 0, 0, 0x07, 9, 0, 0, 0, 0x03];
    caller.extend_from_slice(&0u64.to_le_bytes());
    caller.push(0x01);
    let bytes = container(&[(3, 2, callee), (0, 0, caller)], 1);
    let mut vm = Interpreter::start(bytes, STACK_CAPACITY).unwrap();
    assert!(matches!(vm.step(), StepResult::Running));
    assert!(matches!(vm.step(), StepResult::Running));
    let (bp, sp, pc) = (vm.bp(), vm.sp(), vm.pc());
    assert_eq!(sp, 24);
    assert!(matches!(vm.step(), StepResult::Running));
    // The new frame starts where the arguments began; its locals are reserved.
    assert_eq!(vm.bp(), 16);
    assert_eq!(vm.sp(), 16 + 16 + 3 * 4);
    assert!(matches!(vm.step(), StepResult::Running));
    assert_eq!(vm.bp(), bp);
    assert_eq!(vm.sp(), sp - 2 * 4);
    assert_eq!(vm.pc(), pc + 9);
    assert!(matches!(vm.step(), StepResult::Halted(ExitStatus::Success)));
}

fn sp_change(body: Vec<u8>, steps_before: usize) -> isize {
    let mut vm = Interpreter::start(container(&[(0, 0, body)], 0), STACK_CAPACITY).unwrap();
    for _ in 0..steps_before {
        assert!(matches!(vm.step(), StepResult::Running));
    }
    let before = vm.sp() as isize;
    assert!(matches!(vm.step(), StepResult::Running));
    vm.sp() as isize - before
}

fn lpush(v: u64) -> Vec<u8> {
    let mut b = vec![0x08];
    b.extend_from_slice(&v.to_le_bytes());
    b
}

#[test]
fn arithmetic_shrinks_stack_by_operand_width() {
    for op in [0x11u8, 0x13, 0x15, 0x17] {
        let body = vec![0x07, 9, 0, 0, 0, 0x07, 3, 0, 0, 0, op, 0x01];
        assert_eq!(sp_change(body, 2), -4);
    }
    for op in [0x12u8, 0x14, 0x16, 0x18] {
        let mut body = lpush(9);
        body.extend(lpush(3));
        body.push(op);
        body.push(0x01);
        assert_eq!(sp_change(body, 2), -8);
    }
}

#[test]
fn comparison_shrinks_stack() {
    for op in [0x19u8, 0x1b, 0x1d] {
        let body = vec![0x07, 9, 0, 0, 0, 0x07, 3, 0, 0, 0, op, 0x01];
        assert_eq!(sp_change(body, 2), -4);
    }
    for op in [0x1au8, 0x1c, 0x1e] {
        let mut body = lpush(9);
        body.extend(lpush(3));
        body.push(op);
        body.push(0x01);
        assert_eq!(sp_change(body, 2), -12);
    }
}

#[test]
fn push_then_pop_round_trip() {
    let mut st = framed_stack();
    let sp = st.sp();
    st.push_u32(0xdead_beef).unwrap();
    assert_eq!(st.pop_u32(), Ok(0xdead_beef));
    assert_eq!(st.sp(), sp);
    st.push_u64(u64::MAX - 5).unwrap();
    assert_eq!(st.pop_u64(), Ok(u64::MAX - 5));
    assert_eq!(st.sp(), sp);
    assert_eq!(st.bp(), 0);
}

#[test]
fn push_dup_pop_is_push() {
    let mut st = framed_stack();
    st.push_u32(42).unwrap();
    let sp = st.sp();
    let top = st.top_u32().unwrap();
    st.push_u32(top).unwrap();
    assert_eq!(st.pop_u32(), Ok(42));
    assert_eq!(st.sp(), sp);
    assert_eq!(st.top_u32(), Ok(42));
    // The same through the interpreter: IPUSH 42; DUP; POP.
    let body = vec![0x07, 42, 0, 0, 0, 0x09, 0x0b, 0x01];
    let mut vm = Interpreter::start(container(&[(0, 0, body)], 0), STACK_CAPACITY).unwrap();
    vm.step();
    let after_push = vm.sp();
    vm.step();
    vm.step();
    assert_eq!(vm.sp(), after_push);
}

#[test]
fn store_then_load() {
    let mut st = framed_stack();
    st.push_u32(5).unwrap();
    st.push_u32(9).unwrap();
    let sp = st.sp();
    let v = st.pop_u32().unwrap();
    st.store(0, &v.to_le_bytes()).unwrap();
    st.load(0, 4).unwrap();
    assert_eq!(st.top_u32(), Ok(9));
    assert_eq!(st.sp(), sp);
}

#[test]
fn nested_calls_restore_each_frame() {
    // f0(a): pushes a, calls f1 with it, returns. f1(x): stores x + 1 in a local, returns.
    let mut f0 = vec![0x0d, 0, 0, 0x03];
    f0.extend_from_slice(&1u64.to_le_bytes());
    f0.push(0x04);
    let f1 = vec![0x0d, 0, 0, 0x05, 1, 0x11, 0x0f, 1, 0, 0x04];
    let mut main = vec![0x07, 5, 0, 0, 0, 0x03];
    main.extend_from_slice(&0u64.to_le_bytes());
    main.push(0x01);
    let bytes = container(&[(1, 1, f0), (2, 1, f1), (0, 0, main)], 2);
    let mut vm = Interpreter::start(bytes, STACK_CAPACITY).unwrap();
    // Before each call, remember the caller's frame; after each return, compare.
    let mut frames: Vec<(u64, usize)> = Vec::new();
    loop {
        let pc = vm.pc();
        let (bp, sp) = (vm.bp(), vm.sp());
        let r = vm.step();
        if let StepResult::Halted(e) = r {
            assert_eq!(e, ExitStatus::Success);
            break;
        }
        if vm.bp() > bp && vm.pc() != pc + 9 {
            // A call: the new frame starts where the single argument began.
            assert_eq!(vm.bp() as usize, sp - 4);
            frames.push((bp, sp - 4));
        } else if vm.bp() < bp {
            let (caller_bp, caller_sp) = frames.pop().unwrap();
            assert_eq!(vm.bp(), caller_bp);
            assert_eq!(vm.sp(), caller_sp);
        }
    }
    assert!(frames.is_empty());
}
