use chesvm::runtime::{Interpreter, StepResult, STACK_CAPACITY};
use chesvm::status::ExitStatus;

const MAGIC: [u8; 8] = [0x43, 0x48, 0x45, 0x53, 0x43, 0x43, 0x42, 0x43];

/// Builds a container: header, entry-point word, slot table, descriptors
/// `(local slots, arguments, body)`, the bodies, and a final EXIT byte.
fn container(funcs: &[(u16, u8, Vec<u8>)], entry: u64) -> Vec<u8> {
    let mut c = vec![0u8; 128];
    c[..8].copy_from_slice(&MAGIC);
    c[8..16].copy_from_slice(b"testcode");
    c[16] = 1;
    c.extend_from_slice(&entry.to_le_bytes());
    let n = funcs.len();
    let desc = 136 + 8 * n;
    let code_start = desc + 11 * n;
    for i in 0..n {
        c.extend_from_slice(&((desc + 11 * i) as u64).to_le_bytes());
    }
    let mut start = code_start;
    for (vars, args, body) in funcs {
        c.extend_from_slice(&(start as u64).to_le_bytes());
        c.extend_from_slice(&vars.to_le_bytes());
        c.push(*args);
        start += body.len();
    }
    for (_, _, body) in funcs {
        c.extend_from_slice(body);
    }
    c.push(0x01);
    c
}

fn program(body: Vec<u8>) -> Vec<u8> {
    container(&[(0, 0, body)], 0)
}

fn run_to_end(bytes: Vec<u8>) -> (ExitStatus, Interpreter) {
    let mut vm = Interpreter::start(bytes, STACK_CAPACITY).expect("container loads");
    for _ in 0..10_000 {
        if let StepResult::Halted(e) = vm.step() {
            return (e, vm);
        }
    }
    panic!("program did not stop");
}

#[test]
fn trivial_exit() {
    let r = Interpreter::launch(program(vec![0x01]), 100);
    assert_eq!(r.status, Some(ExitStatus::Success));
    assert!(r.output.is_empty());
}

#[test]
fn push_add_pop() {
    let body = vec![0x07, 2, 0, 0, 0, 0x07, 3, 0, 0, 0, 0x11, 0x0b, 0x01];
    let r = Interpreter::launch(program(body.clone()), 100);
    assert_eq!(r.status, Some(ExitStatus::Success));
    let (status, vm) = run_to_end(program(body));
    assert_eq!(status, ExitStatus::Success);
    // Only the entry frame's header (saved base pointer and return address) is left.
    assert_eq!(vm.bp(), 0);
    assert_eq!(vm.sp(), 16);
}

#[test]
fn iadd_overflow() {
    let body = vec![0x07, 0xff, 0xff, 0xff, 0xff, 0x07, 1, 0, 0, 0, 0x11];
    let r = Interpreter::launch(program(body), 100);
    assert_eq!(r.status, Some(ExitStatus::ArithmeticOverflow));
}

#[test]
fn idiv_by_zero() {
    let body = vec![0x07, 1, 0, 0, 0, 0x07, 0, 0, 0, 0, 0x17];
    let r = Interpreter::launch(program(body), 100);
    assert_eq!(r.status, Some(ExitStatus::DivideByZero));
}

#[test]
fn ldiv_by_zero() {
    let mut body = vec![0x08];
    body.extend_from_slice(&u64::MAX.to_le_bytes());
    body.push(0x08);
    body.extend_from_slice(&0u64.to_le_bytes());
    body.push(0x18);
    let r = Interpreter::launch(program(body), 100);
    assert_eq!(r.status, Some(ExitStatus::DivideByZero));
}

#[test]
fn invoke_and_return() {
    let callee = vec![0x0d, 0, 0, 0x0b, 0x04];
    let mut caller = vec![0x07, 7, 0, 0, 0, 0x03];
    caller.extend_from_slice(&0u64.to_le_bytes());
    caller.push(0x01);
    let bytes = container(&[(1, 1, callee), (0, 0, caller)], 1);
    let r = Interpreter::launch(bytes, 100);
    assert_eq!(r.status, Some(ExitStatus::Success));
}

#[test]
fn unknown_opcode() {
    for b in [0x21u8, 0x7f, 0xff] {
        let r = Interpreter::launch(program(vec![0x00, b]), 100);
        assert_eq!(r.status, Some(ExitStatus::UnknownOpcode));
    }
}

#[test]
fn short_container() {
    let r = Interpreter::launch(vec![0x43; 127], 100);
    assert_eq!(r.status, Some(ExitStatus::InvalidHeaderSize));
    let r = Interpreter::launch(Vec::new(), 100);
    assert_eq!(r.status, Some(ExitStatus::InvalidHeaderSize));
    assert!(matches!(Interpreter::start(vec![0; 10], 1024), Err(ExitStatus::InvalidHeaderSize)));
}

#[test]
fn bad_magic() {
    let mut bytes = program(vec![0x01]);
    bytes[3] = 0x00;
    let r = Interpreter::launch(bytes, 100);
    assert_eq!(r.status, Some(ExitStatus::InvalidMagicNumber));
}

#[test]
fn if_zero_falls_through() {
    // IPUSH 0; IF +100; EXIT
    let body = vec![0x07, 0, 0, 0, 0, 0x20, 100, 0, 0x01];
    let mut vm = Interpreter::start(program(body.clone()), STACK_CAPACITY).unwrap();
    assert!(matches!(vm.step(), StepResult::Running));
    let pc = vm.pc();
    let sp = vm.sp();
    assert!(matches!(vm.step(), StepResult::Running));
    assert_eq!(vm.pc(), pc + 3);
    assert_eq!(vm.sp(), sp - 4);
    assert_eq!(Interpreter::launch(program(body), 100).status, Some(ExitStatus::Success));
}

#[test]
fn if_nonzero_jumps() {
    // IPUSH 1; IF +1; (skipped) byte 0x21; EXIT
    let body = vec![0x07, 1, 0, 0, 0, 0x20, 1, 0, 0x21, 0x01];
    assert_eq!(Interpreter::launch(program(body), 100).status, Some(ExitStatus::Success));
}

#[test]
fn counting_loop() {
    // BPUSH 3; L: BPUSH 1; ISUB; DUP; IF L; POP; EXIT
    let body = vec![0x05, 3, 0x05, 1, 0x13, 0x09, 0x20, 0xf9, 0xff, 0x0b, 0x01];
    let (status, vm) = run_to_end(program(body));
    assert_eq!(status, ExitStatus::Success);
    assert_eq!(vm.sp(), 16);
}

#[test]
fn host_call_writes_top_word() {
    let mut body = vec![0x08];
    body.extend_from_slice(&0x1122_3344_5566_7788u64.to_le_bytes());
    body.extend_from_slice(&[0x02, 0x00, 0x0c, 0x01]);
    let r = Interpreter::launch(program(body), 100);
    assert_eq!(r.status, Some(ExitStatus::Success));
    assert_eq!(r.output, 0x1122_3344_5566_7788u64.to_le_bytes().to_vec());
}

#[test]
fn unknown_call_number() {
    let r = Interpreter::launch(program(vec![0x02, 0x01]), 100);
    assert_eq!(r.status, Some(ExitStatus::UnknownCallNumber));
}

#[test]
fn bytecode_access_violation() {
    // GOTO far past the end.
    let r = Interpreter::launch(program(vec![0x1f, 0x00, 0x40]), 100);
    assert_eq!(r.status, Some(ExitStatus::BytecodeAccessViolation));
    // GOTO before the start of the container.
    let r = Interpreter::launch(program(vec![0x1f, 0x00, 0x80]), 100);
    assert_eq!(r.status, Some(ExitStatus::BytecodeAccessViolation));
    // An operand cut off by the end of the container.
    let mut bytes = program(vec![]);
    bytes.pop();
    bytes.push(0x07);
    bytes.push(0x01);
    let r = Interpreter::launch(bytes, 100);
    assert_eq!(r.status, Some(ExitStatus::BytecodeAccessViolation));
}

#[test]
fn stack_overflow() {
    let body = vec![0x07, 1, 0, 0, 0, 0x07, 2, 0, 0, 0, 0x01];
    let mut vm = Interpreter::start(program(body), 20).unwrap();
    assert!(matches!(vm.step(), StepResult::Running));
    assert!(matches!(vm.step(), StepResult::Halted(ExitStatus::StackOverflow)));
    assert_eq!(vm.status(), Some(ExitStatus::StackOverflow));
    assert!(matches!(vm.step(), StepResult::Halted(ExitStatus::StackOverflow)));
    assert!(matches!(Interpreter::start(program(vec![0x01]), 8), Err(ExitStatus::StackOverflow)));
}

#[test]
fn stack_access_violation() {
    let r = Interpreter::launch(program(vec![0x0b]), 100);
    assert_eq!(r.status, Some(ExitStatus::StackAccessViolation));
    let r = Interpreter::launch(program(vec![0x0d, 0, 0]), 100);
    assert_eq!(r.status, Some(ExitStatus::StackAccessViolation));
}

#[test]
fn entry_point_out_of_range() {
    let mut bytes = program(vec![0x01]);
    bytes[128..136].copy_from_slice(&1000u64.to_le_bytes());
    let r = Interpreter::launch(bytes, 100);
    assert_eq!(r.status, Some(ExitStatus::BytecodeAccessViolation));
}

#[test]
fn return_to_sentinel_ends_with_exit() {
    let r = Interpreter::launch(program(vec![0x04]), 100);
    assert_eq!(r.status, Some(ExitStatus::Success));
}

#[test]
fn step_budget_runs_out() {
    // GOTO -3: jumps to itself forever.
    let r = Interpreter::launch(program(vec![0x1f, 0xfd, 0xff]), 50);
    assert_eq!(r.status, None);
}
