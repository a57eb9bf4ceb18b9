use chesvm::bytecode::{
    entry_point_address, magic_number, pool_descriptor, Bytecode, BytecodeRange, HeaderItem,
    RuntimeError,
};
use chesvm::cursor::Cursor;
use chesvm::opcode::Opcode;
use chesvm::runtime::Interpreter;
use chesvm::status::ExitStatus;
use chesvm::ChesVM;

fn header() -> Vec<u8> {
    let mut c = vec![0u8; 128];
    c[..8].copy_from_slice(&[0x43, 0x48, 0x45, 0x53, 0x43, 0x43, 0x42, 0x43]);
    c[8..16].copy_from_slice(b"codename");
    c[16..19].copy_from_slice(&[1, 0, 0]);
    c
}

#[test]
fn status_codes_round_trip() {
    for v in 0u32..=10 {
        assert_eq!(ExitStatus::from(v).code(), v);
    }
    assert_eq!(ExitStatus::from(42), ExitStatus::Unknown);
    assert_eq!(ExitStatus::from(6), ExitStatus::ArithmeticOverflow);
    assert_eq!(ExitStatus::DivideByZero.code(), 7);
    assert_eq!(ExitStatus::Success.name(), "SUCCESS");
    assert_eq!(ExitStatus::StackAccessViolation.name(), "STACK_ACCESS_VIOLATION");
}

#[test]
fn opcode_table() {
    assert_eq!(Opcode::from(0x00), Opcode::Nop);
    assert_eq!(Opcode::from(0x03), Opcode::Invoke);
    assert_eq!(Opcode::from(0x11), Opcode::IAdd);
    assert_eq!(Opcode::from(0x20), Opcode::If);
    assert_eq!(Opcode::from(0x21), Opcode::Unknown);
    for b in 0u8..=0x20 {
        assert_eq!(Opcode::from(b).byte(), Some(b));
    }
    assert_eq!(Opcode::Unknown.byte(), None);
    assert_eq!(Opcode::IEqOrd.mnemonic(), "ieqord");
    assert_eq!(Opcode::Dup2.mnemonic(), "dup2");
}

#[test]
fn hex_listing() {
    assert_eq!(Bytecode::bytes_to_string(&vec![0x0a, 0xff, 0x00, 0x43]), "0a ff 00 43");
    assert_eq!(Bytecode::bytes_to_string(&vec![]), "");
    assert_eq!(Bytecode::bytes_to_string(&vec![7]), "07");
}

#[test]
fn header_fields() {
    let code = Bytecode::new(header());
    assert_eq!(code.len(), 128);
    let r = HeaderItem::CodeName.get_bytecode_range();
    assert_eq!((r.begin, r.len), (8, 8));
    assert_eq!(code.get_bytes(r), Ok(b"codename".to_vec()));
    let r = HeaderItem::ChesVersion.get_bytecode_range();
    assert_eq!(code.get_bytes(r), Ok(vec![1, 0, 0]));
    assert!(code.match_bytes(HeaderItem::MagicNumber.get_bytecode_range(), &magic_number()));
    assert!(!code.match_bytes(BytecodeRange::new(8, 8), &magic_number()));
    assert_eq!(code.get_bytes(BytecodeRange::new(120, 9)), Err(RuntimeError::IndexOutOfBytecodeRange));
    assert!(!code.match_bytes(BytecodeRange::new(usize::MAX, 2), &vec![0, 0]));
    assert_eq!(code.validate(), Ok(()));
    assert_eq!(Bytecode::new(vec![0; 128]).validate(), Err(ExitStatus::InvalidMagicNumber));
    assert_eq!(Bytecode::new(vec![0; 12]).validate(), Err(ExitStatus::InvalidHeaderSize));
    assert_eq!(*code.into_vec(), header());
}

#[test]
fn cursor_reads_little_endian() {
    let bytes = vec![0x01, 0x02, 0x03, 0x04, 0x05, 0x06, 0x07, 0x08, 0x09];
    let mut c = Cursor::new(bytes.len());
    assert_eq!(c.position(), 0);
    assert_eq!(c.limit(), 9);
    assert_eq!(c.next_u8(&bytes), Ok(0x01));
    assert_eq!(c.next_u16(&bytes), Ok(0x0302));
    assert_eq!(c.next_u32(&bytes), Ok(0x0706_0504));
    assert_eq!(c.position(), 7);
    assert_eq!(c.next_u64(&bytes), Err(ExitStatus::BytecodeAccessViolation));
    assert_eq!(c.position(), 7);
    assert_eq!(c.jump_to(10), Err(ExitStatus::BytecodeAccessViolation));
    assert_eq!(c.jump_to(1), Ok(()));
    assert_eq!(c.next_u64(&bytes), Ok(0x0908_0706_0504_0302));
}

fn program(body: Vec<u8>) -> Vec<u8> {
    let mut c = header();
    c.extend_from_slice(&0u64.to_le_bytes());
    c.extend_from_slice(&144u64.to_le_bytes());
    c.extend_from_slice(&155u64.to_le_bytes());
    c.extend_from_slice(&[0, 0, 0]);
    c.extend_from_slice(&body);
    c.push(0x01);
    c
}

fn lpush(v: u64) -> Vec<u8> {
    let mut b = vec![0x08];
    b.extend_from_slice(&v.to_le_bytes());
    b
}

fn result_of(a: u64, b: u64, op: u8) -> (Option<ExitStatus>, Vec<u8>) {
    let mut body = lpush(a);
    body.extend(lpush(b));
    body.extend_from_slice(&[op, 0x02, 0x00, 0x01]);
    let r = Interpreter::launch(program(body), 100);
    (r.status, r.output)
}

#[test]
fn arithmetic_results() {
    assert_eq!(result_of(7, 3, 0x14), (Some(ExitStatus::Success), 4u64.to_le_bytes().to_vec()));
    assert_eq!(result_of(7, 3, 0x12), (Some(ExitStatus::Success), 10u64.to_le_bytes().to_vec()));
    assert_eq!(result_of(7, 3, 0x16), (Some(ExitStatus::Success), 21u64.to_le_bytes().to_vec()));
    assert_eq!(result_of(7, 2, 0x18), (Some(ExitStatus::Success), 3u64.to_le_bytes().to_vec()));
    assert_eq!(result_of(3, 7, 0x14).0, Some(ExitStatus::ArithmeticOverflow));
    assert_eq!(result_of(u64::MAX, 2, 0x16).0, Some(ExitStatus::ArithmeticOverflow));
    assert_eq!(result_of(u64::MAX, 1, 0x12).0, Some(ExitStatus::ArithmeticOverflow));
}

#[test]
fn comparison_results() {
    // The flag is a 32-bit word; the host call shows it with the word below it.
    let flag = |a: u64, b: u64, op: u8| {
        let mut body = vec![0x07, 0xaa, 0xaa, 0xaa, 0xaa];
        body.extend(lpush(a));
        body.extend(lpush(b));
        body.extend_from_slice(&[op, 0x02, 0x00, 0x01]);
        let r = Interpreter::launch(program(body), 100);
        assert_eq!(r.status, Some(ExitStatus::Success));
        u32::from_le_bytes([r.output[4], r.output[5], r.output[6], r.output[7]])
    };
    assert_eq!(flag(3, 7, 0x1c), 1);
    assert_eq!(flag(7, 3, 0x1c), 0);
    assert_eq!(flag(7, 7, 0x1c), 0);
    assert_eq!(flag(7, 7, 0x1e), 1);
    assert_eq!(flag(7, 7, 0x1a), 1);
    assert_eq!(flag(7, 8, 0x1a), 0);
}

#[test]
fn small_pushes_widen_to_words() {
    // BPUSH 0xfe; SPUSH 0x1234; CALL 0
    let body = vec![0x05, 0xfe, 0x06, 0x34, 0x12, 0x02, 0x00, 0x01];
    let r = Interpreter::launch(program(body), 100);
    assert_eq!(r.status, Some(ExitStatus::Success));
    assert_eq!(r.output, vec![0xfe, 0, 0, 0, 0x34, 0x12, 0, 0]);
}

#[test]
fn machine_handle() {
    assert_eq!(ChesVM::new(), ChesVM {});
}

#[test]
fn pool_entries() {
    let code = program(vec![0x01]);
    assert_eq!(entry_point_address(&code), Ok(155));
    assert_eq!(pool_descriptor(&code, 0), Ok((155, 0, 0)));
    assert_eq!(pool_descriptor(&code, 1), Err(ExitStatus::BytecodeAccessViolation));
    assert_eq!(pool_descriptor(&code, u64::MAX), Err(ExitStatus::BytecodeAccessViolation));
    assert_eq!(entry_point_address(&header()), Err(ExitStatus::BytecodeAccessViolation));
    assert_eq!(entry_point_address(&vec![0; 4]), Err(ExitStatus::BytecodeAccessViolation));
}
