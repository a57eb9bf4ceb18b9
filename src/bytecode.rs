//! The container format: a fixed header, a constant pool and an instruction region.

use vstd::prelude::*;
use vstd::string::StringExecFns;
use crate::cursor::Cursor;
use crate::semantics::{descriptor, entry_point};
use crate::status::ExitStatus;

verus! {

/// Size in bytes of the fixed header that starts every container.
pub const HEADER_SIZE: usize = 128;

/// First byte of the constant pool; its first word names the entry-point function.
pub const POOL_OFFSET: usize = 128;

/// First byte of the pool's slot table, just after the entry-point word.
pub const POOL_TABLE_OFFSET: usize = 136;

/// Width of one slot of the pool's table: the absolute address of a descriptor.
pub const POOL_SLOT_SIZE: usize = 8;

/// Width of a function descriptor: start (8 bytes), local slots (2), arguments (1).
pub const DESCRIPTOR_SIZE: usize = 11;

/// The magic number `CHESCCBC` that opens every container.
pub open spec fn magic() -> Seq<u8> {
    seq![0x43u8, 0x48u8, 0x45u8, 0x53u8, 0x43u8, 0x43u8, 0x42u8, 0x43u8]
}

/// The magic number as bytes.
pub fn magic_number() -> (r: Vec<u8>)
    ensures
        r@ == magic(),
{
    let r: Vec<u8> = vec![0x43u8, 0x48u8, 0x45u8, 0x53u8, 0x43u8, 0x43u8, 0x42u8, 0x43u8];
    assert(r@ =~= magic());
    r
}

/// The version of the container format that this machine reads.
pub fn current_ches_version() -> (r: (usize, usize, usize))
    ensures
        r == (1usize, 0usize, 0usize),
{
    (1, 0, 0)
}

/// Errors of the container reader.
#[derive(Clone, Copy, Debug, PartialEq, Eq, Structural)]
pub enum RuntimeError {
    IndexOutOfBytecodeRange,
}

pub type RuntimeResult<T> = Result<T, RuntimeError>;

/// A byte range of a container: `len` bytes from `begin`.
#[derive(Clone, Copy, Debug, PartialEq, Eq, Structural)]
pub struct BytecodeRange {
    pub begin: usize,
    pub len: usize,
}

impl BytecodeRange {
    pub fn new(begin: usize, len: usize) -> (r: BytecodeRange)
        ensures
            r.begin == begin,
            r.len == len,
    {
        BytecodeRange { begin: begin, len: len }
    }
}

/// The named fields of the header.
#[derive(Clone, Copy, Debug, PartialEq, Eq, Structural)]
pub enum HeaderItem {
    MagicNumber,
    CodeName,
    ChesVersion,
}

impl HeaderItem {
    pub open spec fn spec_range(self) -> (int, int) {
        match self {
            HeaderItem::MagicNumber => (0, 8),
            HeaderItem::CodeName => (8, 8),
            HeaderItem::ChesVersion => (16, 3),
        }
    }

    /// Where the field lies in the header.
    pub fn get_bytecode_range(&self) -> (r: BytecodeRange)
        ensures
            (r.begin as int, r.len as int) == self.spec_range(),
    {
        let (begin, len): (usize, usize) = match self {
            HeaderItem::MagicNumber => (0, 8),
            HeaderItem::CodeName => (8, 8),
            HeaderItem::ChesVersion => (16, 3),
        };
        BytecodeRange::new(begin, len)
    }
}

/// The lower-case hexadecimal digit of `d` (taken modulo 16).
pub open spec fn hex_digit(d: int) -> char {
    let d = d % 16;
    if d < 10 {
        (('0' as int) + d) as char
    } else {
        (('a' as int) + d - 10) as char
    }
}

/// A byte as exactly two lower-case hexadecimal digits.
pub open spec fn hex_pair(b: u8) -> Seq<char> {
    seq![hex_digit(b as int / 16), hex_digit(b as int % 16)]
}

/// Bytes as two-digit hexadecimal pairs separated by single spaces.
pub open spec fn hex_listing(bytes: Seq<u8>) -> Seq<char>
    decreases bytes.len(),
{
    if bytes.len() == 0 {
        Seq::empty()
    } else if bytes.len() == 1 {
        hex_pair(bytes[0])
    } else {
        hex_listing(bytes.drop_last()) + seq![' '] + hex_pair(bytes.last())
    }
}

fn hex_digit_str(d: u8) -> (r: &'static str)
    requires
        d < 16,
    ensures
        r@ == seq![hex_digit(d as int)],
{
    proof {
        reveal_strlit("0");
        reveal_strlit("1");
        reveal_strlit("2");
        reveal_strlit("3");
        reveal_strlit("4");
        reveal_strlit("5");
        reveal_strlit("6");
        reveal_strlit("7");
        reveal_strlit("8");
        reveal_strlit("9");
        reveal_strlit("a");
        reveal_strlit("b");
        reveal_strlit("c");
        reveal_strlit("d");
        reveal_strlit("e");
        reveal_strlit("f");
    }
    let r = match d {
        0 => "0",
        1 => "1",
        2 => "2",
        3 => "3",
        4 => "4",
        5 => "5",
        6 => "6",
        7 => "7",
        8 => "8",
        9 => "9",
        10 => "a",
        11 => "b",
        12 => "c",
        13 => "d",
        14 => "e",
        _ => "f",
    };
    assert(r@ =~= seq![hex_digit(d as int)]);
    r
}

/// A container held in memory.
pub struct Bytecode {
    bytes: Box<Vec<u8>>,
}

impl View for Bytecode {
    type V = Seq<u8>;

    closed spec fn view(&self) -> Seq<u8> {
        self.bytes@
    }
}

/// Whether `bytes` is long enough to hold the header and starts with the magic number.
pub open spec fn header_status(bytes: Seq<u8>) -> Result<(), ExitStatus> {
    if bytes.len() < HEADER_SIZE {
        Err(ExitStatus::InvalidHeaderSize)
    } else if bytes.subrange(0, 8) != magic() {
        Err(ExitStatus::InvalidMagicNumber)
    } else {
        Ok(())
    }
}

impl Bytecode {
    pub fn new(bytes: Vec<u8>) -> (r: Bytecode)
        ensures
            r@ == bytes@,
    {
        Bytecode { bytes: Box::new(bytes) }
    }

    pub fn len(&self) -> (r: usize)
        ensures
            r == self@.len(),
    {
        self.bytes.len()
    }

    pub fn into_vec(self) -> (r: Box<Vec<u8>>)
        ensures
            r@ == self@,
    {
        self.bytes
    }

    /// Bytes as two-digit lower-case hexadecimal pairs separated by spaces.
    pub fn bytes_to_string(bytes: &Vec<u8>) -> (r: String)
        ensures
            r@ == hex_listing(bytes@),
    {
        proof {
            reveal_strlit(" ");
        }
        let mut s = String::new();
        let mut i: usize = 0;
        while i < bytes.len()
            invariant
                i <= bytes.len(),
                s@ == hex_listing(bytes@.subrange(0, i as int)),
            decreases bytes.len() - i,
        {
            let b = bytes[i];
            let ghost prev = s@;
            proof {
                reveal_strlit(" ");
                assert(" "@ =~= seq![' ']);
            }
            if i > 0 {
                s.append(" ");
            }
            let ghost mid = s@;
            s.append(hex_digit_str(b / 16));
            s.append(hex_digit_str(b % 16));
            proof {
                let next = bytes@.subrange(0, i + 1);
                assert(next.drop_last() =~= bytes@.subrange(0, i as int));
                assert(next.last() == b);
                assert(s@ =~= mid + hex_pair(b));
                if i == 0 {
                    assert(bytes@.subrange(0, 0) =~= Seq::<u8>::empty());
                    assert(mid =~= Seq::<char>::empty());
                    assert(next.len() == 1);
                    assert(s@ =~= hex_listing(next));
                } else {
                    assert(mid =~= prev + seq![' ']);
                    assert(s@ =~= hex_listing(next));
                }
            }
            i = i + 1;
        }
        assert(bytes@.subrange(0, bytes.len() as int) =~= bytes@);
        s
    }

    /// The bytes of `range`, or an error when it does not lie within the container.
    pub fn get_bytes(&self, range: BytecodeRange) -> (r: RuntimeResult<Vec<u8>>)
        ensures
            range.begin + range.len > self@.len() ==> r == Err::<Vec<u8>, RuntimeError>(
                RuntimeError::IndexOutOfBytecodeRange,
            ),
            range.begin + range.len <= self@.len() ==> r is Ok && r->Ok_0@ == self@.subrange(
                range.begin as int,
                range.begin + range.len,
            ),
    {
        let n = self.bytes.len();
        if range.begin > n || range.len > n - range.begin {
            Err(RuntimeError::IndexOutOfBytecodeRange)
        } else {
            let end = range.begin + range.len;
            let slice = vstd::slice::slice_subrange(self.bytes.as_slice(), range.begin, end);
            let v = vstd::slice::slice_to_vec(slice);
            Ok(v)
        }
    }

    /// Whether `range` lies within the container and holds exactly `pattern`.
    pub fn match_bytes(&self, range: BytecodeRange, pattern: &Vec<u8>) -> (r: bool)
        ensures
            r == (range.begin + range.len <= self@.len() && self@.subrange(
                range.begin as int,
                range.begin + range.len,
            ) == pattern@),
    {
        match self.get_bytes(range) {
            Ok(v) => {
                let eq = bytes_equal(pattern, &v);
                eq
            },
            Err(_) => false,
        }
    }

    /// Checks the header: its length and its magic number.
    pub fn validate(&self) -> (r: Result<(), ExitStatus>)
        ensures
            r == header_status(self@),
    {
        if self.bytes.len() < HEADER_SIZE {
            return Err(ExitStatus::InvalidHeaderSize);
        }
        let magic = magic_number();
        if !self.match_bytes(HeaderItem::MagicNumber.get_bytecode_range(), &magic) {
            return Err(ExitStatus::InvalidMagicNumber);
        }
        Ok(())
    }
}

/// Whether two byte vectors hold the same bytes.
pub fn bytes_equal(a: &Vec<u8>, b: &Vec<u8>) -> (r: bool)
    ensures
        r == (a@ == b@),
{
    if a.len() != b.len() {
        return false;
    }
    let mut i: usize = 0;
    while i < a.len()
        invariant
            i <= a.len(),
            a.len() == b.len(),
            forall|j: int| 0 <= j < i ==> a@[j] == b@[j],
        decreases a.len() - i,
    {
        if a[i] != b[i] {
            return false;
        }
        i = i + 1;
    }
    assert(a@ =~= b@);
    true
}

/// The program counter of the entry-point function: the word at
/// `POOL_OFFSET` names a pool entry, whose descriptor starts with it.
pub fn entry_point_address(code: &Vec<u8>) -> (r: Result<u64, ExitStatus>)
    ensures
        match entry_point(code@) {
            Ok(pc) => r == Ok::<u64, ExitStatus>(pc as u64),
            Err(e) => r == Err::<u64, ExitStatus>(e),
        },
{
    let bytes = code.as_slice();
    let len = code.len();
    let mut pool = Cursor::new(len);
    match pool.jump_to(POOL_OFFSET) {
        Ok(_) => {},
        Err(e) => return Err(e),
    }
    let index = match pool.next_u64(bytes) {
        Ok(v) => v,
        Err(e) => return Err(e),
    };
    // The slot of `index` in the pool's table: `POOL_TABLE_OFFSET + POOL_SLOT_SIZE * index`.
    let slot: u128 = 136u128 + (index as u128) * 8u128;
    if slot > len as u128 {
        return Err(ExitStatus::BytecodeAccessViolation);
    }
    match pool.jump_to(slot as usize) {
        Ok(_) => {},
        Err(e) => return Err(e),
    }
    let addr = match pool.next_u64(bytes) {
        Ok(v) => v,
        Err(e) => return Err(e),
    };
    if addr > len as u64 {
        return Err(ExitStatus::BytecodeAccessViolation);
    }
    match pool.jump_to(addr as usize) {
        Ok(_) => {},
        Err(e) => return Err(e),
    }
    pool.next_u64(bytes)
}

/// The descriptor `(start, local slots, arguments)` of pool entry `index`.
pub fn pool_descriptor(code: &Vec<u8>, index: u64) -> (r: Result<(u64, u16, u8), ExitStatus>)
    ensures
        match descriptor(code@, index as int) {
            Ok((start, vars, args)) => r is Ok && r->Ok_0.0 == start && r->Ok_0.1 == vars
                && r->Ok_0.2 == args,
            Err(e) => r == Err::<(u64, u16, u8), ExitStatus>(e),
        },
{
    let bytes = code.as_slice();
    let len = code.len();
    // The slot of `index` in the pool's table: `POOL_TABLE_OFFSET + POOL_SLOT_SIZE * index`.
    let slot: u128 = 136u128 + (index as u128) * 8u128;
    if slot > len as u128 {
        return Err(ExitStatus::BytecodeAccessViolation);
    }
    let mut pool = Cursor::new(len);
    match pool.jump_to(slot as usize) {
        Ok(_) => {},
        Err(e) => return Err(e),
    }
    let addr = match pool.next_u64(bytes) {
        Ok(v) => v,
        Err(e) => return Err(e),
    };
    if addr > len as u64 {
        return Err(ExitStatus::BytecodeAccessViolation);
    }
    match pool.jump_to(addr as usize) {
        Ok(_) => {},
        Err(e) => return Err(e),
    }
    let start = match pool.next_u64(bytes) {
        Ok(v) => v,
        Err(e) => return Err(e),
    };
    let vars = match pool.next_u16(bytes) {
        Ok(v) => v,
        Err(e) => return Err(e),
    };
    let args = match pool.next_u8(bytes) {
        Ok(v) => v,
        Err(e) => return Err(e),
    };
    assert(DESCRIPTOR_SIZE == 11);
    Ok((start, vars, args))
}

} // verus!
