//! The operand stack: a fixed-capacity byte arena holding activation frames.
//!
//! A frame starts at the base pointer `bp` with the caller's base pointer
//! (one word) and the return address (one word); its local slots, four bytes
//! each, start at `bp + FRAME_HEADER_SIZE`, and its operands follow them up to
//! the stack pointer `sp`.

use vstd::prelude::*;
use vstd::bytes::*;
use crate::status::ExitStatus;

verus! {

/// Width of a pointer-sized word: a saved base pointer or a return address.
pub const WORD_SIZE: usize = 8;

/// The saved base pointer and the return address that open every frame.
pub const FRAME_HEADER_SIZE: usize = 16;

/// Width of one local slot.
pub const SLOT_SIZE: usize = 4;

/// The operand stack as the contracts see it.
pub struct StackView {
    pub mem: Seq<u8>,
    pub sp: int,
    pub bp: int,
}

/// `mem` with the bytes from `at` on replaced by `b`.
pub open spec fn write_bytes(mem: Seq<u8>, at: int, b: Seq<u8>) -> Seq<u8> {
    mem.subrange(0, at) + b + mem.subrange(at + b.len(), mem.len() as int)
}

/// A pushed value: fails when it would pass the capacity.
pub open spec fn push_spec(s: StackView, b: Seq<u8>) -> Result<StackView, ExitStatus> {
    if s.sp + b.len() > s.mem.len() {
        Err(ExitStatus::StackOverflow)
    } else {
        Ok(StackView { mem: write_bytes(s.mem, s.sp, b), sp: s.sp + b.len(), bp: s.bp })
    }
}

/// Whether `n` bytes lie between the frame's guard and the stack pointer.
pub open spec fn above_guard(s: StackView, n: int) -> bool {
    s.sp >= s.bp + FRAME_HEADER_SIZE + n
}

/// The top `n` bytes, removed; fails when that would reach into the frame header.
pub open spec fn pop_spec(s: StackView, n: int) -> Result<(StackView, Seq<u8>), ExitStatus> {
    if !above_guard(s, n) {
        Err(ExitStatus::StackAccessViolation)
    } else {
        Ok((StackView { mem: s.mem, sp: s.sp - n, bp: s.bp }, s.mem.subrange(s.sp - n, s.sp)))
    }
}

/// The top `n` bytes, left in place; the guard is that of `pop_spec`.
pub open spec fn top_spec(s: StackView, n: int) -> Result<Seq<u8>, ExitStatus> {
    if !above_guard(s, n) {
        Err(ExitStatus::StackAccessViolation)
    } else {
        Ok(s.mem.subrange(s.sp - n, s.sp))
    }
}

/// The top `n` bytes, removed without regard to the frame.
pub open spec fn unguarded_pop_spec(s: StackView, n: int) -> Result<(StackView, Seq<u8>), ExitStatus> {
    if s.sp < n {
        Err(ExitStatus::StackAccessViolation)
    } else {
        Ok((StackView { mem: s.mem, sp: s.sp - n, bp: s.bp }, s.mem.subrange(s.sp - n, s.sp)))
    }
}

/// Where local slot `i` lies when `n` bytes are read or written there: the
/// access must stay within the current frame's locals and operands.
pub open spec fn slot_spec(s: StackView, i: int, n: int) -> Result<int, ExitStatus> {
    if s.sp < s.bp + FRAME_HEADER_SIZE {
        Err(ExitStatus::StackAccessViolation)
    } else if s.sp - s.bp - FRAME_HEADER_SIZE < SLOT_SIZE * i + n {
        Err(ExitStatus::StackAccessViolation)
    } else {
        Ok(s.bp + FRAME_HEADER_SIZE + SLOT_SIZE * i)
    }
}

/// The `n` bytes of local slot `i`, pushed.
pub open spec fn load_spec(s: StackView, i: int, n: int) -> Result<StackView, ExitStatus> {
    match slot_spec(s, i, n) {
        Err(e) => Err(e),
        Ok(a) => push_spec(s, s.mem.subrange(a, a + n)),
    }
}

/// Local slot `i` overwritten with `b`.
pub open spec fn store_spec(s: StackView, i: int, b: Seq<u8>) -> Result<StackView, ExitStatus> {
    match slot_spec(s, i, b.len() as int) {
        Err(e) => Err(e),
        Ok(a) => Ok(StackView { mem: write_bytes(s.mem, a, b), sp: s.sp, bp: s.bp }),
    }
}

/// An arena of all-zero bytes.
pub open spec fn zeroed(n: nat) -> Seq<u8> {
    Seq::new(n, |i: int| 0u8)
}

/// The operand stack.
pub struct OperandStack {
    mem: Vec<u8>,
    sp: usize,
    bp: u64,
}

impl View for OperandStack {
    type V = StackView;

    closed spec fn view(&self) -> StackView {
        StackView { mem: self.mem@, sp: self.sp as int, bp: self.bp as int }
    }
}

impl OperandStack {
    /// The stack pointer stays within the arena.
    pub open spec fn wf(&self) -> bool {
        &&& 0 <= self@.sp <= self@.mem.len()
        &&& self@.mem.len() <= usize::MAX
        &&& 0 <= self@.bp <= u64::MAX
    }

    /// An empty stack of `capacity` zero bytes.
    pub fn new(capacity: usize) -> (r: OperandStack)
        ensures
            r.wf(),
            r@.mem == zeroed(capacity as nat),
            r@.sp == 0,
            r@.bp == 0,
    {
        let mut mem: Vec<u8> = Vec::new();
        let mut i: usize = 0;
        while i < capacity
            invariant
                i <= capacity,
                mem@ == zeroed(i as nat),
            decreases capacity - i,
        {
            mem.push(0u8);
            i = i + 1;
            assert(mem@ =~= zeroed(i as nat));
        }
        OperandStack { mem, sp: 0, bp: 0 }
    }

    pub fn sp(&self) -> (r: usize)
        ensures
            r == self@.sp,
    {
        self.sp
    }

    pub fn bp(&self) -> (r: u64)
        ensures
            r == self@.bp,
    {
        self.bp
    }

    pub fn capacity(&self) -> (r: usize)
        ensures
            r == self@.mem.len(),
    {
        self.mem.len()
    }

    fn write_at(&mut self, at: usize, b: &[u8])
        requires
            at + b@.len() <= old(self).mem@.len(),
        ensures
            final(self).mem@ == write_bytes(old(self).mem@, at as int, b@),
            final(self).sp == old(self).sp,
            final(self).bp == old(self).bp,
    {
        let len = self.mem.len();
        let mut i: usize = 0;
        while i < b.len()
            invariant
                i <= b@.len(),
                self.mem@.len() == len,
                at + b@.len() <= self.mem@.len(),
                self.mem@.len() == old(self).mem@.len(),
                self.sp == old(self).sp,
                self.bp == old(self).bp,
                forall|j: int| 0 <= j < i ==> self.mem@[at + j] == b@[j],
                forall|j: int|
                    0 <= j < self.mem@.len() && !(at <= j < at + i) ==> self.mem@[j] == old(
                        self,
                    ).mem@[j],
            decreases b@.len() - i,
        {
            self.mem.set(at + i, b[i]);
            i = i + 1;
        }
        assert(self.mem@ =~= write_bytes(old(self).mem@, at as int, b@));
    }

    fn read_at(&self, at: usize, n: usize) -> (r: Vec<u8>)
        requires
            at + n <= self.mem@.len(),
        ensures
            r@ == self.mem@.subrange(at as int, at + n),
    {
        let _len = self.mem.len();
        let slice = vstd::slice::slice_subrange(self.mem.as_slice(), at, at + n);
        vstd::slice::slice_to_vec(slice)
    }

    /// Whether `n` bytes lie between the frame's guard and the stack pointer.
    fn has_above_guard(&self, n: usize) -> (r: bool)
        ensures
            r == above_guard(self@, n as int),
    {
        let sp = self.sp as u64;
        !(sp < self.bp || sp - self.bp < FRAME_HEADER_SIZE as u64 || sp - self.bp
            - (FRAME_HEADER_SIZE as u64) < n as u64)
    }

    /// Pushes `b`; fails with `StackOverflow`, leaving the stack as it was,
    /// when the bytes do not fit.
    pub fn push_bytes(&mut self, b: &[u8]) -> (r: Result<(), ExitStatus>)
        requires
            old(self).wf(),
        ensures
            final(self).wf(),
            match push_spec(old(self)@, b@) {
                Ok(t) => r is Ok && final(self)@ == t,
                Err(e) => r == Err::<(), ExitStatus>(e) && final(self)@ == old(self)@,
            },
    {
        if b.len() > self.mem.len() - self.sp {
            return Err(ExitStatus::StackOverflow);
        }
        let at = self.sp;
        self.write_at(at, b);
        self.sp = self.sp + b.len();
        Ok(())
    }

    /// Pushes a 32-bit word, little-endian.
    pub fn push_u32(&mut self, v: u32) -> (r: Result<(), ExitStatus>)
        requires
            old(self).wf(),
        ensures
            final(self).wf(),
            match push_spec(old(self)@, spec_u32_to_le_bytes(v)) {
                Ok(t) => r is Ok && final(self)@ == t,
                Err(e) => r == Err::<(), ExitStatus>(e) && final(self)@ == old(self)@,
            },
    {
        let b = u32_to_le_bytes(v);
        self.push_bytes(b.as_slice())
    }

    /// Pushes a 64-bit word, little-endian.
    pub fn push_u64(&mut self, v: u64) -> (r: Result<(), ExitStatus>)
        requires
            old(self).wf(),
        ensures
            final(self).wf(),
            match push_spec(old(self)@, spec_u64_to_le_bytes(v)) {
                Ok(t) => r is Ok && final(self)@ == t,
                Err(e) => r == Err::<(), ExitStatus>(e) && final(self)@ == old(self)@,
            },
    {
        let b = u64_to_le_bytes(v);
        self.push_bytes(b.as_slice())
    }

    /// Removes the top `n` bytes; fails with `StackAccessViolation`, leaving the
    /// stack as it was, when they would reach into the frame header.
    pub fn pop_bytes(&mut self, n: usize) -> (r: Result<Vec<u8>, ExitStatus>)
        requires
            old(self).wf(),
        ensures
            final(self).wf(),
            match pop_spec(old(self)@, n as int) {
                Ok((t, b)) => r is Ok && r->Ok_0@ == b && final(self)@ == t,
                Err(e) => r is Err && r->Err_0 == e && final(self)@ == old(self)@,
            },
    {
        if !self.has_above_guard(n) {
            return Err(ExitStatus::StackAccessViolation);
        }
        let v = self.read_at(self.sp - n, n);
        self.sp = self.sp - n;
        Ok(v)
    }

    /// Removes the top 32-bit word.
    pub fn pop_u32(&mut self) -> (r: Result<u32, ExitStatus>)
        requires
            old(self).wf(),
        ensures
            final(self).wf(),
            match pop_spec(old(self)@, 4) {
                Ok((t, b)) => r == Ok::<u32, ExitStatus>(spec_u32_from_le_bytes(b)) && final(self)@
                    == t,
                Err(e) => r == Err::<u32, ExitStatus>(e) && final(self)@ == old(self)@,
            },
    {
        match self.pop_bytes(4) {
            Ok(b) => Ok(u32_from_le_bytes(b.as_slice())),
            Err(e) => Err(e),
        }
    }

    /// Removes the top 64-bit word.
    pub fn pop_u64(&mut self) -> (r: Result<u64, ExitStatus>)
        requires
            old(self).wf(),
        ensures
            final(self).wf(),
            match pop_spec(old(self)@, 8) {
                Ok((t, b)) => r == Ok::<u64, ExitStatus>(spec_u64_from_le_bytes(b)) && final(self)@
                    == t,
                Err(e) => r == Err::<u64, ExitStatus>(e) && final(self)@ == old(self)@,
            },
    {
        match self.pop_bytes(8) {
            Ok(b) => Ok(u64_from_le_bytes(b.as_slice())),
            Err(e) => Err(e),
        }
    }

    /// The top `n` bytes, with the guard of `pop_bytes`.
    pub fn top_bytes(&self, n: usize) -> (r: Result<Vec<u8>, ExitStatus>)
        requires
            self.wf(),
        ensures
            match top_spec(self@, n as int) {
                Ok(b) => r is Ok && r->Ok_0@ == b,
                Err(e) => r is Err && r->Err_0 == e,
            },
    {
        if !self.has_above_guard(n) {
            return Err(ExitStatus::StackAccessViolation);
        }
        Ok(self.read_at(self.sp - n, n))
    }

    /// The top 32-bit word, left in place.
    pub fn top_u32(&self) -> (r: Result<u32, ExitStatus>)
        requires
            self.wf(),
        ensures
            match top_spec(self@, 4) {
                Ok(b) => r == Ok::<u32, ExitStatus>(spec_u32_from_le_bytes(b)),
                Err(e) => r == Err::<u32, ExitStatus>(e),
            },
    {
        match self.top_bytes(4) {
            Ok(b) => Ok(u32_from_le_bytes(b.as_slice())),
            Err(e) => Err(e),
        }
    }

    /// The top 64-bit word, left in place.
    pub fn top_u64(&self) -> (r: Result<u64, ExitStatus>)
        requires
            self.wf(),
        ensures
            match top_spec(self@, 8) {
                Ok(b) => r == Ok::<u64, ExitStatus>(spec_u64_from_le_bytes(b)),
                Err(e) => r == Err::<u64, ExitStatus>(e),
            },
    {
        match self.top_bytes(8) {
            Ok(b) => Ok(u64_from_le_bytes(b.as_slice())),
            Err(e) => Err(e),
        }
    }

    /// The top `n` bytes, without regard to the frame (the host call reads them so).
    pub fn raw_top_bytes(&self, n: usize) -> (r: Result<Vec<u8>, ExitStatus>)
        requires
            self.wf(),
        ensures
            self@.sp < n ==> r == Err::<Vec<u8>, ExitStatus>(ExitStatus::StackAccessViolation),
            self@.sp >= n ==> r is Ok && r->Ok_0@ == self@.mem.subrange(self@.sp - n, self@.sp),
    {
        if self.sp < n {
            return Err(ExitStatus::StackAccessViolation);
        }
        Ok(self.read_at(self.sp - n, n))
    }

    /// Removes the top 64-bit word without regard to the frame; used when a
    /// frame is unwound.
    pub fn unguarded_pop_u64(&mut self) -> (r: Result<u64, ExitStatus>)
        requires
            old(self).wf(),
        ensures
            final(self).wf(),
            match unguarded_pop_spec(old(self)@, 8) {
                Ok((t, b)) => r == Ok::<u64, ExitStatus>(spec_u64_from_le_bytes(b)) && final(self)@
                    == t,
                Err(e) => r == Err::<u64, ExitStatus>(e) && final(self)@ == old(self)@,
            },
    {
        if self.sp < 8 {
            return Err(ExitStatus::StackAccessViolation);
        }
        let b = self.read_at(self.sp - 8, 8);
        self.sp = self.sp - 8;
        Ok(u64_from_le_bytes(b.as_slice()))
    }

    /// Pushes the `n` bytes of local slot `slot`.
    pub fn load(&mut self, slot: u16, n: usize) -> (r: Result<(), ExitStatus>)
        requires
            old(self).wf(),
        ensures
            final(self).wf(),
            match load_spec(old(self)@, slot as int, n as int) {
                Ok(t) => r is Ok && final(self)@ == t,
                Err(e) => r == Err::<(), ExitStatus>(e) && final(self)@ == old(self)@,
            },
    {
        let at = match self.slot_address(slot, n) {
            Ok(a) => a,
            Err(e) => return Err(e),
        };
        let v = self.read_at(at, n);
        self.push_bytes(v.as_slice())
    }

    /// Overwrites local slot `slot` with `b`.
    pub fn store(&mut self, slot: u16, b: &[u8]) -> (r: Result<(), ExitStatus>)
        requires
            old(self).wf(),
        ensures
            final(self).wf(),
            match store_spec(old(self)@, slot as int, b@) {
                Ok(t) => r is Ok && final(self)@ == t,
                Err(e) => r == Err::<(), ExitStatus>(e) && final(self)@ == old(self)@,
            },
    {
        let at = match self.slot_address(slot, b.len()) {
            Ok(a) => a,
            Err(e) => return Err(e),
        };
        self.write_at(at, b);
        Ok(())
    }

    fn slot_address(&self, slot: u16, n: usize) -> (r: Result<usize, ExitStatus>)
        requires
            self.wf(),
        ensures
            match slot_spec(self@, slot as int, n as int) {
                Ok(a) => r == Ok::<usize, ExitStatus>(a as usize) && a + n <= self@.sp,
                Err(e) => r == Err::<usize, ExitStatus>(e),
            },
    {
        let sp = self.sp as u64;
        if sp < self.bp || sp - self.bp < FRAME_HEADER_SIZE as u64 {
            return Err(ExitStatus::StackAccessViolation);
        }
        let diff = sp - self.bp - FRAME_HEADER_SIZE as u64;
        let offset: u128 = (slot as u128) * 4 + (n as u128);
        if (diff as u128) < offset {
            return Err(ExitStatus::StackAccessViolation);
        }
        Ok((self.bp + FRAME_HEADER_SIZE as u64 + (slot as u64) * 4) as usize)
    }

    /// Makes the current stack pointer the base of a new frame.
    pub fn set_bp(&mut self, bp: u64)
        requires
            old(self).wf(),
        ensures
            final(self).wf(),
            final(self)@ == (StackView { bp: bp as int, ..old(self)@ }),
    {
        self.bp = bp;
    }

    /// Moves the stack pointer to `target`, as when locals are reserved or a
    /// frame is unwound; fails with `StackAccessViolation` past the capacity.
    pub fn move_sp(&mut self, target: usize) -> (r: Result<(), ExitStatus>)
        requires
            old(self).wf(),
        ensures
            final(self).wf(),
            target > old(self)@.mem.len() ==> r == Err::<(), ExitStatus>(
                ExitStatus::StackAccessViolation,
            ) && final(self)@ == old(self)@,
            target <= old(self)@.mem.len() ==> r is Ok && final(self)@ == (StackView {
                sp: target as int,
                ..old(self)@
            }),
    {
        if target > self.mem.len() {
            return Err(ExitStatus::StackAccessViolation);
        }
        self.sp = target;
        Ok(())
    }
}

} // verus!
