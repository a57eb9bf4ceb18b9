//! A bounds-checked sequential reader over a byte region.

use vstd::prelude::*;
use vstd::bytes::*;
use crate::status::ExitStatus;

verus! {

/// A position within a region of `limit` bytes; reads and jumps past the
/// limit fail with `BytecodeAccessViolation`.
pub struct Cursor {
    position: usize,
    limit: usize,
}

pub struct CursorView {
    pub position: int,
    pub limit: int,
}

impl View for Cursor {
    type V = CursorView;

    closed spec fn view(&self) -> CursorView {
        CursorView { position: self.position as int, limit: self.limit as int }
    }
}

/// The `n` bytes at the cursor, and the cursor just past them.
pub open spec fn next_spec(c: CursorView, bytes: Seq<u8>, n: int) -> Result<(CursorView, Seq<u8>), ExitStatus> {
    if c.position + n > c.limit {
        Err(ExitStatus::BytecodeAccessViolation)
    } else {
        Ok(
            (
                CursorView { position: c.position + n, limit: c.limit },
                bytes.subrange(c.position, c.position + n),
            ),
        )
    }
}

impl Cursor {
    pub open spec fn wf(&self) -> bool {
        0 <= self@.position <= self@.limit <= usize::MAX
    }

    /// A cursor at the start of a region of `limit` bytes.
    pub fn new(limit: usize) -> (r: Cursor)
        ensures
            r.wf(),
            r@ == (CursorView { position: 0, limit: limit as int }),
    {
        Cursor { position: 0, limit }
    }

    pub fn position(&self) -> (r: usize)
        ensures
            r == self@.position,
    {
        self.position
    }

    pub fn limit(&self) -> (r: usize)
        ensures
            r == self@.limit,
    {
        self.limit
    }

    /// Reads `n` bytes and moves past them; on failure the cursor stays.
    pub fn next_bytes(&mut self, bytes: &[u8], n: usize) -> (r: Result<Vec<u8>, ExitStatus>)
        requires
            old(self).wf(),
            old(self)@.limit <= bytes@.len(),
        ensures
            final(self).wf(),
            final(self)@.limit == old(self)@.limit,
            match next_spec(old(self)@, bytes@, n as int) {
                Ok((c, b)) => r is Ok && r->Ok_0@ == b && final(self)@ == c,
                Err(e) => r is Err && r->Err_0 == e && final(self)@ == old(self)@,
            },
    {
        if n > self.limit - self.position {
            return Err(ExitStatus::BytecodeAccessViolation);
        }
        let end = self.position + n;
        let slice = vstd::slice::slice_subrange(bytes, self.position, end);
        let v = vstd::slice::slice_to_vec(slice);
        self.position = end;
        Ok(v)
    }

    /// Reads one byte.
    pub fn next_u8(&mut self, bytes: &[u8]) -> (r: Result<u8, ExitStatus>)
        requires
            old(self).wf(),
            old(self)@.limit <= bytes@.len(),
        ensures
            final(self).wf(),
            final(self)@.limit == old(self)@.limit,
            match next_spec(old(self)@, bytes@, 1) {
                Ok((c, b)) => r == Ok::<u8, ExitStatus>(b[0]) && final(self)@ == c,
                Err(e) => r == Err::<u8, ExitStatus>(e) && final(self)@ == old(self)@,
            },
    {
        if self.position >= self.limit {
            return Err(ExitStatus::BytecodeAccessViolation);
        }
        let b = bytes[self.position];
        self.position = self.position + 1;
        Ok(b)
    }

    /// Reads a little-endian 16-bit word.
    pub fn next_u16(&mut self, bytes: &[u8]) -> (r: Result<u16, ExitStatus>)
        requires
            old(self).wf(),
            old(self)@.limit <= bytes@.len(),
        ensures
            final(self).wf(),
            final(self)@.limit == old(self)@.limit,
            match next_spec(old(self)@, bytes@, 2) {
                Ok((c, b)) => r == Ok::<u16, ExitStatus>(spec_u16_from_le_bytes(b)) && final(self)@
                    == c,
                Err(e) => r == Err::<u16, ExitStatus>(e) && final(self)@ == old(self)@,
            },
    {
        match self.next_bytes(bytes, 2) {
            Ok(v) => Ok(u16_from_le_bytes(v.as_slice())),
            Err(e) => Err(e),
        }
    }

    /// Reads a little-endian 32-bit word.
    pub fn next_u32(&mut self, bytes: &[u8]) -> (r: Result<u32, ExitStatus>)
        requires
            old(self).wf(),
            old(self)@.limit <= bytes@.len(),
        ensures
            final(self).wf(),
            final(self)@.limit == old(self)@.limit,
            match next_spec(old(self)@, bytes@, 4) {
                Ok((c, b)) => r == Ok::<u32, ExitStatus>(spec_u32_from_le_bytes(b)) && final(self)@
                    == c,
                Err(e) => r == Err::<u32, ExitStatus>(e) && final(self)@ == old(self)@,
            },
    {
        match self.next_bytes(bytes, 4) {
            Ok(v) => Ok(u32_from_le_bytes(v.as_slice())),
            Err(e) => Err(e),
        }
    }

    /// Reads a little-endian 64-bit word.
    pub fn next_u64(&mut self, bytes: &[u8]) -> (r: Result<u64, ExitStatus>)
        requires
            old(self).wf(),
            old(self)@.limit <= bytes@.len(),
        ensures
            final(self).wf(),
            final(self)@.limit == old(self)@.limit,
            match next_spec(old(self)@, bytes@, 8) {
                Ok((c, b)) => r == Ok::<u64, ExitStatus>(spec_u64_from_le_bytes(b)) && final(self)@
                    == c,
                Err(e) => r == Err::<u64, ExitStatus>(e) && final(self)@ == old(self)@,
            },
    {
        match self.next_bytes(bytes, 8) {
            Ok(v) => Ok(u64_from_le_bytes(v.as_slice())),
            Err(e) => Err(e),
        }
    }

    /// Moves to the absolute position `target`; fails past the limit.
    pub fn jump_to(&mut self, target: usize) -> (r: Result<(), ExitStatus>)
        requires
            old(self).wf(),
        ensures
            final(self).wf(),
            final(self)@.limit == old(self)@.limit,
            target > old(self)@.limit ==> r == Err::<(), ExitStatus>(
                ExitStatus::BytecodeAccessViolation,
            ) && final(self)@ == old(self)@,
            target <= old(self)@.limit ==> r is Ok && final(self)@.position == target,
    {
        if target > self.limit {
            return Err(ExitStatus::BytecodeAccessViolation);
        }
        self.position = target;
        Ok(())
    }
}

} // verus!
