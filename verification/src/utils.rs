//! Owned memory blocks with the lock discipline of clipboard transfer memory.
//!
//! The OS hands clipboard payloads around as movable global-memory blocks: a
//! block must be locked before its content may be touched, unlocked before it
//! is attached to the clipboard, and once attached the clipboard owns it, so
//! the local wrapper must give it up without freeing. [`RawMem`] models that
//! protocol: the content is only readable or writable while `locked`, an
//! attach consumes the value, and [`RawMem::release`] is the explicit
//! ownership hand-off.

use vstd::prelude::*;

use crate::SysResult;
use crate::error::ErrorKind;

verus! {

/// Cold path for "the reported size was zero": hands back the zero count.
pub fn unlikely_empty_size_result() -> (r: usize)
    ensures
        r == 0,
{
    0
}

/// The most recent platform status code, wrapped as a typed error.
pub fn unlikely_last_error() -> (r: ErrorKind)
    ensures
        r is PlatformFailure,
{
    ErrorKind::PlatformFailure(crate::error::last_system_code())
}

/// An exclusively owned memory block under the clipboard lock discipline.
pub struct RawMem {
    /// Content of the block.
    pub bytes: Vec<u8>,
    /// Whether the block is currently locked for access.
    pub locked: bool,
}

impl RawMem {
    /// Allocates a zero-initialized block of exactly `size` bytes on the
    /// process heap.
    pub fn new_rust_mem(size: usize) -> (r: SysResult<RawMem>)
        ensures
            r matches Ok(m) && m.bytes@ == Seq::<u8>::new(size as nat, |i: int| 0u8) && !m.locked,
    {
        Ok(RawMem { bytes: zeroed_block(size), locked: false })
    }

    /// Allocates a zero-initialized, movable block of exactly `size` bytes of
    /// clipboard transfer memory.
    pub fn new_global_mem(size: usize) -> (r: SysResult<RawMem>)
        ensures
            r matches Ok(m) && m.bytes@ == Seq::<u8>::new(size as nat, |i: int| 0u8) && !m.locked,
    {
        Ok(RawMem { bytes: zeroed_block(size), locked: false })
    }

    /// Adopts a block whose content was borrowed from the clipboard; the
    /// block is not owned, so dropping the wrapper must not free anything.
    pub fn from_borrowed(bytes: Vec<u8>) -> (r: RawMem)
        ensures
            r.bytes@ == bytes@,
            !r.locked,
    {
        RawMem { bytes, locked: false }
    }

    /// Read access to the block's content; valid only while locked.
    pub fn get(&self) -> (r: &Vec<u8>)
        requires
            self.locked,
        ensures
            r@ == self.bytes@,
    {
        &self.bytes
    }

    /// Size of the block in bytes.
    pub fn len(&self) -> (r: usize)
        ensures
            r == self.bytes@.len(),
    {
        self.bytes.len()
    }

    /// Locks the block, making its content accessible.
    pub fn lock(&mut self) -> (r: SysResult<()>)
        requires
            !old(self).locked,
        ensures
            r == Ok::<(), ErrorKind>(()),
            final(self).locked,
            final(self).bytes@ == old(self).bytes@,
    {
        self.locked = true;
        Ok(())
    }

    /// Unlocks the block; its content may no longer be touched.
    pub fn unlock(&mut self)
        requires
            old(self).locked,
        ensures
            !final(self).locked,
            final(self).bytes@ == old(self).bytes@,
    {
        self.locked = false;
    }

    /// Overwrites the first `data.len()` bytes of the locked block.
    pub fn write_prefix(&mut self, data: &Vec<u8>)
        requires
            old(self).locked,
            data@.len() <= old(self).bytes@.len(),
        ensures
            final(self).locked,
            final(self).bytes@ == data@ + old(self).bytes@.skip(data@.len() as int),
    {
        let n = data.len();
        let mut i: usize = 0;
        while i < n
            invariant
                self.locked == old(self).locked,
                n == data@.len() <= self.bytes@.len(),
                self.bytes@.len() == old(self).bytes@.len(),
                0 <= i <= n,
                forall|j: int| 0 <= j < i ==> self.bytes@[j] == data@[j],
                forall|j: int| i <= j < self.bytes@.len() ==> self.bytes@[j] == old(self).bytes@[j],
            decreases n - i,
        {
            let b = data[i];
            self.bytes[i] = b;
            i = i + 1;
        }
        proof {
            assert(self.bytes@ =~= data@ + old(self).bytes@.skip(data@.len() as int));
        }
    }

    /// Gives the block up without freeing it: the clipboard owns it now.
    pub fn release(self)
        requires
            !self.locked,
    {
    }
}

/// A copy of a byte buffer, byte for byte.
pub(crate) fn clone_bytes(v: &Vec<u8>) -> (r: Vec<u8>)
    ensures
        r@ == v@,
{
    let r = v.clone();
    proof {
        assert forall|i: int| 0 <= i < v@.len() implies r@[i] == v@[i] by {}
        assert(r@ =~= v@);
    }
    r
}

/// A copy of a buffer of UTF-16 units, unit for unit.
pub(crate) fn clone_units(v: &Vec<u16>) -> (r: Vec<u16>)
    ensures
        r@ == v@,
{
    let r = v.clone();
    proof {
        assert forall|i: int| 0 <= i < v@.len() implies r@[i] == v@[i] by {}
        assert(r@ =~= v@);
    }
    r
}

/// A zero-filled byte block of exactly `size` bytes.
fn zeroed_block(size: usize) -> (r: Vec<u8>)
    ensures
        r@ == Seq::<u8>::new(size as nat, |i: int| 0u8),
{
    let mut v: Vec<u8> = Vec::new();
    let mut i: usize = 0;
    while i < size
        invariant
            0 <= i <= size,
            v@ =~= Seq::<u8>::new(i as nat, |j: int| 0u8),
        decreases size - i,
    {
        v.push(0);
        proof {
            assert(v@ =~= Seq::<u8>::new((i + 1) as nat, |j: int| 0u8));
        }
        i = i + 1;
    }
    v
}

} // verus!
