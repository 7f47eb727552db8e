//! An in-memory model of a block device.
//!
//! A [`MemDevice`] is the byte content of a device of a fixed size. The
//! pipelines are verified against it: reading a chunk, writing a
//! block-aligned chunk at an offset, and querying the size behave exactly as
//! the contracts state, which is what the kernel promises of a real block
//! device. A front end replays the same chunk plans against a device file.

use vstd::prelude::*;

verus! {

/// A simulated block device: a fixed-size array of bytes.
pub struct MemDevice {
    bytes: Vec<u8>,
}

impl View for MemDevice {
    type V = Seq<u8>;

    closed spec fn view(&self) -> Seq<u8> {
        self.bytes@
    }
}

impl MemDevice {
    /// A device holding exactly these bytes.
    pub fn from_bytes(bytes: Vec<u8>) -> (d: MemDevice)
        ensures
            d@ == bytes@,
    {
        MemDevice { bytes }
    }

    /// A zero-filled device of `size` bytes.
    pub fn zeroed(size: usize) -> (d: MemDevice)
        ensures
            d@ == Seq::new(size as nat, |i: int| 0u8),
    {
        let bytes = vec![0u8; size];
        MemDevice { bytes }
    }

    /// The device's size in bytes, as a kernel size query reports it.
    pub fn size(&self) -> (n: u64)
        ensures
            n == self@.len(),
    {
        self.bytes.len() as u64
    }

    /// The device's size in bytes as a chunk offset.
    pub fn len(&self) -> (n: usize)
        ensures
            n == self@.len(),
    {
        self.bytes.len()
    }

    /// Appends the chunk `[offset, offset + len)` of the device to `out`.
    pub fn read_into(&self, offset: usize, len: usize, out: &mut Vec<u8>)
        requires
            offset + len <= self@.len(),
        ensures
            final(out)@ == old(out)@ + self@.subrange(offset as int, offset + len),
    {
        let n = self.bytes.len();
        let mut j: usize = 0;
        while j < len
            invariant
                offset + len <= n == self@.len(),
                j <= len,
                out@ == old(out)@ + self@.subrange(offset as int, offset + j),
            decreases len - j,
        {
            out.push(self.bytes[offset + j]);
            proof {
                assert(self@.subrange(offset as int, offset + j + 1) == self@.subrange(
                    offset as int,
                    offset + j,
                ).push(self@[offset + j]));
            }
            j += 1;
        }
        proof {
            assert(out@ == old(out)@ + self@.subrange(offset as int, offset + len));
        }
    }

    /// Overwrites the device bytes at `[offset, offset + data.len())` with
    /// `data`; the rest of the device is unchanged.
    pub fn write_at(&mut self, offset: usize, data: &[u8])
        requires
            offset + data@.len() <= old(self)@.len(),
        ensures
            final(self)@ == old(self)@.take(offset as int) + data@ + old(self)@.skip(
                offset + data@.len(),
            ),
            final(self)@.len() == old(self)@.len(),
    {
        let len = data.len();
        let n = self.bytes.len();
        let mut j: usize = 0;
        while j < len
            invariant
                len == data@.len(),
                offset + len <= n == old(self)@.len(),
                j <= len,
                self@.len() == old(self)@.len(),
                forall|k: int| 0 <= k < offset ==> self@[k] == old(self)@[k],
                forall|k: int| offset <= k < offset + j ==> self@[k] == data@[k - offset],
                forall|k: int| offset + len <= k < self@.len() ==> self@[k] == old(self)@[k],
                forall|k: int| offset + j <= k < offset + len ==> self@[k] == old(self)@[k],
            decreases len - j,
        {
            self.bytes[offset + j] = data[j];
            j += 1;
        }
        proof {
            assert(self@ =~= old(self)@.take(offset as int) + data@ + old(self)@.skip(
                offset + data@.len(),
            ));
        }
    }

    /// Replaces the byte at `i`; a test harness uses this to corrupt a
    /// device independently of any pipeline.
    pub fn set_byte(&mut self, i: usize, v: u8)
        requires
            i < old(self)@.len(),
        ensures
            final(self)@ == old(self)@.update(i as int, v),
    {
        self.bytes[i] = v;
    }

    /// The byte at `i`.
    pub fn byte_at(&self, i: usize) -> (v: u8)
        requires
            i < self@.len(),
        ensures
            v == self@[i as int],
    {
        self.bytes[i]
    }
}

} // verus!
