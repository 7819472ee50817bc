//! Fixed-capacity byte regions that frames are written into and read from.
use vstd::prelude::*;

verus! {

/// A region of bytes whose capacity is fixed when it is made.
///
/// Writes stay within the capacity; nothing grows or shrinks the region.
pub struct Buffer {
    bytes: Vec<u8>,
}

impl View for Buffer {
    type V = Seq<u8>;

    closed spec fn view(&self) -> Seq<u8> {
        self.bytes@
    }
}

impl Buffer {
    /// A buffer of `capacity` zero bytes.
    pub fn new(capacity: usize) -> (r: Buffer)
        ensures
            r@ == Seq::new(capacity as nat, |i: int| 0u8),
    {
        let mut bytes: Vec<u8> = Vec::with_capacity(capacity);
        let mut i: usize = 0;
        while i < capacity
            invariant
                i <= capacity,
                bytes@ == Seq::new(i as nat, |k: int| 0u8),
            decreases capacity - i,
        {
            bytes.push(0u8);
            i = i + 1;
        }
        Buffer { bytes }
    }

    /// A buffer that holds `bytes`; its capacity is their number.
    pub fn from_bytes(bytes: Vec<u8>) -> (r: Buffer)
        ensures
            r@ == bytes@,
    {
        Buffer { bytes }
    }

    /// The number of bytes the buffer holds.
    pub fn capacity(&self) -> (r: usize)
        ensures
            r == self@.len(),
    {
        self.bytes.len()
    }

    /// All bytes of the buffer, valid or not.
    pub fn as_slice(&self) -> (r: &[u8])
        ensures
            r@ == self@,
    {
        self.bytes.as_slice()
    }

    /// All bytes of the buffer, to be written in place; the capacity stays.
    pub fn as_mut_slice(&mut self) -> (r: &mut [u8])
        ensures
            r@ == old(self)@,
            final(self)@ == final(r)@,
    {
        self.bytes.as_mut_slice()
    }

    /// The bytes of the buffer, given back.
    pub fn into_bytes(self) -> (r: Vec<u8>)
        ensures
            r@ == self@,
    {
        self.bytes
    }

    /// Sets the byte at position `at`.
    pub fn set_byte(&mut self, at: usize, b: u8)
        requires
            at < old(self)@.len(),
        ensures
            final(self)@ == old(self)@.update(at as int, b),
    {
        self.bytes.set(at, b);
    }

    /// Copies `src` into the buffer from position `at` on; the rest is kept.
    pub fn write_at(&mut self, at: usize, src: &[u8])
        requires
            at + src@.len() <= old(self)@.len(),
        ensures
            final(self)@ == old(self)@.subrange(0, at as int) + src@ + old(self)@.subrange(
                at + src@.len(),
                old(self)@.len() as int,
            ),
    {
        let ghost before = self@;
        let cap = self.bytes.len();
        let mut i: usize = 0;
        while i < src.len()
            invariant
                at + src@.len() <= before.len(),
                before.len() == cap,
                self.bytes@.len() == before.len(),
                0 <= i <= src@.len(),
                forall|k: int| 0 <= k < at ==> self.bytes@[k] == before[k],
                forall|k: int| 0 <= k < i ==> self.bytes@[at + k] == src@[k],
                forall|k: int| at + i <= k < before.len() ==> self.bytes@[k] == before[k],
            decreases src@.len() - i,
        {
            self.bytes.set(at + i, src[i]);
            i = i + 1;
        }
        assert(self.bytes@ =~= before.subrange(0, at as int) + src@ + before.subrange(
            at + src@.len(),
            before.len() as int,
        ));
    }
}

} // verus!
