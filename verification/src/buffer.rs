//! A growable first-in, first-out byte buffer with an advertised capacity.

use vstd::prelude::*;
use vstd::std_specs::convert::FromSpecImpl;

verus! {

/// The capacity a buffer advertises unless told otherwise.
pub const DEFAULT_CAPACITY: usize = 512;

/// Raised when a byte is pulled from a buffer that holds none.
#[derive(Clone, Copy, Debug, PartialEq, Eq, Structural)]
pub struct BufferEmpty;

/// A byte queue backed by a `Vec`. Bytes are pushed at the back and pulled
/// from the front. The advertised capacity is a hint for whoever fills the
/// buffer; it does not bound the number of bytes stored.
pub struct VecNewtype {
    pub inner: Vec<u8>,
    pub fake_size: usize,
}

/// The capacity advertised for a buffer built from `len` existing bytes:
/// twice the length when that exceeds the default capacity (held to what
/// `usize` can express), and the default capacity otherwise.
pub open spec fn capacity_for(len: int) -> int {
    if len <= 512 {
        512
    } else if 2 * len <= usize::MAX {
        2 * len
    } else {
        usize::MAX as int
    }
}

/// `capacity_for` on a machine length.
fn advertised_capacity(len: usize) -> (c: usize)
    ensures
        c == capacity_for(len as int),
{
    if len <= DEFAULT_CAPACITY {
        DEFAULT_CAPACITY
    } else if len > usize::MAX / 2 {
        usize::MAX
    } else {
        2 * len
    }
}

impl VecNewtype {
    /// The stored bytes, front first.
    pub open spec fn view(&self) -> Seq<u8> {
        self.inner@
    }

    /// The advertised capacity.
    pub open spec fn spec_capacity(&self) -> int {
        self.fake_size as int
    }

    /// An empty buffer advertising the default capacity.
    pub fn new() -> (b: VecNewtype)
        ensures
            b@ == Seq::<u8>::empty(),
            b.spec_capacity() == DEFAULT_CAPACITY,
    {
        VecNewtype::with_fake_capacity(DEFAULT_CAPACITY)
    }

    /// An empty buffer advertising capacity `sz`.
    pub fn with_fake_capacity(sz: usize) -> (b: VecNewtype)
        ensures
            b@ == Seq::<u8>::empty(),
            b.spec_capacity() == sz,
    {
        VecNewtype { inner: Vec::new(), fake_size: sz }
    }

    /// The number of bytes stored.
    pub fn size(&self) -> (n: usize)
        ensures
            n == self@.len(),
    {
        self.inner.len()
    }

    /// The advertised capacity.
    pub fn capacity(&self) -> (n: usize)
        ensures
            n == self.spec_capacity(),
    {
        self.fake_size
    }

    /// Whether no byte is stored.
    pub fn is_empty(&self) -> (b: bool)
        ensures
            b == (self@.len() == 0),
    {
        self.inner.len() == 0
    }

    /// Appends `byte` at the back and reports one byte stored.
    pub fn push_byte(&mut self, byte: u8) -> (r: Result<usize, BufferEmpty>)
        ensures
            r == Ok::<usize, BufferEmpty>(1),
            final(self)@ == old(self)@.push(byte),
            final(self).spec_capacity() == old(self).spec_capacity(),
    {
        self.inner.push(byte);
        Ok(1)
    }

    /// Removes and returns the byte at the front; fails, leaving the buffer
    /// as it was, exactly when the buffer is empty.
    pub fn pull_byte(&mut self) -> (r: Result<u8, BufferEmpty>)
        ensures
            final(self).spec_capacity() == old(self).spec_capacity(),
            old(self)@.len() == 0 ==> r.is_err() && final(self)@ == old(self)@,
            old(self)@.len() > 0 ==> r == Ok::<u8, BufferEmpty>(old(self)@[0]) && final(self)@
                == old(self)@.subrange(1, old(self)@.len() as int),
    {
        if self.inner.len() == 0 {
            Err(BufferEmpty)
        } else {
            let bt: u8 = self.inner.remove(0);
            assert(self.inner@ =~= old(self)@.subrange(1, old(self)@.len() as int));
            Ok(bt)
        }
    }

    /// Drops every stored byte; the advertised capacity stays.
    pub fn clear(&mut self)
        ensures
            final(self)@ == Seq::<u8>::empty(),
            final(self).spec_capacity() == old(self).spec_capacity(),
    {
        self.inner.clear();
    }
}

impl From<Vec<u8>> for VecNewtype {
    /// A buffer holding `inner`, advertising `capacity_for` its length.
    fn from(inner: Vec<u8>) -> (b: VecNewtype) {
        let fake_size: usize = advertised_capacity(inner.len());
        VecNewtype { inner, fake_size }
    }
}

impl FromSpecImpl<Vec<u8>> for VecNewtype {
    open spec fn obeys_from_spec() -> bool {
        true
    }

    open spec fn from_spec(v: Vec<u8>) -> VecNewtype {
        VecNewtype { inner: v, fake_size: capacity_for(v@.len() as int) as usize }
    }
}

} // verus!
