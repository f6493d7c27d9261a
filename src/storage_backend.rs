//! The in-memory byte backend that a storage writes to.
use vstd::prelude::*;

verus! {

/// An expanding byte buffer whose write position is always its end.
pub struct StorageBackend {
    data: Vec<u8>,
}

impl View for StorageBackend {
    type V = Seq<u8>;

    closed spec fn view(&self) -> Seq<u8> {
        self.data@
    }
}

impl StorageBackend {
    pub fn new_in_memory() -> (r: StorageBackend)
        ensures
            r@ == Seq::<u8>::empty(),
    {
        StorageBackend { data: Vec::new() }
    }

    /// A backend that already holds `bytes`; writes go after them.
    pub fn from_existing_memory(bytes: Vec<u8>) -> (r: StorageBackend)
        ensures
            r@ == bytes@,
    {
        StorageBackend { data: bytes }
    }

    /// Appends `bytes` at the write position, and returns the new position.
    pub fn write(&mut self, bytes: &[u8]) -> (r: usize)
        ensures
            final(self)@ == old(self)@ + bytes@,
            r == final(self)@.len(),
    {
        self.data.extend_from_slice(bytes);
        assert(self.data@ =~= old(self)@ + bytes@);
        self.data.len()
    }

    /// The write position: the number of bytes written so far.
    pub fn position(&self) -> (r: usize)
        ensures
            r == self@.len(),
    {
        self.data.len()
    }

    /// What has been written so far.
    pub fn contents(&self) -> (r: &[u8])
        ensures
            r@ == self@,
    {
        self.data.as_slice()
    }

    pub fn into_inner(self) -> (r: Vec<u8>)
        ensures
            r@ == self@,
    {
        self.data
    }
}

} // verus!
