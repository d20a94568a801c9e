//! Storage for one PHY service data unit, the octets of a frame.
use vstd::prelude::*;
use crate::mac::format::serializer::{ReadBuffer, WriteBuffer};

verus! {

/// A frame store of fixed capacity: the frame occupies its first `len`
/// octets.
pub trait PsduContainer: Sized {
    spec fn spec_capacity(&self) -> nat;

    /// The octets of the frame.
    spec fn spec_contents(&self) -> Seq<u8>;

    /// The whole store, frame and the octets past it.
    spec fn spec_storage(&self) -> Seq<u8>;

    fn capacity(&self) -> (r: usize)
        ensures
            r == self.spec_capacity(),
    ;

    fn len(&self) -> (r: usize)
        ensures
            r == self.spec_contents().len(),
    ;

    /// Sets how many octets of the store belong to the frame; fails when that
    /// exceeds the capacity.
    fn set_length(&mut self, length: usize) -> (r: Result<(), ()>)
        ensures
            r is Ok <==> length <= old(self).spec_capacity(),
            final(self).spec_capacity() == old(self).spec_capacity(),
            final(self).spec_storage() == old(self).spec_storage(),
            r is Ok ==> final(self).spec_contents() == old(self).spec_storage().subrange(0, length as int),
            r is Err ==> final(self).spec_contents() == old(self).spec_contents(),
    ;

    fn as_slice(&self) -> (r: &[u8])
        ensures
            r@ == self.spec_contents(),
    ;

    /// Makes the frame a copy of `other`; fails, leaving the frame as it was,
    /// when `other` does not fit.
    fn set_from_slice(&mut self, other: &[u8]) -> (r: Result<(), ()>)
        ensures
            r is Ok <==> other@.len() <= old(self).spec_capacity(),
            final(self).spec_capacity() == old(self).spec_capacity(),
            r is Ok ==> final(self).spec_contents() == other@,
            r is Err ==> final(self).spec_contents() == old(self).spec_contents() && final(self).spec_storage()
                == old(self).spec_storage(),
    ;

    /// A reader over the frame.
    fn read_buffer(&self) -> (r: ReadBuffer<'_>)
        ensures
            r@ == self.spec_contents(),
    ;

    /// An empty writer with room for what is left after the frame; `commit`
    /// appends what was written to it.
    fn write_buffer(&self) -> (r: WriteBuffer)
        ensures
            r@ == Seq::<u8>::empty(),
            r.spec_capacity() == self.spec_capacity() - self.spec_contents().len(),
    ;

    /// Appends octets written through `write_buffer` to the frame.
    fn commit(&mut self, buffer: WriteBuffer)
        requires
            old(self).spec_contents().len() + buffer@.len() <= old(self).spec_capacity(),
        ensures
            final(self).spec_capacity() == old(self).spec_capacity(),
            final(self).spec_contents() == old(self).spec_contents() + buffer@,
    ;
}

/// `data` with the octets from `start` on replaced by `bytes`.
fn splice(data: &Vec<u8>, start: usize, bytes: &[u8]) -> (r: Vec<u8>)
    requires
        start + bytes@.len() <= data@.len(),
    ensures
        r@.len() == data@.len(),
        forall|j: int| 0 <= j < start ==> #[trigger] r@[j] == data@[j],
        forall|j: int| 0 <= j < bytes@.len() ==> #[trigger] r@[start + j] == bytes@[j],
        forall|j: int| start + bytes@.len() <= j < data@.len() ==> #[trigger] r@[j] == data@[j],
{
    let mut r: Vec<u8> = Vec::new();
    let mut i: usize = 0;
    while i < data.len()
        invariant
            start + bytes@.len() <= data@.len(),
            i <= data@.len(),
            r@.len() == i,
            forall|j: int| 0 <= j < i && !(start <= j < start + bytes@.len()) ==> #[trigger] r@[j] == data@[j],
            forall|j: int| start <= j < i && j < start + bytes@.len() ==> #[trigger] r@[j] == bytes@[j - start],
        decreases data@.len() - i,
    {
        if start <= i && i - start < bytes.len() {
            r.push(bytes[i - start]);
        } else {
            r.push(data[i]);
        }
        i = i + 1;
    }
    assert forall|j: int| 0 <= j < bytes@.len() implies #[trigger] r@[start + j] == bytes@[j] by {
        assert(r@[start + j] == bytes@[(start + j) - start]);
    }
    r
}

/// A frame store of `N` octets.
#[derive(Debug)]
pub struct StaticPsdu<const N: usize> {
    data: Vec<u8>,
    length: usize,
}

impl<const N: usize> StaticPsdu<N> {
    #[verifier::type_invariant]
    spec fn sized(self) -> bool {
        &&& self.data@.len() == N
        &&& self.length <= N
    }

    /// An empty frame in a zeroed store.
    pub fn new() -> (r: Self)
        ensures
            r.spec_contents() == Seq::<u8>::empty(),
            r.spec_storage() == Seq::new(N as nat, |i: int| 0u8),
            r.spec_capacity() == N,
    {
        let mut data: Vec<u8> = Vec::new();
        let mut i: usize = 0;
        while i < N
            invariant
                i <= N,
                data@ == Seq::new(i as nat, |j: int| 0u8),
            decreases N - i,
        {
            data.push(0);
            i = i + 1;
            assert(data@ =~= Seq::new(i as nat, |j: int| 0u8));
        }
        Self { data, length: 0 }
    }
}

impl<const N: usize> Default for StaticPsdu<N> {
    fn default() -> (r: Self)
        ensures
            r.spec_contents() == Seq::<u8>::empty(),
            r.spec_storage() == Seq::new(N as nat, |i: int| 0u8),
            r.spec_capacity() == N,
    {
        Self::new()
    }
}

impl<const N: usize> Clone for StaticPsdu<N> {
    /// A zeroed store holding a copy of the frame; the octets past the frame
    /// are not copied.
    fn clone(&self) -> (r: Self)
        ensures
            r.spec_contents() == self.spec_contents(),
            r.spec_capacity() == N,
    {
        proof { use_type_invariant(self); }
        let mut psdu = Self::new();
        let copied = psdu.set_from_slice(self.as_slice());
        proof {
            assert(copied is Ok);
        }
        psdu
    }
}

impl<const N: usize> PsduContainer for StaticPsdu<N> {
    closed spec fn spec_capacity(&self) -> nat {
        N as nat
    }

    closed spec fn spec_contents(&self) -> Seq<u8> {
        self.data@.subrange(0, self.length as int)
    }

    closed spec fn spec_storage(&self) -> Seq<u8> {
        self.data@
    }

    fn capacity(&self) -> (r: usize) {
        proof { use_type_invariant(self); }
        self.data.len()
    }

    fn len(&self) -> (r: usize) {
        proof { use_type_invariant(self); }
        self.length
    }

    fn set_length(&mut self, length: usize) -> (r: Result<(), ()>) {
        proof { use_type_invariant(&*self); }
        if length <= self.data.len() {
            self.length = length;
            Ok(())
        } else {
            Err(())
        }
    }

    fn as_slice(&self) -> (r: &[u8]) {
        proof { use_type_invariant(self); }
        vstd::slice::slice_subrange(self.data.as_slice(), 0, self.length)
    }

    fn set_from_slice(&mut self, other: &[u8]) -> (r: Result<(), ()>) {
        proof { use_type_invariant(&*self); }
        if other.len() > self.data.len() {
            return Err(());
        }
        let data = splice(&self.data, 0, other);
        self.data = data;
        self.length = other.len();
        assert forall|j: int| 0 <= j < other@.len() implies self.data@[j] == other@[j] by {
            assert(self.data@[0 + j] == other@[j]);
        }
        assert(self.data@.subrange(0, self.length as int) =~= other@);
        Ok(())
    }

    fn read_buffer(&self) -> (r: ReadBuffer<'_>) {
        ReadBuffer::new(self.as_slice())
    }

    fn write_buffer(&self) -> (r: WriteBuffer) {
        proof { use_type_invariant(self); }
        WriteBuffer::new(self.data.len() - self.length)
    }

    fn commit(&mut self, buffer: WriteBuffer) {
        proof { use_type_invariant(&*self); }
        let bytes = buffer.as_slice();
        let ghost old_data = self.data@;
        let start = self.length;
        let data = splice(&self.data, start, bytes);
        self.data = data;
        self.length = start + bytes.len();
        assert forall|j: int| start <= j < self.length implies self.data@[j] == buffer@[j - start] by {
            assert(self.data@[start + (j - start)] == bytes@[j - start]);
        }
        assert(self.data@.subrange(0, self.length as int) =~= old_data.subrange(0, start as int) + buffer@);
    }
}

} // verus!
