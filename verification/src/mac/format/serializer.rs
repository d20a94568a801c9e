//! Fixed-length field encoding and the write/read buffers that frames are
//! built in and parsed from.
use vstd::prelude::*;
use core::marker::PhantomData;

verus! {

broadcast use vstd::seq_lib::group_seq_properties;

#[derive(Debug)]
pub struct NoSpaceLeft;

/// A field with a fixed encoded length.
pub trait FixSerializationLength: Sized {
    spec fn spec_ser_len() -> nat;

    fn ser_len() -> (n: usize)
        ensures
            n == Self::spec_ser_len(),
    ;
}

/// A field that encodes into exactly `ser_len` octets.
pub trait FixSerializable: FixSerializationLength {
    spec fn spec_serialize(&self) -> Seq<u8>;

    proof fn lemma_serialize_len(&self)
        ensures
            self.spec_serialize().len() == Self::spec_ser_len(),
    ;

    fn serialize(&self) -> (r: Vec<u8>)
        ensures
            r@ == self.spec_serialize(),
            r@.len() == Self::spec_ser_len(),
    ;
}

/// A field that decodes from any `ser_len` octets.
pub trait FixDeserializable: FixSerializationLength {
    spec fn spec_deserialize(buf: Seq<u8>) -> Self;

    fn deserialize(buf: &[u8]) -> (r: Self)
        requires
            buf@.len() == Self::spec_ser_len(),
        ensures
            r == Self::spec_deserialize(buf@),
    ;
}

/// A field that decodes from some `ser_len`-octet strings and rejects others.
pub trait FixMaybeDeserializable: FixSerializationLength {
    spec fn spec_try_deserialize(buf: Seq<u8>) -> Option<Self>;

    fn try_deserialize(buf: &[u8]) -> (r: Option<Self>)
        requires
            buf@.len() == Self::spec_ser_len(),
        ensures
            r == Self::spec_try_deserialize(buf@),
    ;
}

/// `s` with the octets from `offset` on replaced by `b`.
pub open spec fn spec_splice(s: Seq<u8>, offset: int, b: Seq<u8>) -> Seq<u8> {
    s.subrange(0, offset) + b + s.subrange(offset + b.len(), s.len() as int)
}

/// A reserved, not yet written, field of a write buffer.
pub struct Placeholder<T> {
    offset: usize,
    _phantom: PhantomData<T>,
}

impl<T> Placeholder<T> {
    /// Position of the field in its buffer.
    pub closed spec fn offset(&self) -> nat {
        self.offset as nat
    }
}

/// A bounded buffer that fields are appended to.
///
/// A nested buffer is a fresh buffer whose capacity is bounded by what is left
/// in its parent; `commit` appends its contents to the parent.
pub struct WriteBuffer {
    data: Vec<u8>,
    capacity: usize,
}

impl View for WriteBuffer {
    type V = Seq<u8>;

    closed spec fn view(&self) -> Seq<u8> {
        self.data@
    }
}

impl WriteBuffer {
    /// The buffer never holds more than its capacity.
    #[verifier::type_invariant]
    pub open spec fn within_capacity(self) -> bool {
        self@.len() <= self.spec_capacity()
    }

    /// The number of octets the buffer may hold.
    pub closed spec fn spec_capacity(&self) -> nat {
        self.capacity as nat
    }

    /// Octets that can still be appended.
    pub open spec fn spec_remaining(&self) -> int {
        self.spec_capacity() - self@.len()
    }

    pub fn new_empty() -> (r: Self)
        ensures
            r@ == Seq::<u8>::empty(),
            r.spec_capacity() == 0,
    {
        Self { data: Vec::new(), capacity: 0 }
    }

    pub fn new(capacity: usize) -> (r: Self)
        ensures
            r@ == Seq::<u8>::empty(),
            r.spec_capacity() == capacity,
    {
        Self { data: Vec::new(), capacity }
    }

    pub fn capacity(&self) -> (r: usize)
        ensures
            r == self.spec_capacity(),
    {
        self.capacity
    }

    pub fn len(&self) -> (r: usize)
        ensures
            r == self@.len(),
            r <= self.spec_capacity(),
            self.spec_capacity() <= usize::MAX,
    {
        proof { use_type_invariant(self); }
        self.data.len()
    }

    pub fn is_empty(&self) -> (r: bool)
        ensures
            r == (self@.len() == 0),
    {
        self.len() == 0
    }

    /// Lowers the capacity to `value` when it is below the current one.
    pub fn limit_capacity(&mut self, value: usize)
        requires
            old(self)@.len() <= value,
        ensures
            final(self)@ == old(self)@,
            final(self).spec_capacity() == if value <= old(self).spec_capacity() {
                value as nat
            } else {
                old(self).spec_capacity()
            },
    {
        if value <= self.capacity {
            self.capacity = value;
        }
    }

    /// Reserves room for a field that is written later.
    pub fn append_placeholder<T: FixSerializable>(&mut self) -> (r: Result<Placeholder<T>, NoSpaceLeft>)
        ensures
            final(self).spec_capacity() == old(self).spec_capacity(),
            r is Ok <==> old(self).spec_remaining() >= T::spec_ser_len(),
            r matches Ok(p) ==> {
                &&& p.offset() == old(self)@.len()
                &&& final(self)@ == old(self)@ + Seq::new(T::spec_ser_len(), |i: int| 0u8)
            },
            r is Err ==> final(self)@ == old(self)@,
    {
        proof { use_type_invariant(&*self); }
        let n = T::ser_len();
        if self.capacity - self.data.len() >= n {
            let offset = self.data.len();
            let mut data: Vec<u8> = Vec::new();
            core::mem::swap(&mut data, &mut self.data);
            let mut i: usize = 0;
            while i < n
                invariant
                    0 <= i <= n,
                    n == T::spec_ser_len(),
                    data@ == old(self)@ + Seq::new(i as nat, |j: int| 0u8),
                decreases n - i,
            {
                data.push(0u8);
                i = i + 1;
                assert(data@ =~= old(self)@ + Seq::new(i as nat, |j: int| 0u8));
            }
            core::mem::swap(&mut data, &mut self.data);
            Ok(Placeholder { offset, _phantom: PhantomData })
        } else {
            Err(NoSpaceLeft)
        }
    }

    /// Writes `bytes` over the octets from `offset` on.
    fn write_at(&mut self, offset: usize, bytes: &Vec<u8>)
        requires
            offset + bytes@.len() <= old(self)@.len(),
        ensures
            final(self)@ == spec_splice(old(self)@, offset as int, bytes@),
            final(self).spec_capacity() == old(self).spec_capacity(),
    {
        proof { use_type_invariant(&*self); }
        let mut data: Vec<u8> = Vec::new();
        core::mem::swap(&mut data, &mut self.data);
        let mut i: usize = 0;
        while i < bytes.len()
            invariant
                0 <= i <= bytes@.len(),
                old(self)@.len() <= self.capacity,
                self.capacity == old(self).spec_capacity(),
                offset + bytes@.len() <= old(self)@.len(),
                data@.len() == old(self)@.len(),
                forall|j: int| 0 <= j < data@.len() ==> #[trigger] data@[j] == if offset <= j < offset + i {
                    bytes@[j - offset]
                } else {
                    old(self)@[j]
                },
            decreases bytes@.len() - i,
        {
            data.set(offset + i, bytes[i]);
            i = i + 1;
        }
        assert(data@ =~= spec_splice(old(self)@, offset as int, bytes@));
        core::mem::swap(&mut data, &mut self.data);
    }

    /// Writes a field into the room reserved for it.
    pub fn write_placeholder<T: FixSerializable>(&mut self, placeholder: &Placeholder<T>, field: T)
        requires
            placeholder.offset() + T::spec_ser_len() <= old(self)@.len(),
        ensures
            final(self)@ == spec_splice(old(self)@, placeholder.offset() as int, field.spec_serialize()),
            final(self).spec_capacity() == old(self).spec_capacity(),
            field.spec_serialize().len() == T::spec_ser_len(),
    {
        let bytes = field.serialize();
        self.write_at(placeholder.offset, &bytes);
    }

    /// Appends a field when there is room for it.
    pub fn append_field<T: FixSerializable>(&mut self, field: T) -> (r: Result<(), NoSpaceLeft>)
        ensures
            final(self).spec_capacity() == old(self).spec_capacity(),
            r is Ok <==> old(self).spec_remaining() >= T::spec_ser_len(),
            r is Ok ==> final(self)@ == old(self)@ + field.spec_serialize(),
            r is Err ==> final(self)@ == old(self)@,
            field.spec_serialize().len() == T::spec_ser_len(),
    {
        proof {
            use_type_invariant(&*self);
            field.lemma_serialize_len();
        }
        let n = T::ser_len();
        if self.capacity - self.data.len() >= n {
            let mut bytes = field.serialize();
            let mut data: Vec<u8> = Vec::new();
            core::mem::swap(&mut data, &mut self.data);
            data.append(&mut bytes);
            core::mem::swap(&mut data, &mut self.data);
            Ok(())
        } else {
            Err(NoSpaceLeft)
        }
    }

    /// An empty buffer bounded by what is left here and by `len_limit`.
    pub fn nested_buffer(&self, len_limit: usize) -> (r: WriteBuffer)
        ensures
            self.spec_capacity() <= usize::MAX,
            r@ == Seq::<u8>::empty(),
            r.spec_capacity() == if self.spec_remaining() <= len_limit {
                self.spec_remaining()
            } else {
                len_limit as int
            },
    {
        proof { use_type_invariant(self); }
        let remaining = self.capacity - self.data.len();
        let len = if remaining <= len_limit { remaining } else { len_limit };
        WriteBuffer::new(len)
    }

    /// Appends the contents of a nested buffer.
    pub fn commit(self, parent: &mut WriteBuffer)
        requires
            self@.len() <= old(parent).spec_remaining(),
        ensures
            final(parent)@ == old(parent)@ + self@,
            final(parent).spec_capacity() == old(parent).spec_capacity(),
    {
        proof { use_type_invariant(&*parent); }
        let mut data = self.data;
        let mut parent_data: Vec<u8> = Vec::new();
        core::mem::swap(&mut parent_data, &mut parent.data);
        parent_data.append(&mut data);
        core::mem::swap(&mut parent_data, &mut parent.data);
    }

    /// The written octets.
    pub fn as_slice(&self) -> (r: &[u8])
        ensures
            r@ == self@,
    {
        self.data.as_slice()
    }
}

/// What is written to a buffer nested in `parent` with `limit` always fits
/// in what was left of `parent`, so committing it to the unchanged parent
/// appends all of it: the parent then holds its own octets followed by those
/// of the nested buffer, within its capacity.
pub proof fn law_nested_commit(parent: WriteBuffer, limit: usize, nested: WriteBuffer)
    requires
        parent.within_capacity(),
        nested.within_capacity(),
        nested.spec_capacity() == if parent.spec_remaining() <= limit {
            parent.spec_remaining()
        } else {
            limit as int
        },
    ensures
        nested@.len() <= parent.spec_remaining(),
        (parent@ + nested@).len() == parent@.len() + nested@.len() <= parent.spec_capacity(),
        (parent@ + nested@).subrange(0, parent@.len() as int) == parent@,
        (parent@ + nested@).subrange(parent@.len() as int, (parent@.len() + nested@.len()) as int) == nested@,
{
    assert((parent@ + nested@).subrange(0, parent@.len() as int) =~= parent@);
    assert((parent@ + nested@).subrange(parent@.len() as int, (parent@.len() + nested@.len()) as int) =~= nested@);
}

/// A view into received octets that fields are taken from the front of.
#[derive(Debug, Clone, Copy)]
pub struct ReadBuffer<'a> {
    slice: &'a [u8],
}

impl<'a> View for ReadBuffer<'a> {
    type V = Seq<u8>;

    closed spec fn view(&self) -> Seq<u8> {
        self.slice@
    }
}

impl<'a> ReadBuffer<'a> {
    pub fn new(slice: &'a [u8]) -> (r: Self)
        ensures
            r@ == slice@,
    {
        Self { slice }
    }

    pub fn len(&self) -> (r: usize)
        ensures
            r == self@.len(),
    {
        self.slice.len()
    }

    pub fn is_empty(&self) -> (r: bool)
        ensures
            r == (self@.len() == 0),
    {
        self.slice.len() == 0
    }

    /// The remaining octets.
    pub fn as_slice(&self) -> (r: &'a [u8])
        ensures
            r@ == self@,
    {
        self.slice
    }

    /// Keeps the first `value` octets, when there are more.
    pub fn limit_len(&mut self, value: usize)
        ensures
            final(self)@ == if value <= old(self)@.len() {
                old(self)@.subrange(0, value as int)
            } else {
                old(self)@
            },
    {
        if value <= self.slice.len() {
            self.slice = vstd::slice::slice_subrange(self.slice, 0, value);
        }
    }

    pub fn clear(&mut self)
        ensures
            final(self)@ == Seq::<u8>::empty(),
    {
        self.limit_len(0);
    }

    /// Takes a field from the front.
    pub fn pop_field<T: FixDeserializable>(&mut self) -> (r: Result<T, NoSpaceLeft>)
        ensures
            r is Ok <==> T::spec_ser_len() <= old(self)@.len(),
            r matches Ok(v) ==> {
                &&& v == T::spec_deserialize(old(self)@.subrange(0, T::spec_ser_len() as int))
                &&& final(self)@ == old(self)@.subrange(T::spec_ser_len() as int, old(self)@.len() as int)
            },
            r is Err ==> final(self)@ == old(self)@,
    {
        let n = T::ser_len();
        if n <= self.slice.len() {
            let prefix = vstd::slice::slice_subrange(self.slice, 0, n);
            let rest = vstd::slice::slice_subrange(self.slice, n, self.slice.len());
            self.slice = rest;
            Ok(T::deserialize(prefix))
        } else {
            Err(NoSpaceLeft)
        }
    }

    /// Takes a field from the front when it decodes; leaves the buffer as it
    /// is otherwise.
    pub fn try_pop_field<T: FixMaybeDeserializable>(&mut self) -> (r: Result<Option<T>, NoSpaceLeft>)
        ensures
            r is Ok <==> T::spec_ser_len() <= old(self)@.len(),
            r matches Ok(v) ==> {
                let n = T::spec_ser_len() as int;
                &&& v == T::spec_try_deserialize(old(self)@.subrange(0, n))
                &&& final(self)@ == if v is Some {
                    old(self)@.subrange(n, old(self)@.len() as int)
                } else {
                    old(self)@
                }
            },
            r is Err ==> final(self)@ == old(self)@,
    {
        let n = T::ser_len();
        if self.slice.len() >= n {
            let prefix = vstd::slice::slice_subrange(self.slice, 0, n);
            let val = T::try_deserialize(prefix);
            if val.is_some() {
                self.slice = vstd::slice::slice_subrange(self.slice, n, self.slice.len());
            }
            Ok(val)
        } else {
            Err(NoSpaceLeft)
        }
    }

    /// Takes the first `len` octets as a buffer of their own.
    pub fn pop_buffer(&mut self, len: usize) -> (r: Result<ReadBuffer<'a>, NoSpaceLeft>)
        ensures
            r is Ok <==> len <= old(self)@.len(),
            r matches Ok(b) ==> {
                &&& b@ == old(self)@.subrange(0, len as int)
                &&& final(self)@ == old(self)@.subrange(len as int, old(self)@.len() as int)
            },
            r is Err ==> final(self)@ == old(self)@,
    {
        if len <= self.slice.len() {
            let prefix = vstd::slice::slice_subrange(self.slice, 0, len);
            self.slice = vstd::slice::slice_subrange(self.slice, len, self.slice.len());
            Ok(ReadBuffer::new(prefix))
        } else {
            Err(NoSpaceLeft)
        }
    }
}

} // verus!
