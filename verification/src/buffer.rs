//! A growable byte sequence with an explicitly reserved capacity.
use vstd::prelude::*;
use vstd::string::StringSliceAdditionalSpecFns;
use crate::bytes::bytes_eq;

verus! {

/// Why a reservation failed.
#[derive(Clone, Copy, Debug, PartialEq, Eq, Structural)]
pub enum CapacityError {
    /// The length plus the bytes asked for exceeds `usize::MAX`.
    Overflow,
    /// The allocator did not grant the memory.
    Refused,
}

/// What a reservation of `additional` bytes comes to for a buffer of `len`
/// bytes and capacity `capacity`: the new capacity, or the failure. `granted`
/// is the allocator's answer, which counts only when the buffer has to grow.
pub open spec fn reservation_spec(len: nat, capacity: nat, additional: nat, granted: bool) -> Result<
    nat,
    CapacityError,
> {
    if len + additional > usize::MAX {
        Err(CapacityError::Overflow)
    } else if len + additional <= capacity {
        Ok(capacity)
    } else if granted {
        Ok(len + additional)
    } else {
        Err(CapacityError::Refused)
    }
}

/// How many times `byte` occurs in `bytes`.
pub open spec fn count_of(bytes: Seq<u8>, byte: u8) -> nat
    decreases bytes.len(),
{
    if bytes.len() == 0 {
        0
    } else {
        count_of(bytes.drop_last(), byte) + (if bytes.last() == byte {
            1nat
        } else {
            0nat
        })
    }
}

/// `len` bytes that repeat `pattern` from its start; zero bytes when
/// `pattern` is empty.
pub open spec fn cyclic_fill(pattern: Seq<u8>, len: nat) -> Seq<u8> {
    Seq::new(
        len,
        |i: int|
            if pattern.len() == 0 {
                0u8
            } else {
                pattern[i % pattern.len() as int]
            },
    )
}

/// The larger of two capacities.
pub open spec fn larger(a: nat, b: nat) -> nat {
    if a >= b {
        a
    } else {
        b
    }
}

/// Bytes with a reserved capacity that is never smaller than their number.
///
/// `push` fills reserved room and never grows the buffer; room is reserved
/// with `try_reserve`, and the `extend` operations grow as needed.
#[derive(Debug)]
pub struct ByteBuffer {
    bytes: Vec<u8>,
    capacity: usize,
}

impl View for ByteBuffer {
    type V = Seq<u8>;

    closed spec fn view(&self) -> Seq<u8> {
        self.bytes@
    }
}

impl Clone for ByteBuffer {
    fn clone(&self) -> (copy: Self)
        ensures
            copy@ == self@,
            copy.spec_capacity() == self.spec_capacity(),
    {
        proof {
            use_type_invariant(self);
        }
        let mut bytes: Vec<u8> = Vec::new();
        bytes.extend_from_slice(self.bytes.as_slice());
        assert(bytes@ =~= self.bytes@);
        ByteBuffer { bytes, capacity: self.capacity }
    }
}

impl Default for ByteBuffer {
    fn default() -> (buffer: Self)
        ensures
            buffer@ == Seq::<u8>::empty(),
            buffer.spec_capacity() == 0,
    {
        ByteBuffer { bytes: Vec::new(), capacity: 0 }
    }
}

/// Buffers are equal where their bytes are; the capacity does not count.
impl PartialEq for ByteBuffer {
    fn eq(&self, other: &Self) -> (same: bool) {
        bytes_eq(self.bytes.as_slice(), other.bytes.as_slice())
    }
}

impl Eq for ByteBuffer {

}

impl vstd::std_specs::cmp::PartialEqSpecImpl for ByteBuffer {
    open spec fn obeys_eq_spec() -> bool {
        true
    }

    open spec fn eq_spec(&self, other: &Self) -> bool {
        self@ == other@
    }
}

/// The buffer that holds `bytes` and has no room to spare.
impl From<Vec<u8>> for ByteBuffer {
    fn from(bytes: Vec<u8>) -> (buffer: Self)
        ensures
            buffer@ == bytes@,
            buffer.spec_capacity() == bytes@.len(),
    {
        let capacity = bytes.len();
        ByteBuffer { bytes, capacity }
    }
}

impl vstd::std_specs::convert::FromSpecImpl<Vec<u8>> for ByteBuffer {
    open spec fn obeys_from_spec() -> bool {
        true
    }

    closed spec fn from_spec(bytes: Vec<u8>) -> Self {
        ByteBuffer { bytes, capacity: bytes.len() }
    }
}

impl ByteBuffer {
    #[verifier::type_invariant]
    spec fn within_capacity(self) -> bool {
        self.bytes@.len() <= self.capacity
    }

    /// The reserved capacity.
    pub closed spec fn spec_capacity(&self) -> nat {
        self.capacity as nat
    }

    /// An empty buffer with room for `capacity` bytes.
    pub fn with_capacity(capacity: usize) -> (buffer: Self)
        requires
            capacity <= isize::MAX,
        ensures
            buffer@ == Seq::<u8>::empty(),
            buffer.spec_capacity() == capacity,
    {
        ByteBuffer { bytes: Vec::with_capacity(capacity), capacity }
    }

    /// A buffer of exactly `capacity` bytes that repeat the bytes of `fill`
    /// from its start; zero bytes when `fill` is empty. A `fill` longer than
    /// `capacity` is cut off.
    pub fn filled(capacity: usize, fill: &str) -> (buffer: Self)
        requires
            capacity <= isize::MAX,
        ensures
            buffer@ == cyclic_fill(fill.spec_bytes(), capacity as nat),
            buffer.spec_capacity() == capacity,
    {
        let pattern = fill.as_bytes();
        let mut bytes: Vec<u8> = Vec::with_capacity(capacity);
        let mut next: usize = 0;
        while bytes.len() < capacity
            invariant
                bytes@.len() <= capacity,
                pattern@ == fill.spec_bytes(),
                pattern@.len() == 0 ==> next == 0,
                pattern@.len() > 0 ==> next == bytes@.len() % pattern@.len(),
                bytes@ == cyclic_fill(pattern@, bytes@.len()),
            decreases capacity - bytes@.len(),
        {
            let ghost before = bytes@;
            if pattern.len() == 0 {
                bytes.push(0);
            } else {
                bytes.push(pattern[next]);
                next = if next + 1 == pattern.len() {
                    0
                } else {
                    next + 1
                };
                assert(next == bytes@.len() % pattern@.len()) by {
                    lemma_next_residue(before.len(), pattern@.len());
                }
            }
            assert(bytes@ =~= cyclic_fill(pattern@, bytes@.len()));
        }
        ByteBuffer { bytes, capacity }
    }

    /// The bytes as a slice.
    pub fn as_slice(&self) -> (slice: &[u8])
        ensures
            slice@ == self@,
    {
        self.bytes.as_slice()
    }

    /// The bytes.
    pub fn bytes(&self) -> (bytes: &Vec<u8>)
        ensures
            bytes@ == self@,
    {
        &self.bytes
    }

    /// A copy of the bytes.
    pub fn to_vec(&self) -> (bytes: Vec<u8>)
        ensures
            bytes@ == self@,
    {
        let mut bytes: Vec<u8> = Vec::new();
        bytes.extend_from_slice(self.bytes.as_slice());
        assert(bytes@ =~= self@);
        bytes
    }

    /// The number of bytes.
    pub fn size(&self) -> (n: usize)
        ensures
            n == self@.len(),
    {
        self.bytes.len()
    }

    /// The reserved capacity, which is never smaller than the size.
    pub fn capacity(&self) -> (n: usize)
        ensures
            n == self.spec_capacity(),
            self@.len() <= n,
    {
        proof {
            use_type_invariant(self);
        }
        self.capacity
    }

    /// Whether the buffer holds no byte.
    pub fn is_empty(&self) -> (empty: bool)
        ensures
            empty == (self@.len() == 0),
    {
        self.bytes.len() == 0
    }

    /// How many times `byte` occurs.
    pub fn count(&self, byte: u8) -> (n: usize)
        ensures
            n == count_of(self@, byte),
    {
        let mut n: usize = 0;
        let mut i: usize = 0;
        assert(self.bytes@.take(0) =~= Seq::<u8>::empty());
        while i < self.bytes.len()
            invariant
                i <= self.bytes.len(),
                n <= i,
                n == count_of(self.bytes@.take(i as int), byte),
            decreases self.bytes.len() - i,
        {
            if self.bytes[i] == byte {
                n += 1;
            }
            i += 1;
            assert(self.bytes@.take(i as int).drop_last() =~= self.bytes@.take(i - 1));
        }
        assert(self.bytes@.take(i as int) =~= self.bytes@);
        n
    }

    /// The byte at `index`; `None` past the end.
    pub fn byte_at(&self, index: usize) -> (byte: Option<u8>)
        ensures
            byte == (if index < self@.len() {
                Some(self@[index as int])
            } else {
                None
            }),
    {
        if index < self.bytes.len() {
            Some(self.bytes[index])
        } else {
            None
        }
    }

    /// Appends `byte` into reserved room. The buffer does not grow: a full
    /// buffer has to be given room with `try_reserve` first.
    pub fn push(&mut self, byte: u8)
        requires
            old(self)@.len() < old(self).spec_capacity(),
        ensures
            final(self)@ == old(self)@.push(byte),
            final(self).spec_capacity() == old(self).spec_capacity(),
    {
        let mut bytes: Vec<u8> = Vec::new();
        std::mem::swap(&mut self.bytes, &mut bytes);
        bytes.push(byte);
        std::mem::swap(&mut self.bytes, &mut bytes);
    }

    /// Appends `byte`, reserving room for it first if the buffer is full.
    /// With room to spare this always succeeds; on a failure the buffer is
    /// unchanged.
    pub fn push_safe(&mut self, byte: u8) -> (outcome: Result<(), CapacityError>)
        ensures
            old(self)@.len() < old(self).spec_capacity() ==> outcome.is_ok(),
            match outcome {
                Ok(()) => {
                    &&& final(self)@ == old(self)@.push(byte)
                    &&& final(self).spec_capacity() == larger(
                        old(self).spec_capacity(),
                        old(self)@.len() + 1,
                    )
                },
                Err(_) => {
                    &&& final(self)@ == old(self)@
                    &&& final(self).spec_capacity() == old(self).spec_capacity()
                    &&& old(self)@.len() == old(self).spec_capacity()
                },
            },
    {
        proof {
            use_type_invariant(&*self);
        }
        match self.try_reserve(1) {
            Ok(()) => {
                self.push(byte);
                Ok(())
            },
            Err(error) => Err(error),
        }
    }

    /// Removes every byte and keeps the capacity.
    pub fn clear(&mut self)
        ensures
            final(self)@ == Seq::<u8>::empty(),
            final(self).spec_capacity() == old(self).spec_capacity(),
    {
        let mut bytes: Vec<u8> = Vec::new();
        std::mem::swap(&mut self.bytes, &mut bytes);
        bytes.clear();
        std::mem::swap(&mut self.bytes, &mut bytes);
    }

    /// What a reservation comes to, given the allocator's answer: the new
    /// capacity, or the failure.
    pub fn reservation(len: usize, capacity: usize, additional: usize, granted: bool) -> (outcome:
        Result<usize, CapacityError>)
        ensures
            match outcome {
                Ok(n) => reservation_spec(len as nat, capacity as nat, additional as nat, granted)
                    == Ok::<nat, CapacityError>(n as nat),
                Err(e) => reservation_spec(len as nat, capacity as nat, additional as nat, granted)
                    == Err::<nat, CapacityError>(e),
            },
    {
        match len.checked_add(additional) {
            None => Err(CapacityError::Overflow),
            Some(needed) => {
                if needed <= capacity {
                    Ok(capacity)
                } else if granted {
                    Ok(needed)
                } else {
                    Err(CapacityError::Refused)
                }
            },
        }
    }

    /// Reserves room for `additional` more bytes. Succeeds without asking the
    /// allocator when the room is there already, fails with `Overflow` when
    /// the size plus `additional` exceeds `usize::MAX`, and otherwise goes by
    /// the allocator's answer. The bytes stay as they are, and on a failure
    /// so does the capacity.
    pub fn try_reserve(&mut self, additional: usize) -> (outcome: Result<(), CapacityError>)
        ensures
            final(self)@ == old(self)@,
            old(self)@.len() + additional <= old(self).spec_capacity() ==> outcome.is_ok(),
            old(self)@.len() + additional > usize::MAX ==> outcome == Err::<(), CapacityError>(
                CapacityError::Overflow,
            ),
            exists|granted: bool| #[trigger]
                reservation_spec(
                    old(self)@.len(),
                    old(self).spec_capacity(),
                    additional as nat,
                    granted,
                ) == (match outcome {
                    Ok(()) => Ok::<nat, CapacityError>(final(self).spec_capacity()),
                    Err(e) => Err::<nat, CapacityError>(e),
                }),
            outcome.is_err() ==> final(self).spec_capacity() == old(self).spec_capacity(),
    {
        proof {
            use_type_invariant(&*self);
        }
        let len = self.bytes.len();
        let fits = match len.checked_add(additional) {
            None => false,
            Some(needed) => needed <= self.capacity,
        };
        let granted = if fits {
            true
        } else {
            let mut bytes: Vec<u8> = Vec::new();
            std::mem::swap(&mut self.bytes, &mut bytes);
            let answer = bytes.try_reserve(additional);
            std::mem::swap(&mut self.bytes, &mut bytes);
            answer.is_ok()
        };
        let outcome = match Self::reservation(len, self.capacity, additional, granted) {
            Ok(capacity) => {
                self.capacity = capacity;
                Ok(())
            },
            Err(error) => Err(error),
        };
        assert(reservation_spec(
            old(self)@.len(),
            old(self).spec_capacity(),
            additional as nat,
            granted,
        ) == (match outcome {
            Ok(()) => Ok::<nat, CapacityError>(self.spec_capacity()),
            Err(e) => Err::<nat, CapacityError>(e),
        }));
        outcome
    }

    /// Appends the bytes of `other`, growing the capacity as far as needed.
    pub fn extend_from(&mut self, other: &ByteBuffer)
        ensures
            final(self)@ == old(self)@ + other@,
            final(self).spec_capacity() == larger(
                old(self).spec_capacity(),
                old(self)@.len() + other@.len(),
            ),
    {
        self.extend_from_slice(other.as_slice());
    }

    /// Appends `more`, growing the capacity as far as needed.
    pub fn extend_from_slice(&mut self, more: &[u8])
        ensures
            final(self)@ == old(self)@ + more@,
            final(self).spec_capacity() == larger(
                old(self).spec_capacity(),
                old(self)@.len() + more@.len(),
            ),
    {
        proof {
            use_type_invariant(&*self);
        }
        let mut bytes: Vec<u8> = Vec::new();
        std::mem::swap(&mut self.bytes, &mut bytes);
        bytes.extend_from_slice(more);
        assert(bytes@ =~= old(self)@ + more@);
        let capacity = if bytes.len() > self.capacity {
            bytes.len()
        } else {
            self.capacity
        };
        *self = ByteBuffer { bytes, capacity };
    }
}

/// Stepping a position that cycles through `0..m` keeps it the residue of the
/// count.
proof fn lemma_next_residue(n: nat, m: nat)
    requires
        m > 0,
    ensures
        (n + 1) % m == (if n % m + 1 == m {
            0
        } else {
            n % m + 1
        }),
{
    assert((n + 1) % m == (if n % m + 1 == m {
        0
    } else {
        n % m + 1
    })) by (nonlinear_arith)
        requires
            m > 0,
    ;
}

} // verus!
