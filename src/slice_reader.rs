use crate::error::{Error, ErrorDetails};
use vstd::prelude::*;

verus! {

/// Big-endian value of the first two bytes of `s`.
pub open spec fn be16(s: Seq<u8>) -> int {
    s[0] as int * 0x100 + s[1] as int
}

/// Big-endian value of the first three bytes of `s`.
pub open spec fn be24(s: Seq<u8>) -> int {
    s[0] as int * 0x10000 + s[1] as int * 0x100 + s[2] as int
}

/// Big-endian value of the first four bytes of `s`.
pub open spec fn be32(s: Seq<u8>) -> int {
    s[0] as int * 0x1000000 + s[1] as int * 0x10000 + s[2] as int * 0x100 + s[3] as int
}

/// Big-endian 33-bit value of the first five bytes of `s`: the low bit of the first byte,
/// then four whole bytes.
pub open spec fn be33(s: Seq<u8>) -> int {
    (s[0] as int % 2) * 0x100000000 + be32(s.subrange(1, 5))
}

/// Big-endian value of the two bytes of `s` at `i`.
pub open spec fn be16_at(s: Seq<u8>, i: int) -> int {
    s[i] as int * 0x100 + s[i + 1] as int
}

/// Big-endian value of the three bytes of `s` at `i`.
pub open spec fn be24_at(s: Seq<u8>, i: int) -> int {
    s[i] as int * 0x10000 + s[i + 1] as int * 0x100 + s[i + 2] as int
}

/// Reads the big-endian `u16` at `b[i..i + 2]`.
pub fn u16_at(b: &[u8], i: usize) -> (r: u16)
    requires
        i + 2 <= b@.len(),
    ensures
        r == be16_at(b@, i as int),
{
    b[i] as u16 * 0x100 + b[i + 1] as u16
}

/// Reads the big-endian 24-bit value at `b[i..i + 3]`.
pub fn u24_at(b: &[u8], i: usize) -> (r: u32)
    requires
        i + 3 <= b@.len(),
    ensures
        r == be24_at(b@, i as int),
{
    b[i] as u32 * 0x10000 + b[i + 1] as u32 * 0x100 + b[i + 2] as u32
}

/// The error that a read of `n` bytes past the end reports at offset `at`.
pub open spec fn overrun(at: int, n: usize) -> Error {
    Error { location: at as usize, details: ErrorDetails::PacketOverrun(n) }
}

/// A cursor over a byte slice that remembers its offset within the packet, so that errors
/// name the position where they were detected.
#[derive(Debug)]
pub struct SliceReader<'a> {
    slice: &'a [u8],
    location: usize,
}

impl<'a> SliceReader<'a> {
    /// The bytes not read yet.
    pub closed spec fn rest(&self) -> Seq<u8> {
        self.slice@
    }

    /// The offset of the next byte within the packet.
    pub closed spec fn pos(&self) -> int {
        self.location as int
    }

    #[verifier::type_invariant]
    spec fn inv(&self) -> bool {
        self.location + self.slice@.len() <= usize::MAX
    }

    /// The state after `n` bytes were taken from `old`.
    pub open spec fn advanced(old: Self, new: Self, n: int) -> bool {
        &&& 0 <= n <= old.rest().len()
        &&& new.rest() == old.rest().subrange(n, old.rest().len() as int)
        &&& new.pos() == old.pos() + n
    }

    /// Starts a reader at offset 0 of `slice`.
    pub fn new(slice: &'a [u8]) -> (r: Self)
        ensures
            r.rest() == slice@,
            r.pos() == 0,
    {
        let _ = slice.len();
        SliceReader { slice, location: 0 }
    }

    /// Splits off a reader over the next `length` bytes, which reports errors at this reader's
    /// current offset, and advances this reader past them.
    pub fn new_sub_reader(&mut self, length: usize) -> (r: Result<Self, Error>)
        ensures
            match r {
                Ok(sub) => {
                    &&& length <= old(self).rest().len()
                    &&& sub.rest() == old(self).rest().subrange(0, length as int)
                    &&& sub.pos() == old(self).pos()
                    &&& Self::advanced(*old(self), *final(self), length as int)
                },
                Err(e) => {
                    &&& length > old(self).rest().len()
                    &&& e == overrun(old(self).pos(), length)
                    &&& *final(self) == *old(self)
                },
            },
    {
        let location = self.location;
        let slice = self.read(length)?;
        Ok(SliceReader { slice, location })
    }

    /// An error at this reader's offset.
    pub fn make_error(&self, details: ErrorDetails) -> (r: Error)
        ensures
            r == (Error { location: self.pos() as usize, details }),
    {
        Error { location: self.location, details }
    }

    /// The offset of the next byte within the packet.
    pub fn location(&self) -> (r: usize)
        ensures
            r == self.pos(),
    {
        self.location
    }

    /// Number of bytes left.
    pub fn remaining_len(&self) -> (r: usize)
        ensures
            r == self.rest().len(),
    {
        self.slice.len()
    }

    /// Advances past `length` bytes.
    pub fn skip(&mut self, length: usize) -> (r: Result<(), Error>)
        ensures
            match r {
                Ok(_) => Self::advanced(*old(self), *final(self), length as int),
                Err(e) => {
                    &&& length > old(self).rest().len()
                    &&& e == overrun(old(self).pos(), length)
                    &&& *final(self) == *old(self)
                },
            },
    {
        let _ = self.read(length)?;
        Ok(())
    }

    /// Takes the next `length` bytes.
    pub fn read(&mut self, length: usize) -> (r: Result<&'a [u8], Error>)
        ensures
            match r {
                Ok(s) => {
                    &&& s@ == old(self).rest().subrange(0, length as int)
                    &&& Self::advanced(*old(self), *final(self), length as int)
                },
                Err(e) => {
                    &&& length > old(self).rest().len()
                    &&& e == overrun(old(self).pos(), length)
                    &&& *final(self) == *old(self)
                },
            },
    {
        proof {
            use_type_invariant(&*self);
        }
        if length > self.slice.len() {
            Err(self.make_error(ErrorDetails::PacketOverrun(length)))
        } else {
            let (left, right) = self.slice.split_at(length);
            *self = SliceReader { slice: right, location: self.location + length };
            Ok(left)
        }
    }

    /// Takes every byte left.
    pub fn read_to_end(&mut self) -> (r: Result<&'a [u8], Error>)
        ensures
            r is Ok,
            r->Ok_0@ == old(self).rest(),
            Self::advanced(*old(self), *final(self), old(self).rest().len() as int),
    {
        let n = self.slice.len();
        self.read(n)
    }

    /// Reads one byte.
    pub fn read_u8(&mut self) -> (r: Result<u8, Error>)
        ensures
            match r {
                Ok(v) => {
                    &&& v == old(self).rest()[0]
                    &&& Self::advanced(*old(self), *final(self), 1)
                },
                Err(e) => {
                    &&& old(self).rest().len() < 1
                    &&& e == overrun(old(self).pos(), 1)
                    &&& *final(self) == *old(self)
                },
            },
    {
        let b = self.read(1)?;
        Ok(b[0])
    }

    /// Reads two bytes as a big-endian `u16`.
    pub fn read_be_u16(&mut self) -> (r: Result<u16, Error>)
        ensures
            match r {
                Ok(v) => {
                    &&& v == be16(old(self).rest())
                    &&& Self::advanced(*old(self), *final(self), 2)
                },
                Err(e) => {
                    &&& old(self).rest().len() < 2
                    &&& e == overrun(old(self).pos(), 2)
                    &&& *final(self) == *old(self)
                },
            },
    {
        let b = self.read(2)?;
        Ok(b[0] as u16 * 0x100 + b[1] as u16)
    }

    /// Reads three bytes as a big-endian 24-bit value.
    pub fn read_be_u24(&mut self) -> (r: Result<u32, Error>)
        ensures
            match r {
                Ok(v) => {
                    &&& v == be24(old(self).rest())
                    &&& Self::advanced(*old(self), *final(self), 3)
                },
                Err(e) => {
                    &&& old(self).rest().len() < 3
                    &&& e == overrun(old(self).pos(), 3)
                    &&& *final(self) == *old(self)
                },
            },
    {
        let b = self.read(3)?;
        Ok(b[0] as u32 * 0x10000 + b[1] as u32 * 0x100 + b[2] as u32)
    }

    /// Reads four bytes as a big-endian `u32`.
    pub fn read_be_u32(&mut self) -> (r: Result<u32, Error>)
        ensures
            match r {
                Ok(v) => {
                    &&& v == be32(old(self).rest())
                    &&& Self::advanced(*old(self), *final(self), 4)
                },
                Err(e) => {
                    &&& old(self).rest().len() < 4
                    &&& e == overrun(old(self).pos(), 4)
                    &&& *final(self) == *old(self)
                },
            },
    {
        let b = self.read(4)?;
        Ok(b[0] as u32 * 0x1000000 + b[1] as u32 * 0x10000 + b[2] as u32 * 0x100 + b[3] as u32)
    }

    /// Reads five bytes as a big-endian 33-bit value: only the low bit of the first byte counts.
    pub fn read_be_u33(&mut self) -> (r: Result<u64, Error>)
        ensures
            match r {
                Ok(v) => {
                    &&& v == be33(old(self).rest())
                    &&& Self::advanced(*old(self), *final(self), 5)
                },
                Err(e) => {
                    &&& old(self).rest().len() < 5
                    &&& e == overrun(old(self).pos(), 5)
                    &&& *final(self) == *old(self)
                },
            },
    {
        let b = self.read(5)?;
        Ok((b[0] % 2) as u64 * 0x100000000 + b[1] as u64 * 0x1000000 + b[2] as u64 * 0x10000
            + b[3] as u64 * 0x100 + b[4] as u64)
    }

    /// The next `length` bytes, without advancing.
    pub fn peek(&mut self, length: usize) -> (r: Result<&'a [u8], Error>)
        ensures
            *final(self) == *old(self),
            match r {
                Ok(s) => {
                    &&& length <= old(self).rest().len()
                    &&& s@ == old(self).rest().subrange(0, length as int)
                },
                Err(e) => {
                    &&& length > old(self).rest().len()
                    &&& e == overrun(old(self).pos(), length)
                },
            },
    {
        if length > self.slice.len() {
            Err(self.make_error(ErrorDetails::PacketOverrun(length)))
        } else {
            Ok(&self.slice[0..length])
        }
    }

    /// Takes the next `N` bytes as an array.
    pub fn read_array<const N: usize>(&mut self) -> (r: Result<[u8; N], Error>)
        ensures
            match r {
                Ok(a) => {
                    &&& a@ == old(self).rest().subrange(0, N as int)
                    &&& Self::advanced(*old(self), *final(self), N as int)
                },
                Err(e) => {
                    &&& N > old(self).rest().len()
                    &&& e == overrun(old(self).pos(), N)
                    &&& *final(self) == *old(self)
                },
            },
    {
        let b = self.read(N)?;
        Ok(copy_array(b))
    }

    /// The next `N` bytes as an array, without advancing.
    pub fn peek_array<const N: usize>(&mut self) -> (r: Result<[u8; N], Error>)
        ensures
            *final(self) == *old(self),
            match r {
                Ok(a) => N <= old(self).rest().len() && a@ == old(self).rest().subrange(0, N as int),
                Err(e) => N > old(self).rest().len() && e == overrun(old(self).pos(), N),
            },
    {
        let b = self.peek(N)?;
        Ok(copy_array(b))
    }
}

/// The bytes of `b`, which holds exactly `N`, as an array.
fn copy_array<const N: usize>(b: &[u8]) -> (r: [u8; N])
    requires
        b@.len() == N,
    ensures
        r@ == b@,
{
    let mut a: [u8; N] = [0u8; N];
    let mut i: usize = 0;
    while i < N
        invariant
            i <= N,
            b@.len() == N,
            forall|k: int| 0 <= k < i ==> a@[k] == b@[k],
        decreases N - i,
    {
        a[i] = b[i];
        i = i + 1;
    }
    assert(a@ =~= b@);
    a
}

} // verus!
