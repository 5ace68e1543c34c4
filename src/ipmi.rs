//! The codec contract shared by every wire type, and its primitive instances.
pub mod asf;
pub mod cmd;
pub mod ipmi;
pub mod rmcp;
pub mod wire;

use vstd::prelude::*;
use crate::ipmi::wire::{splice, put_bytes, put_u8};

verus! {

/// Why a message could not be encoded or decoded.
#[derive(Debug, Clone, Copy, PartialEq, Eq, Structural)]
pub enum Error {
    OutBufferTooSmall,
    InvalidConfiguration,
    PayloadTooLarge,
    PayloadTooSmall,
    InvalidRmcpVersionNumber(u8),
    InvalidRmcpReservedByte(u8),
    UnsupportedProtocol,
    ExpectedSizeMismatch,
    InvalidChecksum,
    UndefinedAuthType(u8),
}

/// A wire type with a computable encoded length.
pub trait BytesSerializationSized {
    /// Number of bytes that this value occupies on the wire.
    spec fn spec_size(&self) -> nat;

    fn size(&self) -> (r: usize)
        requires
            self.spec_size() <= usize::MAX,
        ensures
            r == self.spec_size(),
    ;
}

/// A wire type that can be written into a caller-supplied buffer.
pub trait BytesSerializable: core::marker::Sized + BytesSerializationSized {
    /// The bytes that encoding writes in the given mode, or the configuration
    /// error that it reports instead.
    spec fn spec_encode(&self, strict: bool) -> Result<Seq<u8>, Error>;

    /// Encodes into the front of `out`; on failure `out` is left untouched.
    fn write_to_slice(&self, out: &mut [u8], strict: bool) -> (r: Result<(), Error>)
        ensures
            old(out)@.len() < self.spec_size() ==> r == Err::<(), Error>(Error::OutBufferTooSmall)
                && final(out)@ == old(out)@,
            old(out)@.len() >= self.spec_size() ==> match self.spec_encode(strict) {
                Ok(b) => r is Ok && final(out)@ == splice(old(out)@, 0, b),
                Err(e) => r == Err::<(), Error>(e) && final(out)@ == old(out)@,
            },
    ;
}

/// A wire type that can be read from the front of a byte buffer, borrowing from it.
pub trait BytesDeserializable<'a>: core::marker::Sized + BytesSerializationSized {
    /// `r` is what decoding `bytes` in the given mode gives.
    spec fn decodes_to(bytes: Seq<u8>, strict: bool, r: Result<Self, Error>) -> bool;

    fn from_bytes(slice: &'a [u8], strict: bool) -> (r: Result<Self, Error>)
        ensures
            Self::decodes_to(slice@, strict, r),
    ;
}

/// Decodes a value of any wire type from `slice`.
pub fn summon_from_bytes<'a, T: BytesDeserializable<'a>>(slice: &'a [u8], strict: bool) -> (r:
    Result<T, Error>)
    ensures
        T::decodes_to(slice@, strict, r),
{
    T::from_bytes(slice, strict)
}

impl<const N: usize> BytesSerializationSized for [u8; N] {
    open spec fn spec_size(&self) -> nat {
        N as nat
    }

    fn size(&self) -> (r: usize) {
        N
    }
}

impl<const N: usize> BytesSerializable for [u8; N] {
    open spec fn spec_encode(&self, strict: bool) -> Result<Seq<u8>, Error> {
        Ok(self@)
    }

    fn write_to_slice(&self, out: &mut [u8], _strict: bool) -> (r: Result<(), Error>) {
        if out.len() < N {
            return Err(Error::OutBufferTooSmall);
        }
        put_bytes(out, 0, vstd::array::array_as_slice(self));
        Ok(())
    }
}

impl<'a, const N: usize> BytesDeserializable<'a> for [u8; N] {
    open spec fn decodes_to(bytes: Seq<u8>, strict: bool, r: Result<Self, Error>) -> bool {
        match r {
            Ok(v) => N <= bytes.len() && v@ == bytes.take(N as int),
            Err(e) => bytes.len() < N && e == Error::PayloadTooSmall,
        }
    }

    fn from_bytes(slice: &'a [u8], _strict: bool) -> (r: Result<[u8; N], Error>) {
        if slice.len() < N {
            return Err(Error::PayloadTooSmall);
        }
        let mut buf = [0u8; N];
        let mut i: usize = 0;
        while i < N
            invariant
                N <= slice@.len(),
                i <= N,
                buf@.len() == N,
                buf@.take(i as int) == slice@.take(i as int),
            decreases N - i,
        {
            buf[i] = slice[i];
            assert(buf@.take(i + 1) =~= slice@.take(i + 1));
            i = i + 1;
        }
        assert(buf@ =~= buf@.take(N as int));
        Ok(buf)
    }
}

impl BytesSerializationSized for u32 {
    open spec fn spec_size(&self) -> nat {
        4
    }

    fn size(&self) -> (r: usize) {
        4
    }
}

impl BytesSerializationSized for u8 {
    open spec fn spec_size(&self) -> nat {
        1
    }

    fn size(&self) -> (r: usize) {
        1
    }
}

impl BytesSerializable for u8 {
    open spec fn spec_encode(&self, strict: bool) -> Result<Seq<u8>, Error> {
        Ok(seq![*self])
    }

    fn write_to_slice(&self, out: &mut [u8], _strict: bool) -> (r: Result<(), Error>) {
        if out.len() < 1 {
            return Err(Error::OutBufferTooSmall);
        }
        put_u8(out, 0, *self);
        Ok(())
    }
}

impl<'a> BytesDeserializable<'a> for u8 {
    open spec fn decodes_to(bytes: Seq<u8>, strict: bool, r: Result<Self, Error>) -> bool {
        match r {
            Ok(v) => 1 <= bytes.len() && v == bytes[0],
            Err(e) => bytes.len() < 1 && e == Error::PayloadTooSmall,
        }
    }

    fn from_bytes(slice: &'a [u8], _strict: bool) -> (r: Result<u8, Error>) {
        if slice.len() < 1 {
            return Err(Error::PayloadTooSmall);
        }
        Ok(slice[0])
    }
}

} // verus!
