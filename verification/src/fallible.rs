//! Growing vectors without aborting when memory runs out.
use vstd::prelude::*;
use fallible_collections::FallibleVec;
use std::collections::TryReserveError;
use crate::error::Error;

verus! {

/// `FallibleVec::try_push` on a `Vec`: appends `elem`, or leaves the vector
/// as it was when the allocator refuses to grow it.
#[verifier::external_body]
fn vec_try_push<T>(v: &mut Vec<T>, elem: T) -> (r: Result<(), TryReserveError>)
    ensures
        r is Ok ==> final(v)@ == old(v)@.push(elem),
        r is Err ==> final(v)@ == old(v)@,
{
    FallibleVec::try_push(v, elem)
}

/// `FallibleVec::try_extend_from_slice` on a byte vector: appends all of
/// `src`, or leaves the vector as it was when the allocator refuses.
#[verifier::external_body]
fn vec_try_extend(v: &mut Vec<u8>, src: &[u8]) -> (r: Result<(), TryReserveError>)
    ensures
        r is Ok ==> final(v)@ == old(v)@ + src@,
        r is Err ==> final(v)@ == old(v)@,
{
    FallibleVec::try_extend_from_slice(v, src)
}

/// `FallibleVec::try_with_capacity`: an empty vector with room reserved, or
/// the allocator's refusal.
#[verifier::external_body]
fn vec_try_with_capacity<T>(capacity: usize) -> (r: Result<Vec<T>, TryReserveError>)
    ensures
        r matches Ok(v) ==> v@ == Seq::<T>::empty(),
{
    FallibleVec::try_with_capacity(capacity)
}

/// `FallibleVec::try_append`: moves every element of `other` to the end of
/// `v`, or leaves both as they were when the allocator refuses.
#[verifier::external_body]
fn vec_try_append<T>(v: &mut Vec<T>, other: &mut Vec<T>) -> (r: Result<(), TryReserveError>)
    ensures
        r is Ok ==> final(v)@ == old(v)@ + old(other)@ && final(other)@ == Seq::<T>::empty(),
        r is Err ==> final(v)@ == old(v)@ && final(other)@ == old(other)@,
{
    FallibleVec::try_append(v, other)
}

/// Turns the answer of the allocator into the parser's result: a refusal
/// is `OutOfMemory`.
pub fn out_of_memory<T>(reserved: Result<T, TryReserveError>) -> (r: Result<T, Error>)
    ensures
        match reserved {
            Ok(v) => r == Ok::<T, Error>(v),
            Err(_) => r == Err::<T, Error>(Error::OutOfMemory),
        },
{
    match reserved {
        Ok(v) => Ok(v),
        Err(_) => Err(Error::OutOfMemory),
    }
}

/// Moves every element of `other` to the end of `v`; `OutOfMemory` with both
/// unchanged when allocation fails.
pub fn append<T>(v: &mut Vec<T>, other: &mut Vec<T>) -> (r: Result<(), Error>)
    ensures
        r is Ok ==> final(v)@ == old(v)@ + old(other)@ && final(other)@ == Seq::<T>::empty(),
        r matches Err(e) ==> e is OutOfMemory && final(v)@ == old(v)@ && final(other)@ == old(
            other,
        )@,
{
    out_of_memory(vec_try_append(v, other))
}

/// Appends `elem` to `v`; `OutOfMemory` with `v` unchanged when allocation fails.
pub fn push<T>(v: &mut Vec<T>, elem: T) -> (r: Result<(), Error>)
    ensures
        r is Ok ==> final(v)@ == old(v)@.push(elem),
        r matches Err(e) ==> e is OutOfMemory && final(v)@ == old(v)@,
{
    out_of_memory(vec_try_push(v, elem))
}

/// Appends the bytes of `src` to `v`; `OutOfMemory` with `v` unchanged when
/// allocation fails.
pub fn extend(v: &mut Vec<u8>, src: &[u8]) -> (r: Result<(), Error>)
    ensures
        r is Ok ==> final(v)@ == old(v)@ + src@,
        r matches Err(e) ==> e is OutOfMemory && final(v)@ == old(v)@,
{
    out_of_memory(vec_try_extend(v, src))
}

/// An empty vector with room for `capacity` elements; `OutOfMemory` when the
/// room cannot be had.
pub fn with_capacity<T>(capacity: usize) -> (r: Result<Vec<T>, Error>)
    ensures
        r matches Ok(v) ==> v@ == Seq::<T>::empty(),
        r matches Err(e) ==> e is OutOfMemory,
{
    out_of_memory(vec_try_with_capacity(capacity))
}

/// An owned copy of `src`; `OutOfMemory` when allocation fails.
pub fn copy_bytes(src: &[u8]) -> (r: Result<Vec<u8>, Error>)
    ensures
        r matches Ok(v) ==> v@ == src@,
        r matches Err(e) ==> e is OutOfMemory,
{
    let mut v: Vec<u8> = with_capacity(src.len())?;
    extend(&mut v, src)?;
    assert(Seq::<u8>::empty() + src@ =~= src@);
    Ok(v)
}

} // verus!
