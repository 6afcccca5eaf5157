//! What the wire formats share: the error type, and the bound on the number
//! of elements that a length-prefixed list may declare.

use vstd::prelude::*;

use crate::constants::MAX_PROTOCOL_MESSAGE_LEN;

verus! {

/// Why bytes from the wire were refused.
#[derive(Copy, Clone, Debug, PartialEq, Eq, Structural)]
pub enum SerializationError {
    /// The input ends before the value does.
    UnexpectedEof,
    /// The type code of an inventory item is none of the known ones.
    InvalidInventoryCode,
    /// A list declares more elements than a message can hold.
    VectorTooLong,
}

/// The largest number of elements of `element_size` bytes that fit in a
/// message of `max_message_len` bytes beside a length prefix of at least
/// `min_prefix_len` bytes.
pub open spec fn preallocation_bound(
    max_message_len: nat,
    min_prefix_len: nat,
    element_size: nat,
) -> nat
    recommends
        element_size > 0,
        min_prefix_len <= max_message_len,
{
    ((max_message_len - min_prefix_len) / (element_size as int)) as nat
}

/// Computes the preallocation bound for elements of `element_size` bytes in
/// a protocol message.
pub fn max_elements(min_prefix_len: usize, element_size: usize) -> (max: u64)
    requires
        element_size > 0,
        min_prefix_len <= MAX_PROTOCOL_MESSAGE_LEN,
    ensures
        max == preallocation_bound(
            MAX_PROTOCOL_MESSAGE_LEN as nat,
            min_prefix_len as nat,
            element_size as nat,
        ),
        max * element_size + min_prefix_len <= MAX_PROTOCOL_MESSAGE_LEN,
{
    let max = (MAX_PROTOCOL_MESSAGE_LEN - min_prefix_len) / element_size;
    assert(max * element_size <= MAX_PROTOCOL_MESSAGE_LEN - min_prefix_len) by (nonlinear_arith)
        requires
            max == (MAX_PROTOCOL_MESSAGE_LEN - min_prefix_len) / (element_size as int),
            element_size > 0,
            MAX_PROTOCOL_MESSAGE_LEN - min_prefix_len >= 0,
    ;
    max as u64
}

/// A wire type of fixed size whose lists are bounded before they are read.
pub trait TrustedPreallocate: Sized {
    /// The number of bytes of one element on the wire.
    spec fn wire_size() -> nat;

    /// The least number of bytes that the length prefix of a longest list
    /// takes.
    spec fn min_prefix_len() -> nat;

    /// What the first `wire_size()` bytes of `bytes` decode to.
    spec fn decoding(bytes: Seq<u8>) -> Result<Self, SerializationError>;

    /// The largest number of elements that a list of this type may declare.
    open spec fn allocation_bound() -> nat {
        preallocation_bound(
            MAX_PROTOCOL_MESSAGE_LEN as nat,
            Self::min_prefix_len(),
            Self::wire_size(),
        )
    }

    /// The number of bytes of one element on the wire.
    fn element_size() -> (size: usize)
        ensures
            size == Self::wire_size(),
            size > 0,
    ;

    /// The largest number of elements that a list of this type may declare:
    /// no message can hold more.
    fn max_allocation() -> (max: u64)
        ensures
            max == Self::allocation_bound(),
            max * Self::wire_size() <= MAX_PROTOCOL_MESSAGE_LEN,
    ;

    /// Decodes one element from the start of `bytes`.
    fn decode(bytes: &[u8]) -> (r: Result<Self, SerializationError>)
        ensures
            r == Self::decoding(bytes@),
            bytes@.len() < Self::wire_size() ==> r == Err::<Self, SerializationError>(
                SerializationError::UnexpectedEof,
            ),
    ;
}

/// The bytes of element `i` in the body of a list.
pub open spec fn element_bytes(body: Seq<u8>, size: nat, i: int) -> Seq<u8> {
    body.subrange(i * size, body.len() as int)
}

/// What the body of a list of `declared` elements decodes to: an error if
/// the list declares too many elements or if one of them is refused, the
/// first error to be met; else the elements in order.
pub open spec fn list_decoding<T: TrustedPreallocate>(declared: nat, body: Seq<u8>) -> Result<
    Seq<T>,
    SerializationError,
> {
    if declared > T::allocation_bound() {
        Err(SerializationError::VectorTooLong)
    } else {
        elements_decoding::<T>(declared, body)
    }
}

/// What the first `count` elements of a body decode to.
pub open spec fn elements_decoding<T: TrustedPreallocate>(count: nat, body: Seq<u8>) -> Result<
    Seq<T>,
    SerializationError,
>
    decreases count,
{
    if count == 0 {
        Ok(Seq::empty())
    } else {
        match elements_decoding::<T>((count - 1) as nat, body) {
            Err(e) => Err(e),
            Ok(items) => if (count - 1) * T::wire_size() > body.len() {
                Err(SerializationError::UnexpectedEof)
            } else {
                match T::decoding(element_bytes(body, T::wire_size(), count - 1)) {
                    Err(e) => Err(e),
                    Ok(item) => Ok(items.push(item)),
                }
            },
        }
    }
}

/// Once an element is refused, the same error stands for every longer list.
pub proof fn lemma_error_stands<T: TrustedPreallocate>(count: nat, longer: nat, body: Seq<u8>)
    requires
        count <= longer,
        elements_decoding::<T>(count, body) is Err,
    ensures
        elements_decoding::<T>(longer, body) == elements_decoding::<T>(count, body),
    decreases longer,
{
    if count < longer {
        lemma_error_stands::<T>(count, (longer - 1) as nat, body);
    }
}

/// Decodes the body of a list whose length prefix declared `declared`
/// elements. A declared length over the preallocation bound is refused
/// before anything is allocated or read.
pub fn deserialize_list<T: TrustedPreallocate>(declared: u64, body: &[u8]) -> (r: Result<
    Vec<T>,
    SerializationError,
>)
    ensures
        match (r, list_decoding::<T>(declared as nat, body@)) {
            (Ok(items), Ok(expected)) => items@ == expected,
            (Err(e), Err(expected)) => e == expected,
            _ => false,
        },
        declared > T::allocation_bound() ==> r == Err::<Vec<T>, SerializationError>(
            SerializationError::VectorTooLong,
        ),
{
    if declared > T::max_allocation() {
        return Err(SerializationError::VectorTooLong);
    }
    let size = T::element_size();
    assert(declared <= MAX_PROTOCOL_MESSAGE_LEN) by (nonlinear_arith)
        requires
            declared <= T::allocation_bound(),
            T::allocation_bound() * size <= MAX_PROTOCOL_MESSAGE_LEN,
            size > 0,
    ;
    let mut items: Vec<T> = Vec::with_capacity(declared as usize);
    let mut i: u64 = 0;
    while i < declared
        invariant
            i <= declared,
            declared <= T::allocation_bound(),
            T::allocation_bound() * T::wire_size() <= MAX_PROTOCOL_MESSAGE_LEN,
            size == T::wire_size(),
            size > 0,
            elements_decoding::<T>(i as nat, body@) == Ok::<Seq<T>, SerializationError>(items@),
        decreases declared - i,
    {
        assert(i * size <= MAX_PROTOCOL_MESSAGE_LEN && i <= MAX_PROTOCOL_MESSAGE_LEN)
            by (nonlinear_arith)
            requires
                i <= T::allocation_bound(),
                T::allocation_bound() * size <= MAX_PROTOCOL_MESSAGE_LEN,
                size > 0,
        ;
        proof {
            if (i as usize) * size > body@.len() || T::decoding(
                element_bytes(body@, T::wire_size(), i as int),
            ) is Err {
                lemma_error_stands::<T>((i + 1) as nat, declared as nat, body@);
            }
        }
        let start: usize = (i as usize) * size;
        if start > body.len() {
            return Err(SerializationError::UnexpectedEof);
        }
        let rest = vstd::slice::slice_subrange(body, start, body.len());
        match T::decode(rest) {
            Err(e) => {
                return Err(e);
            },
            Ok(item) => {
                items.push(item);
            },
        }
        i = i + 1;
    }
    Ok(items)
}

} // verus!
