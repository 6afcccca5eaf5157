//! Inventory items: typed hashes that advertise or request data.

use vstd::prelude::*;

use crate::endian::{
    le_bytes, le_value, lemma_bytes_len, lemma_le_round_trip, lemma_pow256_values, read_u32_le,
    u32_le_bytes,
};
use crate::serialization::{max_elements, SerializationError, TrustedPreallocate};

verus! {

/// The hash of a transaction.
#[derive(Copy, Clone, Debug, PartialEq, Eq, Hash)]
pub struct TransactionHash(pub [u8; 32]);

/// The hash of a block header.
#[derive(Copy, Clone, Debug, PartialEq, Eq, Hash)]
pub struct BlockHash(pub [u8; 32]);

/// An inventory hash which refers to some advertised or requested data.
///
/// The protocol calls this an inventory vector, but it is a typed hash, not
/// a container.
#[derive(Copy, Clone, Debug, PartialEq, Eq, Hash)]
pub enum InventoryHash {
    /// An error. Data with this code may be ignored, so no hash is kept.
    Error,
    /// A hash of a transaction.
    Tx(TransactionHash),
    /// A hash of a block.
    Block(BlockHash),
    /// A hash of a filtered block: a block header, to be answered with a
    /// merkle block where a bloom filter has been set.
    FilteredBlock(BlockHash),
}

/// The serialized size of an inventory hash: a 4 byte code and 32 bytes of
/// hash.
pub const INV_HASH_SIZE: usize = 36;

/// The array that holds the 32 bytes of `bytes`.
pub open spec fn hash_array(bytes: Seq<u8>) -> [u8; 32] {
    choose|a: [u8; 32]| a@ == bytes
}

/// An array of 32 bytes is the one that holds its bytes.
pub proof fn lemma_hash_array(a: [u8; 32])
    ensures
        hash_array(a@) == a,
{
    let b = hash_array(a@);
    assert(b@ == a@);
    assert(b =~= a);
}

impl InventoryHash {
    /// The type code on the wire.
    pub open spec fn code(self) -> u32 {
        match self {
            InventoryHash::Error => 0,
            InventoryHash::Tx(_) => 1,
            InventoryHash::Block(_) => 2,
            InventoryHash::FilteredBlock(_) => 3,
        }
    }

    /// The 32 bytes after the code: the hash, or zeros for an error.
    pub open spec fn hash_bytes(self) -> Seq<u8> {
        match self {
            InventoryHash::Error => Seq::new(32, |i: int| 0u8),
            InventoryHash::Tx(hash) => hash.0@,
            InventoryHash::Block(hash) => hash.0@,
            InventoryHash::FilteredBlock(hash) => hash.0@,
        }
    }

    /// The 36 bytes of the item on the wire.
    pub open spec fn encoding(self) -> Seq<u8> {
        le_bytes(self.code() as nat, 4) + self.hash_bytes()
    }

    /// What 36 bytes from the wire stand for: an item, or an error where
    /// the code is none of the four known ones.
    pub open spec fn decoded(bytes: Seq<u8>) -> Result<InventoryHash, SerializationError> {
        let code = le_value(bytes.subrange(0, 4));
        let hash = hash_array(bytes.subrange(4, 36));
        if code == 0 {
            Ok(InventoryHash::Error)
        } else if code == 1 {
            Ok(InventoryHash::Tx(TransactionHash(hash)))
        } else if code == 2 {
            Ok(InventoryHash::Block(BlockHash(hash)))
        } else if code == 3 {
            Ok(InventoryHash::FilteredBlock(BlockHash(hash)))
        } else {
            Err(SerializationError::InvalidInventoryCode)
        }
    }

    /// What bytes from the wire stand for: what the first 36 stand for, or
    /// an error where there are fewer.
    pub open spec fn parsed(bytes: Seq<u8>) -> Result<InventoryHash, SerializationError> {
        if bytes.len() < INV_HASH_SIZE {
            Err(SerializationError::UnexpectedEof)
        } else {
            Self::decoded(bytes.subrange(0, 36))
        }
    }

    /// Writes the item in its wire format.
    pub fn zcash_serialize(&self) -> (out: Vec<u8>)
        ensures
            out@ == self.encoding(),
            out@.len() == INV_HASH_SIZE,
    {
        let (code, bytes): (u32, [u8; 32]) = match *self {
            InventoryHash::Error => (0, [0u8; 32]),
            InventoryHash::Tx(hash) => (1, hash.0),
            InventoryHash::Block(hash) => (2, hash.0),
            InventoryHash::FilteredBlock(hash) => (3, hash.0),
        };
        assert(bytes@ =~= self.hash_bytes());
        let mut out = u32_le_bytes(code);
        proof {
            lemma_bytes_len(code as nat, 4);
        }
        let ghost head = out@;
        let mut i: usize = 0;
        while i < 32
            invariant
                i <= 32,
                out@ == head + bytes@.subrange(0, i as int),
            decreases 32 - i,
        {
            out.push(bytes[i]);
            assert(out@ =~= head + bytes@.subrange(0, i + 1));
            i = i + 1;
        }
        assert(bytes@.subrange(0, 32) =~= bytes@);
        out
    }

    /// Reads an item in its wire format from the start of `bytes`. Fewer
    /// than 36 bytes are refused, and so is an unknown type code.
    pub fn zcash_deserialize(bytes: &[u8]) -> (r: Result<InventoryHash, SerializationError>)
        ensures
            r == Self::parsed(bytes@),
            r is Ok <==> bytes@.len() >= INV_HASH_SIZE && le_value(bytes@.subrange(0, 4)) <= 3,
    {
        if bytes.len() < INV_HASH_SIZE {
            return Err(SerializationError::UnexpectedEof);
        }
        let ghost item = bytes@.subrange(0, 36);
        let code_bytes = vstd::slice::slice_subrange(bytes, 0, 4);
        assert(code_bytes@.subrange(0, 4) =~= item.subrange(0, 4));
        assert(bytes@.subrange(0, 4) =~= item.subrange(0, 4));
        let code = read_u32_le(code_bytes);
        let mut hash = [0u8; 32];
        let mut i: usize = 0;
        while i < 32
            invariant
                i <= 32,
                bytes@.len() >= 36,
                forall|j: int| 0 <= j < i ==> hash@[j] == bytes@[4 + j],
            decreases 32 - i,
        {
            hash[i] = bytes[4 + i];
            i = i + 1;
        }
        proof {
            assert(hash@ =~= item.subrange(4, 36));
            lemma_hash_array(hash);
        }
        match code {
            0 => Ok(InventoryHash::Error),
            1 => Ok(InventoryHash::Tx(TransactionHash(hash))),
            2 => Ok(InventoryHash::Block(BlockHash(hash))),
            3 => Ok(InventoryHash::FilteredBlock(BlockHash(hash))),
            _ => Err(SerializationError::InvalidInventoryCode),
        }
    }

    /// Reading back what was written gives the item.
    pub proof fn lemma_round_trip(self)
        ensures
            self.encoding().len() == INV_HASH_SIZE,
            Self::parsed(self.encoding()) == Ok::<InventoryHash, SerializationError>(self),
    {
        let all = self.encoding();
        lemma_bytes_len(self.code() as nat, 4);
        lemma_pow256_values();
        lemma_le_round_trip(self.code() as nat, 4);
        assert(all.subrange(0, 4) =~= le_bytes(self.code() as nat, 4));
        assert(all.subrange(4, 36) =~= self.hash_bytes());
        assert(all.subrange(0, 36) =~= all);
        match self {
            InventoryHash::Error => {},
            InventoryHash::Tx(hash) => {
                lemma_hash_array(hash.0);
            },
            InventoryHash::Block(hash) => {
                lemma_hash_array(hash.0);
            },
            InventoryHash::FilteredBlock(hash) => {
                lemma_hash_array(hash.0);
            },
        }
    }
}

impl From<TransactionHash> for InventoryHash {
    fn from(tx: TransactionHash) -> (inv: InventoryHash) {
        InventoryHash::Tx(tx)
    }
}

impl vstd::std_specs::convert::FromSpecImpl<TransactionHash> for InventoryHash {
    open spec fn obeys_from_spec() -> bool {
        true
    }

    open spec fn from_spec(tx: TransactionHash) -> InventoryHash {
        InventoryHash::Tx(tx)
    }
}

impl From<BlockHash> for InventoryHash {
    /// A block hash stands for a block, not for a filtered block.
    fn from(hash: BlockHash) -> (inv: InventoryHash) {
        InventoryHash::Block(hash)
    }
}

impl vstd::std_specs::convert::FromSpecImpl<BlockHash> for InventoryHash {
    open spec fn obeys_from_spec() -> bool {
        true
    }

    open spec fn from_spec(hash: BlockHash) -> InventoryHash {
        InventoryHash::Block(hash)
    }
}

impl TrustedPreallocate for InventoryHash {
    open spec fn wire_size() -> nat {
        INV_HASH_SIZE as nat
    }

    /// The length prefix of a list takes one byte at least.
    open spec fn min_prefix_len() -> nat {
        1
    }

    open spec fn decoding(bytes: Seq<u8>) -> Result<Self, SerializationError> {
        Self::parsed(bytes)
    }

    fn element_size() -> (size: usize) {
        INV_HASH_SIZE
    }

    fn max_allocation() -> (max: u64)
        ensures
            max == 55_555,
    {
        max_elements(1, INV_HASH_SIZE)
    }

    fn decode(bytes: &[u8]) -> (r: Result<Self, SerializationError>) {
        InventoryHash::zcash_deserialize(bytes)
    }
}

} // verus!
