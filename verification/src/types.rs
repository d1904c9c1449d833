//! Semantic newtypes: block hashes and Ed25519 public keys.

use vstd::prelude::*;
use vstd::utf8::encode_utf8;
use crate::encoding::{hex_lower, to_hex, hex_decode, decode_hex, lemma_hex_round_trip, HexError};
use crate::error::TransactionError;

verus! {

/// SHA-256 hash of a block, stored as a lowercase hex string.
#[derive(Debug, Clone, PartialEq, Eq, Default)]
pub struct Hash(pub String);

impl View for Hash {
    type V = Seq<char>;

    open spec fn view(&self) -> Seq<char> {
        self.0@
    }
}

impl Hash {
    /// The empty hash, used as the genesis block's predecessor.
    pub fn empty() -> (r: Self)
        ensures
            r@ == Seq::<char>::empty(),
    {
        Hash(String::new())
    }

    /// The hash text.
    pub fn as_str(&self) -> (r: &str)
        ensures
            r@ == self@,
    {
        self.0.as_str()
    }

    /// Wraps a hex string.
    pub fn from_string(s: String) -> (r: Self)
        ensures
            r == Hash(s),
    {
        Hash(s)
    }

    /// Whether two hashes hold the same text.
    pub fn same_as(&self, other: &Hash) -> (r: bool)
        ensures
            r == (self@ == other@),
    {
        self.0 == other.0
    }

    /// A copy of this hash.
    pub fn duplicate(&self) -> (r: Hash)
        ensures
            r == *self,
    {
        Hash(self.0.clone())
    }
}

impl From<String> for Hash {
    fn from(s: String) -> (r: Hash) {
        Hash::from_string(s)
    }
}

impl vstd::std_specs::convert::FromSpecImpl<String> for Hash {
    open spec fn obeys_from_spec() -> bool {
        true
    }

    open spec fn from_spec(v: String) -> Hash {
        Hash(v)
    }
}

/// Ed25519 public key (32 bytes).
#[derive(Debug, Clone, Copy, PartialEq, Eq)]
pub struct PublicKey(pub [u8; 32]);

impl View for PublicKey {
    type V = Seq<u8>;

    open spec fn view(&self) -> Seq<u8> {
        self.0@
    }
}

/// The 32-byte array that holds a 32-element sequence.
pub open spec fn key_of_bytes(s: Seq<u8>) -> [u8; 32] {
    choose|a: [u8; 32]| a@ == s
}

/// Two 32-byte arrays with the same elements are the same array.
pub proof fn lemma_key_bytes_ext(a: [u8; 32], b: [u8; 32])
    requires
        a@ == b@,
    ensures
        a == b,
{
    assert(a@ =~= b@);
}

/// Why a text is not a public key.
#[derive(Debug, Clone, Copy, PartialEq, Eq, Structural)]
pub enum KeyParseError {
    /// The text is not hexadecimal.
    InvalidHex(HexError),
    /// The text decodes to a number of bytes other than 32.
    InvalidKeyLength,
}

/// The public key a hex text denotes: hex-decode it, then require 32 bytes.
pub open spec fn parse_key(text: Seq<char>) -> Result<PublicKey, KeyParseError> {
    match hex_decode(encode_utf8(text)) {
        Err(e) => Err(KeyParseError::InvalidHex(e)),
        Ok(b) => if b.len() == 32 {
            Ok(PublicKey(key_of_bytes(b)))
        } else {
            Err(KeyParseError::InvalidKeyLength)
        },
    }
}

/// The hex text of a key parses back to the key.
pub proof fn public_key_hex_round_trip(k: PublicKey)
    ensures
        parse_key(hex_lower(k@)) == Ok::<PublicKey, KeyParseError>(k),
{
    lemma_hex_round_trip(k@);
    let a = key_of_bytes(k@);
    lemma_key_bytes_ext(a, k.0);
}

/// The all-zero key that marks a coinbase (no real sender).
pub open spec fn is_zero_key(k: Seq<u8>) -> bool {
    forall|i: int| 0 <= i < k.len() ==> k[i] == 0u8
}

impl PublicKey {
    /// Coinbase sentinel: all-zero bytes indicate no real sender.
    pub fn coinbase() -> (r: Self)
        ensures
            r@.len() == 32,
            is_zero_key(r@),
    {
        PublicKey([0u8; 32])
    }

    /// Wraps raw key bytes.
    pub fn from_bytes(bytes: [u8; 32]) -> (r: Self)
        ensures
            r.0 == bytes,
    {
        PublicKey(bytes)
    }

    /// Whether this is the coinbase sentinel.
    pub fn is_coinbase(&self) -> (r: bool)
        ensures
            r == is_zero_key(self@),
    {
        let mut i: usize = 0;
        while i < 32
            invariant
                0 <= i <= 32,
                self@.len() == 32,
                forall|j: int| 0 <= j < i ==> self@[j] == 0u8,
            decreases 32 - i,
        {
            if self.0[i] != 0 {
                return false;
            }
            i = i + 1;
        }
        true
    }

    /// The raw key bytes.
    pub fn as_bytes(&self) -> (r: &[u8; 32])
        ensures
            *r == self.0,
    {
        &self.0
    }

    /// Whether two keys hold the same bytes.
    pub fn same_as(&self, other: &PublicKey) -> (r: bool)
        ensures
            r == (self@ == other@),
    {
        let mut i: usize = 0;
        while i < 32
            invariant
                0 <= i <= 32,
                self@.len() == 32,
                other@.len() == 32,
                forall|j: int| 0 <= j < i ==> self@[j] == other@[j],
            decreases 32 - i,
        {
            if self.0[i] != other.0[i] {
                return false;
            }
            i = i + 1;
        }
        assert(self@ =~= other@);
        true
    }

    /// The key as lowercase hex, as it is displayed and serialized.
    pub fn to_hex(&self) -> (r: String)
        ensures
            r@ == hex_lower(self@),
    {
        to_hex(self.0.as_slice())
    }

    /// The key a hex text denotes, as a hex argument on the command line or
    /// in a request body is read.
    pub fn from_hex(text: &str) -> (r: Result<PublicKey, KeyParseError>)
        ensures
            r == parse_key(text@),
    {
        match decode_hex(text) {
            Err(e) => Err(KeyParseError::InvalidHex(e)),
            Ok(bytes) => {
                if bytes.len() != 32 {
                    return Err(KeyParseError::InvalidKeyLength);
                }
                let mut arr = [0u8; 32];
                for i in 0..32
                    invariant
                        bytes@.len() == 32,
                        arr@.len() == 32,
                        forall|j: int| 0 <= j < i ==> arr@[j] == bytes@[j],
                {
                    arr[i] = bytes[i];
                }
                proof {
                    assert(arr@ =~= bytes@);
                    lemma_key_bytes_ext(key_of_bytes(bytes@), arr);
                }
                Ok(PublicKey(arr))
            },
        }
    }

    /// A key from exactly 32 bytes.
    pub fn from_vec(v: Vec<u8>) -> (r: Result<PublicKey, TransactionError>)
        ensures
            v@.len() == 32 ==> (r matches Ok(k) && k@ == v@),
            v@.len() != 32 ==> (r matches Err(TransactionError::InvalidKeyLength)),
    {
        if v.len() != 32 {
            return Err(TransactionError::InvalidKeyLength);
        }
        let mut arr = [0u8; 32];
        for i in 0..32
            invariant
                v@.len() == 32,
                arr@.len() == 32,
                forall|j: int| 0 <= j < i ==> arr@[j] == v@[j],
        {
            arr[i] = v[i];
        }
        assert(arr@ =~= v@);
        Ok(PublicKey(arr))
    }
}

} // verus!
