//! Block structure and Proof-of-Work mining.

use vstd::prelude::*;
use vstd::utf8::{
    char_is_scalar, char_u32_cast, encode_scalar, encode_utf8, has_width_1_encoding,
    has_width_2_encoding, has_width_3_encoding,
};
use crate::types::PublicKey;
use crate::encoding::{decimal, push_decimal};
use crate::chain::merkle::{merkle_root, merkle_root_of, sha256_hex, sha256_hex_of};
use crate::crypto::transaction::{Transaction, opt_bytes};
use crate::crypto::primitives::{
    ed25519_accepts, ed25519_key_decodes, ed25519_signature, ed25519_public_key, public_key_of,
    sign_message,
};
use crate::error::{ChainError, TransactionError};

verus! {

/// A single block in the blockchain.
///
/// Commits to its position (`index`), the previous block's hash, a set of
/// transactions (through their Merkle root), a Unix timestamp, and a
/// proof-of-work `nonce`. An optional Ed25519 `signature` and `author` key
/// attribute the block to a node.
#[derive(Debug, Clone)]
pub struct Block {
    pub index: u32,
    pub transactions: Vec<Transaction>,
    pub prev_hash: crate::types::Hash,
    pub hash: crate::types::Hash,
    pub timestamp: u64,
    pub signature: Option<Vec<u8>>,
    pub author: Option<PublicKey>,
    pub nonce: u64,
}

/// The text a block signature covers: `index || merkle_root || prev_hash || timestamp`.
pub open spec fn signing_content(b: Block) -> Seq<char> {
    decimal(b.index as nat) + merkle_root_of(b.transactions@) + b.prev_hash@ + decimal(
        b.timestamp as nat,
    )
}

/// The hash a block has with a given nonce:
/// SHA-256 of `index || merkle_root || prev_hash || timestamp || nonce`, in hex.
pub open spec fn hash_with_nonce(b: Block, nonce: u64) -> Seq<char> {
    sha256_hex(signing_content(b) + decimal(nonce as nat))
}

/// The hash a block's header fields determine.
pub open spec fn block_hash_of(b: Block) -> Seq<char> {
    hash_with_nonce(b, b.nonce)
}

/// Outcome of checking a block's signature; a block without signature and author passes.
pub open spec fn block_signature_check(b: Block) -> Result<(), ChainError> {
    match (opt_bytes(b.signature), b.author) {
        (Some(sig), Some(author)) => if sig.len() != 64 {
            Err(ChainError::Transaction(TransactionError::InvalidSignatureLength))
        } else if !ed25519_key_decodes(author@) {
            Err(ChainError::Transaction(TransactionError::InvalidPublicKey))
        } else if !ed25519_accepts(author@, encode_utf8(signing_content(b)), sig) {
            Err(ChainError::Transaction(TransactionError::InvalidSignature))
        } else {
            Ok(())
        },
        _ => Ok(()),
    }
}

/// Whether `hash` starts with `difficulty` zero digits (`'0'` is the byte 0x30).
pub open spec fn meets_difficulty(hash: Seq<char>, difficulty: nat) -> bool {
    &&& difficulty <= encode_utf8(hash).len()
    &&& forall|i: int| 0 <= i < difficulty ==> encode_utf8(hash)[i] == 0x30u8
}

/// Two blocks that agree on everything but the proof of work.
pub open spec fn same_header(a: Block, b: Block) -> bool {
    &&& a.index == b.index
    &&& a.transactions == b.transactions
    &&& a.prev_hash == b.prev_hash
    &&& a.timestamp == b.timestamp
    &&& a.signature == b.signature
    &&& a.author == b.author
}

/// A block's hash is SHA-256, as lowercase hex, of its index, the Merkle root
/// of its transactions, the previous hash, its timestamp and its nonce, in that
/// order; a block signature covers the same text without the nonce.
pub proof fn block_hash_covers_the_header_in_order(b: Block, nonce: u64)
    ensures
        signing_content(b) == decimal(b.index as nat) + merkle_root_of(b.transactions@)
            + b.prev_hash@ + decimal(b.timestamp as nat),
        hash_with_nonce(b, nonce) == sha256_hex(
            decimal(b.index as nat) + merkle_root_of(b.transactions@) + b.prev_hash@ + decimal(
                b.timestamp as nat,
            ) + decimal(nonce as nat),
        ),
        block_hash_of(b) == sha256_hex(
            decimal(b.index as nat) + merkle_root_of(b.transactions@) + b.prev_hash@ + decimal(
                b.timestamp as nat,
            ) + decimal(b.nonce as nat),
        ),
{
}

/// The UTF-8 encoding of a character starts with the byte of `'0'` only if the
/// character is `'0'`.
proof fn lemma_zero_byte_is_zero_digit(c: char)
    requires
        encode_scalar(c as u32)[0] == 0x30u8,
    ensures
        c == '0',
{
    char_is_scalar(c);
    let s = c as u32;
    if has_width_1_encoding(s) {
        assert(s <= 0x7f ==> (s & 0x7f) as u8 == 0x30u8 ==> s == 0x30) by (bit_vector);
        char_u32_cast(c, s);
        char_u32_cast('0', 0x30u32);
    } else if has_width_2_encoding(s) {
        assert(0xC0u8 | ((s >> 6) & 0x1F) as u8 != 0x30u8) by (bit_vector);
    } else if has_width_3_encoding(s) {
        assert(0xE0u8 | ((s >> 12) & 0x0F) as u8 != 0x30u8) by (bit_vector);
    } else {
        assert(0xF0u8 | ((s >> 18) & 0x7) as u8 != 0x30u8) by (bit_vector);
    }
}

/// A hash meets a difficulty `d` only if it starts with `d` characters `'0'`,
/// for every `d`.
pub proof fn meeting_a_difficulty_means_leading_zero_digits(hash: Seq<char>, difficulty: nat)
    requires
        meets_difficulty(hash, difficulty),
    ensures
        difficulty <= hash.len(),
        forall|i: int| 0 <= i < difficulty ==> hash[i] == '0',
    decreases difficulty,
{
    if difficulty > 0 {
        let bytes = encode_utf8(hash);
        assert(hash.len() > 0);
        char_is_scalar(hash[0]);
        let first = encode_scalar(hash[0] as u32);
        let rest = hash.drop_first();
        assert(bytes == first + encode_utf8(rest));
        assert(first.len() >= 1);
        assert(bytes[0] == 0x30u8);
        assert(first[0] == 0x30u8);
        lemma_zero_byte_is_zero_digit(hash[0]);
        assert(first.len() == 1);
        assert forall|i: int| 0 <= i < difficulty - 1 implies encode_utf8(rest)[i] == 0x30u8 by {
            assert(bytes[i + 1] == 0x30u8);
        }
        meeting_a_difficulty_means_leading_zero_digits(rest, (difficulty - 1) as nat);
        assert forall|i: int| 0 <= i < difficulty implies hash[i] == '0' by {
            if i > 0 {
                assert(hash[i] == rest[i - 1]);
            }
        }
    }
}

/// A hash that starts with `d` characters `'0'` meets the difficulty `d`.
pub proof fn leading_zero_digits_meet_the_difficulty(hash: Seq<char>, difficulty: nat)
    requires
        difficulty <= hash.len(),
        forall|i: int| 0 <= i < difficulty ==> hash[i] == '0',
    ensures
        meets_difficulty(hash, difficulty),
    decreases difficulty,
{
    if difficulty > 0 {
        let rest = hash.drop_first();
        assert forall|i: int| 0 <= i < difficulty - 1 implies rest[i] == '0' by {
            assert(rest[i] == hash[i + 1]);
        }
        leading_zero_digits_meet_the_difficulty(rest, (difficulty - 1) as nat);
        let z: u32 = '0' as u32;
        assert(z == 0x30);
        assert((z & 0x7f) as u8 == 0x30u8) by (bit_vector)
            requires
                z == 0x30,
        ;
        assert(encode_scalar(hash[0] as u32) =~= seq![0x30u8]);
        assert(encode_utf8(hash) == seq![0x30u8] + encode_utf8(rest));
        assert forall|i: int| 0 <= i < difficulty implies encode_utf8(hash)[i] == 0x30u8 by {
            if i > 0 {
                assert(encode_utf8(hash)[i] == encode_utf8(rest)[i - 1]);
            }
        }
    }
}

/// Whether `hash` has at least `difficulty` leading zero digits.
pub fn meets_target(hash: &crate::types::Hash, difficulty: usize) -> (r: bool)
    ensures
        r == meets_difficulty(hash@, difficulty as nat),
        r <==> difficulty <= hash@.len() && forall|i: int| 0 <= i < difficulty ==> hash@[i] == '0',
{
    proof {
        if difficulty <= hash@.len() && forall|i: int| 0 <= i < difficulty ==> hash@[i] == '0' {
            leading_zero_digits_meet_the_difficulty(hash@, difficulty as nat);
        }
    }
    let bytes = hash.as_str().as_bytes();
    if bytes.len() < difficulty {
        return false;
    }
    let mut i: usize = 0;
    while i < difficulty
        invariant
            difficulty <= bytes@.len(),
            bytes@ == encode_utf8(hash@),
            i <= difficulty,
            forall|j: int| 0 <= j < i ==> bytes@[j] == 0x30u8,
            (difficulty <= hash@.len() && forall|j: int| 0 <= j < difficulty ==> hash@[j] == '0')
                ==> meets_difficulty(
                hash@,
                difficulty as nat,
            ),
        decreases difficulty - i,
    {
        if bytes[i] != 0x30u8 {
            return false;
        }
        i = i + 1;
    }
    proof {
        meeting_a_difficulty_means_leading_zero_digits(hash@, difficulty as nat);
    }
    true
}

/// `std::time::SystemTime::now()` as whole seconds since the Unix epoch, or
/// `None` when the clock reads before the epoch. Nothing is claimed of the value.
#[verifier::external_body]
fn unix_time_now() -> Option<u64> {
    match std::time::SystemTime::now().duration_since(std::time::UNIX_EPOCH) {
        Ok(d) => Some(d.as_secs()),
        Err(_) => None,
    }
}

impl Block {
    /// The text covered by the block's hash, without the nonce.
    fn signing_text(&self) -> (r: String)
        ensures
            r@ == signing_content(*self),
    {
        let mut s = String::new();
        push_decimal(&mut s, self.index as u64);
        let root = merkle_root(self.transactions.as_slice());
        s.append(root.as_str());
        s.append(self.prev_hash.as_str());
        push_decimal(&mut s, self.timestamp);
        s
    }

    /// Computes the SHA-256 hash of this block's header fields.
    pub fn compute_hash(&self) -> (r: crate::types::Hash)
        ensures
            r@ == block_hash_of(*self),
            r@ == sha256_hex(
                decimal(self.index as nat) + merkle_root_of(self.transactions@) + self.prev_hash@
                    + decimal(self.timestamp as nat) + decimal(self.nonce as nat),
            ),
    {
        let mut s = self.signing_text();
        push_decimal(&mut s, self.nonce);
        sha256_hex_of(s.as_str())
    }

    /// A new unmined block with the given timestamp; its hash is computed with nonce 0.
    pub fn with_timestamp(
        index: u32,
        transactions: Vec<Transaction>,
        prev_hash: &crate::types::Hash,
        timestamp: u64,
    ) -> (r: Block)
        ensures
            r.index == index,
            r.transactions == transactions,
            r.prev_hash@ == prev_hash@,
            r.timestamp == timestamp,
            r.nonce == 0,
            r.signature is None,
            r.author is None,
            r.hash@ == block_hash_of(r),
    {
        let mut block = Block {
            index,
            transactions,
            prev_hash: prev_hash.duplicate(),
            hash: crate::types::Hash::empty(),
            timestamp,
            signature: None,
            author: None,
            nonce: 0,
        };
        block.hash = block.compute_hash();
        block
    }

    /// Creates a new unmined block stamped with the current time. Call
    /// [`Block::mine`] before appending to the chain. A clock that reads before
    /// the Unix epoch stamps the block with 0.
    pub fn new(index: u32, transactions: Vec<Transaction>, prev_hash: &crate::types::Hash) -> (r:
        Block)
        ensures
            r.index == index,
            r.transactions == transactions,
            r.prev_hash@ == prev_hash@,
            r.nonce == 0,
            r.signature is None,
            r.author is None,
            r.hash@ == block_hash_of(r),
    {
        let timestamp = match unix_time_now() {
            Some(t) => t,
            None => 0,
        };
        Block::with_timestamp(index, transactions, prev_hash, timestamp)
    }

    /// Signs the block with the Ed25519 secret key `secret`: sets the signature
    /// over `index || merkle_root || prev_hash || timestamp` and the author key.
    pub fn sign(&mut self, secret: &[u8; 32])
        ensures
            final(self).index == old(self).index,
            final(self).transactions == old(self).transactions,
            final(self).prev_hash == old(self).prev_hash,
            final(self).hash == old(self).hash,
            final(self).timestamp == old(self).timestamp,
            final(self).nonce == old(self).nonce,
            opt_bytes(final(self).signature) == Some(
                ed25519_signature(secret@, encode_utf8(signing_content(*old(self))))@,
            ),
            final(self).author == Some(PublicKey(ed25519_public_key(secret@))),
            block_signature_check(*final(self)) is Ok,
    {
        let content = self.signing_text();
        let sig = sign_message(secret, content.as_str().as_bytes());
        let mut bytes: Vec<u8> = Vec::new();
        bytes.extend_from_slice(sig.as_slice());
        self.signature = Some(bytes);
        let pk = public_key_of(secret);
        self.author = Some(PublicKey::from_bytes(pk));
        proof {
            assert(signing_content(*self) == signing_content(*old(self)));
            assert(opt_bytes(self.signature) == Some(sig@));
            assert(sig@.len() == 64);
            assert(ed25519_key_decodes(pk@));
            assert(ed25519_accepts(pk@, encode_utf8(signing_content(*self)), sig@));
        }
    }

    /// Increments the nonce until the hash has `difficulty` leading zero hex
    /// digits. Stops without success only once the nonce reaches `u64::MAX`.
    pub fn mine(&mut self, difficulty: usize)
        ensures
            same_header(*final(self), *old(self)),
            old(self).nonce <= final(self).nonce,
            meets_difficulty(old(self).hash@, difficulty as nat) ==> *final(self) == *old(self),
            !meets_difficulty(old(self).hash@, difficulty as nat) && old(self).nonce < u64::MAX
                ==> final(self).hash@ == block_hash_of(*final(self)),
            !meets_difficulty(old(self).hash@, difficulty as nat) && old(self).nonce < u64::MAX
                ==> old(self).nonce < final(self).nonce,
            meets_difficulty(final(self).hash@, difficulty as nat) || final(self).nonce
                == u64::MAX,
            final(self).nonce < u64::MAX ==> difficulty <= final(self).hash@.len() && forall|i: int|
                0 <= i < difficulty ==> final(self).hash@[i] == '0',
            forall|n: u64|
                old(self).nonce < n < final(self).nonce ==> !meets_difficulty(
                    #[trigger] hash_with_nonce(*old(self), n),
                    difficulty as nat,
                ),
    {
        let ghost start = *self;
        while !meets_target(&self.hash, difficulty)
            invariant
                start == *old(self),
                same_header(*self, start),
                self.nonce > start.nonce ==> !meets_difficulty(start.hash@, difficulty as nat),
                start.nonce <= self.nonce,
                self.nonce == start.nonce ==> *self == start,
                self.nonce > start.nonce ==> self.hash@ == block_hash_of(*self),
                forall|n: u64|
                    start.nonce < n < self.nonce ==> !meets_difficulty(
                        #[trigger] hash_with_nonce(start, n),
                        difficulty as nat,
                    ),
            decreases u64::MAX - self.nonce,
        {
            if self.nonce == u64::MAX {
                return;
            }
            assert(self.nonce > start.nonce ==> !meets_difficulty(
                hash_with_nonce(start, self.nonce),
                difficulty as nat,
            ));
            self.nonce = self.nonce + 1;
            self.hash = self.compute_hash();
        }
        proof {
            meeting_a_difficulty_means_leading_zero_digits(self.hash@, difficulty as nat);
        }
    }

    /// One line describing the block, as the chain listing shows it:
    /// `Block {index}: Hash: {hash}, Prev Hash: {prev}, Timestamp: {ts}, Transactions: {count}`.
    pub fn summary(&self) -> (r: String)
        ensures
            r@ == "Block "@ + decimal(self.index as nat) + ": Hash: "@ + self.hash@ + ", Prev Hash: "@
                + self.prev_hash@ + ", Timestamp: "@ + decimal(self.timestamp as nat)
                + ", Transactions: "@ + decimal(self.transactions@.len()),
    {
        let mut s = "Block ".to_owned();
        push_decimal(&mut s, self.index as u64);
        s.append(": Hash: ");
        s.append(self.hash.as_str());
        s.append(", Prev Hash: ");
        s.append(self.prev_hash.as_str());
        s.append(", Timestamp: ");
        push_decimal(&mut s, self.timestamp);
        s.append(", Transactions: ");
        push_decimal(&mut s, self.transactions.len() as u64);
        s
    }

    pub fn hash(&self) -> (r: &crate::types::Hash)
        ensures
            *r == self.hash,
    {
        &self.hash
    }

    pub fn prev_hash(&self) -> (r: &crate::types::Hash)
        ensures
            *r == self.prev_hash,
    {
        &self.prev_hash
    }

    pub fn index(&self) -> (r: u32)
        ensures
            r == self.index,
    {
        self.index
    }

    pub fn timestamp(&self) -> (r: u64)
        ensures
            r == self.timestamp,
    {
        self.timestamp
    }

    pub fn transactions(&self) -> (r: &[Transaction])
        ensures
            r@ == self.transactions@,
    {
        self.transactions.as_slice()
    }

    pub fn signature(&self) -> (r: Option<&[u8]>)
        ensures
            match r {
                Some(s) => opt_bytes(self.signature) == Some(s@),
                None => self.signature is None,
            },
    {
        match &self.signature {
            Some(v) => Some(v.as_slice()),
            None => None,
        }
    }

    pub fn author(&self) -> (r: Option<PublicKey>)
        ensures
            r == self.author,
    {
        self.author
    }

    /// Overwrites the stored hash with the text `corrupt_hash` (for tests of validation).
    pub fn corrupt(&mut self)
        ensures
            final(self).hash@ == "corrupt_hash"@,
            final(self).index == old(self).index,
            final(self).transactions == old(self).transactions,
            final(self).prev_hash == old(self).prev_hash,
            final(self).timestamp == old(self).timestamp,
            final(self).signature == old(self).signature,
            final(self).author == old(self).author,
            final(self).nonce == old(self).nonce,
    {
        self.hash = crate::types::Hash::from_string("corrupt_hash".to_owned());
    }

    /// Sets the signature bytes (for tests of validation).
    pub fn set_signature_test(&mut self, sig: Vec<u8>)
        ensures
            final(self).signature == Some(sig),
            final(self).index == old(self).index,
            final(self).transactions == old(self).transactions,
            final(self).prev_hash == old(self).prev_hash,
            final(self).hash == old(self).hash,
            final(self).timestamp == old(self).timestamp,
            final(self).author == old(self).author,
            final(self).nonce == old(self).nonce,
    {
        self.signature = Some(sig);
    }

    /// Sets the author key (for tests of validation).
    pub fn set_author_test(&mut self, author: PublicKey)
        ensures
            final(self).author == Some(author),
            final(self).index == old(self).index,
            final(self).transactions == old(self).transactions,
            final(self).prev_hash == old(self).prev_hash,
            final(self).hash == old(self).hash,
            final(self).timestamp == old(self).timestamp,
            final(self).signature == old(self).signature,
            final(self).nonce == old(self).nonce,
    {
        self.author = Some(author);
    }
}

} // verus!
