//! The ledger: an ordered, append-only sequence of records seeded with a
//! genesis record, with append and whole-chain validation.

use vstd::prelude::*;
use vstd::utf8::{encode_utf8, is_ascii_chars, is_ascii_chars_encode_utf8};

use crate::block::{hash_input, sha256_of, Block, MAX_PAYLOAD_BYTES};
use crate::encoding::lemma_hex_is_ascii;

verus! {

/// The fixed fields of the first record.
pub open spec fn is_genesis(b: Block) -> bool {
    b.index == 0 && b.previous_hash@ == "0"@ && b.data@ == "Genesis Block"@
}

/// Every record after the first names its predecessor's commitment.
pub open spec fn linked(s: Seq<Block>) -> bool {
    forall|i: int| 1 <= i < s.len() ==> #[trigger] s[i].previous_hash@ == s[i - 1].hash@
}

/// Every record's stored commitment matches its fields.
pub open spec fn all_certified(s: Seq<Block>) -> bool {
    forall|i: int| 0 <= i < s.len() ==> #[trigger] s[i].certified()
}

/// Every record's index is its position.
pub open spec fn sequential(s: Seq<Block>) -> bool {
    forall|i: int| 0 <= i < s.len() ==> #[trigger] s[i].index == i
}

/// Every record's commitment is 64 characters long.
pub open spec fn full_length(s: Seq<Block>) -> bool {
    forall|i: int| 0 <= i < s.len() ==> #[trigger] s[i].hash@.len() == 64
}

/// Every record's texts can be digested.
pub open spec fn all_digestible(s: Seq<Block>) -> bool {
    forall|i: int| 0 <= i < s.len() ==> #[trigger] s[i].digestible()
}

/// What validation checks: from the second record on, each names its
/// predecessor's commitment and carries its own recomputed commitment.
pub open spec fn passes_checks(s: Seq<Block>) -> bool {
    forall|i: int|
        1 <= i < s.len() ==> #[trigger] s[i].previous_hash@ == s[i - 1].hash@ && s[i].certified()
}

/// The ledger.
#[derive(Debug)]
pub struct Blockchain {
    pub chain: Vec<Block>,
}

impl Blockchain {
    /// A ledger as construction and appends leave it: a genesis record first,
    /// gapless indices, every record linked to its predecessor and certified.
    pub open spec fn well_formed(&self) -> bool {
        let s = self.chain@;
        &&& s.len() >= 1
        &&& is_genesis(s[0])
        &&& linked(s)
        &&& all_certified(s)
        &&& sequential(s)
        &&& all_digestible(s)
        &&& full_length(s)
    }

    /// A ledger that holds the genesis record alone.
    pub fn new() -> (r: Self)
        ensures
            r.well_formed(),
            r.chain@.len() == 1,
            is_genesis(r.chain@[0]),
            r.chain@[0].certified(),
    {
        let mut blockchain = Blockchain { chain: Vec::new() };
        blockchain.add_genesis_block();
        blockchain
    }

    fn add_genesis_block(&mut self)
        requires
            old(self).chain@.len() == 0,
        ensures
            final(self).well_formed(),
            final(self).chain@.len() == 1,
    {
        let previous_hash = String::from_str("0");
        let data = String::from_str("Genesis Block");
        proof {
            reveal_strlit("0");
            reveal_strlit("Genesis Block");
            assert(is_ascii_chars(previous_hash@));
            assert(is_ascii_chars(data@));
            is_ascii_chars_encode_utf8(previous_hash@);
            is_ascii_chars_encode_utf8(data@);
        }
        let genesis_block = Block::new(0, previous_hash, data);
        self.chain.push(genesis_block);
    }

    /// Appends a record that carries `data` and links to the current last record.
    pub fn add_block(&mut self, data: String)
        requires
            old(self).well_formed(),
            encode_utf8(data@).len() <= MAX_PAYLOAD_BYTES,
        ensures
            final(self).chain@.len() == old(self).chain@.len() + 1,
            final(self).chain@.drop_last() == old(self).chain@,
            final(self).chain@.last().index == old(self).chain@.last().index + 1,
            final(self).chain@.last().previous_hash@ == old(self).chain@.last().hash@,
            final(self).chain@.last().data@ == data@,
            final(self).chain@.last().certified(),
            final(self).well_formed(),
    {
        let last = self.chain.len() - 1;
        let previous_block = &self.chain[last];
        proof {
            let p = self.chain@[last as int];
            assert(p.certified() && p.hash@.len() == 64 && p.index == last);
            lemma_hex_is_ascii(sha256_of(hash_input(p.index, p.timestamp, p.previous_hash@, p.data@)));
        }
        let new_block = Block::new(previous_block.index + 1, previous_block.hash.clone(), data);
        self.chain.push(new_block);
        assert(self.chain@.drop_last() =~= old(self).chain@);
    }

    /// Whether every record after the first names its predecessor's commitment
    /// and carries the commitment recomputed from its own fields.
    pub fn is_valid(&self) -> (r: bool)
        requires
            all_digestible(self.chain@),
        ensures
            r == passes_checks(self.chain@),
    {
        let n = self.chain.len();
        let mut i: usize = 1;
        while i < n
            invariant
                n == self.chain@.len(),
                1 <= i,
                all_digestible(self.chain@),
                forall|j: int|
                    1 <= j < i && j < n ==> #[trigger] self.chain@[j].previous_hash@
                        == self.chain@[j - 1].hash@ && self.chain@[j].certified(),
            decreases n - i,
        {
            let current_block = &self.chain[i];
            let previous_block = &self.chain[i - 1];
            if !(current_block.previous_hash == previous_block.hash) {
                return false;
            }
            assert(self.chain@[i as int].digestible());
            let recalculated_hash = Block::calculate_hash(
                current_block.index,
                current_block.timestamp,
                current_block.previous_hash.as_str(),
                current_block.data.as_str(),
            );
            if !(current_block.hash == recalculated_hash) {
                return false;
            }
            i = i + 1;
        }
        true
    }
}

/// A ledger as construction and appends leave it passes validation, and every
/// record in it can be digested, so validation may be asked of it.
pub proof fn lemma_well_formed_passes_checks(c: Blockchain)
    requires
        c.well_formed(),
    ensures
        passes_checks(c.chain@),
        all_digestible(c.chain@),
{
}

/// Replacing a record after the first by one whose previous commitment is not
/// its predecessor's commitment makes validation fail.
pub proof fn lemma_broken_link_detected(s: Seq<Block>, i: int, b: Block)
    requires
        1 <= i < s.len(),
        b.previous_hash@ != s[i - 1].hash@,
    ensures
        !passes_checks(s.update(i, b)),
{
    assert(s.update(i, b)[i] == b);
    assert(s.update(i, b)[i - 1] == s[i - 1]);
}

/// Replacing a record after the first by one whose stored commitment differs
/// from the commitment of its own fields makes validation fail. A payload edited
/// without recomputing the commitment is such a record whenever the edited
/// fields' commitment differs from the stored one.
pub proof fn lemma_stale_commitment_detected(s: Seq<Block>, i: int, b: Block)
    requires
        1 <= i < s.len(),
        !b.certified(),
    ensures
        !passes_checks(s.update(i, b)),
{
    assert(s.update(i, b)[i] == b);
}

/// Two certified records with the same index, timestamp, previous commitment
/// and payload carry the same commitment.
pub proof fn lemma_commitment_deterministic(a: Block, b: Block)
    requires
        a.certified(),
        b.certified(),
        a.index == b.index,
        a.timestamp == b.timestamp,
        a.previous_hash@ == b.previous_hash@,
        a.data@ == b.data@,
    ensures
        a.hash@ == b.hash@,
{
}

} // verus!
