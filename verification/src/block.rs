//! Blocks: ordered transaction bundles under a Merkle commitment, linked
//! to their predecessor by digest and mined by nonce search.

use vstd::prelude::*;
use vstd::string::StringExecFns;

use crate::clock::now_millis;
use crate::encoding::{
    lemma_concat_inj, lemma_dec_inj, push_lp, spec_dec, spec_dec_i64, spec_lp, i64_to_dec,
    u64_to_dec,
};
use crate::error::BlocktreeError;
use crate::hashing::{
    encode_hex, lemma_hex_shape, merkle_root_digest, sha3_digest, spec_hex, spec_is_hex_char,
    spec_merkle_root, spec_sha3,
};
use crate::transaction::{spec_tx_serial, tx_serial, Transaction, TransactionModel};

verus! {

/// A block of the ledger. Immutable once mined; while being mined, every
/// change of the nonce is followed by a recomputation of the digest.
#[derive(Debug, Clone)]
pub struct Block {
    pub index: u64,
    pub timestamp: i64,
    pub transactions: Vec<Transaction>,
    pub previous_hash: String,
    pub branch_id: String,
    pub nonce: u64,
    /// Hex digest committing to the ordered transaction sequence;
    /// the sentinel "0" when there are no transactions.
    pub merkle_root: String,
    /// Hex digest of the block's canonical encoding.
    pub hash: String,
}

/// The mathematical value of a block: its fields with strings abstracted
/// to character sequences and transactions to their models.
#[verifier::ext_equal]
pub struct BlockModel {
    pub index: u64,
    pub timestamp: i64,
    pub transactions: Seq<TransactionModel>,
    pub previous_hash: Seq<char>,
    pub branch_id: Seq<char>,
    pub nonce: u64,
    pub merkle_root: Seq<char>,
    pub hash: Seq<char>,
}

impl View for Block {
    type V = BlockModel;

    open spec fn view(&self) -> BlockModel {
        BlockModel {
            index: self.index,
            timestamp: self.timestamp,
            transactions: self.transactions.deep_view(),
            previous_hash: self.previous_hash@,
            branch_id: self.branch_id@,
            nonce: self.nonce,
            merkle_root: self.merkle_root@,
            hash: self.hash@,
        }
    }
}

impl DeepView for Block {
    type V = BlockModel;

    open spec fn deep_view(&self) -> BlockModel {
        self.view()
    }
}

/// The canonical encoding of one transaction inside a block: its
/// identifying fields followed by its content identifier.
pub open spec fn spec_tx_record(t: TransactionModel) -> Seq<char> {
    spec_tx_serial(t.sender, t.receiver, t.amount, t.timestamp) + seq!['|'] + spec_lp(t.tx_id)
}

/// The canonical encoding of an ordered transaction sequence.
pub open spec fn spec_txs_serial(txs: Seq<TransactionModel>) -> Seq<char>
    decreases txs.len(),
{
    if txs.len() == 0 {
        Seq::empty()
    } else {
        spec_txs_serial(txs.drop_last()) + spec_lp(spec_tx_record(txs.last()))
    }
}

/// Everything of a block's canonical encoding that precedes the nonce.
/// The stored digest itself is never part of the encoding.
pub open spec fn spec_block_prefix(b: BlockModel) -> Seq<char> {
    spec_dec(b.index as nat) + seq!['|'] + spec_dec_i64(b.timestamp as int) + seq!['|']
        + spec_dec(b.transactions.len()) + seq!['|'] + spec_txs_serial(b.transactions)
        + seq!['|'] + spec_lp(b.previous_hash) + seq!['|'] + spec_lp(b.branch_id) + seq!['|']
        + spec_lp(b.merkle_root) + seq!['|']
}

/// The canonical encoding of a block; the nonce stands last.
pub open spec fn spec_block_serial(b: BlockModel) -> Seq<char> {
    spec_block_prefix(b) + spec_dec(b.nonce as nat)
}

/// The digest a block's fields are owed: hex over SHA3-256 of the
/// canonical encoding.
pub open spec fn spec_block_digest(b: BlockModel) -> Seq<char> {
    spec_hex(spec_sha3(spec_block_serial(b)))
}

/// The Merkle leaf for a transaction: SHA3 of its content identifier.
pub open spec fn spec_leaf(t: TransactionModel) -> Seq<u8> {
    spec_sha3(t.tx_id)
}

/// The ordered leaf sequence of a transaction sequence.
pub open spec fn spec_leaves(txs: Seq<TransactionModel>) -> Seq<Seq<u8>> {
    Seq::new(txs.len(), |i: int| spec_leaf(txs[i]))
}

/// The Merkle commitment of an ordered transaction sequence: the sentinel
/// "0" when empty, otherwise the hex root over the leaves in order.
pub open spec fn spec_merkle_root_str(txs: Seq<TransactionModel>) -> Seq<char> {
    if txs.len() == 0 {
        seq!['0']
    } else {
        spec_hex(spec_merkle_root(spec_leaves(txs)))
    }
}

/// Writes the canonical encoding of one transaction inside a block.
fn tx_record(t: &Transaction) -> (r: String)
    ensures
        r@ == spec_tx_record(t@),
{
    let mut s = tx_serial(t.sender.as_str(), t.receiver.as_str(), t.amount, t.timestamp);
    s.append("|");
    proof {
        reveal_strlit("|");
        assert("|"@ =~= seq!['|']);
    }
    push_lp(&mut s, t.tx_id.as_str());
    proof {
        assert(s@ =~= spec_tx_record(t@));
    }
    s
}

/// The block value with its nonce replaced: what one step of the mining
/// search hands the digest.
pub open spec fn spec_with_nonce(b: BlockModel, n: u64) -> BlockModel {
    BlockModel { nonce: n, ..b }
}

/// A block value whose stored digests match fresh recomputations from
/// its field values.
pub open spec fn spec_block_wf(b: BlockModel) -> bool {
    &&& b.hash == spec_block_digest(b)
    &&& b.merkle_root == spec_merkle_root_str(b.transactions)
}

impl Block {
    /// The block's stored digests match fresh recomputations from its
    /// current field values.
    pub open spec fn wf(self) -> bool {
        spec_block_wf(self@)
    }

    /// Builds an unmined block over the given transactions, stamped with
    /// the current time: Merkle root then digest are computed, nonce 0.
    pub fn new(
        index: u64,
        transactions: Vec<Transaction>,
        previous_hash: String,
        branch_id: String,
    ) -> (r: Result<Block, BlocktreeError>)
        ensures
            r matches Ok(b) && b@.index == index && b@.transactions == transactions.deep_view()
                && b@.previous_hash == previous_hash@ && b@.branch_id == branch_id@ && b@.nonce
                == 0 && b.wf(),
    {
        let timestamp = now_millis();
        let merkle_root = match Self::calculate_merkle_root(&transactions) {
            Ok(m) => m,
            Err(e) => {
                return Err(e);
            },
        };
        let mut block = Block {
            index,
            timestamp,
            transactions,
            previous_hash,
            branch_id,
            nonce: 0,
            merkle_root,
            hash: String::new(),
        };
        let h = match block.calculate_hash() {
            Ok(h) => h,
            Err(e) => {
                return Err(e);
            },
        };
        let ghost before = block@;
        block.hash = h;
        proof {
            assert(spec_block_serial(block@) == spec_block_serial(before));
        }
        Ok(block)
    }

    /// The Merkle commitment over the ordered transaction sequence: the
    /// sentinel "0" when empty, otherwise the root digest over the
    /// transactions' identifier leaves, in transaction order. Each leaf
    /// is the SHA3 digest of a content identifier; interior nodes are
    /// combined by rs_merkle's SHA-256 tree hasher.
    pub fn calculate_merkle_root(transactions: &Vec<Transaction>) -> (r: Result<
        String,
        BlocktreeError,
    >)
        ensures
            r matches Ok(m) && m@ == spec_merkle_root_str(transactions.deep_view()),
    {
        if transactions.len() == 0 {
            proof {
                reveal_strlit("0");
                assert("0"@ =~= seq!['0']);
            }
            return Ok("0".to_owned());
        }
        let mut leaves: Vec<Vec<u8>> = Vec::new();
        let n = transactions.len();
        for i in 0..n
            invariant
                n == transactions@.len(),
            leaves@.len() == i,
                forall|j: int|
                    0 <= j < i ==> #[trigger] leaves@[j]@ == spec_leaf(
                        transactions.deep_view()[j],
                    ) && leaves@[j]@.len() == 32,
        {
            let leaf = sha3_digest(transactions[i].tx_id.as_str());
            leaves.push(leaf);
        }
        proof {
            assert(leaves.deep_view() =~~= spec_leaves(transactions.deep_view()));
        }
        let root = merkle_root_digest(&leaves);
        Ok(encode_hex(&root))
    }

    /// Writes the canonical encoding of this block, nonce last; the
    /// stored digest takes no part in it.
    fn serial(&self) -> (r: String)
        ensures
            r@ == spec_block_serial(self@),
    {
        proof {
            reveal_strlit("|");
            assert("|"@ =~= seq!['|']);
        }
        let mut s = String::new();
        let idx = u64_to_dec(self.index);
        s.append(idx.as_str());
        s.append("|");
        let ts = i64_to_dec(self.timestamp);
        s.append(ts.as_str());
        s.append("|");
        let cnt = u64_to_dec(self.transactions.len() as u64);
        s.append(cnt.as_str());
        s.append("|");
        let ghost head: Seq<char> = s@;
        let n = self.transactions.len();
        proof {
            assert(s@ =~= head + spec_txs_serial(self@.transactions.subrange(0, 0)));
        }
        for i in 0..n
            invariant
                n == self.transactions@.len(),
                s@ == head + spec_txs_serial(self@.transactions.subrange(0, i as int)),
        {
            let rec = tx_record(&self.transactions[i]);
            push_lp(&mut s, rec.as_str());
            proof {
                let txs = self@.transactions;
                assert(txs.subrange(0, i + 1).drop_last() =~= txs.subrange(0, i as int));
                assert(txs.subrange(0, i + 1).last() == txs[i as int]);
                assert(s@ =~= head + spec_txs_serial(txs.subrange(0, i + 1)));
            }
        }
        proof {
            assert(self@.transactions.subrange(0, n as int) =~= self@.transactions);
        }
        s.append("|");
        push_lp(&mut s, self.previous_hash.as_str());
        s.append("|");
        push_lp(&mut s, self.branch_id.as_str());
        s.append("|");
        push_lp(&mut s, self.merkle_root.as_str());
        s.append("|");
        let nn = u64_to_dec(self.nonce);
        s.append(nn.as_str());
        proof {
            assert(s@ =~= spec_block_serial(self@));
        }
        s
    }

    /// Recomputes the digest of the block's current fields: sixty-four
    /// lower-case hex characters.
    pub fn calculate_hash(&self) -> (r: Result<String, BlocktreeError>)
        ensures
            r matches Ok(h) && h@ == spec_block_digest(self@) && h@.len() == 64 && (forall|
                i: int,
            |
                0 <= i < h@.len() ==> spec_is_hex_char(#[trigger] h@[i])),
    {
        let serial = self.serial();
        let digest = sha3_digest(serial.as_str());
        proof {
            lemma_hex_shape(digest@);
        }
        Ok(encode_hex(&digest))
    }

    /// Recomputes the digest and writes it back; every other field is
    /// left unchanged.
    pub fn update_hash(&mut self) -> (r: Result<(), BlocktreeError>)
        ensures
            r matches Ok(()),
            final(self)@.index == old(self)@.index,
            final(self)@.timestamp == old(self)@.timestamp,
            final(self)@.transactions == old(self)@.transactions,
            final(self)@.previous_hash == old(self)@.previous_hash,
            final(self)@.branch_id == old(self)@.branch_id,
            final(self)@.nonce == old(self)@.nonce,
            final(self)@.merkle_root == old(self)@.merkle_root,
            final(self)@.hash == spec_block_digest(final(self)@),
    {
        let h = match self.calculate_hash() {
            Ok(h) => h,
            Err(e) => {
                return Err(e);
            },
        };
        let ghost before = self@;
        self.hash = h;
        proof {
            assert(spec_block_serial(self@) == spec_block_serial(before));
        }
        Ok(())
    }

    /// An owned copy whose mathematical value equals this one's.
    pub fn duplicate(&self) -> (r: Block)
        ensures
            r@ == self@,
    {
        let mut txs: Vec<Transaction> = Vec::new();
        let n = self.transactions.len();
        for i in 0..n
            invariant
                n == self.transactions@.len(),
                txs@.len() == i,
                forall|j: int| 0 <= j < i ==> #[trigger] txs@[j] == self.transactions@[j],
        {
            txs.push(self.transactions[i].duplicate());
        }
        let r = Block {
            index: self.index,
            timestamp: self.timestamp,
            transactions: txs,
            previous_hash: self.previous_hash.clone(),
            branch_id: self.branch_id.clone(),
            nonce: self.nonce,
            merkle_root: self.merkle_root.clone(),
            hash: self.hash.clone(),
        };
        proof {
            assert(r@.transactions =~= self@.transactions);
            assert(r@ =~= self@);
        }
        r
    }
}

/// Law: two blocks that agree on every field but the nonce have distinct
/// canonical encodings — the digest search never revisits an input. (That
/// distinct inputs then give distinct digests is a property of the hash,
/// exercised by tests, not stated here.)
pub proof fn lemma_serial_nonce_sensitive(b1: BlockModel, b2: BlockModel)
    requires
        b1.index == b2.index,
        b1.timestamp == b2.timestamp,
        b1.transactions == b2.transactions,
        b1.previous_hash == b2.previous_hash,
        b1.branch_id == b2.branch_id,
        b1.merkle_root == b2.merkle_root,
        b1.nonce != b2.nonce,
    ensures
        spec_block_serial(b1) != spec_block_serial(b2),
{
    assert(spec_block_prefix(b1) == spec_block_prefix(b2));
    if spec_block_serial(b1) == spec_block_serial(b2) {
        lemma_concat_inj(
            spec_block_prefix(b1),
            spec_dec(b1.nonce as nat),
            spec_dec(b2.nonce as nat),
        );
        lemma_dec_inj(b1.nonce as nat, b2.nonce as nat);
        assert(false);
    }
}

/// Law: the Merkle commitment is the sentinel exactly on an empty
/// sequence, and otherwise depends on nothing but the ordered sequence of
/// content identifiers — same identifiers in the same order, same root.
pub proof fn lemma_merkle_root_deterministic(
    txs1: Seq<TransactionModel>,
    txs2: Seq<TransactionModel>,
)
    requires
        txs1.len() == txs2.len(),
        forall|i: int| 0 <= i < txs1.len() ==> txs1[i].tx_id == txs2[i].tx_id,
    ensures
        spec_merkle_root_str(txs1) == spec_merkle_root_str(txs2),
{
    if txs1.len() != 0 {
        assert(spec_leaves(txs1) =~= spec_leaves(txs2));
    }
}

} // verus!
