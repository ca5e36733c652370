//! Transactions: immutable value transfers, self-identified by a digest
//! of their canonical encoding.

use vstd::prelude::*;
use vstd::string::StringExecFns;

use crate::clock::now_millis;
use crate::encoding::{push_lp, spec_dec, spec_dec_i64, spec_lp, i64_to_dec, u64_to_dec};
use crate::error::BlocktreeError;
use crate::hashing::{
    encode_hex, lemma_hex_shape, sha256_digest, spec_hex, spec_is_hex_char, spec_sha256,
};

verus! {

/// An immutable record of a value transfer. The content identifier is a
/// pure function of the four other fields, computed at construction.
#[derive(Debug, Clone)]
pub struct Transaction {
    pub sender: String,
    pub receiver: String,
    pub amount: u64,
    pub timestamp: i64,
    /// Hex digest over the canonical encoding of the fields above.
    pub tx_id: String,
}

/// The mathematical value of a transaction: its fields with strings
/// abstracted to character sequences.
#[verifier::ext_equal]
pub struct TransactionModel {
    pub sender: Seq<char>,
    pub receiver: Seq<char>,
    pub amount: u64,
    pub timestamp: i64,
    pub tx_id: Seq<char>,
}

impl View for Transaction {
    type V = TransactionModel;

    open spec fn view(&self) -> TransactionModel {
        TransactionModel {
            sender: self.sender@,
            receiver: self.receiver@,
            amount: self.amount,
            timestamp: self.timestamp,
            tx_id: self.tx_id@,
        }
    }
}

impl DeepView for Transaction {
    type V = TransactionModel;

    open spec fn deep_view(&self) -> TransactionModel {
        self.view()
    }
}

/// The canonical encoding of a transaction's identifying fields.
pub open spec fn spec_tx_serial(
    sender: Seq<char>,
    receiver: Seq<char>,
    amount: u64,
    timestamp: i64,
) -> Seq<char> {
    spec_lp(sender) + seq!['|'] + spec_lp(receiver) + seq!['|'] + spec_dec(amount as nat)
        + seq!['|'] + spec_dec_i64(timestamp as int)
}

/// The content identifier those fields are owed: hex over SHA-256 of the
/// canonical encoding.
pub open spec fn spec_tx_digest(
    sender: Seq<char>,
    receiver: Seq<char>,
    amount: u64,
    timestamp: i64,
) -> Seq<char> {
    spec_hex(spec_sha256(spec_tx_serial(sender, receiver, amount, timestamp)))
}

/// Writes the canonical encoding of the identifying fields.
pub(crate) fn tx_serial(sender: &str, receiver: &str, amount: u64, timestamp: i64) -> (r: String)
    ensures
        r@ == spec_tx_serial(sender@, receiver@, amount, timestamp),
{
    let mut s = String::new();
    push_lp(&mut s, sender);
    s.append("|");
    push_lp(&mut s, receiver);
    s.append("|");
    let amount_dec = u64_to_dec(amount);
    s.append(amount_dec.as_str());
    s.append("|");
    let ts_dec = i64_to_dec(timestamp);
    s.append(ts_dec.as_str());
    proof {
        reveal_strlit("|");
        assert("|"@ =~= seq!['|']);
        assert(s@ =~= spec_tx_serial(sender@, receiver@, amount, timestamp));
    }
    s
}

impl Transaction {
    /// The stored identifier matches a fresh digest of the stored fields.
    pub open spec fn wf(self) -> bool {
        self.tx_id@ == spec_tx_digest(self.sender@, self.receiver@, self.amount, self.timestamp)
    }

    /// Builds a transaction stamped with the current time; its identifier
    /// is the digest of the canonical encoding of the other fields.
    pub fn new(sender: String, receiver: String, amount: u64) -> (r: Result<
        Transaction,
        BlocktreeError,
    >)
        ensures
            r matches Ok(t) && t.sender@ == sender@ && t.receiver@ == receiver@ && t.amount
                == amount && t.wf(),
    {
        let timestamp = now_millis();
        let serial = tx_serial(sender.as_str(), receiver.as_str(), amount, timestamp);
        let digest = encode_hex(&sha256_digest(serial.as_str()));
        Ok(
            Transaction {
                sender,
                receiver,
                amount,
                timestamp,
                tx_id: digest,
            },
        )
    }

    /// Recomputes the content identifier from the stored fields:
    /// sixty-four lower-case hex characters.
    pub fn calculate_hash(&self) -> (r: Result<String, BlocktreeError>)
        ensures
            r matches Ok(h) && h@ == spec_tx_digest(
                self.sender@,
                self.receiver@,
                self.amount,
                self.timestamp,
            ) && h@.len() == 64 && (forall|i: int|
                0 <= i < h@.len() ==> spec_is_hex_char(#[trigger] h@[i])),
    {
        let serial = tx_serial(
            self.sender.as_str(),
            self.receiver.as_str(),
            self.amount,
            self.timestamp,
        );
        let digest = sha256_digest(serial.as_str());
        proof {
            lemma_hex_shape(digest@);
        }
        Ok(encode_hex(&digest))
    }

    /// A syntactic screen, not an authentication check: both parties must
    /// be named and the amount positive.
    pub fn is_valid(&self) -> (r: bool)
        ensures
            r == (self.sender@.len() > 0 && self.receiver@.len() > 0 && self.amount > 0),
    {
        !self.sender.as_str().is_empty() && !self.receiver.as_str().is_empty() && self.amount > 0
    }

    /// An owned copy, equal to this one field for field.
    pub fn duplicate(&self) -> (r: Transaction)
        ensures
            r == *self,
    {
        Transaction {
            sender: self.sender.clone(),
            receiver: self.receiver.clone(),
            amount: self.amount,
            timestamp: self.timestamp,
            tx_id: self.tx_id.clone(),
        }
    }
}

/// Law: recomputing the content identifier from a transaction's stored
/// fields yields exactly its stored identifier.
pub proof fn lemma_tx_id_deterministic(t: Transaction)
    requires
        t.wf(),
    ensures
        t.tx_id@ == spec_tx_digest(t.sender@, t.receiver@, t.amount, t.timestamp),
{
}

} // verus!
