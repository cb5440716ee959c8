//! The fixed-width raw transaction of the legacy ternary ledger: an
//! 8019-trit buffer with named field spans, its tryte-string wire encoding,
//! and the round trip between the two.

use vstd::prelude::*;

use crate::errors::{Error, MigrationRule};
use crate::ternary::{
    is_trit, is_tryte_char, lemma_trits_round_trip, lemma_trytes_round_trip, trits_to_tryte_chars,
    trits_to_trytes, tryte_chars_to_trits, trytes_to_trits, valid_trits,
};

verus! {

/// Width of one raw transaction in trits.
pub const TRANSACTION_TRIT_LEN: usize = 8019;

/// Width of one serialized transaction in tryte characters.
pub const TRANSACTION_TRYTE_LEN: usize = 2673;

/// Width of the signature / message fragment at the start of the raw form.
pub const SIGNATURE_FRAGMENT_LEN: usize = 6561;

/// Width of an address and of every hash field, in trits.
pub const HASH_TRIT_LEN: usize = 243;

/// Width of the value and tag fields, in trits.
pub const VALUE_TRIT_LEN: usize = 81;

/// Width of the timestamp and index fields, in trits.
pub const TIMESTAMP_TRIT_LEN: usize = 27;

/// First trit of the address field.
pub const ADDRESS_OFFSET: usize = 6561;

/// First trit of the value field.
pub const VALUE_OFFSET: usize = 6804;

/// First trit of the obsolete-tag field.
pub const OBSOLETE_TAG_OFFSET: usize = 6885;

/// First trit of the timestamp field.
pub const TIMESTAMP_OFFSET: usize = 6966;

/// First trit of the current-index field.
pub const INDEX_OFFSET: usize = 6993;

/// First trit of the last-index field.
pub const LAST_INDEX_OFFSET: usize = 7020;

/// First trit of the bundle-hash field.
pub const BUNDLE_OFFSET: usize = 7047;

/// First trit of the trunk-hash field.
pub const TRUNK_OFFSET: usize = 7290;

/// First trit of the branch-hash field.
pub const BRANCH_OFFSET: usize = 7533;

/// First trit of the tag field.
pub const TAG_OFFSET: usize = 7776;

/// First trit of the attachment-timestamp field.
pub const ATTACHMENT_TS_OFFSET: usize = 7857;

/// First trit of the attachment lower-bound timestamp field.
pub const ATTACHMENT_LBTS_OFFSET: usize = 7884;

/// First trit of the attachment upper-bound timestamp field.
pub const ATTACHMENT_UBTS_OFFSET: usize = 7911;

/// First trit of the nonce field.
pub const NONCE_OFFSET: usize = 7938;

/// The essence spans the address through the last-index field.
pub const ESSENCE_OFFSET: usize = 6561;

/// Width of the essence in trits.
pub const ESSENCE_TRIT_LEN: usize = 486;

/// First trit of the span that essence mining may replace: the value
/// through last-index fields of the raw form.
pub const MINED_SPAN_OFFSET: usize = 6804;

/// Width of the mined span in trits: one fixed 243-trit region.
pub const MINED_SPAN_TRIT_LEN: usize = 243;

/// One transaction of the legacy ledger in its raw fixed-width trit form.
#[derive(Clone, Debug)]
pub struct BundledTransaction {
    /// The raw fixed-width trit buffer.
    pub raw: Vec<i8>,
}

impl View for BundledTransaction {
    type V = Seq<i8>;

    open spec fn view(&self) -> Seq<i8> {
        self.raw@
    }
}

impl BundledTransaction {
    /// Well-formed: exactly the fixed width, every element a trit.
    pub open spec fn wf(self) -> bool {
        self@.len() == TRANSACTION_TRIT_LEN && valid_trits(self@)
    }

    /// The address field of the raw form.
    pub open spec fn address(self) -> Seq<i8> {
        self@.subrange(ADDRESS_OFFSET as int, VALUE_OFFSET as int)
    }

    /// The essence: address, value, obsolete tag, timestamp, current index
    /// and last index.
    pub open spec fn essence(self) -> Seq<i8> {
        self@.subrange(ESSENCE_OFFSET as int, BUNDLE_OFFSET as int)
    }

    /// The span replaced when a mined essence part is patched in.
    pub open spec fn mined_span(self) -> Seq<i8> {
        self@.subrange(MINED_SPAN_OFFSET as int, BUNDLE_OFFSET as int)
    }

    /// Build a transaction from its raw trit buffer; fails exactly when the
    /// width is wrong or an element is not a trit.
    pub fn from_trits(raw: Vec<i8>) -> (r: Result<Self, Error>)
        ensures
            r is Ok <==> (raw@.len() == TRANSACTION_TRIT_LEN && valid_trits(raw@)),
            r matches Ok(tx) ==> tx@ == raw@ && tx.wf(),
            r matches Err(e) ==> e == Error::MigrationError(MigrationRule::InvalidTritLength),
    {
        if raw.len() != TRANSACTION_TRIT_LEN {
            return Err(Error::MigrationError(MigrationRule::InvalidTritLength));
        }
        let n = raw.len();
        for i in 0..n
            invariant
                n == raw@.len(),
                forall|j: int| 0 <= j < i ==> is_trit(#[trigger] raw@[j]),
        {
            let t = raw[i];
            if t < -1 || t > 1 {
                return Err(Error::MigrationError(MigrationRule::InvalidTritLength));
            }
        }
        Ok(BundledTransaction { raw })
    }

    /// A copy of the raw trit buffer.
    pub fn to_trits(&self) -> (r: Vec<i8>)
        ensures
            r@ == self@,
    {
        let mut out: Vec<i8> = Vec::new();
        crate::ternary::push_trits(&mut out, &self.raw);
        proof {
            assert(out@ =~= self@);
        }
        out
    }

    /// A copy of one span of the raw trit buffer.
    pub fn trits_range(&self, start: usize, end: usize) -> (r: Vec<i8>)
        requires
            start <= end,
            end <= self@.len(),
        ensures
            r@ =~= self@.subrange(start as int, end as int),
    {
        let mut out: Vec<i8> = Vec::new();
        let n = self.raw.len();
        for i in start..end
            invariant
                start <= end <= self@.len(),
                n == self@.len(),
                out@ =~= self@.subrange(start as int, i as int),
        {
            out.push(self.raw[i]);
            proof {
                assert(self@.subrange(start as int, i + 1) =~= self@.subrange(
                    start as int,
                    i as int,
                ).push(self@[i as int]));
            }
        }
        out
    }

    /// Serialize to the tryte-character wire form.
    pub fn to_tryte_chars(&self) -> (r: Vec<char>)
        requires
            self.wf(),
        ensures
            r@ =~= trits_to_trytes(self@),
            r@.len() == TRANSACTION_TRYTE_LEN,
    {
        trits_to_tryte_chars(&self.raw)
    }

    /// Deserialize from the tryte-character wire form; fails exactly when
    /// the width is wrong or a character is outside the tryte alphabet.
    pub fn from_tryte_chars(chars: &Vec<char>) -> (r: Result<Self, Error>)
        ensures
            r is Ok <==> (chars@.len() == TRANSACTION_TRYTE_LEN && (forall|i: int|
                0 <= i < chars@.len() ==> is_tryte_char(#[trigger] chars@[i]))),
            r matches Ok(tx) ==> tx@ =~= trytes_to_trits(chars@) && tx.wf(),
            r matches Err(e) ==> (e == Error::MigrationError(MigrationRule::InvalidTritLength) || e
                == Error::MigrationError(MigrationRule::InvalidTryteString)),
    {
        if chars.len() != TRANSACTION_TRYTE_LEN {
            return Err(Error::MigrationError(MigrationRule::InvalidTritLength));
        }
        let trits = tryte_chars_to_trits(chars)?;
        Ok(BundledTransaction { raw: trits })
    }
}

/// Round trip: serializing a well-formed transaction and deserializing the
/// result reproduces the raw content exactly.
pub proof fn lemma_transaction_round_trip(tx: BundledTransaction)
    requires
        tx.wf(),
    ensures
        trytes_to_trits(trits_to_trytes(tx@)) =~= tx@,
{
    lemma_trits_round_trip(tx@);
}

/// Round trip in the other direction: deserializing a well-formed tryte
/// string and serializing the result reproduces the string exactly.
pub proof fn lemma_tryte_string_round_trip(s: Seq<char>)
    requires
        forall|i: int| 0 <= i < s.len() ==> is_tryte_char(#[trigger] s[i]),
    ensures
        trits_to_trytes(trytes_to_trits(s)) =~= s,
{
    lemma_trytes_round_trip(s);
}

} // verus!
