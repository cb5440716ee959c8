//! Preparation of an essence-mining job: the decoy-built bundle, the split
//! essence parts the search must reproduce, the parsed exclusion set of
//! previously-used bundle hashes, and the worker configuration. The
//! concurrent search itself is run by the bundle-mining collaborator
//! outside this core.

use vstd::prelude::*;

use crate::bundle::{zero_seq, UnsignedBundle};
use crate::crypto::{available_parallelism, kerl_hash_of, string_to_chars};
use crate::errors::{Error, MigrationRule};
use crate::sign::{attach_entry, attached_raw, essences_concat, seal_bundle};
use crate::ternary::{is_tryte_char, tryte_chars_to_trits, trytes_to_trits, valid_trits, zero_trits};
use crate::transaction::BundledTransaction;

verus! {

/// Everything a mining run needs: the target essence parts, the exclusion
/// set, and the search parameters.
#[derive(Debug)]
pub struct MiningConfig {
    /// Two fixed-width essence parts per decoy transaction: the address
    /// span, then the value/meta span, as trits.
    pub essences: Vec<Vec<i8>>,
    /// The previously-used bundle hashes to exclude, as trits.
    pub known_bundle_hashes: Vec<Vec<i8>>,
    /// The one-time-signature security level being protected, 1..=3.
    pub security_level: u8,
    /// How many signed fragments must stay free of the tryte value 13.
    pub num_13_free_fragments: usize,
    /// How many parallel search workers to run.
    pub worker_count: usize,
    /// The wall-clock deadline of the search, in seconds.
    pub timeout: u64,
    /// The starting offset into the tag search space.
    pub offset: i64,
}

/// Every character of the string belongs to the tryte alphabet.
pub open spec fn all_tryte_chars(s: Seq<char>) -> bool {
    forall|i: int| 0 <= i < s.len() ==> is_tryte_char(#[trigger] s[i])
}

/// The count of fragments that must avoid the tryte value 13: a hardware
/// wallet rejects a 13 anywhere in a signed fragment, so the maximum of 81
/// applies; otherwise 27 per security level.
pub fn num_13_free_fragments(security_level: u8, ledger: bool) -> (r: usize)
    requires
        1 <= security_level <= 3,
    ensures
        r == if ledger {
            81int
        } else {
            27 * security_level
        },
{
    if ledger {
        81
    } else {
        27 * (security_level as usize)
    }
}

/// One worker fewer than the machine offers, floored at one, so a core
/// stays free for the host process.
pub fn worker_count_from(cpus: usize) -> (r: usize)
    ensures
        r == if cpus > 1 {
            cpus - 1
        } else {
            1int
        },
        r >= 1,
{
    if cpus > 1 {
        cpus - 1
    } else {
        1
    }
}

/// Prepare a mining job over a prepared bundle: reject an empty exclusion
/// set, parse the previously-used bundle hashes, build the decoy
/// transactions, and split their essences into the fixed search parts.
pub fn plan_mining(
    prepared_bundle: &UnsignedBundle,
    security_level: u8,
    ledger: bool,
    spent_bundle_hashes: &Vec<String>,
    timeout: u64,
    offset: i64,
) -> (r: Result<(MiningConfig, Vec<BundledTransaction>), Error>)
    requires
        prepared_bundle.wf(),
        prepared_bundle.entries@.len() <= 0x10000000,
        1 <= security_level <= 3,
    ensures
        (r matches Err(e) && e == Error::MigrationError(MigrationRule::EmptySpentBundleHashes))
            <==> spent_bundle_hashes@.len() == 0,
        (r matches Err(e) && e == Error::MigrationError(MigrationRule::InvalidTryteString)) <==> (
        spent_bundle_hashes@.len() > 0 && !(forall|i: int|
            0 <= i < spent_bundle_hashes@.len() ==> all_tryte_chars(
                (#[trigger] spent_bundle_hashes@[i])@,
            ))),
        r is Ok <==> (spent_bundle_hashes@.len() > 0 && (forall|i: int|
            0 <= i < spent_bundle_hashes@.len() ==> all_tryte_chars(
                (#[trigger] spent_bundle_hashes@[i])@,
            ))),
        r matches Ok(ok) ==> {
            let cfg = ok.0;
            let txs = ok.1;
            let n = prepared_bundle.entries@.len() as int;
            let hash = kerl_hash_of(essences_concat(prepared_bundle.entries@));
            &&& txs@.len() == n
            &&& forall|i: int|
                0 <= i < n ==> (#[trigger] txs@[i])@ == attached_raw(
                    prepared_bundle.entries@[i],
                    zero_seq(6561),
                    hash,
                ) && txs@[i].wf()
            &&& cfg.essences@.len() == 2 * n
            &&& forall|i: int|
                0 <= i < n ==> (#[trigger] cfg.essences@[2 * i])@ == txs@[i]@.subrange(6561, 6804)
                    && cfg.essences@[2 * i + 1]@ == txs@[i]@.subrange(6804, 7047)
            &&& cfg.known_bundle_hashes@.len() == spent_bundle_hashes@.len()
            &&& forall|i: int|
                0 <= i < spent_bundle_hashes@.len() ==> (#[trigger] cfg.known_bundle_hashes@[i])@
                    == trytes_to_trits(spent_bundle_hashes@[i]@)
            &&& cfg.security_level == security_level
            &&& cfg.num_13_free_fragments == if ledger {
                81int
            } else {
                27 * security_level
            }
            &&& cfg.worker_count >= 1
            &&& cfg.timeout == timeout
            &&& cfg.offset == offset
        },
{
    if spent_bundle_hashes.len() == 0 {
        return Err(Error::MigrationError(MigrationRule::EmptySpentBundleHashes));
    }
    let mut known_bundle_hashes: Vec<Vec<i8>> = Vec::new();
    let h = spent_bundle_hashes.len();
    for i in 0..h
        invariant
            h == spent_bundle_hashes@.len(),
            h > 0,
            known_bundle_hashes@.len() == i,
            forall|j: int| 0 <= j < i ==> all_tryte_chars((#[trigger] spent_bundle_hashes@[j])@),
            forall|j: int|
                0 <= j < i ==> (#[trigger] known_bundle_hashes@[j])@ == trytes_to_trits(
                    spent_bundle_hashes@[j]@,
                ),
    {
        let chars = string_to_chars(&spent_bundle_hashes[i]);
        match tryte_chars_to_trits(&chars) {
            Ok(trits) => {
                known_bundle_hashes.push(trits);
            },
            Err(e) => {
                return Err(e);
            },
        }
    }
    let bundle_hash = seal_bundle(prepared_bundle);
    let n = prepared_bundle.entries.len();
    let mut txs: Vec<BundledTransaction> = Vec::new();
    let mut essences: Vec<Vec<i8>> = Vec::new();
    for i in 0..n
        invariant
            n == prepared_bundle.entries@.len(),
            prepared_bundle.wf(),
            bundle_hash@ == kerl_hash_of(essences_concat(prepared_bundle.entries@)),
            bundle_hash@.len() == 243,
            valid_trits(bundle_hash@),
            txs@.len() == i,
            essences@.len() == 2 * i,
            forall|j: int|
                0 <= j < i ==> (#[trigger] txs@[j])@ == attached_raw(
                    prepared_bundle.entries@[j],
                    zero_seq(6561),
                    kerl_hash_of(essences_concat(prepared_bundle.entries@)),
                ) && txs@[j].wf(),
            forall|j: int|
                0 <= j < i ==> (#[trigger] essences@[2 * j])@ == txs@[j]@.subrange(6561, 6804)
                    && essences@[2 * j + 1]@ == txs@[j]@.subrange(6804, 7047),
    {
        let payload = zero_trits(6561);
        proof {
            assert(payload@ =~= zero_seq(6561));
        }
        let tx = attach_entry(&prepared_bundle.entries[i], payload, &bundle_hash);
        let head = tx.trits_range(6561, 6804);
        let tail = tx.trits_range(6804, 7047);
        essences.push(head);
        essences.push(tail);
        txs.push(tx);
    }
    let worker_count = worker_count_from(available_parallelism());
    let num_13_free = num_13_free_fragments(security_level, ledger);
    let config = MiningConfig {
        essences,
        known_bundle_hashes,
        security_level,
        num_13_free_fragments: num_13_free,
        worker_count,
        timeout,
        offset,
    };
    Ok((config, txs))
}

} // verus!
