//! Patching a mined essence part back into a signed bundle, and the
//! tryte-string serialization of built bundles.

use vstd::prelude::*;

use crate::bundle::{entry_essence, entry_wf, BundleEntry, UnsignedBundle};
use crate::crypto::{chars_to_string, kerl_hash_of};
use crate::errors::Error;
use crate::sign::{attach_entry, attached_raw, essences_concat, seal_bundle};
use crate::ternary::{copy_trits_range, is_trit, trits_to_trytes, valid_trits, zero_trits};
use crate::transaction::BundledTransaction;

verus! {

/// Rebuild an unsigned bundle from signed transactions, overwriting
/// exactly the fixed 243-trit mined span (value through last index) of the
/// last transaction with the mined essence part. Every other transaction
/// and every other preserved field keeps its trits; bundle, trunk, branch
/// hashes, attachment timestamps and nonce are dropped, to be re-attached
/// as placeholders downstream.
pub fn update_essence_with_mined_essence(
    prepared_txs: Vec<BundledTransaction>,
    latest_tx_essence_part: Vec<i8>,
) -> (r: Result<UnsignedBundle, Error>)
    requires
        prepared_txs@.len() > 0,
        forall|i: int| 0 <= i < prepared_txs@.len() ==> (#[trigger] prepared_txs@[i]).wf(),
        latest_tx_essence_part@.len() == 243,
        valid_trits(latest_tx_essence_part@),
    ensures
        r is Ok,
        r matches Ok(b) ==> {
            let n = prepared_txs@.len() as int;
            &&& b.wf()
            &&& b.entries@.len() == n
            &&& forall|i: int|
                0 <= i < n ==> #[trigger] b.entries@[i].address@ == prepared_txs@[i]@.subrange(
                    6561,
                    6804,
                )
            &&& forall|i: int|
                0 <= i < n ==> #[trigger] b.entries@[i].tag@ == prepared_txs@[i]@.subrange(
                    7776,
                    7857,
                )
            &&& forall|i: int|
                0 <= i < n - 1 ==> #[trigger] entry_essence(b.entries@[i]) == prepared_txs@[i].essence()
            &&& entry_essence(b.entries@[n - 1]) == prepared_txs@[n - 1]@.subrange(6561, 6804)
                + latest_tx_essence_part@
        },
{
    let n = prepared_txs.len();
    let mut entries: Vec<BundleEntry> = Vec::new();
    for i in 0..n
        invariant
            n == prepared_txs@.len(),
            n > 0,
            forall|j: int| 0 <= j < n ==> (#[trigger] prepared_txs@[j]).wf(),
            latest_tx_essence_part@.len() == 243,
            valid_trits(latest_tx_essence_part@),
            entries@.len() == i,
            forall|j: int| 0 <= j < i ==> entry_wf(#[trigger] entries@[j]),
            forall|j: int|
                0 <= j < i ==> #[trigger] entries@[j].address@ == prepared_txs@[j]@.subrange(
                    6561,
                    6804,
                ),
            forall|j: int|
                0 <= j < i ==> #[trigger] entries@[j].tag@ == prepared_txs@[j]@.subrange(
                    7776,
                    7857,
                ),
            forall|j: int|
                0 <= j < i && j < n - 1 ==> #[trigger] entry_essence(entries@[j])
                    == prepared_txs@[j].essence(),
            forall|j: int|
                0 <= j < i && j == n - 1 ==> #[trigger] entry_essence(entries@[j])
                    == prepared_txs@[j]@.subrange(6561, 6804) + latest_tx_essence_part@,
    {
        let tx = &prepared_txs[i];
        let address = tx.trits_range(6561, 6804);
        let tag = tx.trits_range(7776, 7857);
        let entry: BundleEntry;
        if i == n - 1 {
            entry = BundleEntry {
                address,
                value_trits: copy_trits_range(&latest_tx_essence_part, 0, 81),
                obsolete_tag: copy_trits_range(&latest_tx_essence_part, 81, 162),
                timestamp: copy_trits_range(&latest_tx_essence_part, 162, 189),
                index: copy_trits_range(&latest_tx_essence_part, 189, 216),
                last_index: copy_trits_range(&latest_tx_essence_part, 216, 243),
                tag,
            };
            proof {
                assert forall|t: int| 0 <= t < entry.value_trits@.len() implies is_trit(
                    entry.value_trits@[t],
                ) by {
                    assert(entry.value_trits@[t] == latest_tx_essence_part@[t]);
                }
                assert forall|t: int| 0 <= t < entry.obsolete_tag@.len() implies is_trit(
                    entry.obsolete_tag@[t],
                ) by {
                    assert(entry.obsolete_tag@[t] == latest_tx_essence_part@[81 + t]);
                }
                assert forall|t: int| 0 <= t < entry.timestamp@.len() implies is_trit(
                    entry.timestamp@[t],
                ) by {
                    assert(entry.timestamp@[t] == latest_tx_essence_part@[162 + t]);
                }
                assert forall|t: int| 0 <= t < entry.index@.len() implies is_trit(
                    entry.index@[t],
                ) by {
                    assert(entry.index@[t] == latest_tx_essence_part@[189 + t]);
                }
                assert forall|t: int| 0 <= t < entry.last_index@.len() implies is_trit(
                    entry.last_index@[t],
                ) by {
                    assert(entry.last_index@[t] == latest_tx_essence_part@[216 + t]);
                }
                assert forall|t: int| 0 <= t < entry.address@.len() implies is_trit(
                    entry.address@[t],
                ) by {
                    assert(entry.address@[t] == prepared_txs@[i as int]@[6561 + t]);
                }
                assert forall|t: int| 0 <= t < entry.tag@.len() implies is_trit(entry.tag@[t]) by {
                    assert(entry.tag@[t] == prepared_txs@[i as int]@[7776 + t]);
                }
                assert(entry_essence(entry) =~= prepared_txs@[i as int]@.subrange(6561, 6804)
                    + latest_tx_essence_part@);
            }
        } else {
            entry = BundleEntry {
                address,
                value_trits: tx.trits_range(6804, 6885),
                obsolete_tag: tx.trits_range(6885, 6966),
                timestamp: tx.trits_range(6966, 6993),
                index: tx.trits_range(6993, 7020),
                last_index: tx.trits_range(7020, 7047),
                tag,
            };
            proof {
                let raw = prepared_txs@[i as int]@;
                assert forall|t: int| 0 <= t < entry.address@.len() implies is_trit(
                    entry.address@[t],
                ) by {
                    assert(entry.address@[t] == raw[6561 + t]);
                }
                assert forall|t: int| 0 <= t < entry.value_trits@.len() implies is_trit(
                    entry.value_trits@[t],
                ) by {
                    assert(entry.value_trits@[t] == raw[6804 + t]);
                }
                assert forall|t: int| 0 <= t < entry.obsolete_tag@.len() implies is_trit(
                    entry.obsolete_tag@[t],
                ) by {
                    assert(entry.obsolete_tag@[t] == raw[6885 + t]);
                }
                assert forall|t: int| 0 <= t < entry.timestamp@.len() implies is_trit(
                    entry.timestamp@[t],
                ) by {
                    assert(entry.timestamp@[t] == raw[6966 + t]);
                }
                assert forall|t: int| 0 <= t < entry.index@.len() implies is_trit(
                    entry.index@[t],
                ) by {
                    assert(entry.index@[t] == raw[6993 + t]);
                }
                assert forall|t: int| 0 <= t < entry.last_index@.len() implies is_trit(
                    entry.last_index@[t],
                ) by {
                    assert(entry.last_index@[t] == raw[7020 + t]);
                }
                assert forall|t: int| 0 <= t < entry.tag@.len() implies is_trit(entry.tag@[t]) by {
                    assert(entry.tag@[t] == raw[7776 + t]);
                }
                assert(entry_essence(entry) =~= prepared_txs@[i as int].essence());
            }
        }
        entries.push(entry);
    }
    Ok(UnsignedBundle { entries })
}

/// Serialize every transaction of a decoy-built bundle to its tryte
/// string: seal with the Kerl bundle hash, attach placeholder zeros, and
/// encode the fixed-width raw form.
pub fn get_trytes_from_bundle(created_migration_bundle: &UnsignedBundle) -> (r: Vec<String>)
    requires
        created_migration_bundle.wf(),
        created_migration_bundle.entries@.len() <= 0x10000000,
    ensures
        r@.len() == created_migration_bundle.entries@.len(),
        forall|i: int|
            0 <= i < r@.len() ==> (#[trigger] r@[i])@ == trits_to_trytes(
                attached_raw(
                    created_migration_bundle.entries@[i],
                    crate::bundle::zero_seq(6561),
                    kerl_hash_of(essences_concat(created_migration_bundle.entries@)),
                ),
            ),
{
    let bundle_hash = seal_bundle(created_migration_bundle);
    let n = created_migration_bundle.entries.len();
    let mut out: Vec<String> = Vec::new();
    for i in 0..n
        invariant
            n == created_migration_bundle.entries@.len(),
            created_migration_bundle.wf(),
            bundle_hash@ == kerl_hash_of(essences_concat(created_migration_bundle.entries@)),
            bundle_hash@.len() == 243,
            valid_trits(bundle_hash@),
            out@.len() == i,
            forall|j: int|
                0 <= j < i ==> (#[trigger] out@[j])@ == trits_to_trytes(
                    attached_raw(
                        created_migration_bundle.entries@[j],
                        crate::bundle::zero_seq(6561),
                        kerl_hash_of(essences_concat(created_migration_bundle.entries@)),
                    ),
                ),
    {
        let payload = zero_trits(6561);
        proof {
            assert(payload@ =~= crate::bundle::zero_seq(6561));
        }
        let tx = attach_entry(&created_migration_bundle.entries[i], payload, &bundle_hash);
        let chars = tx.to_tryte_chars();
        let s = chars_to_string(&chars);
        out.push(s);
    }
    out
}

/// Split every transaction's essence in two fixed parts: the address
/// (first 243 trits) and the value, obsolete tag, current index, last
/// index and timestamp span (remaining 243 trits), each as a tryte string.
pub fn get_bundle_essence_parts(txs: &Vec<BundledTransaction>) -> (r: Vec<String>)
    requires
        forall|i: int| 0 <= i < txs@.len() ==> (#[trigger] txs@[i]).wf(),
        txs@.len() <= 0x10000000,
    ensures
        r@.len() == 2 * txs@.len(),
        forall|i: int| #![trigger txs@[i]]
            0 <= i < txs@.len() ==> r@[2 * i]@ == trits_to_trytes(
                txs@[i]@.subrange(6561, 6804),
            ) && r@[2 * i + 1]@ == trits_to_trytes(txs@[i]@.subrange(6804, 7047)),
{
    let n = txs.len();
    let mut out: Vec<String> = Vec::new();
    for i in 0..n
        invariant
            n == txs@.len(),
            forall|j: int| 0 <= j < n ==> (#[trigger] txs@[j]).wf(),
            out@.len() == 2 * i,
            forall|j: int| #![trigger txs@[j]]
                0 <= j < i ==> out@[2 * j]@ == trits_to_trytes(
                    txs@[j]@.subrange(6561, 6804),
                ) && out@[2 * j + 1]@ == trits_to_trytes(txs@[j]@.subrange(6804, 7047)),
    {
        let head = txs[i].trits_range(6561, 6804);
        let tail = txs[i].trits_range(6804, 7047);
        proof {
            let raw = txs@[i as int]@;
            assert forall|t: int| 0 <= t < head@.len() implies is_trit(head@[t]) by {
                assert(head@[t] == raw[6561 + t]);
            }
            assert forall|t: int| 0 <= t < tail@.len() implies is_trit(tail@[t]) by {
                assert(tail@[t] == raw[6804 + t]);
            }
        }
        let head_chars = crate::ternary::trits_to_tryte_chars(&head);
        let tail_chars = crate::ternary::trits_to_tryte_chars(&tail);
        out.push(chars_to_string(&head_chars));
        out.push(chars_to_string(&tail_chars));
        proof {
            assert(out@[2 * (i as int)]@ == trits_to_trytes(
                txs@[i as int]@.subrange(6561, 6804),
            ));
            assert(out@[2 * (i as int) + 1]@ == trits_to_trytes(
                txs@[i as int]@.subrange(6804, 7047),
            ));
        }
    }
    out
}

} // verus!
