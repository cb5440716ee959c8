//! Sealing, one-time-signature signing, placeholder attachment and final
//! assembly of a migration bundle, with the post-signing address-set
//! validation.

use vstd::prelude::*;

use crate::bundle::{
    as_inputs, dedup_inputs, dedup_spending_inputs, entry_essence, entry_wf, input_data_wf,
    uniform_security, zero_seq, BundleEntry, Input, InputData, UnsignedBundle,
};
use crate::crypto::{kerl_hash, kerl_hash_of, wots_sign, wots_signature_of};
use crate::errors::{Error, MigrationRule};
use crate::ternary::{is_trit, push_trits, valid_trits, zero_trits};
use crate::transaction::BundledTransaction;

verus! {

/// A seed of the legacy one-time-signature scheme: 243 trits.
#[derive(Debug)]
pub struct TernarySeed {
    /// The seed material.
    pub trits: Vec<i8>,
}

/// Well-formed seed: fixed width, valid trits.
pub open spec fn seed_wf(s: TernarySeed) -> bool {
    s.trits@.len() == 243 && valid_trits(s.trits@)
}

/// The concatenation of the essences of a bundle's entries, in order.
pub open spec fn essences_concat(entries: Seq<BundleEntry>) -> Seq<i8>
    decreases entries.len(),
{
    if entries.len() == 0 {
        Seq::empty()
    } else {
        essences_concat(entries.drop_last()) + entry_essence(entries.last())
    }
}

/// The raw form of one built transaction: signature payload, essence,
/// bundle hash, and placeholder zeros for trunk, branch, attachment
/// timestamps and nonce; the tag is kept.
pub open spec fn attached_raw(e: BundleEntry, payload: Seq<i8>, bundle_hash: Seq<i8>) -> Seq<i8> {
    payload + entry_essence(e) + bundle_hash + zero_seq(243) + zero_seq(243) + e.tag@ + zero_seq(27)
        + zero_seq(27) + zero_seq(27) + zero_seq(81)
}

/// The signature payload of the transaction at position `k` of a shaped
/// bundle: zeros for the head transaction, else the matching fragment of
/// the input's one-time signature over the bundle hash.
pub open spec fn entry_payload(
    k: int,
    dedup: Seq<Input>,
    security: int,
    seed: Seq<i8>,
    bundle_hash: Seq<i8>,
) -> Seq<i8> {
    if k == 0 {
        zero_seq(6561)
    } else {
        let j = (k - 1) / security;
        let f = (k - 1) % security;
        wots_signature_of(seed, dedup[j].index as int, security, bundle_hash).subrange(
            f * 6561,
            (f + 1) * 6561,
        )
    }
}

/// Concatenate the essences of the bundle's entries.
fn concat_essences(entries: &Vec<BundleEntry>) -> (r: Vec<i8>)
    requires
        forall|i: int| 0 <= i < entries@.len() ==> entry_wf(#[trigger] entries@[i]),
        entries@.len() <= 0x10000000,
    ensures
        r@ == essences_concat(entries@),
        r@.len() == 486 * entries@.len(),
        valid_trits(r@),
{
    let mut out: Vec<i8> = Vec::new();
    let n = entries.len();
    proof {
        assert(entries@.subrange(0, 0) =~= Seq::<BundleEntry>::empty());
    }
    for i in 0..n
        invariant
            n == entries@.len(),
            n <= 0x10000000,
            forall|j: int| 0 <= j < entries@.len() ==> entry_wf(#[trigger] entries@[j]),
            out@ == essences_concat(entries@.subrange(0, i as int)),
            out@.len() == 486 * i,
            valid_trits(out@),
    {
        let e = &entries[i];
        push_trits(&mut out, &e.address);
        push_trits(&mut out, &e.value_trits);
        push_trits(&mut out, &e.obsolete_tag);
        push_trits(&mut out, &e.timestamp);
        push_trits(&mut out, &e.index);
        push_trits(&mut out, &e.last_index);
        proof {
            assert(entries@.subrange(0, i + 1).drop_last() =~= entries@.subrange(0, i as int));
            assert(entries@.subrange(0, i + 1).last() == entries@[i as int]);
            assert(out@ =~= essences_concat(entries@.subrange(0, i as int)) + entry_essence(
                entries@[i as int],
            ));
        }
    }
    proof {
        assert(entries@.subrange(0, n as int) =~= entries@);
    }
    out
}

/// Seal the bundle: compute its Kerl bundle hash over the concatenated
/// essences.
pub fn seal_bundle(bundle: &UnsignedBundle) -> (h: Vec<i8>)
    requires
        bundle.wf(),
        bundle.entries@.len() <= 0x10000000,
    ensures
        h@ == kerl_hash_of(essences_concat(bundle.entries@)),
        h@.len() == 243,
        valid_trits(h@),
{
    let essences = concat_essences(&bundle.entries);
    proof {
        let n = bundle.entries@.len() as int;
        assert(486 * n == 243 * (2 * n)) by (nonlinear_arith);
        assert((243 * (2 * n)) % 243 == 0) by (nonlinear_arith);
    }
    kerl_hash(&essences)
}

/// Assemble one attached transaction from an entry, its signature payload
/// and the bundle hash.
pub fn attach_entry(e: &BundleEntry, payload: Vec<i8>, bundle_hash: &Vec<i8>) -> (tx:
    BundledTransaction)
    requires
        entry_wf(*e),
        payload@.len() == 6561,
        valid_trits(payload@),
        bundle_hash@.len() == 243,
        valid_trits(bundle_hash@),
    ensures
        tx@ == attached_raw(*e, payload@, bundle_hash@),
        tx.wf(),
{
    let mut raw = payload;
    push_trits(&mut raw, &e.address);
    push_trits(&mut raw, &e.value_trits);
    push_trits(&mut raw, &e.obsolete_tag);
    push_trits(&mut raw, &e.timestamp);
    push_trits(&mut raw, &e.index);
    push_trits(&mut raw, &e.last_index);
    push_trits(&mut raw, bundle_hash);
    let z243 = zero_trits(243);
    push_trits(&mut raw, &z243);
    push_trits(&mut raw, &z243);
    push_trits(&mut raw, &e.tag);
    let z27 = zero_trits(27);
    push_trits(&mut raw, &z27);
    push_trits(&mut raw, &z27);
    push_trits(&mut raw, &z27);
    let z81 = zero_trits(81);
    push_trits(&mut raw, &z81);
    proof {
        assert(z243@ =~= zero_seq(243));
        assert(z27@ =~= zero_seq(27));
        assert(z81@ =~= zero_seq(81));
        assert(raw@ =~= attached_raw(*e, payload@, bundle_hash@));
    }
    BundledTransaction { raw }
}

/// The addresses referenced by a list of transactions, in order.
pub open spec fn addr_seq(txs: Seq<BundledTransaction>) -> Seq<Seq<i8>> {
    txs.map_values(|t: BundledTransaction| t.address())
}

/// Whether the sequence holds the address `x`.
pub open spec fn seq_contains_addr(s: Seq<Seq<i8>>, x: Seq<i8>) -> bool {
    exists|i: int| 0 <= i < s.len() && s[i] == x
}

/// The first occurrence of each address, in order of first appearance.
pub open spec fn dedup_addrs(s: Seq<Seq<i8>>) -> Seq<Seq<i8>>
    decreases s.len(),
{
    if s.len() == 0 {
        Seq::empty()
    } else {
        let d = dedup_addrs(s.drop_last());
        if seq_contains_addr(d, s.last()) {
            d
        } else {
            d.push(s.last())
        }
    }
}

/// Whether the address list holds `x`.
fn contains_addr(s: &Vec<Vec<i8>>, x: &Vec<i8>) -> (r: bool)
    ensures
        r == seq_contains_addr(s@.map_values(|v: Vec<i8>| v@), x@),
{
    let n = s.len();
    for i in 0..n
        invariant
            n == s@.len(),
            forall|j: int| 0 <= j < i ==> (#[trigger] s@[j])@ != x@,
    {
        if crate::bundle::trits_equal(&s[i], x) {
            proof {
                assert(s@.map_values(|v: Vec<i8>| v@)[i as int] == x@);
            }
            return true;
        }
    }
    false
}

/// The distinct addresses of a transaction list, in order of first
/// appearance.
fn distinct_bundle_addresses(txs: &Vec<BundledTransaction>) -> (r: Vec<Vec<i8>>)
    requires
        forall|i: int| 0 <= i < txs@.len() ==> (#[trigger] txs@[i]).wf(),
    ensures
        r@.map_values(|v: Vec<i8>| v@) == dedup_addrs(addr_seq(txs@)),
{
    let mut out: Vec<Vec<i8>> = Vec::new();
    let n = txs.len();
    proof {
        assert(addr_seq(txs@.subrange(0, 0)) =~= Seq::<Seq<i8>>::empty());
        assert(out@.map_values(|v: Vec<i8>| v@) =~= dedup_addrs(addr_seq(txs@.subrange(0, 0))));
    }
    for i in 0..n
        invariant
            n == txs@.len(),
            forall|j: int| 0 <= j < txs@.len() ==> (#[trigger] txs@[j]).wf(),
            out@.map_values(|v: Vec<i8>| v@) == dedup_addrs(addr_seq(txs@.subrange(0, i as int))),
    {
        let a = txs[i].trits_range(6561, 6804);
        proof {
            assert(a@ == txs@[i as int].address());
        }
        let keep = !contains_addr(&out, &a);
        proof {
            let prefix = addr_seq(txs@.subrange(0, i as int));
            let full = addr_seq(txs@.subrange(0, i + 1));
            assert(full.drop_last() =~= prefix);
            assert(full.last() == txs@[i as int].address());
        }
        if keep {
            out.push(a);
            proof {
                assert(out@.map_values(|v: Vec<i8>| v@) =~= dedup_addrs(
                    addr_seq(txs@.subrange(0, i + 1)),
                ));
            }
        } else {
            proof {
                assert(out@.map_values(|v: Vec<i8>| v@) =~= dedup_addrs(
                    addr_seq(txs@.subrange(0, i + 1)),
                ));
            }
        }
    }
    proof {
        assert(txs@.subrange(0, n as int) =~= txs@);
    }
    out
}

/// The post-signing address-set rule: the built transactions reference
/// exactly one more distinct address than the input list, and every input
/// address appears.
pub open spec fn address_set_ok(txs: Seq<BundledTransaction>, input_addrs: Seq<Seq<i8>>) -> bool {
    dedup_addrs(addr_seq(txs)).len() == input_addrs.len() + 1 && (forall|i: int|
        0 <= i < input_addrs.len() ==> seq_contains_addr(
            dedup_addrs(addr_seq(txs)),
            #[trigger] input_addrs[i],
        ))
}

/// Check the post-signing address-set rule; the result tells exactly which
/// rule failed.
pub fn validate_bundle_addresses(txs: &Vec<BundledTransaction>, input_addresses: &Vec<Vec<i8>>) -> (r:
    Result<(), Error>)
    requires
        forall|i: int| 0 <= i < txs@.len() ==> (#[trigger] txs@[i]).wf(),
    ensures
        r is Ok <==> address_set_ok(txs@, input_addresses@.map_values(|v: Vec<i8>| v@)),
        (r == Err::<(), Error>(Error::MigrationError(MigrationRule::AddressCountMismatch))) <==> (
        dedup_addrs(addr_seq(txs@)).len() != input_addresses@.len() + 1),
        (r == Err::<(), Error>(Error::MigrationError(MigrationRule::MissingInputAddress))) <==> (
        dedup_addrs(addr_seq(txs@)).len() == input_addresses@.len() + 1 && !(forall|i: int|
            0 <= i < input_addresses@.len() ==> seq_contains_addr(
                dedup_addrs(addr_seq(txs@)),
                (#[trigger] input_addresses@[i])@,
            ))),
{
    let bundle_addresses = distinct_bundle_addresses(txs);
    if bundle_addresses.len() == 0 || input_addresses.len() != bundle_addresses.len() - 1 {
        return Err(Error::MigrationError(MigrationRule::AddressCountMismatch));
    }
    let n = input_addresses.len();
    for i in 0..n
        invariant
            n == input_addresses@.len(),
            bundle_addresses@.map_values(|v: Vec<i8>| v@) == dedup_addrs(addr_seq(txs@)),
            dedup_addrs(addr_seq(txs@)).len() == n + 1,
            forall|j: int|
                0 <= j < i ==> seq_contains_addr(
                    dedup_addrs(addr_seq(txs@)),
                    (#[trigger] input_addresses@[j])@,
                ),
    {
        if !contains_addr(&bundle_addresses, &input_addresses[i]) {
            proof {
                assert(input_addresses@.map_values(|v: Vec<i8>| v@)[i as int] == input_addresses@[i
                    as int]@);
            }
            return Err(Error::MigrationError(MigrationRule::MissingInputAddress));
        }
    }
    Ok(())
}

/// The address field of a built transaction is the entry's address.
pub proof fn lemma_attached_raw_address(e: BundleEntry, payload: Seq<i8>, hash: Seq<i8>)
    requires
        entry_wf(e),
        payload.len() == 6561,
        hash.len() == 243,
    ensures
        attached_raw(e, payload, hash).subrange(6561, 6804) =~= e.address@,
{
    let raw = attached_raw(e, payload, hash);
    assert(entry_essence(e).len() == 486);
    assert forall|t: int| 0 <= t < 243 implies raw[6561 + t] == e.address@[t] by {
        assert((payload + entry_essence(e))[6561 + t] == entry_essence(e)[t]);
        assert(entry_essence(e)[t] == e.address@[t]);
    }
}

/// The addresses of a bundle's entries, in order.
pub open spec fn entries_addr_seq(entries: Seq<BundleEntry>) -> Seq<Seq<i8>> {
    entries.map_values(|e: BundleEntry| e.address@)
}

/// The address-set rule as it applies to a shaped bundle before building:
/// the entries reference one more distinct address than the deduplicated
/// inputs, and every input address appears.
pub open spec fn sign_address_check(entries: Seq<BundleEntry>, dedup: Seq<Input>) -> bool {
    dedup_addrs(entries_addr_seq(entries)).len() == dedup.len() + 1 && (forall|i: int|
        0 <= i < dedup.len() ==> seq_contains_addr(
            dedup_addrs(entries_addr_seq(entries)),
            (#[trigger] dedup[i]).address@,
        ))
}

/// The distinct addresses of a prefix of a shaped address list: the target
/// first, then the input addresses whose block the prefix has reached.
proof fn lemma_shaped_dedup_prefix(
    addr_list: Seq<Seq<i8>>,
    target: Seq<i8>,
    addrs: Seq<Seq<i8>>,
    security: int,
    prefix: int,
)
    requires
        security >= 1,
        1 <= prefix <= addr_list.len(),
        addr_list.len() == 1 + security * addrs.len(),
        addr_list[0] == target,
        forall|t: int|
            1 <= t < addr_list.len() ==> #[trigger] addr_list[t] == addrs[(t - 1) / security],
        forall|a: int, b: int| 0 <= a < b < addrs.len() ==> addrs[a] != addrs[b],
        forall|a: int| 0 <= a < addrs.len() ==> #[trigger] addrs[a] != target,
    ensures
        dedup_addrs(addr_list.subrange(0, prefix)) =~= seq![target] + addrs.subrange(
            0,
            (prefix - 1 + security - 1) / security,
        ),
    decreases prefix,
{
    let b = (prefix - 1 + security - 1) / security;
    if prefix == 1 {
        vstd::arithmetic::div_mod::lemma_fundamental_div_mod_converse(
            security - 1,
            security,
            0,
            security - 1,
        );
        let sub = addr_list.subrange(0, 1);
        assert(sub.len() == 1);
        assert(sub.last() == target);
        assert(sub.drop_last().len() == 0);
        assert(dedup_addrs(sub.drop_last()) == Seq::<Seq<i8>>::empty());
        assert(!seq_contains_addr(Seq::<Seq<i8>>::empty(), target));
        assert(dedup_addrs(sub) == Seq::<Seq<i8>>::empty().push(target));
        assert(dedup_addrs(sub) =~= seq![target]);
        assert(addrs.subrange(0, 0) =~= Seq::<Seq<i8>>::empty());
    } else {
        lemma_shaped_dedup_prefix(addr_list, target, addrs, security, prefix - 1);
        let t = prefix - 1;
        let j = (t - 1) / security;
        let f = (t - 1) % security;
        vstd::arithmetic::div_mod::lemma_fundamental_div_mod(t - 1, security);
        assert(t - 1 == security * j + f);
        assert(0 <= f < security);
        let prev = dedup_addrs(addr_list.subrange(0, prefix - 1));
        let bp = (prefix - 2 + security - 1) / security;
        assert(addr_list.subrange(0, prefix).drop_last() =~= addr_list.subrange(0, prefix - 1));
        assert(addr_list.subrange(0, prefix).last() == addr_list[t]);
        assert(addr_list[t] == addrs[j]);
        assert(0 <= j < addrs.len()) by {
            assert(t < 1 + security * addrs.len());
            assert(security * j <= t - 1) by (nonlinear_arith)
                requires
                    t - 1 == security * j + f,
                    f >= 0,
            ;
            if j >= addrs.len() {
                assert(security * j >= security * addrs.len()) by (nonlinear_arith)
                    requires
                        j >= addrs.len(),
                        security >= 1,
                ;
            }
        }
        assert(prefix - 1 + security - 1 == (j + 1) * security + f) by (nonlinear_arith)
            requires
                t - 1 == security * j + f,
                t == prefix - 1,
        ;
        vstd::arithmetic::div_mod::lemma_fundamental_div_mod_converse(
            prefix - 1 + security - 1,
            security,
            j + 1,
            f,
        );
        assert(b == j + 1);
        if f == 0 {
            assert(prefix - 2 + security - 1 == j * security + (security - 1)) by (nonlinear_arith)
                requires
                    t - 1 == security * j + f,
                    t == prefix - 1,
                    f == 0,
            ;
            vstd::arithmetic::div_mod::lemma_fundamental_div_mod_converse(
                prefix - 2 + security - 1,
                security,
                j,
                security - 1,
            );
            assert(bp == j);
            assert(!seq_contains_addr(prev, addrs[j])) by {
                if seq_contains_addr(prev, addrs[j]) {
                    let w = choose|w: int| 0 <= w < prev.len() && prev[w] == addrs[j];
                    assert(prev[w] == (seq![target] + addrs.subrange(0, bp))[w]);
                }
            }
            assert(dedup_addrs(addr_list.subrange(0, prefix)) =~= prev.push(addrs[j]));
            assert(prev.push(addrs[j]) =~= seq![target] + addrs.subrange(0, j + 1));
        } else {
            assert(prefix - 2 + security - 1 == (j + 1) * security + (f - 1)) by (nonlinear_arith)
                requires
                    t - 1 == security * j + f,
                    t == prefix - 1,
                    f >= 1,
            ;
            vstd::arithmetic::div_mod::lemma_fundamental_div_mod_converse(
                prefix - 2 + security - 1,
                security,
                j + 1,
                f - 1,
            );
            assert(bp == j + 1);
            assert(seq_contains_addr(prev, addrs[j])) by {
                assert(prev[j + 1] == (seq![target] + addrs.subrange(0, bp))[j + 1]);
                assert(prev[j + 1] == addrs[j]);
            }
            assert(dedup_addrs(addr_list.subrange(0, prefix)) =~= prev);
        }
    }
}

/// A bundle shaped from deduplicated inputs with pairwise-distinct
/// addresses, none equal to the migration target, passes the address-set
/// rule: it references exactly one more distinct address than the inputs,
/// and every input address appears.
pub proof fn lemma_signed_bundle_address_count(
    entries: Seq<BundleEntry>,
    target: Seq<i8>,
    dedup: Seq<Input>,
    security: int,
)
    requires
        security >= 1,
        entries.len() == 1 + security * dedup.len(),
        entries[0].address@ == target,
        forall|k: int|
            1 <= k < entries.len() ==> #[trigger] entries[k].address@ == dedup[(k - 1)
                / security].address@,
        forall|a: int, b: int| 0 <= a < b < dedup.len() ==> dedup[a].address@ != dedup[b].address@,
        forall|a: int| 0 <= a < dedup.len() ==> (#[trigger] dedup[a]).address@ != target,
    ensures
        dedup_addrs(entries_addr_seq(entries)).len() == dedup.len() + 1,
        sign_address_check(entries, dedup),
{
    let addr_list = entries_addr_seq(entries);
    let addrs = dedup.map_values(|i: Input| i.address@);
    assert forall|t: int| 1 <= t < addr_list.len() implies #[trigger] addr_list[t] == addrs[(t - 1)
        / security] by {
        let j = (t - 1) / security;
        vstd::arithmetic::div_mod::lemma_fundamental_div_mod(t - 1, security);
        let f = (t - 1) % security;
        assert(security * j <= t - 1) by (nonlinear_arith)
            requires
                t - 1 == security * j + f,
                f >= 0,
        ;
        if j >= dedup.len() {
            assert(security * j >= security * dedup.len()) by (nonlinear_arith)
                requires
                    j >= dedup.len(),
                    security >= 1,
            ;
        }
        assert(0 <= j < dedup.len());
        assert(addr_list[t] == entries[t].address@);
        assert(addrs[j] == dedup[j].address@);
    }
    lemma_shaped_dedup_prefix(addr_list, target, addrs, security, addr_list.len() as int);
    assert(addr_list.len() - 1 + security - 1 == (dedup.len() as int) * security + (security - 1))
        by (nonlinear_arith)
        requires
            addr_list.len() == 1 + security * dedup.len(),
    ;
    vstd::arithmetic::div_mod::lemma_fundamental_div_mod_converse(
        addr_list.len() - 1 + security - 1,
        security,
        dedup.len() as int,
        security - 1,
    );
    assert(addr_list.subrange(0, addr_list.len() as int) =~= addr_list);
    assert(addrs.subrange(0, addrs.len() as int) =~= addrs);
    let d = dedup_addrs(addr_list);
    assert(d =~= seq![target] + addrs);
    assert forall|i: int| 0 <= i < dedup.len() implies seq_contains_addr(
        d,
        (#[trigger] dedup[i]).address@,
    ) by {
        assert(d[i + 1] == dedup[i].address@);
    }
}

/// Sign a prepared migration bundle: re-validate the input batch, seal the
/// bundle, write each input's one-time-signature fragments over the bundle
/// hash, attach placeholder zero hashes, check the address set, and hand
/// the built transactions back in reverse order for proof-of-work
/// attachment.
pub fn sign_migration_bundle(
    tryte_seed: &TernarySeed,
    prepared_bundle: &UnsignedBundle,
    inputs: Vec<InputData>,
) -> (r: Result<Vec<BundledTransaction>, Error>)
    requires
        seed_wf(*tryte_seed),
        prepared_bundle.wf(),
        prepared_bundle.entries@.len() <= 0x10000000,
        forall|i: int| 0 <= i < inputs@.len() ==> input_data_wf(#[trigger] inputs@[i]),
        forall|i: int| 0 <= i < inputs@.len() ==> 1 <= #[trigger] inputs@[i].security_lvl <= 3,
        inputs@.len() > 0 && uniform_security(inputs@) ==> prepared_bundle.entries@.len() == 1 + (
        inputs@[0].security_lvl as int) * dedup_inputs(as_inputs(inputs@)).len(),
    ensures
        (r == Err::<Vec<BundledTransaction>, Error>(
            Error::MigrationError(MigrationRule::EmptyInputs),
        )) <==> inputs@.len() == 0,
        (r == Err::<Vec<BundledTransaction>, Error>(
            Error::MigrationError(MigrationRule::MixedSecurityLevels),
        )) <==> (inputs@.len() > 0 && !uniform_security(inputs@)),
        inputs@.len() > 0 && uniform_security(inputs@) ==> (r is Ok <==> sign_address_check(
            prepared_bundle.entries@,
            dedup_inputs(as_inputs(inputs@)),
        )),
        r matches Ok(out) ==> out@.len() == prepared_bundle.entries@.len() && (forall|i: int|
            0 <= i < out@.len() ==> (#[trigger] out@[i])@ == attached_raw(
                prepared_bundle.entries@[out@.len() - 1 - i],
                entry_payload(
                    out@.len() - 1 - i,
                    dedup_inputs(as_inputs(inputs@)),
                    inputs@[0].security_lvl as int,
                    tryte_seed.trits@,
                    kerl_hash_of(essences_concat(prepared_bundle.entries@)),
                ),
                kerl_hash_of(essences_concat(prepared_bundle.entries@)),
            ) && out@[i].wf()),
        (r is Err && inputs@.len() > 0 && uniform_security(inputs@)) ==> (r == Err::<
            Vec<BundledTransaction>,
            Error,
        >(Error::MigrationError(MigrationRule::AddressCountMismatch)) || r == Err::<
            Vec<BundledTransaction>,
            Error,
        >(Error::MigrationError(MigrationRule::MissingInputAddress))),
{
    if inputs.len() == 0 {
        return Err(Error::MigrationError(MigrationRule::EmptyInputs));
    }
    let security = inputs[0].security_lvl;
    let n_in = inputs.len();
    for i in 0..n_in
        invariant
            n_in == inputs@.len(),
            n_in > 0,
            security == inputs@[0].security_lvl,
            forall|j: int| 0 <= j < i ==> #[trigger] inputs@[j].security_lvl == security,
    {
        if inputs[i].security_lvl != security {
            return Err(Error::MigrationError(MigrationRule::MixedSecurityLevels));
        }
    }
    let ghost dedup = dedup_inputs(as_inputs(inputs@));
    let ghost seed_view = tryte_seed.trits@;
    let ghost entries_view = prepared_bundle.entries@;
    let address_inputs = dedup_spending_inputs(inputs);
    let bundle_hash = seal_bundle(prepared_bundle);
    let ghost hash = kerl_hash_of(essences_concat(entries_view));
    let n = prepared_bundle.entries.len();
    let m = address_inputs.len();
    let sec_us: usize = security as usize;
    let mut txs: Vec<BundledTransaction> = Vec::new();
    let first_payload = zero_trits(6561);
    proof {
        assert(first_payload@ =~= zero_seq(6561));
    }
    let first_tx = attach_entry(&prepared_bundle.entries[0], first_payload, &bundle_hash);
    txs.push(first_tx);
    proof {
        assert((sec_us as int) * 0 == 0) by (nonlinear_arith);
    }
    for j in 0..m
        invariant
            m == address_inputs@.len(),
            address_inputs@ == dedup,
            1 <= sec_us <= 3,
            sec_us == security,
            entries_view == prepared_bundle.entries@,
            prepared_bundle.wf(),
            n == entries_view.len(),
            n == 1 + sec_us * m,
            seed_view == tryte_seed.trits@,
            seed_wf(*tryte_seed),
            bundle_hash@ == hash,
            bundle_hash@.len() == 243,
            valid_trits(bundle_hash@),
            txs@.len() == 1 + sec_us * j,
            forall|i: int|
                0 <= i < txs@.len() ==> (#[trigger] txs@[i])@ == attached_raw(
                    entries_view[i],
                    entry_payload(i, dedup, sec_us as int, seed_view, hash),
                    hash,
                ) && txs@[i].wf(),
    {
        proof {
            assert(sec_us * (j + 1) <= sec_us * m && sec_us * j + sec_us == sec_us * (j + 1))
                by (nonlinear_arith)
                requires
                    j < m,
                    1 <= sec_us,
            ;
        }
        let signature = wots_sign(
            &tryte_seed.trits,
            address_inputs[j].index,
            security,
            &bundle_hash,
        );
        for f in 0..sec_us
            invariant
                m == address_inputs@.len(),
                address_inputs@ == dedup,
                1 <= sec_us <= 3,
                sec_us == security,
                j < m,
                entries_view == prepared_bundle.entries@,
                prepared_bundle.wf(),
                n == entries_view.len(),
                n == 1 + sec_us * m,
                sec_us * j + sec_us <= sec_us * m,
                seed_view == tryte_seed.trits@,
                bundle_hash@ == hash,
                bundle_hash@.len() == 243,
                valid_trits(bundle_hash@),
                signature@ == wots_signature_of(
                    seed_view,
                    dedup[j as int].index as int,
                    sec_us as int,
                    hash,
                ),
                signature@.len() == 6561 * sec_us,
                valid_trits(signature@),
                txs@.len() == 1 + sec_us * j + f,
                forall|i: int|
                    0 <= i < txs@.len() ==> (#[trigger] txs@[i])@ == attached_raw(
                        entries_view[i],
                        entry_payload(i, dedup, sec_us as int, seed_view, hash),
                        hash,
                    ) && txs@[i].wf(),
        {
            let k: usize = 1 + sec_us * j + f;
            proof {
                assert((f + 1) * 6561 <= sec_us * 6561) by (nonlinear_arith)
                    requires
                        f < sec_us,
                ;
            }
            let fragment = crate::ternary::copy_trits_range(&signature, f * 6561, (f + 1) * 6561);
            proof {
                assert forall|t: int| 0 <= t < fragment@.len() implies is_trit(fragment@[t]) by {
                    assert(fragment@[t] == signature@[f * 6561 + t]);
                }
            }
            let tx = attach_entry(&prepared_bundle.entries[k], fragment, &bundle_hash);
            txs.push(tx);
            proof {
                assert((k - 1) as int == (j as int) * (sec_us as int) + f) by (nonlinear_arith)
                    requires
                        k == 1 + sec_us * j + f,
                ;
                vstd::arithmetic::div_mod::lemma_fundamental_div_mod_converse(
                    k - 1,
                    sec_us as int,
                    j as int,
                    f as int,
                );
                assert(entry_payload(k as int, dedup, sec_us as int, seed_view, hash)
                    == signature@.subrange(f * 6561, (f + 1) * 6561));
            }
        }
    }
    let mut input_addresses: Vec<Vec<i8>> = Vec::new();
    for j in 0..m
        invariant
            m == address_inputs@.len(),
            address_inputs@ == dedup,
            input_addresses@.len() == j,
            forall|t: int| 0 <= t < j ==> (#[trigger] input_addresses@[t])@ == dedup[t].address@,
    {
        let a = crate::bundle::copy_trits(&address_inputs[j].address);
        input_addresses.push(a);
    }
    proof {
        assert forall|i: int| 0 <= i < txs@.len() implies addr_seq(txs@)[i]
            == entries_addr_seq(entries_view)[i] by {
            let e = entries_view[i];
            let p = entry_payload(i, dedup, sec_us as int, seed_view, hash);
            assert(txs@[i]@ == attached_raw(e, p, hash));
            assert(p.len() == 6561);
            lemma_attached_raw_address(e, p, hash);
            assert(addr_seq(txs@)[i] == txs@[i].address());
        }
        assert(addr_seq(txs@) =~= entries_addr_seq(entries_view));
        assert(input_addresses@.map_values(|v: Vec<i8>| v@) =~= dedup.map_values(
            |i: Input| i.address@,
        ));
        assert forall|t: int| 0 <= t < dedup.len() implies (seq_contains_addr(
            dedup_addrs(addr_seq(txs@)),
            input_addresses@.map_values(|v: Vec<i8>| v@)[t],
        ) == seq_contains_addr(dedup_addrs(entries_addr_seq(entries_view)), dedup[t].address@)) by {
            assert(input_addresses@.map_values(|v: Vec<i8>| v@)[t] == dedup[t].address@);
        }
    }
    match validate_bundle_addresses(&txs, &input_addresses) {
        Err(e) => {
            proof {
                assert(!sign_address_check(entries_view, dedup));
            }
            return Err(e);
        },
        Ok(()) => {},
    }
    proof {
        assert(sign_address_check(entries_view, dedup));
    }
    let ghost built = txs@;
    let mut reversed: Vec<BundledTransaction> = Vec::new();
    while txs.len() > 0
        invariant
            built.len() == n,
            txs@ == built.subrange(0, txs@.len() as int),
            reversed@.len() + txs@.len() == n,
            forall|i: int| 0 <= i < reversed@.len() ==> #[trigger] reversed@[i] == built[n - 1 - i],
        decreases txs@.len(),
    {
        let ghost before = txs@;
        let t = txs.pop().unwrap();
        proof {
            assert(t == built[txs@.len() as int]);
            assert(txs@ =~= built.subrange(0, txs@.len() as int));
        }
        reversed.push(t);
    }
    Ok(reversed)
}

} // verus!
