use iota_migration::address::{Address, GetAddressesBuilder, Seed};
use iota_migration::bundle::{create_migration_bundle, dedup_spending_inputs, InputData};
use iota_migration::errors::{Error, MigrationRule};
use iota_migration::finalize::{
    get_bundle_essence_parts, get_trytes_from_bundle, update_essence_with_mined_essence,
};
use iota_migration::mining::{num_13_free_fragments, plan_mining, worker_count_from};
use iota_migration::sign::{sign_migration_bundle, validate_bundle_addresses, TernarySeed};
use iota_migration::ternary::{encode_trits, trits_to_tryte_chars, tryte_chars_to_trits};
use iota_migration::transaction::BundledTransaction;

fn test_address(tag: i8) -> Vec<i8> {
    // spell the tag out in base 3 over a repeating five-trit window, so
    // distinct tags give distinct addresses
    let mut a = vec![0i8; 243];
    for i in 0..243 {
        let digit = ((tag as i32) / 3_i32.pow((i % 5) as u32)) % 3;
        a[i] = (digit - 1) as i8;
    }
    a
}

fn test_seed() -> TernarySeed {
    let mut trits = vec![0i8; 243];
    for i in 0..243 {
        trits[i] = (((i as i32 * 7 + 1) % 3) - 1) as i8;
    }
    TernarySeed { trits }
}

fn input(addr_tag: i8, balance: u64, index: u64, security: u8) -> InputData {
    InputData { address: test_address(addr_tag), security_lvl: security, balance, index }
}

fn trits_value(trits: &[i8]) -> i128 {
    let mut acc: i128 = 0;
    for &t in trits.iter().rev() {
        acc = acc * 3 + t as i128;
    }
    acc
}

#[test]
fn tryte_chars_of_known_trits() {
    let trits = vec![1i8, 0, 0, -1, 0, 0, 0, 0, 0, 1, 1, 1];
    let chars = trits_to_tryte_chars(&trits);
    let s: String = chars.iter().collect();
    assert_eq!(s, "AZ9M");
}

#[test]
fn tryte_chars_round_trip() {
    let chars: Vec<char> = "OBGH9NWLZMAXYZ".chars().collect();
    let trits = tryte_chars_to_trits(&chars).unwrap();
    assert_eq!(trits.len(), 3 * chars.len());
    let back = trits_to_tryte_chars(&trits);
    assert_eq!(back, chars);
}

#[test]
fn tryte_chars_reject_bad_character() {
    let chars: Vec<char> = "AB!C".chars().collect();
    let r = tryte_chars_to_trits(&chars);
    assert_eq!(r, Err(Error::MigrationError(MigrationRule::InvalidTryteString)));
}

#[test]
fn encode_trits_exact_values() {
    let e = encode_trits(false, 13, 4);
    assert_eq!(e, vec![1i8, 1, 1, 0]);
    let n = encode_trits(true, 5, 4);
    assert_eq!(trits_value(&n), -5);
    let z = encode_trits(false, 0, 81);
    assert_eq!(trits_value(&z), 0);
}

#[test]
fn create_bundle_conserves_value() {
    let target = test_address(10);
    let inputs = vec![input(1, 1_000_000, 0, 1), input(2, 2_500_000, 1, 1)];
    let bundle = create_migration_bundle(&target, inputs).unwrap();
    // one output transaction plus one per input at security level 1
    assert_eq!(bundle.entries.len(), 3);
    assert_eq!(trits_value(&bundle.entries[0].value_trits), 3_500_000);
    assert_eq!(trits_value(&bundle.entries[1].value_trits), -1_000_000);
    assert_eq!(trits_value(&bundle.entries[2].value_trits), -2_500_000);
    assert_eq!(bundle.entries[0].address, target);
}

#[test]
fn create_bundle_deduplicates_inputs() {
    let target = test_address(10);
    let inputs = vec![input(1, 1_000_000, 0, 2), input(1, 1_000_000, 0, 2)];
    let bundle = create_migration_bundle(&target, inputs).unwrap();
    // one output transaction plus two (security 2) for the single distinct input
    assert_eq!(bundle.entries.len(), 3);
    assert_eq!(trits_value(&bundle.entries[0].value_trits), 1_000_000);
}

#[test]
fn create_bundle_rejects_empty_inputs() {
    let target = test_address(10);
    let r = create_migration_bundle(&target, Vec::new());
    assert_eq!(r.unwrap_err(), Error::MigrationError(MigrationRule::EmptyInputs));
}

#[test]
fn create_bundle_rejects_mixed_security() {
    let target = test_address(10);
    let inputs = vec![input(1, 5, 0, 1), input(2, 7, 1, 2)];
    let r = create_migration_bundle(&target, inputs);
    assert_eq!(r.unwrap_err(), Error::MigrationError(MigrationRule::MixedSecurityLevels));
    assert_eq!(
        Error::MigrationError(MigrationRule::MixedSecurityLevels).message(),
        "Not all inputs have the same security level"
    );
}

#[test]
fn sign_rejects_empty_and_mixed_inputs() {
    let target = test_address(10);
    let seed = test_seed();
    let inputs = vec![input(1, 5, 0, 1), input(2, 7, 1, 1)];
    let bundle = create_migration_bundle(&target, inputs.clone()).unwrap();
    let r = sign_migration_bundle(&seed, &bundle, Vec::new());
    assert_eq!(r.unwrap_err(), Error::MigrationError(MigrationRule::EmptyInputs));
    let mixed = vec![input(1, 5, 0, 1), input(2, 7, 1, 2)];
    let r = sign_migration_bundle(&seed, &bundle, mixed);
    assert_eq!(r.unwrap_err(), Error::MigrationError(MigrationRule::MixedSecurityLevels));
}

#[test]
fn sign_yields_n_plus_one_distinct_addresses() {
    let target = test_address(10);
    let seed = test_seed();
    let inputs = vec![input(1, 1_000, 0, 1), input(2, 2_000, 1, 1)];
    let bundle = create_migration_bundle(&target, inputs.clone()).unwrap();
    let txs = sign_migration_bundle(&seed, &bundle, inputs).unwrap();
    assert_eq!(txs.len(), 3);
    // collect distinct addresses out of the built transactions
    let mut distinct: Vec<Vec<i8>> = Vec::new();
    for tx in &txs {
        let a = tx.trits_range(6561, 6804);
        if !distinct.contains(&a) {
            distinct.push(a);
        }
    }
    assert_eq!(distinct.len(), 3);
    // the signature payload of an input transaction is not left as zeros
    let payload = txs[0].trits_range(0, 6561);
    assert!(payload.iter().any(|&t| t != 0));
}

#[test]
fn validation_fails_when_an_input_address_is_removed() {
    let target = test_address(10);
    let seed = test_seed();
    let inputs = vec![input(1, 1_000, 0, 1), input(2, 2_000, 1, 1)];
    let bundle = create_migration_bundle(&target, inputs.clone()).unwrap();
    let txs = sign_migration_bundle(&seed, &bundle, inputs.clone()).unwrap();
    let input_addrs: Vec<Vec<i8>> = dedup_spending_inputs(inputs).into_iter().map(|i| i.address).collect();
    assert!(validate_bundle_addresses(&txs, &input_addrs).is_ok());
    // drop every transaction of one input address from the signed set
    let removed = &input_addrs[0];
    let kept: Vec<BundledTransaction> = txs
        .into_iter()
        .filter(|tx| &tx.trits_range(6561, 6804) != removed)
        .collect();
    let r = validate_bundle_addresses(&kept, &input_addrs);
    assert_eq!(r.unwrap_err(), Error::MigrationError(MigrationRule::AddressCountMismatch));
}

#[test]
fn validation_reports_missing_input_address() {
    let target = test_address(10);
    let seed = test_seed();
    let inputs = vec![input(1, 1_000, 0, 1), input(2, 2_000, 1, 1)];
    let bundle = create_migration_bundle(&target, inputs.clone()).unwrap();
    let txs = sign_migration_bundle(&seed, &bundle, inputs).unwrap();
    // same count, but one expected address never appears in the bundle
    let strangers = vec![test_address(1), test_address(77)];
    let r = validate_bundle_addresses(&txs, &strangers);
    assert_eq!(r.unwrap_err(), Error::MigrationError(MigrationRule::MissingInputAddress));
}

#[test]
fn mining_rejects_empty_spent_bundle_hashes() {
    let target = test_address(10);
    let inputs = vec![input(1, 1_000, 0, 1)];
    let bundle = create_migration_bundle(&target, inputs).unwrap();
    let r = plan_mining(&bundle, 1, false, &Vec::new(), 40, 0);
    assert!(matches!(
        r,
        Err(Error::MigrationError(MigrationRule::EmptySpentBundleHashes))
    ));
}

#[test]
fn mining_rejects_malformed_hash_trytes() {
    let target = test_address(10);
    let inputs = vec![input(1, 1_000, 0, 1)];
    let bundle = create_migration_bundle(&target, inputs).unwrap();
    let hashes = vec!["abc".to_string()];
    let r = plan_mining(&bundle, 1, false, &hashes, 40, 0);
    assert!(matches!(r, Err(Error::MigrationError(MigrationRule::InvalidTryteString))));
}

#[test]
fn mining_config_carries_search_parameters() {
    let target = test_address(10);
    let inputs = vec![input(1, 1_000, 0, 2), input(2, 2_000, 1, 2)];
    let bundle = create_migration_bundle(&target, inputs).unwrap();
    let hashes = vec!["M".repeat(81), "9".repeat(81)];
    let (cfg, txs) = plan_mining(&bundle, 2, false, &hashes, 40, 0).unwrap();
    assert_eq!(txs.len(), 5);
    assert_eq!(cfg.essences.len(), 10);
    assert_eq!(cfg.known_bundle_hashes.len(), 2);
    assert!(cfg.known_bundle_hashes[0].iter().all(|&t| t == 1));
    assert!(cfg.known_bundle_hashes[1].iter().all(|&t| t == 0));
    assert_eq!(cfg.num_13_free_fragments, 54);
    assert!(cfg.worker_count >= 1);
    assert_eq!(cfg.timeout, 40);
    // hardware wallets force the maximum count of 13-free fragments
    let (ledger_cfg, _) = plan_mining(&bundle, 2, true, &hashes, 40, 0).unwrap();
    assert_eq!(ledger_cfg.num_13_free_fragments, 81);
}

#[test]
fn worker_count_leaves_one_core_free() {
    assert_eq!(worker_count_from(1), 1);
    assert_eq!(worker_count_from(2), 1);
    assert_eq!(worker_count_from(8), 7);
}

#[test]
fn num_13_free_fragments_scales_with_security() {
    assert_eq!(num_13_free_fragments(1, false), 27);
    assert_eq!(num_13_free_fragments(3, false), 81);
    assert_eq!(num_13_free_fragments(1, true), 81);
}

#[test]
fn serialize_round_trips_through_raw_representation() {
    let target = test_address(10);
    let inputs = vec![input(1, 123_456, 0, 1)];
    let bundle = create_migration_bundle(&target, inputs).unwrap();
    let trytes = get_trytes_from_bundle(&bundle);
    assert_eq!(trytes.len(), 2);
    for s in &trytes {
        assert_eq!(s.len(), 2673);
        let chars: Vec<char> = s.chars().collect();
        let tx = BundledTransaction::from_tryte_chars(&chars).unwrap();
        let again: String = tx.to_tryte_chars().iter().collect();
        assert_eq!(&again, s);
        // raw round trip too
        let raw = tx.to_trits();
        let tx2 = BundledTransaction::from_trits(raw.clone()).unwrap();
        assert_eq!(tx2.to_trits(), raw);
    }
    // the sealed bundle hash is written into the raw form: not zeros, and
    // not a copy of the address span
    let chars: Vec<char> = trytes[0].chars().collect();
    let tx = BundledTransaction::from_tryte_chars(&chars).unwrap();
    let hash_span = tx.trits_range(7047, 7290);
    let addr_span = tx.trits_range(6561, 6804);
    assert!(hash_span.iter().any(|&t| t != 0));
    assert_ne!(hash_span, addr_span);
}

#[test]
fn deserialize_rejects_bad_width_and_bad_trits() {
    let r = BundledTransaction::from_trits(vec![0i8; 100]);
    assert_eq!(r.unwrap_err(), Error::MigrationError(MigrationRule::InvalidTritLength));
    let mut raw = vec![0i8; 8019];
    raw[5] = 3;
    let r = BundledTransaction::from_trits(raw);
    assert_eq!(r.unwrap_err(), Error::MigrationError(MigrationRule::InvalidTritLength));
}

#[test]
fn essence_parts_split_address_and_meta() {
    let target = test_address(10);
    let inputs = vec![input(1, 9, 0, 1)];
    let bundle = create_migration_bundle(&target, inputs).unwrap();
    let hashes = vec!["A".repeat(81)];
    let (_, txs) = plan_mining(&bundle, 1, false, &hashes, 10, 0).unwrap();
    let parts = get_bundle_essence_parts(&txs);
    assert_eq!(parts.len(), 4);
    for p in &parts {
        assert_eq!(p.len(), 81);
    }
    // the first part of the first transaction is the target address
    let addr_chars: String = trits_to_tryte_chars(&target).iter().collect();
    assert_eq!(parts[0], addr_chars);
}

#[test]
fn finalize_overwrites_only_the_mined_span_of_the_last_transaction() {
    let target = test_address(10);
    let seed = test_seed();
    let inputs = vec![input(1, 1_000, 0, 1), input(2, 2_000, 1, 1)];
    let bundle = create_migration_bundle(&target, inputs.clone()).unwrap();
    let txs = sign_migration_bundle(&seed, &bundle, inputs).unwrap();
    let mined: Vec<i8> = (0..243).map(|i| ((i % 3) - 1) as i8).collect();
    let rebuilt = update_essence_with_mined_essence(txs.clone(), mined.clone()).unwrap();
    let n = txs.len();
    assert_eq!(rebuilt.entries.len(), n);
    for i in 0..n {
        // the address span and tag are preserved everywhere
        assert_eq!(rebuilt.entries[i].address, txs[i].trits_range(6561, 6804));
        assert_eq!(rebuilt.entries[i].tag, txs[i].trits_range(7776, 7857));
        if i < n - 1 {
            // every field of every other transaction is bit-identical
            assert_eq!(rebuilt.entries[i].value_trits, txs[i].trits_range(6804, 6885));
            assert_eq!(rebuilt.entries[i].obsolete_tag, txs[i].trits_range(6885, 6966));
            assert_eq!(rebuilt.entries[i].timestamp, txs[i].trits_range(6966, 6993));
            assert_eq!(rebuilt.entries[i].index, txs[i].trits_range(6993, 7020));
            assert_eq!(rebuilt.entries[i].last_index, txs[i].trits_range(7020, 7047));
        }
    }
    // the last transaction carries exactly the mined 243-trit span
    let last = &rebuilt.entries[n - 1];
    let mut span = Vec::new();
    span.extend_from_slice(&last.value_trits);
    span.extend_from_slice(&last.obsolete_tag);
    span.extend_from_slice(&last.timestamp);
    span.extend_from_slice(&last.index);
    span.extend_from_slice(&last.last_index);
    assert_eq!(span, mined);
}

#[test]
fn get_addresses_alternates_external_internal() {
    let seed_bytes = vec![7u8; 32];
    let seed = Seed::Ed25519(seed_bytes);
    // public keys stand in for the key-derivation collaborator's output
    let public_keys: Vec<Vec<u8>> = (0u8..4).map(|i| vec![i; 32]).collect();
    let addresses = GetAddressesBuilder::new(&seed)
        .account_index(0)
        .range(0, 2)
        .get(&public_keys)
        .unwrap();
    assert_eq!(addresses.len(), 4);
    for (k, (a, internal)) in addresses.iter().enumerate() {
        assert_eq!(*internal, k % 2 == 1);
        match a {
            Address::Ed25519(h) => {
                assert_eq!(h.len(), 32);
                // a real hash, not the public key handed back
                assert_ne!(h, &public_keys[k]);
            }
            Address::Legacy(_) => panic!("unexpected legacy address"),
        }
    }
    // deterministic: the same inputs give the same addresses
    let again = GetAddressesBuilder::new(&seed)
        .account_index(0)
        .range(0, 2)
        .get(&public_keys)
        .unwrap();
    assert_eq!(addresses.len(), again.len());
    for k in 0..addresses.len() {
        match (&addresses[k].0, &again[k].0) {
            (Address::Ed25519(a), Address::Ed25519(b)) => assert_eq!(a, b),
            _ => panic!("unexpected legacy address"),
        }
    }
}

#[test]
fn get_addresses_requires_account_index() {
    let seed = Seed::Ed25519(vec![7u8; 32]);
    let public_keys: Vec<Vec<u8>> = (0u8..40).map(|i| vec![i; 32]).collect();
    let r = GetAddressesBuilder::new(&seed).get(&public_keys);
    assert_eq!(r.unwrap_err(), Error::MissingParameter);
}

#[test]
fn derivation_path_components_are_hardened() {
    let path = iota_migration::address::derivation_path(3, 5, true);
    let h = 0x8000_0000u32;
    assert_eq!(path, vec![44 + h, 4218 + h, 3 + h, 1 + h, 5 + h]);
    let external = iota_migration::address::derivation_path(3, 5, false);
    assert_eq!(external[3], h);
}
