//! Migration-bundle construction: spending inputs, their validation and
//! deduplication, and the balance-conserving unsigned bundle targeting the
//! encoded migration address.

use vstd::prelude::*;

use crate::errors::{Error, MigrationRule};
use crate::ternary::{
    encode_trits, lemma_pow3_mono, pow3, push_trits, trits_int, valid_trits, zero_trits,
};

verus! {

/// A legacy spending input handed to the migration core: source address,
/// balance, derivation index and one-time-signature security level.
#[derive(Clone, Debug)]
pub struct InputData {
    /// The source legacy address, 243 trits.
    pub address: Vec<i8>,
    /// The one-time-signature security level, 1..=3.
    pub security_lvl: u8,
    /// The balance spent from the address.
    pub balance: u64,
    /// The derivation index of the address under the seed.
    pub index: u64,
}

/// A deduplicated input: address, balance and derivation index.
#[derive(Debug)]
pub struct Input {
    /// The source legacy address, 243 trits.
    pub address: Vec<i8>,
    /// The balance spent from the address.
    pub balance: u64,
    /// The derivation index of the address under the seed.
    pub index: u64,
}

/// A transfer of a value to a destination address.
#[derive(Debug)]
pub struct Transfer {
    /// The destination address, 243 trits.
    pub address: Vec<i8>,
    /// The transferred amount.
    pub value: u64,
    /// An optional message payload.
    pub message: Option<String>,
    /// An optional tag, 81 trits.
    pub tag: Option<Vec<i8>>,
}

/// Well-formed input: a valid fixed-width address.
pub open spec fn input_wf(i: Input) -> bool {
    i.address@.len() == 243 && valid_trits(i.address@)
}

/// Well-formed spending input: a valid fixed-width address.
pub open spec fn input_data_wf(d: InputData) -> bool {
    d.address@.len() == 243 && valid_trits(d.address@)
}

/// The input carried by a spending input, dropping the security level.
pub open spec fn as_input(d: InputData) -> Input {
    Input { address: d.address, balance: d.balance, index: d.index }
}

/// The inputs carried by a batch of spending inputs.
pub open spec fn as_inputs(s: Seq<InputData>) -> Seq<Input> {
    s.map_values(|d: InputData| as_input(d))
}

/// Two inputs are the same when address, balance and index agree.
pub open spec fn input_eq(a: Input, b: Input) -> bool {
    a.address@ == b.address@ && a.balance == b.balance && a.index == b.index
}

/// Whether the sequence holds an input equal to `x`.
pub open spec fn seq_contains_input(s: Seq<Input>, x: Input) -> bool {
    exists|i: int| 0 <= i < s.len() && input_eq(s[i], x)
}

/// The first occurrence of each input, in order of first appearance.
pub open spec fn dedup_inputs(s: Seq<Input>) -> Seq<Input>
    decreases s.len(),
{
    if s.len() == 0 {
        Seq::empty()
    } else {
        let d = dedup_inputs(s.drop_last());
        if seq_contains_input(d, s.last()) {
            d
        } else {
            d.push(s.last())
        }
    }
}

/// The sum of the balances of a sequence of inputs.
pub open spec fn sum_balances(s: Seq<Input>) -> int
    decreases s.len(),
{
    if s.len() == 0 {
        0
    } else {
        sum_balances(s.drop_last()) + s.last().balance
    }
}

/// Every spending input carries the same security level as the first.
pub open spec fn uniform_security(s: Seq<InputData>) -> bool {
    forall|i: int| 0 <= i < s.len() ==> #[trigger] s[i].security_lvl == s[0].security_lvl
}

pub proof fn lemma_sum_balances_nonneg(s: Seq<Input>)
    ensures
        sum_balances(s) >= 0,
    decreases s.len(),
{
    if s.len() > 0 {
        lemma_sum_balances_nonneg(s.drop_last());
    }
}

/// Deduplication never increases the sum of balances.
pub proof fn lemma_dedup_sum_le(s: Seq<Input>)
    ensures
        0 <= sum_balances(dedup_inputs(s)),
        sum_balances(dedup_inputs(s)) <= sum_balances(s),
    decreases s.len(),
{
    lemma_sum_balances_nonneg(dedup_inputs(s));
    if s.len() > 0 {
        lemma_dedup_sum_le(s.drop_last());
        let d = dedup_inputs(s.drop_last());
        if !seq_contains_input(d, s.last()) {
            assert(d.push(s.last()).drop_last() =~= d);
        }
    }
}

/// The sum of a prefix never exceeds the sum of the whole sequence.
pub proof fn lemma_sum_prefix_le(s: Seq<Input>, i: int)
    requires
        0 <= i <= s.len(),
    ensures
        sum_balances(s.subrange(0, i)) <= sum_balances(s),
    decreases s.len() - i,
{
    if i == s.len() {
        assert(s.subrange(0, i) =~= s);
    } else {
        lemma_sum_prefix_le(s, i + 1);
        assert(s.subrange(0, i + 1).drop_last() =~= s.subrange(0, i));
        assert(s.subrange(0, i + 1).last() == s[i]);
    }
}

/// Compare two trit buffers by contents.
pub fn trits_equal(a: &Vec<i8>, b: &Vec<i8>) -> (r: bool)
    ensures
        r == (a@ == b@),
{
    if a.len() != b.len() {
        return false;
    }
    let n = a.len();
    for i in 0..n
        invariant
            n == a@.len() == b@.len(),
            forall|j: int| 0 <= j < i ==> a@[j] == b@[j],
    {
        if a[i] != b[i] {
            return false;
        }
    }
    proof {
        assert(a@ =~= b@);
    }
    true
}

/// A copy of a trit buffer.
pub fn copy_trits(v: &Vec<i8>) -> (r: Vec<i8>)
    ensures
        r@ == v@,
{
    let mut out: Vec<i8> = Vec::new();
    push_trits(&mut out, v);
    proof {
        assert(out@ =~= v@);
    }
    out
}

/// Whether the list holds an input equal to `x`.
fn contains_input(s: &Vec<Input>, x: &Input) -> (r: bool)
    ensures
        r == seq_contains_input(s@, *x),
{
    let n = s.len();
    for i in 0..n
        invariant
            n == s@.len(),
            forall|j: int| 0 <= j < i ==> !input_eq(s@[j], *x),
    {
        let same = trits_equal(&s[i].address, &x.address);
        if same && s[i].balance == x.balance && s[i].index == x.index {
            assert(input_eq(s@[i as int], *x));
            return true;
        }
    }
    false
}

/// Drop the security levels and remove duplicate inputs, keeping the first
/// occurrence of each in order.
pub fn dedup_spending_inputs(inputs: Vec<InputData>) -> (r: Vec<Input>)
    ensures
        r@ == dedup_inputs(as_inputs(inputs@)),
{
    let ghost orig = as_inputs(inputs@);
    let mut rest = inputs;
    let mut out: Vec<Input> = Vec::new();
    let ghost k: int = 0;
    proof {
        assert(orig.subrange(0, 0) =~= Seq::<Input>::empty());
    }
    while rest.len() > 0
        invariant
            0 <= k <= orig.len(),
            rest@.len() == orig.len() - k,
            as_inputs(rest@) =~= orig.subrange(k, orig.len() as int),
            out@ == dedup_inputs(orig.subrange(0, k)),
        decreases rest@.len(),
    {
        let ghost prev = rest@;
        proof {
            assert(as_inputs(prev).len() == prev.len());
            assert(k < orig.len());
        }
        let d = rest.remove(0);
        let item = Input { address: d.address, balance: d.balance, index: d.index };
        proof {
            assert(d == prev[0]);
            assert(as_inputs(prev)[0] == as_input(prev[0]));
            assert(item == as_input(d));
            assert(item == orig[k]);
        }
        let keep = !contains_input(&out, &item);
        proof {
            assert(orig.subrange(0, k + 1).drop_last() =~= orig.subrange(0, k));
            assert(orig.subrange(0, k + 1).last() == orig[k]);
        }
        if keep {
            out.push(item);
        }
        proof {
            k = k + 1;
            assert(rest@ =~= prev.drop_first());
            assert forall|i: int| 0 <= i < rest@.len() implies as_inputs(rest@)[i] == orig.subrange(
                k,
                orig.len() as int,
            )[i] by {
                assert(as_inputs(rest@)[i] == as_input(rest@[i]));
                assert(rest@[i] == prev[i + 1]);
                assert(as_inputs(prev)[i + 1] == as_input(prev[i + 1]));
                assert(as_inputs(prev)[i + 1] == orig.subrange(k - 1, orig.len() as int)[i + 1]);
            }
            assert(as_inputs(rest@) =~= orig.subrange(k, orig.len() as int));
        }
    }
    proof {
        assert(orig.subrange(0, k) =~= orig);
    }
    out
}

/// Sum the balances of a deduplicated input list.
pub fn sum_input_balances(inputs: &Vec<Input>) -> (r: u64)
    requires
        sum_balances(inputs@) <= u64::MAX,
    ensures
        r == sum_balances(inputs@),
{
    let mut acc: u64 = 0;
    let n = inputs.len();
    proof {
        assert(inputs@.subrange(0, 0) =~= Seq::<Input>::empty());
    }
    for i in 0..n
        invariant
            n == inputs@.len(),
            sum_balances(inputs@) <= u64::MAX,
            acc == sum_balances(inputs@.subrange(0, i as int)),
    {
        proof {
            assert(inputs@.subrange(0, i + 1).drop_last() =~= inputs@.subrange(0, i as int));
            assert(inputs@.subrange(0, i + 1).last() == inputs@[i as int]);
            lemma_sum_prefix_le(inputs@, i + 1);
            lemma_sum_balances_nonneg(inputs@.subrange(0, i as int));
        }
        acc = acc + inputs[i].balance;
    }
    proof {
        assert(inputs@.subrange(0, n as int) =~= inputs@);
    }
    acc
}

/// A sequence of `n` zero trits.
pub open spec fn zero_seq(n: nat) -> Seq<i8> {
    Seq::new(n, |i: int| 0i8)
}

/// One transaction of an unsigned bundle: its essence fields as fixed-width
/// trit buffers.
#[derive(Debug)]
pub struct BundleEntry {
    /// The address, 243 trits.
    pub address: Vec<i8>,
    /// The value, 81 trits of balanced ternary.
    pub value_trits: Vec<i8>,
    /// The obsolete tag, 81 trits; the span replaced by essence mining.
    pub obsolete_tag: Vec<i8>,
    /// The timestamp, 27 trits.
    pub timestamp: Vec<i8>,
    /// The index of the transaction within the bundle, 27 trits.
    pub index: Vec<i8>,
    /// The index of the last transaction of the bundle, 27 trits.
    pub last_index: Vec<i8>,
    /// The tag, 81 trits.
    pub tag: Vec<i8>,
}

/// Well-formed entry: every field has its fixed width and holds trits.
pub open spec fn entry_wf(e: BundleEntry) -> bool {
    &&& e.address@.len() == 243 && valid_trits(e.address@)
    &&& e.value_trits@.len() == 81 && valid_trits(e.value_trits@)
    &&& e.obsolete_tag@.len() == 81 && valid_trits(e.obsolete_tag@)
    &&& e.timestamp@.len() == 27 && valid_trits(e.timestamp@)
    &&& e.index@.len() == 27 && valid_trits(e.index@)
    &&& e.last_index@.len() == 27 && valid_trits(e.last_index@)
    &&& e.tag@.len() == 81 && valid_trits(e.tag@)
}

/// The essence of an entry: address, value, obsolete tag, timestamp, index
/// and last index, 486 trits.
pub open spec fn entry_essence(e: BundleEntry) -> Seq<i8> {
    e.address@ + e.value_trits@ + e.obsolete_tag@ + e.timestamp@ + e.index@ + e.last_index@
}

/// The signed integer value of an entry.
pub open spec fn entry_value(e: BundleEntry) -> int {
    trits_int(e.value_trits@)
}

/// An unsigned migration bundle: essence fields set, nothing signed yet.
#[derive(Debug)]
pub struct UnsignedBundle {
    /// The transactions of the bundle, head first.
    pub entries: Vec<BundleEntry>,
}

impl UnsignedBundle {
    /// Well-formed: non-empty and every entry well-formed.
    pub open spec fn wf(self) -> bool {
        self.entries@.len() >= 1 && (forall|i: int|
            0 <= i < self.entries@.len() ==> entry_wf(#[trigger] self.entries@[i]))
    }
}

/// The layout of a migration bundle built from a target address and a
/// deduplicated input list with one security level: entry 0 carries the
/// whole value to the target; each input occupies `security` consecutive
/// entries under its address, the first with the negated balance, the rest
/// with value zero.
pub open spec fn bundle_shape(
    b: UnsignedBundle,
    target: Seq<i8>,
    dedup: Seq<Input>,
    security: int,
) -> bool {
    let n = b.entries@.len() as int;
    &&& n == 1 + security * dedup.len()
    &&& b.entries@[0].address@ == target
    &&& entry_value(b.entries@[0]) == sum_balances(dedup)
    &&& forall|k: int|
        1 <= k < n ==> #[trigger] b.entries@[k].address@ == dedup[(k - 1) / security].address@
    &&& forall|k: int|
        1 <= k < n ==> #[trigger] entry_value(b.entries@[k]) == if (k - 1) % security == 0 {
            -(dedup[(k - 1) / security].balance as int)
        } else {
            0
        }
    &&& forall|k: int|
        0 <= k < n ==> (index_trits_ok(#[trigger] b.entries@[k].index@, k) && index_trits_ok(
            b.entries@[k].last_index@,
            n - 1,
        ) && b.entries@[k].obsolete_tag@ == zero_seq(81) && b.entries@[k].timestamp@ == zero_seq(27)
            && b.entries@[k].tag@ == zero_seq(81))
}

/// A 27-trit buffer whose balanced-ternary value is the index `k`.
pub open spec fn index_trits_ok(s: Seq<i8>, k: int) -> bool {
    s.len() == 27 && valid_trits(s) && trits_int(s) == k
}

/// Build one entry of a migration bundle.
fn make_entry(address: Vec<i8>, negative: bool, mag: u64, index: u64, last_index: u64) -> (r:
    BundleEntry)
    requires
        address@.len() == 243,
        valid_trits(address@),
        2 * mag < pow3(81),
        2 * index < pow3(27),
        2 * last_index < pow3(27),
    ensures
        entry_wf(r),
        r.address@ == address@,
        entry_value(r) == if negative {
            -(mag as int)
        } else {
            mag as int
        },
        trits_int(r.index@) == index,
        trits_int(r.last_index@) == last_index,
        r.obsolete_tag@ == zero_seq(81),
        r.timestamp@ == zero_seq(27),
        r.tag@ == zero_seq(81),
{
    let value_trits = encode_trits(negative, mag, 81);
    let obsolete_tag = zero_trits(81);
    let timestamp = zero_trits(27);
    let index_trits = encode_trits(false, index, 27);
    let last_trits = encode_trits(false, last_index, 27);
    let tag = zero_trits(81);
    proof {
        assert(obsolete_tag@ =~= zero_seq(81));
        assert(timestamp@ =~= zero_seq(27));
        assert(tag@ =~= zero_seq(81));
    }
    BundleEntry {
        address,
        value_trits,
        obsolete_tag,
        timestamp,
        index: index_trits,
        last_index: last_trits,
        tag,
    }
}

/// Field widths hold every value the builder encodes: a `u64` fits the
/// 81-trit value field, and the index bound fits the 27-trit index fields.
pub proof fn lemma_field_widths()
    ensures
        pow3(81) > 2 * (u64::MAX as int),
        pow3(27) == 7625597484987,
{
    assert(pow3(27) == 7625597484987) by {
        reveal_with_fuel(pow3, 28);
    }
    assert(pow3(42) == 109418989131512359209) by {
        reveal_with_fuel(pow3, 43);
    }
    lemma_pow3_mono(42, 81);
}

/// Deduplication keeps only well-formed inputs when all inputs are
/// well-formed.
pub proof fn lemma_dedup_wf(s: Seq<Input>)
    requires
        forall|i: int| 0 <= i < s.len() ==> input_wf(#[trigger] s[i]),
    ensures
        forall|i: int| 0 <= i < dedup_inputs(s).len() ==> input_wf(#[trigger] dedup_inputs(s)[i]),
    decreases s.len(),
{
    if s.len() > 0 {
        assert(forall|i: int|
            0 <= i < s.drop_last().len() ==> input_wf(#[trigger] s.drop_last()[i]));
        lemma_dedup_wf(s.drop_last());
        let d = dedup_inputs(s.drop_last());
        if !seq_contains_input(d, s.last()) {
            assert(input_wf(s[s.len() - 1]));
            assert forall|i: int| 0 <= i < dedup_inputs(s).len() implies input_wf(
                dedup_inputs(s)[i],
            ) by {
                if i < d.len() {
                    assert(dedup_inputs(s)[i] == d[i]);
                } else {
                    assert(dedup_inputs(s)[i] == s.last());
                }
            }
        }
    }
}

/// Build the unsigned bundle for one transfer funded by a deduplicated
/// input list: the shape described by `bundle_shape`.
pub fn prepare_unsigned_bundle(transfer: Transfer, address_inputs: &Vec<Input>, security: u8) -> (b:
    UnsignedBundle)
    requires
        transfer.address@.len() == 243,
        valid_trits(transfer.address@),
        transfer.value == sum_balances(address_inputs@),
        1 <= security <= 3,
        forall|i: int| 0 <= i < address_inputs@.len() ==> input_wf(#[trigger] address_inputs@[i]),
        address_inputs@.len() <= 1000000000,
    ensures
        b.wf(),
        bundle_shape(b, transfer.address@, address_inputs@, security as int),
{
    proof {
        lemma_field_widths();
    }
    let m = address_inputs.len();
    let sec: usize = security as usize;
    proof {
        assert(sec * m <= 3 * 1000000000) by (nonlinear_arith)
            requires
                sec <= 3,
                m <= 1000000000,
        ;
    }
    let n_txs: usize = 1 + sec * m;
    let last: u64 = (n_txs - 1) as u64;
    let mut entries: Vec<BundleEntry> = Vec::new();
    let first = make_entry(transfer.address, false, transfer.value, 0, last);
    entries.push(first);
    proof {
        assert((sec as int) * 0 == 0) by (nonlinear_arith);
    }
    for j in 0..m
        invariant
            m == address_inputs@.len(),
            m <= 1000000000,
            1 <= sec <= 3,
            sec == security,
            n_txs == 1 + sec * m,
            last == n_txs - 1,
            transfer.value == sum_balances(address_inputs@),
            2 * (last as int) < pow3(27),
            pow3(81) > 2 * (u64::MAX as int),
            forall|i: int|
                0 <= i < address_inputs@.len() ==> input_wf(#[trigger] address_inputs@[i]),
            entries@.len() == 1 + sec * j,
            entry_wf(entries@[0]),
            entries@[0].address@ == transfer.address@,
            entry_value(entries@[0]) == sum_balances(address_inputs@),
            index_trits_ok(entries@[0].index@, 0),
            forall|k: int|
                1 <= k < entries@.len() ==> #[trigger] entries@[k].address@ == address_inputs@[(k
                    - 1) / (sec as int)].address@,
            forall|k: int|
                1 <= k < entries@.len() ==> #[trigger] entry_value(entries@[k]) == if (k - 1) % (
                sec as int) == 0 {
                    -(address_inputs@[(k - 1) / (sec as int)].balance as int)
                } else {
                    0
                },
            forall|k: int|
                0 <= k < entries@.len() ==> (index_trits_ok(#[trigger] entries@[k].index@, k)
                    && index_trits_ok(entries@[k].last_index@, n_txs - 1) && entries@[k].obsolete_tag@
                    == zero_seq(81) && entries@[k].timestamp@ == zero_seq(27) && entries@[k].tag@
                    == zero_seq(81)),
            forall|k: int| 0 <= k < entries@.len() ==> entry_wf(#[trigger] entries@[k]),
    {
        proof {
            assert(sec * (j + 1) <= sec * m && sec * j + sec == sec * (j + 1)) by (nonlinear_arith)
                requires
                    j < m,
                    1 <= sec,
            ;
        }
        for f in 0..sec
            invariant
                m == address_inputs@.len(),
                m <= 1000000000,
                1 <= sec <= 3,
                j < m,
                n_txs == 1 + sec * m,
                last == n_txs - 1,
                sec * j + sec <= sec * m,
                transfer.value == sum_balances(address_inputs@),
                2 * (last as int) < pow3(27),
                pow3(81) > 2 * (u64::MAX as int),
                forall|i: int|
                    0 <= i < address_inputs@.len() ==> input_wf(#[trigger] address_inputs@[i]),
                entries@.len() == 1 + sec * j + f,
                entries@[0].address@ == transfer.address@,
                entry_value(entries@[0]) == sum_balances(address_inputs@),
                forall|k: int|
                    1 <= k < entries@.len() ==> #[trigger] entries@[k].address@ == address_inputs@[(
                    k - 1) / (sec as int)].address@,
                forall|k: int|
                    1 <= k < entries@.len() ==> #[trigger] entry_value(entries@[k]) == if (k - 1) % (
                    sec as int) == 0 {
                        -(address_inputs@[(k - 1) / (sec as int)].balance as int)
                    } else {
                        0
                    },
                forall|k: int|
                    0 <= k < entries@.len() ==> (index_trits_ok(#[trigger] entries@[k].index@, k)
                        && index_trits_ok(entries@[k].last_index@, n_txs - 1)
                        && entries@[k].obsolete_tag@ == zero_seq(81) && entries@[k].timestamp@
                        == zero_seq(27) && entries@[k].tag@ == zero_seq(81)),
                forall|k: int| 0 <= k < entries@.len() ==> entry_wf(#[trigger] entries@[k]),
        {
            let k: usize = 1 + sec * j + f;
            let negative = f == 0;
            let mag = if f == 0 {
                address_inputs[j].balance
            } else {
                0
            };
            let entry = make_entry(
                copy_trits(&address_inputs[j].address),
                negative,
                mag,
                k as u64,
                last,
            );
            entries.push(entry);
            proof {
                assert((k - 1) as int == (j as int) * (sec as int) + f) by (nonlinear_arith)
                    requires
                        k == 1 + sec * j + f,
                ;
                vstd::arithmetic::div_mod::lemma_fundamental_div_mod_converse(
                    k - 1,
                    sec as int,
                    j as int,
                    f as int,
                );
            }
        }
    }
    proof {
        assert(entries@.len() == n_txs);
    }
    UnsignedBundle { entries }
}

/// Build an unsigned migration bundle: validate the batch, deduplicate it,
/// and send the whole deduplicated balance to the encoded migration
/// address as one transfer.
pub fn create_migration_bundle(address: &Vec<i8>, inputs: Vec<InputData>) -> (r: Result<
    UnsignedBundle,
    Error,
>)
    requires
        address@.len() == 243,
        valid_trits(address@),
        forall|i: int| 0 <= i < inputs@.len() ==> input_data_wf(#[trigger] inputs@[i]),
        forall|i: int| 0 <= i < inputs@.len() ==> 1 <= #[trigger] inputs@[i].security_lvl <= 3,
        sum_balances(as_inputs(inputs@)) <= u64::MAX,
        inputs@.len() <= 1000000000,
    ensures
        (r == Err::<UnsignedBundle, Error>(Error::MigrationError(MigrationRule::EmptyInputs)))
            <==> inputs@.len() == 0,
        (r == Err::<UnsignedBundle, Error>(
            Error::MigrationError(MigrationRule::MixedSecurityLevels),
        )) <==> (inputs@.len() > 0 && !uniform_security(inputs@)),
        r is Ok <==> (inputs@.len() > 0 && uniform_security(inputs@)),
        r matches Ok(b) ==> b.wf() && bundle_shape(
            b,
            address@,
            dedup_inputs(as_inputs(inputs@)),
            inputs@[0].security_lvl as int,
        ),
{
    if inputs.len() == 0 {
        return Err(Error::MigrationError(MigrationRule::EmptyInputs));
    }
    let security = inputs[0].security_lvl;
    let n = inputs.len();
    for i in 0..n
        invariant
            n == inputs@.len(),
            n > 0,
            security == inputs@[0].security_lvl,
            forall|j: int| 0 <= j < i ==> #[trigger] inputs@[j].security_lvl == security,
    {
        if inputs[i].security_lvl != security {
            return Err(Error::MigrationError(MigrationRule::MixedSecurityLevels));
        }
    }
    let ghost iv = as_inputs(inputs@);
    let ghost dd = dedup_inputs(iv);
    let address_inputs = dedup_spending_inputs(inputs);
    proof {
        lemma_dedup_sum_le(iv);
        assert(forall|i: int| 0 <= i < iv.len() ==> input_wf(#[trigger] iv[i]));
        lemma_dedup_wf(iv);
        assert(dd.len() <= iv.len()) by {
            lemma_dedup_len_le(iv);
        }
    }
    let total = sum_input_balances(&address_inputs);
    let transfer = Transfer {
        address: copy_trits(address),
        value: total,
        message: None,
        tag: None,
    };
    let b = prepare_unsigned_bundle(transfer, &address_inputs, security);
    Ok(b)
}

/// The sum of the values of a bundle's entries.
pub open spec fn sum_entry_values(entries: Seq<BundleEntry>) -> int
    decreases entries.len(),
{
    if entries.len() == 0 {
        0
    } else {
        sum_entry_values(entries.drop_last()) + entry_value(entries.last())
    }
}

/// The values of a prefix of a shaped bundle: the whole deduplicated
/// balance, minus the balances of the inputs whose block the prefix has
/// reached.
proof fn lemma_value_prefix(entries: Seq<BundleEntry>, dedup: Seq<Input>, security: int, prefix: int)
    requires
        security >= 1,
        1 <= prefix <= entries.len(),
        entries.len() == 1 + security * dedup.len(),
        entry_value(entries[0]) == sum_balances(dedup),
        forall|k: int|
            1 <= k < entries.len() ==> #[trigger] entry_value(entries[k]) == if (k - 1) % security
                == 0 {
                -(dedup[(k - 1) / security].balance as int)
            } else {
                0
            },
    ensures
        sum_entry_values(entries.subrange(0, prefix)) == sum_balances(dedup) - sum_balances(
            dedup.subrange(0, (prefix - 1 + security - 1) / security),
        ),
    decreases prefix,
{
    let b = (prefix - 1 + security - 1) / security;
    if prefix == 1 {
        vstd::arithmetic::div_mod::lemma_fundamental_div_mod_converse(
            security - 1,
            security,
            0,
            security - 1,
        );
        let sub = entries.subrange(0, 1);
        assert(sub.len() == 1);
        assert(sub.drop_last().len() == 0);
        assert(sum_entry_values(sub.drop_last()) == 0);
        assert(sub.last() == entries[0]);
        assert(sum_entry_values(sub) == sum_entry_values(sub.drop_last()) + entry_value(sub.last()));
        assert(sum_entry_values(sub) == sum_balances(dedup));
        assert(dedup.subrange(0, 0) =~= Seq::<Input>::empty());
    } else {
        lemma_value_prefix(entries, dedup, security, prefix - 1);
        let t = prefix - 1;
        let j = (t - 1) / security;
        let f = (t - 1) % security;
        vstd::arithmetic::div_mod::lemma_fundamental_div_mod(t - 1, security);
        assert(entries.subrange(0, prefix).drop_last() =~= entries.subrange(0, prefix - 1));
        assert(entries.subrange(0, prefix).last() == entries[t]);
        let bp = (prefix - 2 + security - 1) / security;
        assert(0 <= j < dedup.len()) by {
            assert(security * j <= t - 1) by (nonlinear_arith)
                requires
                    t - 1 == security * j + f,
                    f >= 0,
            ;
            if j >= dedup.len() {
                assert(security * j >= security * dedup.len()) by (nonlinear_arith)
                    requires
                        j >= dedup.len(),
                        security >= 1,
                ;
            }
        }
        assert(prefix - 1 + security - 1 == (j + 1) * security + f) by (nonlinear_arith)
            requires
                t - 1 == security * j + f,
                t == prefix - 1,
        ;
        vstd::arithmetic::div_mod::lemma_fundamental_div_mod_converse(
            prefix - 1 + security - 1,
            security,
            j + 1,
            f,
        );
        assert(b == j + 1);
        if f == 0 {
            assert(prefix - 2 + security - 1 == j * security + (security - 1)) by (nonlinear_arith)
                requires
                    t - 1 == security * j + f,
                    t == prefix - 1,
                    f == 0,
            ;
            vstd::arithmetic::div_mod::lemma_fundamental_div_mod_converse(
                prefix - 2 + security - 1,
                security,
                j,
                security - 1,
            );
            assert(bp == j);
            assert(dedup.subrange(0, j + 1).drop_last() =~= dedup.subrange(0, j));
            assert(dedup.subrange(0, j + 1).last() == dedup[j]);
            assert(entry_value(entries[t]) == -(dedup[j].balance as int));
        } else {
            assert(prefix - 2 + security - 1 == (j + 1) * security + (f - 1)) by (nonlinear_arith)
                requires
                    t - 1 == security * j + f,
                    t == prefix - 1,
                    f >= 1,
            ;
            vstd::arithmetic::div_mod::lemma_fundamental_div_mod_converse(
                prefix - 2 + security - 1,
                security,
                j + 1,
                f - 1,
            );
            assert(bp == j + 1);
            assert(entry_value(entries[t]) == 0);
        }
    }
}

/// Conservation: in a shaped migration bundle no value is created or
/// destroyed; the head entry carries exactly the deduplicated input
/// balance and all entry values sum to zero.
pub proof fn lemma_value_conservation(
    b: UnsignedBundle,
    target: Seq<i8>,
    dedup: Seq<Input>,
    security: int,
)
    requires
        security >= 1,
        bundle_shape(b, target, dedup, security),
    ensures
        sum_entry_values(b.entries@) == 0,
{
    let entries = b.entries@;
    lemma_value_prefix(entries, dedup, security, entries.len() as int);
    assert(entries.subrange(0, entries.len() as int) =~= entries);
    assert(entries.len() - 1 + security - 1 == (dedup.len() as int) * security + (security - 1))
        by (nonlinear_arith)
        requires
            entries.len() == 1 + security * dedup.len(),
    ;
    vstd::arithmetic::div_mod::lemma_fundamental_div_mod_converse(
        entries.len() - 1 + security - 1,
        security,
        dedup.len() as int,
        security - 1,
    );
    assert(dedup.subrange(0, dedup.len() as int) =~= dedup);
}

/// Deduplication never lengthens a sequence.
pub proof fn lemma_dedup_len_le(s: Seq<Input>)
    ensures
        dedup_inputs(s).len() <= s.len(),
    decreases s.len(),
{
    if s.len() > 0 {
        lemma_dedup_len_le(s.drop_last());
    }
}

} // verus!
