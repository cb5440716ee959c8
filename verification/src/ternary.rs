//! Balanced-ternary primitives: trits, the tryte-alphabet string encoding,
//! and fixed-width balanced-ternary integer encoding.
//!
//! A trit is one of -1, 0, 1; a tryte groups three trits, least significant
//! first, and is written as one character of the alphabet `9A..Z`.

use vstd::prelude::*;

use crate::errors::{Error, MigrationRule};

verus! {

/// A balanced trit: -1, 0 or 1.
pub open spec fn is_trit(t: i8) -> bool {
    -1 <= t && t <= 1
}

/// Every element of the sequence is a balanced trit.
pub open spec fn valid_trits(s: Seq<i8>) -> bool {
    forall|i: int| 0 <= i < s.len() ==> is_trit(#[trigger] s[i])
}

/// The integer value of one tryte given by its three trits, least
/// significant trit first; it lies in `-13..=13`.
pub open spec fn tryte_val(t0: i8, t1: i8, t2: i8) -> int {
    t0 + 3 * t1 + 9 * t2
}

/// The tryte-alphabet character of a tryte value in `-13..=13`: `9` stands
/// for 0, `A..M` for 1..13 and `N..Z` for -13..-1.
pub open spec fn tryte_char(v: int) -> char {
    if v == 0 {
        '9'
    } else if v == 1 {
        'A'
    } else if v == 2 {
        'B'
    } else if v == 3 {
        'C'
    } else if v == 4 {
        'D'
    } else if v == 5 {
        'E'
    } else if v == 6 {
        'F'
    } else if v == 7 {
        'G'
    } else if v == 8 {
        'H'
    } else if v == 9 {
        'I'
    } else if v == 10 {
        'J'
    } else if v == 11 {
        'K'
    } else if v == 12 {
        'L'
    } else if v == 13 {
        'M'
    } else if v == -13 {
        'N'
    } else if v == -12 {
        'O'
    } else if v == -11 {
        'P'
    } else if v == -10 {
        'Q'
    } else if v == -9 {
        'R'
    } else if v == -8 {
        'S'
    } else if v == -7 {
        'T'
    } else if v == -6 {
        'U'
    } else if v == -5 {
        'V'
    } else if v == -4 {
        'W'
    } else if v == -3 {
        'X'
    } else if v == -2 {
        'Y'
    } else {
        'Z'
    }
}

/// Whether `c` belongs to the tryte alphabet.
pub open spec fn is_tryte_char(c: char) -> bool {
    c == '9' || ('A' <= c && c <= 'Z')
}

/// The three trits encoded by one tryte-alphabet character, least
/// significant first. Characters outside the alphabet map to zeros.
pub open spec fn tryte_char_trits(c: char) -> Seq<i8> {
    if c == '9' {
        seq![0i8, 0i8, 0i8]
    } else if c == 'A' {
        seq![1i8, 0i8, 0i8]
    } else if c == 'B' {
        seq![-1i8, 1i8, 0i8]
    } else if c == 'C' {
        seq![0i8, 1i8, 0i8]
    } else if c == 'D' {
        seq![1i8, 1i8, 0i8]
    } else if c == 'E' {
        seq![-1i8, -1i8, 1i8]
    } else if c == 'F' {
        seq![0i8, -1i8, 1i8]
    } else if c == 'G' {
        seq![1i8, -1i8, 1i8]
    } else if c == 'H' {
        seq![-1i8, 0i8, 1i8]
    } else if c == 'I' {
        seq![0i8, 0i8, 1i8]
    } else if c == 'J' {
        seq![1i8, 0i8, 1i8]
    } else if c == 'K' {
        seq![-1i8, 1i8, 1i8]
    } else if c == 'L' {
        seq![0i8, 1i8, 1i8]
    } else if c == 'M' {
        seq![1i8, 1i8, 1i8]
    } else if c == 'N' {
        seq![-1i8, -1i8, -1i8]
    } else if c == 'O' {
        seq![0i8, -1i8, -1i8]
    } else if c == 'P' {
        seq![1i8, -1i8, -1i8]
    } else if c == 'Q' {
        seq![-1i8, 0i8, -1i8]
    } else if c == 'R' {
        seq![0i8, 0i8, -1i8]
    } else if c == 'S' {
        seq![1i8, 0i8, -1i8]
    } else if c == 'T' {
        seq![-1i8, 1i8, -1i8]
    } else if c == 'U' {
        seq![0i8, 1i8, -1i8]
    } else if c == 'V' {
        seq![1i8, 1i8, -1i8]
    } else if c == 'W' {
        seq![-1i8, -1i8, 0i8]
    } else if c == 'X' {
        seq![0i8, -1i8, 0i8]
    } else if c == 'Y' {
        seq![1i8, -1i8, 0i8]
    } else if c == 'Z' {
        seq![-1i8, 0i8, 0i8]
    } else {
        seq![0i8, 0i8, 0i8]
    }
}

/// The tryte-string encoding of a trit sequence whose length is a multiple
/// of three.
pub open spec fn trits_to_trytes(s: Seq<i8>) -> Seq<char> {
    Seq::new(s.len() / 3, |i: int| tryte_char(tryte_val(s[3 * i], s[3 * i + 1], s[3 * i + 2])))
}

/// The trit sequence encoded by a tryte string.
pub open spec fn trytes_to_trits(s: Seq<char>) -> Seq<i8> {
    Seq::new(s.len() * 3, |i: int| tryte_char_trits(s[i / 3])[i % 3])
}

/// Encoding three trits as a character and reading the character back gives
/// the same three trits.
pub proof fn lemma_tryte_char_of_trits(t0: i8, t1: i8, t2: i8)
    requires
        is_trit(t0),
        is_trit(t1),
        is_trit(t2),
    ensures
        -13 <= tryte_val(t0, t1, t2) <= 13,
        is_tryte_char(tryte_char(tryte_val(t0, t1, t2))),
        tryte_char_trits(tryte_char(tryte_val(t0, t1, t2))) =~= seq![t0, t1, t2],
{
}

/// Reading a tryte character as trits and re-encoding those trits gives the
/// same character back.
pub proof fn lemma_trits_of_tryte_char(c: char)
    requires
        is_tryte_char(c),
    ensures
        tryte_char_trits(c).len() == 3,
        valid_trits(tryte_char_trits(c)),
        tryte_char(
            tryte_val(tryte_char_trits(c)[0], tryte_char_trits(c)[1], tryte_char_trits(c)[2]),
        ) == c,
{
}

/// Round trip: a valid trit sequence survives encoding to trytes and
/// decoding back unchanged.
pub proof fn lemma_trits_round_trip(s: Seq<i8>)
    requires
        valid_trits(s),
        s.len() % 3 == 0,
    ensures
        trytes_to_trits(trits_to_trytes(s)) =~= s,
{
    let tr = trits_to_trytes(s);
    assert forall|i: int| 0 <= i < s.len() implies trytes_to_trits(tr)[i] == s[i] by {
        let g = i / 3;
        let k = i % 3;
        assert(i == 3 * g + k);
        assert(0 <= g < tr.len());
        lemma_tryte_char_of_trits(s[3 * g], s[3 * g + 1], s[3 * g + 2]);
        assert(tryte_char_trits(tr[g]) =~= seq![s[3 * g], s[3 * g + 1], s[3 * g + 2]]);
    }
}

/// Round trip in the other direction: a tryte string survives decoding to
/// trits and re-encoding unchanged, and the decoded trits are valid.
pub proof fn lemma_trytes_round_trip(s: Seq<char>)
    requires
        forall|i: int| 0 <= i < s.len() ==> is_tryte_char(#[trigger] s[i]),
    ensures
        valid_trits(trytes_to_trits(s)),
        trits_to_trytes(trytes_to_trits(s)) =~= s,
{
    let tr = trytes_to_trits(s);
    assert forall|i: int| 0 <= i < tr.len() implies is_trit(tr[i]) by {
        lemma_trits_of_tryte_char(s[i / 3]);
    }
    assert forall|g: int| 0 <= g < s.len() implies trits_to_trytes(tr)[g] == s[g] by {
        lemma_trits_of_tryte_char(s[g]);
        assert(tr[3 * g] == tryte_char_trits(s[g])[0]);
        assert(tr[3 * g + 1] == tryte_char_trits(s[g])[1]);
        assert(tr[3 * g + 2] == tryte_char_trits(s[g])[2]);
    }
}

/// The tryte-alphabet character for three trits.
fn tryte_char_of(t0: i8, t1: i8, t2: i8) -> (c: char)
    requires
        is_trit(t0),
        is_trit(t1),
        is_trit(t2),
    ensures
        c == tryte_char(tryte_val(t0, t1, t2)),
{
    let v: i32 = t0 as i32 + 3 * (t1 as i32) + 9 * (t2 as i32);
    if v == 0 {
        '9'
    } else if v == 1 {
        'A'
    } else if v == 2 {
        'B'
    } else if v == 3 {
        'C'
    } else if v == 4 {
        'D'
    } else if v == 5 {
        'E'
    } else if v == 6 {
        'F'
    } else if v == 7 {
        'G'
    } else if v == 8 {
        'H'
    } else if v == 9 {
        'I'
    } else if v == 10 {
        'J'
    } else if v == 11 {
        'K'
    } else if v == 12 {
        'L'
    } else if v == 13 {
        'M'
    } else if v == -13 {
        'N'
    } else if v == -12 {
        'O'
    } else if v == -11 {
        'P'
    } else if v == -10 {
        'Q'
    } else if v == -9 {
        'R'
    } else if v == -8 {
        'S'
    } else if v == -7 {
        'T'
    } else if v == -6 {
        'U'
    } else if v == -5 {
        'V'
    } else if v == -4 {
        'W'
    } else if v == -3 {
        'X'
    } else if v == -2 {
        'Y'
    } else {
        'Z'
    }
}

/// The three trits of a tryte-alphabet character, or `None` for a character
/// outside the alphabet.
fn trits_of_tryte_char(c: char) -> (r: Option<(i8, i8, i8)>)
    ensures
        r is Some <==> is_tryte_char(c),
        r matches Some(t) ==> seq![t.0, t.1, t.2] =~= tryte_char_trits(c),
{
    if c == '9' {
        Some((0, 0, 0))
    } else if c == 'A' {
        Some((1, 0, 0))
    } else if c == 'B' {
        Some((-1, 1, 0))
    } else if c == 'C' {
        Some((0, 1, 0))
    } else if c == 'D' {
        Some((1, 1, 0))
    } else if c == 'E' {
        Some((-1, -1, 1))
    } else if c == 'F' {
        Some((0, -1, 1))
    } else if c == 'G' {
        Some((1, -1, 1))
    } else if c == 'H' {
        Some((-1, 0, 1))
    } else if c == 'I' {
        Some((0, 0, 1))
    } else if c == 'J' {
        Some((1, 0, 1))
    } else if c == 'K' {
        Some((-1, 1, 1))
    } else if c == 'L' {
        Some((0, 1, 1))
    } else if c == 'M' {
        Some((1, 1, 1))
    } else if c == 'N' {
        Some((-1, -1, -1))
    } else if c == 'O' {
        Some((0, -1, -1))
    } else if c == 'P' {
        Some((1, -1, -1))
    } else if c == 'Q' {
        Some((-1, 0, -1))
    } else if c == 'R' {
        Some((0, 0, -1))
    } else if c == 'S' {
        Some((1, 0, -1))
    } else if c == 'T' {
        Some((-1, 1, -1))
    } else if c == 'U' {
        Some((0, 1, -1))
    } else if c == 'V' {
        Some((1, 1, -1))
    } else if c == 'W' {
        Some((-1, -1, 0))
    } else if c == 'X' {
        Some((0, -1, 0))
    } else if c == 'Y' {
        Some((1, -1, 0))
    } else if c == 'Z' {
        Some((-1, 0, 0))
    } else {
        None
    }
}

/// Encode a trit buffer whose length is a multiple of three as tryte
/// characters.
pub fn trits_to_tryte_chars(trits: &Vec<i8>) -> (r: Vec<char>)
    requires
        valid_trits(trits@),
        trits@.len() % 3 == 0,
    ensures
        r@ =~= trits_to_trytes(trits@),
{
    let n = trits.len() / 3;
    proof {
        assert(trits@.len() == 3 * (n as int));
    }
    let mut out: Vec<char> = Vec::new();
    for g in 0..n
        invariant
            trits@.len() == 3 * n,
            n == trits@.len() / 3,
            trits@.len() % 3 == 0,
            trits@.len() <= usize::MAX,
            valid_trits(trits@),
            out@.len() == g,
            forall|j: int| 0 <= j < g ==> out@[j] == trits_to_trytes(trits@)[j],
    {
        let c = tryte_char_of(trits[3 * g], trits[3 * g + 1], trits[3 * g + 2]);
        out.push(c);
    }
    out
}

/// Decode tryte characters into trits; fails exactly when some character is
/// outside the tryte alphabet.
pub fn tryte_chars_to_trits(chars: &Vec<char>) -> (r: Result<Vec<i8>, Error>)
    ensures
        r is Ok <==> (forall|i: int| 0 <= i < chars@.len() ==> is_tryte_char(#[trigger] chars@[i])),
        r matches Ok(v) ==> v@ =~= trytes_to_trits(chars@) && valid_trits(v@) && v@.len() == 3
            * chars@.len(),
        r matches Err(e) ==> e == Error::MigrationError(MigrationRule::InvalidTryteString),
{
    let mut out: Vec<i8> = Vec::new();
    let n = chars.len();
    for g in 0..n
        invariant
            n == chars@.len(),
            out@.len() == 3 * g,
            forall|i: int| 0 <= i < g ==> is_tryte_char(#[trigger] chars@[i]),
            forall|j: int| 0 <= j < 3 * g ==> out@[j] == trytes_to_trits(chars@)[j],
            valid_trits(out@),
    {
        match trits_of_tryte_char(chars[g]) {
            Some(t) => {
                proof {
                    lemma_trits_of_tryte_char(chars@[g as int]);
                }
                out.push(t.0);
                out.push(t.1);
                out.push(t.2);
                proof {
                    assert forall|j: int| 0 <= j < 3 * (g + 1) implies out@[j] == trytes_to_trits(
                        chars@,
                    )[j] by {
                        if j >= 3 * g {
                            let k = j % 3;
                            assert(j / 3 == g && j == 3 * (g as int) + k);
                            assert(out@[j] == tryte_char_trits(chars@[g as int])[k]);
                        }
                    }
                }
            },
            None => {
                return Err(Error::MigrationError(MigrationRule::InvalidTryteString));
            },
        }
    }
    Ok(out)
}

/// Three to the power `n`.
pub open spec fn pow3(n: nat) -> int
    decreases n,
{
    if n == 0 {
        1
    } else {
        3 * pow3((n - 1) as nat)
    }
}

/// The integer value of a trit sequence, least significant trit first.
pub open spec fn trits_int(s: Seq<i8>) -> int
    decreases s.len(),
{
    if s.len() == 0 {
        0
    } else {
        s[0] + 3 * trits_int(s.drop_first())
    }
}

pub proof fn lemma_pow3_pos(n: nat)
    ensures
        pow3(n) >= 1,
    decreases n,
{
    if n > 0 {
        lemma_pow3_pos((n - 1) as nat);
    }
}

pub proof fn lemma_pow3_mono(m: nat, n: nat)
    requires
        m <= n,
    ensures
        pow3(m) <= pow3(n),
    decreases n,
{
    if m < n {
        lemma_pow3_mono(m, (n - 1) as nat);
        lemma_pow3_pos((n - 1) as nat);
    }
}

/// Appending a trit at the most significant end adds its value scaled by
/// the power of three of the position.
pub proof fn lemma_trits_int_push(s: Seq<i8>, d: i8)
    ensures
        trits_int(s.push(d)) == trits_int(s) + pow3(s.len()) * d,
    decreases s.len(),
{
    if s.len() == 0 {
        assert(s.push(d).len() == 1);
        assert(s.push(d)[0] == d);
        assert(s.push(d).drop_first() =~= Seq::<i8>::empty());
        assert(trits_int(Seq::<i8>::empty()) == 0);
        assert(trits_int(s.push(d)) == d + 3 * trits_int(s.push(d).drop_first()));
        assert(pow3(s.len()) == 1);
    } else {
        assert(s.push(d).drop_first() =~= s.drop_first().push(d));
        lemma_trits_int_push(s.drop_first(), d);
        assert(trits_int(s.push(d)) == s[0] + 3 * trits_int(s.drop_first().push(d)));
        assert(s.drop_first().len() == s.len() - 1);
        assert(pow3(s.len()) == 3 * pow3(s.drop_first().len()));
        assert(3 * (trits_int(s.drop_first()) + pow3(s.drop_first().len()) * d) == 3 * trits_int(
            s.drop_first(),
        ) + pow3(s.len()) * d) by (nonlinear_arith)
            requires
                pow3(s.len()) == 3 * pow3(s.drop_first().len()),
        ;
    }
}

/// Pointwise negation of a trit sequence negates its value.
pub proof fn lemma_trits_int_neg(s: Seq<i8>, t: Seq<i8>)
    requires
        t.len() == s.len(),
        forall|i: int| 0 <= i < s.len() ==> t[i] == -s[i],
    ensures
        trits_int(t) == -trits_int(s),
    decreases s.len(),
{
    if s.len() > 0 {
        lemma_trits_int_neg(s.drop_first(), t.drop_first());
    }
}

/// Encode a magnitude and sign as a fixed-width balanced-ternary trit
/// buffer, least significant trit first.
pub fn encode_trits(negative: bool, mag: u64, width: usize) -> (r: Vec<i8>)
    requires
        2 * mag < pow3(width as nat),
    ensures
        r@.len() == width,
        valid_trits(r@),
        trits_int(r@) == if negative {
            -(mag as int)
        } else {
            mag as int
        },
{
    let mut digits: Vec<i8> = Vec::new();
    let mut x: u64 = mag;
    proof {
        lemma_pow3_pos(width as nat);
    }
    for i in 0..width
        invariant
            digits@.len() == i,
            valid_trits(digits@),
            2 * mag < pow3(width as nat),
            trits_int(digits@) + pow3(i as nat) * x == mag,
            2 * x * pow3(i as nat) <= 2 * mag + pow3(i as nat) - 1,
    {
        let ghost p = pow3(i as nat);
        proof {
            lemma_pow3_pos(i as nat);
        }
        let m = x % 3;
        let d: i8;
        let x2: u64;
        if m == 2 {
            d = -1;
            x2 = x / 3 + 1;
        } else {
            d = m as i8;
            x2 = x / 3;
        }
        proof {
            assert(d + 3 * x2 == x);
            lemma_trits_int_push(digits@, d);
            assert(p * d + (3 * p) * x2 == p * x) by (nonlinear_arith)
                requires
                    d + 3 * x2 == x,
            ;
            assert(2 * x2 * (3 * p) <= 2 * mag + 3 * p - 1) by (nonlinear_arith)
                requires
                    d + 3 * x2 == x,
                    2 * x * p <= 2 * mag + p - 1,
                    p >= 1,
                    -1 <= d <= 1,
                    x2 >= 0,
            ;
        }
        digits.push(d);
        x = x2;
    }
    proof {
        let p = pow3(width as nat);
        assert(x == 0) by (nonlinear_arith)
            requires
                2 * x * p <= 2 * mag + p - 1,
                2 * mag < p,
                p >= 1,
                x >= 0,
        ;
    }
    if negative {
        let mut neg: Vec<i8> = Vec::new();
        let mut j: usize = 0;
        while j < width
            invariant
                digits@.len() == width,
                valid_trits(digits@),
                neg@.len() == j,
                j <= width,
                forall|k: int| 0 <= k < j ==> neg@[k] == -digits@[k],
                valid_trits(neg@),
            decreases width - j,
        {
            let t = digits[j];
            neg.push(-t);
            j += 1;
        }
        proof {
            lemma_trits_int_neg(digits@, neg@);
        }
        neg
    } else {
        digits
    }
}

/// Append a copy of `src` to `dst`.
pub fn push_trits(dst: &mut Vec<i8>, src: &Vec<i8>)
    ensures
        final(dst)@ =~= old(dst)@ + src@,
{
    let n = src.len();
    for i in 0..n
        invariant
            n == src@.len(),
            dst@ =~= old(dst)@ + src@.subrange(0, i as int),
    {
        dst.push(src[i]);
        proof {
            assert(src@.subrange(0, i + 1) =~= src@.subrange(0, i as int).push(src@[i as int]));
        }
    }
}

/// A copy of one span of a trit buffer.
pub fn copy_trits_range(v: &Vec<i8>, start: usize, end: usize) -> (r: Vec<i8>)
    requires
        start <= end,
        end <= v@.len(),
    ensures
        r@ =~= v@.subrange(start as int, end as int),
{
    let mut out: Vec<i8> = Vec::new();
    let n = v.len();
    for i in start..end
        invariant
            start <= end <= v@.len(),
            n == v@.len(),
            out@ =~= v@.subrange(start as int, i as int),
    {
        out.push(v[i]);
        proof {
            assert(v@.subrange(start as int, i + 1) =~= v@.subrange(start as int, i as int).push(
                v@[i as int],
            ));
        }
    }
    out
}

/// A buffer of `n` zero trits.
pub fn zero_trits(n: usize) -> (r: Vec<i8>)
    ensures
        r@.len() == n,
        valid_trits(r@),
        forall|i: int| 0 <= i < n ==> r@[i] == 0i8,
        trits_int(r@) == 0,
{
    let mut out: Vec<i8> = Vec::new();
    for i in 0..n
        invariant
            out@.len() == i,
            forall|j: int| 0 <= j < i ==> out@[j] == 0i8,
            trits_int(out@) == 0,
    {
        proof {
            lemma_trits_int_push(out@, 0);
        }
        out.push(0);
    }
    out
}

} // verus!
