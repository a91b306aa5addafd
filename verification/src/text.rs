//! Status texts: searching for a marker inside a status and rendering
//! fixed-point readings with one decimal place.
use vstd::prelude::*;

verus! {

/// `pat` occurs in `s` as a contiguous run of characters.
pub open spec fn has_text(s: Seq<char>, pat: Seq<char>) -> bool {
    exists|i: int| 0 <= i && i + pat.len() <= s.len() && #[trigger] s.subrange(i, i + pat.len()) == pat
}

/// A run of `pat` found at position `i` shows that `s` contains it.
pub proof fn lemma_text_at(s: Seq<char>, pat: Seq<char>, i: int)
    requires
        0 <= i,
        i + pat.len() <= s.len(),
        s.subrange(i, i + pat.len()) == pat,
    ensures
        has_text(s, pat),
{
}

/// A text that contains `big` contains every prefix of it.
pub proof fn lemma_text_prefix(s: Seq<char>, big: Seq<char>, small: Seq<char>)
    requires
        has_text(s, big),
        small.len() <= big.len(),
        big.subrange(0, small.len() as int) == small,
    ensures
        has_text(s, small),
{
    let i = choose|i: int| 0 <= i && i + big.len() <= s.len() && #[trigger] s.subrange(i, i + big.len()) == big;
    assert(s.subrange(i, i + small.len()) =~= big.subrange(0, small.len() as int));
    lemma_text_at(s, small, i);
}

/// Whether the text `s` contains `pat`; the empty pattern occurs everywhere.
pub fn text_contains(s: &str, pat: &str) -> (found: bool)
    ensures
        found == has_text(s@, pat@),
{
    let n = s.unicode_len();
    let m = pat.unicode_len();
    if m > n {
        proof {
            assert forall|i: int| !(0 <= i && i + pat@.len() <= s@.len() && #[trigger] s@.subrange(i, i + pat@.len()) == pat@) by {}
        }
        return false;
    }
    let mut i: usize = 0;
    while i <= n - m
        invariant
            n == s@.len(),
            m == pat@.len(),
            m <= n,
            i <= n - m + 1,
            forall|k: int| 0 <= k < i ==> #[trigger] s@.subrange(k, k + m) != pat@,
        decreases n - m + 1 - i,
    {
        let mut j: usize = 0;
        let mut same = true;
        while j < m
            invariant
                n == s@.len(),
                m == pat@.len(),
                i + m <= n,
                j <= m,
                same == (forall|t: int| 0 <= t < j ==> s@[i + t] == pat@[t]),
            decreases m - j,
        {
            if s.get_char(i + j) != pat.get_char(j) {
                same = false;
            }
            j = j + 1;
        }
        if same {
            proof {
                assert(s@.subrange(i as int, i + m) =~= pat@);
            }
            return true;
        }
        proof {
            let t = choose|t: int| 0 <= t < m && s@[i + t] != pat@[t];
            assert(s@.subrange(i as int, i + m)[t] != pat@[t]);
        }
        i = i + 1;
    }
    proof {
        assert forall|k: int| !(0 <= k && k + pat@.len() <= s@.len() && #[trigger] s@.subrange(k, k + pat@.len()) == pat@) by {
            if 0 <= k && k + pat@.len() <= s@.len() {
                assert(k < i);
            }
        }
    }
    false
}

/// The decimal digit character for `d` (taken modulo ten).
pub open spec fn digit_char(d: int) -> char {
    let r = d % 10;
    if r == 0 { '0' }
    else if r == 1 { '1' }
    else if r == 2 { '2' }
    else if r == 3 { '3' }
    else if r == 4 { '4' }
    else if r == 5 { '5' }
    else if r == 6 { '6' }
    else if r == 7 { '7' }
    else if r == 8 { '8' }
    else { '9' }
}

/// Decimal notation of a natural number, most significant digit first,
/// without leading zeros.
pub open spec fn decimal_text(n: nat) -> Seq<char>
    decreases n,
{
    if n < 10 {
        seq![digit_char(n as int)]
    } else {
        decimal_text(n / 10).push(digit_char(n as int))
    }
}

/// Magnitude of a reading in millionths, rounded to tenths; an exact half
/// goes to the even tenth, as std's `{:.1}` does on a value that it holds
/// exactly.
pub open spec fn rounded_tenths(v: int) -> nat {
    let a: int = if v < 0 { -v } else { v };
    let t: int = a / 100_000;
    let r: int = a % 100_000;
    (if r > 50_000 || (r == 50_000 && t % 2 == 1) { t + 1 } else { t }) as nat
}

/// A reading given in millionths, written with exactly one decimal place;
/// a negative reading keeps its minus sign even when it rounds to zero.
pub open spec fn tenths_text(v: int) -> Seq<char> {
    let q = rounded_tenths(v);
    let sign: Seq<char> = if v < 0 { seq!['-'] } else { Seq::empty() };
    sign + decimal_text(q / 10) + seq!['.', digit_char(q as int)]
}

fn digit_str(d: u64) -> (s: &'static str)
    requires
        d < 10,
    ensures
        s@ == seq![digit_char(d as int)],
{
    if d == 0 {
        proof { reveal_strlit("0"); }
        "0"
    } else if d == 1 {
        proof { reveal_strlit("1"); }
        "1"
    } else if d == 2 {
        proof { reveal_strlit("2"); }
        "2"
    } else if d == 3 {
        proof { reveal_strlit("3"); }
        "3"
    } else if d == 4 {
        proof { reveal_strlit("4"); }
        "4"
    } else if d == 5 {
        proof { reveal_strlit("5"); }
        "5"
    } else if d == 6 {
        proof { reveal_strlit("6"); }
        "6"
    } else if d == 7 {
        proof { reveal_strlit("7"); }
        "7"
    } else if d == 8 {
        proof { reveal_strlit("8"); }
        "8"
    } else {
        proof { reveal_strlit("9"); }
        "9"
    }
}

/// Appends the decimal notation of `n`.
pub fn append_decimal(out: &mut String, n: u64)
    ensures
        final(out)@ == old(out)@ + decimal_text(n as nat),
    decreases n,
{
    if n >= 10 {
        append_decimal(out, n / 10);
    }
    out.append(digit_str(n % 10));
    proof {
        assert(digit_char((n % 10) as int) == digit_char(n as int));
        if n >= 10 {
            assert(decimal_text(n as nat) == decimal_text((n / 10) as nat).push(digit_char(n as int)));
        }
    }
}

/// Appends `v` (in millionths) with one decimal place, as `tenths_text` says.
pub fn append_tenths(out: &mut String, v: i64)
    ensures
        final(out)@ == old(out)@ + tenths_text(v as int),
{
    let a: u64 = if v < 0 { (0i128 - v as i128) as u64 } else { v as u64 };
    let t: u64 = a / 100_000;
    let r: u64 = a % 100_000;
    let q: u64 = if r > 50_000 || (r == 50_000 && t % 2 == 1) { t + 1 } else { t };
    assert(q == rounded_tenths(v as int));
    let ghost start = out@;
    if v < 0 {
        proof { reveal_strlit("-"); }
        out.append("-");
    }
    append_decimal(out, q / 10);
    proof { reveal_strlit("."); }
    out.append(".");
    out.append(digit_str(q % 10));
    proof {
        assert(digit_char((q % 10) as int) == digit_char(q as int));
        let sign: Seq<char> = if v < 0 { seq!['-'] } else { Seq::empty() };
        assert(out@ =~= start + (sign + decimal_text((q / 10) as nat) + seq!['.', digit_char(q as int)]));
    }
}

} // verus!
