//! JSON codec for the wireless configuration surface.
//!
//! The records travel as flat JSON objects whose values are plain integers
//! in the crate's fixed-point milli-units, plus `true`/`false`/`null`.
//! Unknown fields are ignored; missing fields keep their prior values.  The
//! decoder's behaviour is pinned exactly by spec-level parsers, and the
//! encoder's output by spec-level byte sequences.

use vstd::prelude::*;
use crate::espresso::ShotConfig;
use crate::machine::MachineConfigWrite;
use crate::pump::TARGET_LIMIT;
use crate::state::EspressoStateSnapshot;

verus! {

/// A wireless write that does not decode is discarded with this error.
#[derive(Clone, Copy, Debug, PartialEq, Eq, Structural)]
pub enum JsonError {
    Malformed,
}

/// Largest value the decoder accepts for any numeric field.
pub const JSON_UINT_LIMIT: u64 = 999_999_999_999;

pub open spec fn is_ws(b: u8) -> bool {
    b == 32 || b == 9 || b == 10 || b == 13
}

pub open spec fn is_digit(b: u8) -> bool {
    48 <= b <= 57
}

/// First non-whitespace position at or after `i`.
pub open spec fn spec_skip_ws(s: Seq<u8>, i: int) -> int
    decreases s.len() - i,
{
    if 0 <= i < s.len() && is_ws(s[i]) {
        spec_skip_ws(s, i + 1)
    } else {
        i
    }
}

/// Advances past whitespace.
pub fn skip_ws(s: &[u8], i: usize) -> (j: usize)
    requires
        i <= s@.len(),
    ensures
        j == spec_skip_ws(s@, i as int),
        i <= j <= s@.len(),
{
    let mut j: usize = i;
    loop
        invariant
            i <= j <= s@.len(),
            spec_skip_ws(s@, i as int) == spec_skip_ws(s@, j as int),
        decreases s@.len() - j,
    {
        if j == s.len() {
            return j;
        }
        let b = s[j];
        if !(b == 32 || b == 9 || b == 10 || b == 13) {
            return j;
        }
        j = j + 1;
    }
}

/// First position at or after `i` whose byte is not a digit.
pub open spec fn spec_digit_run_end(s: Seq<u8>, i: int) -> int
    decreases s.len() - i,
{
    if 0 <= i < s.len() && is_digit(s[i]) {
        spec_digit_run_end(s, i + 1)
    } else {
        i
    }
}

pub proof fn lemma_digit_run_bounds(s: Seq<u8>, i: int)
    requires
        0 <= i <= s.len(),
    ensures
        i <= spec_digit_run_end(s, i) <= s.len(),
    decreases s.len() - i,
{
    if i < s.len() && is_digit(s[i]) {
        lemma_digit_run_bounds(s, i + 1);
    }
}

/// The decimal digits of `n`, most significant first.
pub open spec fn spec_digits(n: nat) -> Seq<u8>
    decreases n,
{
    if n < 10 {
        seq![(48 + n) as u8]
    } else {
        spec_digits(n / 10).push((48 + n % 10) as u8)
    }
}

/// The number a run of digit bytes denotes.
pub open spec fn spec_digits_value(s: Seq<u8>) -> int
    decreases s.len(),
{
    if s.len() == 0 {
        0
    } else {
        spec_digits_value(s.drop_last()) * 10 + (s.last() - 48)
    }
}

/// Reading back the digits of `n` yields `n`: the decimal integer codec
/// round-trips.
pub proof fn lemma_digits_roundtrip(n: nat)
    ensures
        spec_digits_value(spec_digits(n)) == n,
    decreases n,
{
    if n < 10 {
        let s = spec_digits(n);
        assert(s.drop_last() =~= Seq::<u8>::empty());
        assert(spec_digits_value(s) == spec_digits_value(s.drop_last()) * 10 + (s.last() - 48));
        assert(s.last() == (48 + n) as u8);
        assert(spec_digits_value(spec_digits(n)) == n);
    } else {
        lemma_digits_roundtrip(n / 10);
        let d = spec_digits(n / 10);
        let s = spec_digits(n);
        vstd::arithmetic::div_mod::lemma_mod_bound(n as int, 10);
        assert(s == d.push((48 + n % 10) as u8));
        assert(s.drop_last() =~= d);
        assert(s.last() == (48 + n % 10) as u8);
        assert((((48 + n % 10) as u8) as int) == 48 + n % 10);
        assert(spec_digits_value(d) == n / 10);
        assert(spec_digits_value(s) == spec_digits_value(s.drop_last()) * 10 + (s.last() - 48));
        assert(spec_digits_value(s) == (n / 10) * 10 + n % 10);
        vstd::arithmetic::div_mod::lemma_fundamental_div_mod(n as int, 10);
        assert(n == 10 * (n / 10) + n % 10);
        assert(spec_digits_value(spec_digits(n)) == n);
    }
}

/// Ten to the `k`.
pub open spec fn pow10(k: nat) -> nat
    decreases k,
{
    if k == 0 {
        1
    } else {
        10 * pow10((k - 1) as nat)
    }
}

pub proof fn lemma_pow10_12()
    ensures
        pow10(12nat) == 1_000_000_000_000,
        pow10(11nat) == 100_000_000_000,
{
    reveal_with_fuel(pow10, 13);
}

/// `10^a <= 10^b` when `a <= b`.
pub proof fn lemma_pow10_le(a: nat, b: nat)
    requires
        a <= b,
    ensures
        pow10(a) <= pow10(b),
    decreases b,
{
    if a < b {
        lemma_pow10_le(a, (b - 1) as nat);
        assert(pow10(b) == 10 * pow10((b - 1) as nat));
        assert(pow10((b - 1) as nat) <= 10 * pow10((b - 1) as nat)) by (nonlinear_arith)
            requires
                pow10((b - 1) as nat) >= 0,
        ;
    }
}


/// A digit run denotes a value below `10^len`.
pub proof fn lemma_digits_value_small(s: Seq<u8>)
    requires
        forall|k: int| 0 <= k < s.len() ==> is_digit(#[trigger] s[k]),
    ensures
        0 <= spec_digits_value(s) < pow10(s.len()),
    decreases s.len(),
{
    if s.len() == 0 {
    } else {
        let d = s.drop_last();
        assert forall|k: int| 0 <= k < d.len() implies is_digit(#[trigger] d[k]) by {
            assert(d[k] == s[k]);
        }
        lemma_digits_value_small(d);
        let v = spec_digits_value(d);
        let p = pow10(d.len());
        assert(pow10(s.len()) == 10 * p);
        assert(0 <= v * 10 + (s.last() - 48) < 10 * p) by (nonlinear_arith)
            requires
                0 <= v < p,
                0 <= s.last() - 48 <= 9,
        ;
    }
}

/// Appends the decimal digits of `n`.
pub fn push_uint(out: &mut Vec<u8>, n: u64)
    ensures
        final (out)@ == old(out)@ + spec_digits(n as nat),
    decreases n,
{
    if n < 10 {
        out.push((48 + n) as u8);
        proof {
            assert(out@ =~= old(out)@ + spec_digits(n as nat));
        }
    } else {
        push_uint(out, n / 10);
        out.push((48 + (n % 10)) as u8);
        proof {
            assert(out@ =~= old(out)@ + spec_digits(n as nat));
        }
    }
}

/// Parse result of an unsigned decimal at `i`: the value and the position
/// after its last digit.  Rejected: an empty run, a superfluous leading
/// zero, more than twelve digits.
pub open spec fn spec_parse_uint(s: Seq<u8>, i: int) -> Option<(int, int)> {
    let j = spec_digit_run_end(s, i);
    if j == i {
        Option::None
    } else if s[i] == 48 && j > i + 1 {
        Option::None
    } else if j - i > 12 {
        Option::None
    } else {
        Option::Some((spec_digits_value(s.subrange(i, j)), j))
    }
}

/// Parses an unsigned decimal integer.
pub fn parse_uint(s: &[u8], i: usize) -> (r: Option<(u64, usize)>)
    requires
        i <= s@.len(),
    ensures
        match r {
            Option::Some((v, j)) => spec_parse_uint(s@, i as int) == Option::Some(
                (v as int, j as int),
            ) && i < j <= s@.len() && v <= JSON_UINT_LIMIT,
            Option::None => spec_parse_uint(s@, i as int).is_none(),
        },
{
    proof {
        lemma_digit_run_bounds(s@, i as int);
    }
    let mut j: usize = i;
    loop
        invariant
            i <= j <= s@.len(),
            spec_digit_run_end(s@, i as int) == spec_digit_run_end(s@, j as int),
            forall|k: int| i <= k < j ==> is_digit(#[trigger] s@[k]),
        ensures
            i <= j <= s@.len(),
            spec_digit_run_end(s@, i as int) == j as int,
            forall|k: int| i <= k < j ==> is_digit(#[trigger] s@[k]),
        decreases s@.len() - j,
    {
        if j == s.len() {
            break ;
        }
        let b = s[j];
        if !(48 <= b && b <= 57) {
            break ;
        }
        j = j + 1;
    }
    if j == i {
        return Option::None;
    }
    if s[i] == 48 && j > i + 1 {
        return Option::None;
    }
    if j - i > 12 {
        return Option::None;
    }
    let mut v: u64 = 0;
    let mut k: usize = i;
    proof {
        assert(s@.subrange(i as int, i as int) =~= Seq::<u8>::empty());
        lemma_pow10_12();
    }
    while k < j
        invariant
            i <= k <= j <= s@.len(),
            j - i <= 12,
            forall|t: int| i <= t < j ==> is_digit(#[trigger] s@[t]),
            v == spec_digits_value(s@.subrange(i as int, k as int)),
            v < pow10((k - i) as nat),
            pow10(12nat) == 1_000_000_000_000,
            pow10(11nat) == 100_000_000_000,
        decreases j - k,
    {
        let b = s[k];
        proof {
            lemma_pow10_le((k - i) as nat, 11nat);
            assert(v < 100_000_000_000);
        }
        v = v * 10 + ((b - 48) as u64);
        k = k + 1;
        proof {
            let pre = s@.subrange(i as int, k - 1);
            let cur = s@.subrange(i as int, k as int);
            assert(cur.drop_last() =~= pre);
            assert(cur.last() == s@[k - 1]);
            assert(pow10((k - i) as nat) == 10 * pow10((k - 1 - i) as nat));
        }
    }
    proof {
        assert(s@.subrange(i as int, j as int) == s@.subrange(i as int, k as int));
        lemma_pow10_le((j - i) as nat, 12nat);
    }
    Option::Some((v, j))
}

/// Position after the closing quote of a string whose opening quote sits at
/// `i - 1`.  A backslash skips the following byte; the scanner does not
/// unescape.
pub open spec fn spec_scan_string(s: Seq<u8>, i: int) -> Option<int>
    decreases s.len() - i,
{
    if i < 0 || i >= s.len() {
        Option::None
    } else if s[i] == 34 {
        Option::Some(i + 1)
    } else if s[i] == 92 {
        if i + 1 >= s.len() {
            Option::None
        } else {
            spec_scan_string(s, i + 2)
        }
    } else {
        spec_scan_string(s, i + 1)
    }
}

pub proof fn lemma_scan_string_bounds(s: Seq<u8>, i: int)
    requires
        0 <= i <= s.len(),
    ensures
        match spec_scan_string(s, i) {
            Option::Some(j) => i < j <= s.len(),
            Option::None => true,
        },
    decreases s.len() - i,
{
    if i < s.len() && s[i] == 92 && i + 1 < s.len() {
        lemma_scan_string_bounds(s, i + 2);
    } else if i < s.len() && s[i] != 34 && s[i] != 92 {
        lemma_scan_string_bounds(s, i + 1);
    }
}

/// Scans to the byte after a string's closing quote.
pub fn scan_string(s: &[u8], i: usize) -> (r: Option<usize>)
    requires
        i <= s@.len(),
    ensures
        match r {
            Option::Some(j) => spec_scan_string(s@, i as int) == Option::Some(j as int) && i < j
                <= s@.len(),
            Option::None => spec_scan_string(s@, i as int).is_none(),
        },
{
    proof {
        lemma_scan_string_bounds(s@, i as int);
    }
    let mut j: usize = i;
    loop
        invariant
            i <= j <= s@.len(),
            spec_scan_string(s@, i as int) == spec_scan_string(s@, j as int),
        decreases s@.len() - j,
    {
        if j >= s.len() {
            return Option::None;
        }
        let b = s[j];
        if b == 34 {
            proof {
                lemma_scan_string_bounds(s@, i as int);
            }
            return Option::Some(j + 1);
        }
        if b == 92 {
            if j + 1 >= s.len() {
                return Option::None;
            }
            j = j + 2;
        } else {
            j = j + 1;
        }
    }
}

/// A byte that ends a bare scalar: a comma, a closing brace or bracket, or
/// whitespace.
pub open spec fn is_scalar_end(b: u8) -> bool {
    b == 44 || b == 125 || b == 93 || is_ws(b)
}

/// First position at or after `i` that ends a bare scalar.
pub open spec fn spec_scan_scalar(s: Seq<u8>, i: int) -> int
    decreases s.len() - i,
{
    if 0 <= i < s.len() && !is_scalar_end(s[i]) {
        spec_scan_scalar(s, i + 1)
    } else {
        i
    }
}

/// Advances to the end of a bare scalar.
pub fn scan_scalar(s: &[u8], i: usize) -> (j: usize)
    requires
        i <= s@.len(),
    ensures
        j == spec_scan_scalar(s@, i as int),
        i <= j <= s@.len(),
{
    let mut j: usize = i;
    loop
        invariant
            i <= j <= s@.len(),
            spec_scan_scalar(s@, i as int) == spec_scan_scalar(s@, j as int),
        decreases s@.len() - j,
    {
        if j >= s.len() {
            return j;
        }
        let b = s[j];
        if b == 44 || b == 125 || b == 93 || b == 32 || b == 9 || b == 10 || b == 13 {
            return j;
        }
        j = j + 1;
    }
}

/// Position after a balanced object or array whose opening byte sat at
/// `i - 1`; `depth` open containers remain, `in_str` tells whether the
/// cursor is inside a string.
pub open spec fn spec_skip_struct(s: Seq<u8>, i: int, depth: int, in_str: bool) -> Option<int>
    decreases s.len() - i,
{
    if i < 0 || i >= s.len() {
        Option::None
    } else if in_str {
        if s[i] == 92 {
            if i + 1 >= s.len() {
                Option::None
            } else {
                spec_skip_struct(s, i + 2, depth, true)
            }
        } else if s[i] == 34 {
            spec_skip_struct(s, i + 1, depth, false)
        } else {
            spec_skip_struct(s, i + 1, depth, true)
        }
    } else if s[i] == 123 || s[i] == 91 {
        spec_skip_struct(s, i + 1, depth + 1, false)
    } else if s[i] == 125 || s[i] == 93 {
        if depth == 1 {
            Option::Some(i + 1)
        } else {
            spec_skip_struct(s, i + 1, depth - 1, false)
        }
    } else if s[i] == 34 {
        spec_skip_struct(s, i + 1, depth, true)
    } else {
        spec_skip_struct(s, i + 1, depth, false)
    }
}

pub proof fn lemma_skip_struct_bounds(s: Seq<u8>, i: int, depth: int, in_str: bool)
    requires
        0 <= i <= s.len(),
    ensures
        match spec_skip_struct(s, i, depth, in_str) {
            Option::Some(j) => i < j <= s.len(),
            Option::None => true,
        },
    decreases s.len() - i,
{
    if i < s.len() {
        if in_str {
            if s[i] == 92 {
                if i + 1 < s.len() {
                    lemma_skip_struct_bounds(s, i + 2, depth, true);
                }
            } else if s[i] == 34 {
                lemma_skip_struct_bounds(s, i + 1, depth, false);
            } else {
                lemma_skip_struct_bounds(s, i + 1, depth, true);
            }
        } else if s[i] == 123 || s[i] == 91 {
            lemma_skip_struct_bounds(s, i + 1, depth + 1, false);
        } else if s[i] == 125 || s[i] == 93 {
            if depth != 1 {
                lemma_skip_struct_bounds(s, i + 1, depth - 1, false);
            }
        } else if s[i] == 34 {
            lemma_skip_struct_bounds(s, i + 1, depth, true);
        } else {
            lemma_skip_struct_bounds(s, i + 1, depth, false);
        }
    }
}

/// Skips one balanced object or array.
fn skip_struct(s: &[u8], i: usize) -> (r: Option<usize>)
    requires
        i <= s@.len(),
    ensures
        match r {
            Option::Some(j) => spec_skip_struct(s@, i as int, 1, false) == Option::Some(j as int)
                && i < j <= s@.len(),
            Option::None => spec_skip_struct(s@, i as int, 1, false).is_none(),
        },
{
    proof {
        lemma_skip_struct_bounds(s@, i as int, 1, false);
    }
    let mut j: usize = i;
    let mut depth: u128 = 1;
    let mut in_str: bool = false;
    loop
        invariant
            i <= j <= s@.len(),
            1 <= depth <= j - i + 1,
            spec_skip_struct(s@, i as int, 1, false) == spec_skip_struct(
                s@,
                j as int,
                depth as int,
                in_str,
            ),
        decreases s@.len() - j,
    {
        if j >= s.len() {
            return Option::None;
        }
        let b = s[j];
        if in_str {
            if b == 92 {
                if j + 1 >= s.len() {
                    return Option::None;
                }
                j = j + 2;
            } else {
                if b == 34 {
                    in_str = false;
                }
                j = j + 1;
            }
        } else if b == 123 || b == 91 {
            depth = depth + 1;
            j = j + 1;
        } else if b == 125 || b == 93 {
            if depth == 1 {
                proof {
                    lemma_skip_struct_bounds(s@, i as int, 1, false);
                }
                return Option::Some(j + 1);
            }
            depth = depth - 1;
            j = j + 1;
        } else {
            if b == 34 {
                in_str = true;
            }
            j = j + 1;
        }
    }
}

/// Position after any single JSON value starting at `i`.
pub open spec fn spec_skip_value(s: Seq<u8>, i: int) -> Option<int> {
    if i < 0 || i >= s.len() {
        Option::None
    } else if s[i] == 34 {
        spec_scan_string(s, i + 1)
    } else if s[i] == 123 || s[i] == 91 {
        spec_skip_struct(s, i + 1, 1, false)
    } else {
        let e = spec_scan_scalar(s, i);
        if e == i {
            Option::None
        } else {
            Option::Some(e)
        }
    }
}

/// Skips any single JSON value.
pub fn skip_value(s: &[u8], i: usize) -> (r: Option<usize>)
    requires
        i <= s@.len(),
    ensures
        match r {
            Option::Some(j) => spec_skip_value(s@, i as int) == Option::Some(j as int) && i < j
                <= s@.len(),
            Option::None => spec_skip_value(s@, i as int).is_none(),
        },
{
    if i >= s.len() {
        return Option::None;
    }
    let b = s[i];
    if b == 34 {
        scan_string(s, i + 1)
    } else if b == 123 || b == 91 {
        skip_struct(s, i + 1)
    } else {
        let e = scan_scalar(s, i);
        if e == i {
            Option::None
        } else {
            Option::Some(e)
        }
    }
}

/// Whether `lit` occurs at position `i` of `s`.
pub open spec fn spec_match_lit(s: Seq<u8>, i: int, lit: Seq<u8>) -> bool {
    0 <= i && i + lit.len() <= s.len() && s.subrange(i, i + lit.len() as int) == lit
}

/// Compares the bytes at `i` against `lit`.
pub fn match_lit(s: &[u8], i: usize, lit: &[u8]) -> (r: bool)
    requires
        i <= s@.len(),
    ensures
        r == spec_match_lit(s@, i as int, lit@),
{
    if s.len() - i < lit.len() {
        return false;
    }
    let mut k: usize = 0;
    loop
        invariant
            k <= lit@.len(),
            i + lit@.len() <= s@.len(),
            s@.len() <= usize::MAX,
            forall|t: int| 0 <= t < k ==> s@[i + t] == lit@[t],
        decreases lit@.len() - k,
    {
        if k == lit.len() {
            proof {
                assert(s@.subrange(i as int, i + lit@.len()) =~= lit@);
            }
            return true;
        }
        if s[i + k] != lit[k] {
            proof {
                assert(s@.subrange(i as int, i + lit@.len())[k as int] == s@[i + k]);
            }
            return false;
        }
        k = k + 1;
    }
}

/// `"grains_weight_in"`
pub const KEY_GRAINS_WEIGHT_IN: [u8; 16] = [103, 114, 97, 105, 110, 115, 95, 119, 101, 105, 103, 104, 116, 95, 105, 110];

/// `"espresso_yield"`
pub const KEY_ESPRESSO_YIELD: [u8; 14] = [101, 115, 112, 114, 101, 115, 115, 111, 95, 121, 105, 101, 108, 100];

/// `"override_final_weight"`
pub const KEY_OVERRIDE_FINAL_WEIGHT: [u8; 21] = [111, 118, 101, 114, 114, 105, 100, 101, 95, 102, 105, 110, 97, 108, 95, 119, 101, 105, 103, 104, 116];

/// `"override_shot_time"`
pub const KEY_OVERRIDE_SHOT_TIME: [u8; 18] = [111, 118, 101, 114, 114, 105, 100, 101, 95, 115, 104, 111, 116, 95, 116, 105, 109, 101];

/// `"pressure"`
pub const KEY_PRESSURE: [u8; 8] = [112, 114, 101, 115, 115, 117, 114, 101];

/// `"flow_restriction"`
pub const KEY_FLOW_RESTRICTION: [u8; 16] = [102, 108, 111, 119, 95, 114, 101, 115, 116, 114, 105, 99, 116, 105, 111, 110];

/// `"led"`
pub const KEY_LED: [u8; 3] = [108, 101, 100];

/// `"temperature"`
pub const KEY_TEMPERATURE: [u8; 11] = [116, 101, 109, 112, 101, 114, 97, 116, 117, 114, 101];

/// `"null"`
pub const LIT_NULL: [u8; 4] = [110, 117, 108, 108];

/// `"true"`
pub const LIT_TRUE: [u8; 4] = [116, 114, 117, 101];

/// `"false"`
pub const LIT_FALSE: [u8; 5] = [102, 97, 108, 115, 101];

/// Compares the bytes in `s[lo..hi]` against `key`.
pub fn key_eq(s: &[u8], lo: usize, hi: usize, key: &[u8]) -> (r: bool)
    requires
        lo <= hi <= s@.len(),
    ensures
        r == (s@.subrange(lo as int, hi as int) == key@),
{
    if hi - lo != key.len() {
        return false;
    }
    let mut k: usize = 0;
    loop
        invariant
            k <= key@.len(),
            lo + key@.len() == hi,
            hi <= s@.len(),
            forall|t: int| 0 <= t < k ==> s@[lo + t] == key@[t],
        decreases key@.len() - k,
    {
        if k == key.len() {
            proof {
                assert(s@.subrange(lo as int, hi as int) =~= key@);
            }
            return true;
        }
        if s[lo + k] != key[k] {
            proof {
                assert(s@.subrange(lo as int, hi as int)[k as int] == s@[lo + k]);
            }
            return false;
        }
        k = k + 1;
    }
}

/// One shot-config member's value: the updated record and the position after
/// the value.  Unknown keys have their value skipped unread.
pub open spec fn spec_shot_field(
    s: Seq<u8>,
    v: int,
    key: Seq<u8>,
    acc: ShotConfig,
) -> Option<(ShotConfig, int)> {
    if key == KEY_GRAINS_WEIGHT_IN@ {
        match spec_parse_uint(s, v) {
            Option::Some((n, e)) => if n <= TARGET_LIMIT {
                Option::Some((ShotConfig { grains_weight_in: n as i64, ..acc }, e))
            } else {
                Option::None
            },
            Option::None => Option::None,
        }
    } else if key == KEY_ESPRESSO_YIELD@ {
        if spec_match_lit(s, v, LIT_NULL@) {
            Option::Some((ShotConfig { espresso_yield: Option::None, ..acc }, v + 4))
        } else {
            match spec_parse_uint(s, v) {
                Option::Some((n, e)) => if n <= TARGET_LIMIT {
                    Option::Some(
                        (ShotConfig { espresso_yield: Option::Some(n as i64), ..acc }, e),
                    )
                } else {
                    Option::None
                },
                Option::None => Option::None,
            }
        }
    } else if key == KEY_OVERRIDE_FINAL_WEIGHT@ {
        if spec_match_lit(s, v, LIT_NULL@) {
            Option::Some((ShotConfig { override_final_weight: Option::None, ..acc }, v + 4))
        } else {
            match spec_parse_uint(s, v) {
                Option::Some((n, e)) => if n <= TARGET_LIMIT {
                    Option::Some(
                        (ShotConfig { override_final_weight: Option::Some(n as i64), ..acc }, e),
                    )
                } else {
                    Option::None
                },
                Option::None => Option::None,
            }
        }
    } else if key == KEY_OVERRIDE_SHOT_TIME@ {
        if spec_match_lit(s, v, LIT_NULL@) {
            Option::Some((ShotConfig { override_shot_time: Option::None, ..acc }, v + 4))
        } else {
            match spec_parse_uint(s, v) {
                Option::Some((n, e)) => if n <= 4_294_967_295 {
                    Option::Some(
                        (ShotConfig { override_shot_time: Option::Some(n as u32), ..acc }, e),
                    )
                } else {
                    Option::None
                },
                Option::None => Option::None,
            }
        }
    } else if key == KEY_PRESSURE@ {
        match spec_parse_uint(s, v) {
            Option::Some((n, e)) => if n <= TARGET_LIMIT {
                Option::Some((ShotConfig { pressure: n as i64, ..acc }, e))
            } else {
                Option::None
            },
            Option::None => Option::None,
        }
    } else if key == KEY_FLOW_RESTRICTION@ {
        match spec_parse_uint(s, v) {
            Option::Some((n, e)) => if n <= TARGET_LIMIT {
                Option::Some((ShotConfig { flow_restriction: n as i64, ..acc }, e))
            } else {
                Option::None
            },
            Option::None => Option::None,
        }
    } else {
        match spec_skip_value(s, v) {
            Option::Some(e) => Option::Some((acc, e)),
            Option::None => Option::None,
        }
    }
}

/// Parses one shot-config member's value.
fn shot_field(s: &[u8], v: usize, klo: usize, khi: usize, acc: &ShotConfig) -> (r: Option<
    (ShotConfig, usize),
>)
    requires
        klo <= khi <= s@.len(),
        v <= s@.len(),
        acc.wf(),
    ensures
        match r {
            Option::Some((acc2, e)) => spec_shot_field(
                s@,
                v as int,
                s@.subrange(klo as int, khi as int),
                *acc,
            ) == Option::Some((acc2, e as int)) && v < e <= s@.len() && acc2.wf(),
            Option::None => spec_shot_field(
                s@,
                v as int,
                s@.subrange(klo as int, khi as int),
                *acc,
            ).is_none(),
        },
{
    let slen = s.len();
    proof {
        assert(slen == s@.len());
    }
    if key_eq(s, klo, khi, KEY_GRAINS_WEIGHT_IN.as_slice()) {
        match parse_uint(s, v) {
            Option::Some((n, e)) => if n <= TARGET_LIMIT as u64 {
                Option::Some((ShotConfig { grains_weight_in: n as i64, ..*acc }, e))
            } else {
                Option::None
            },
            Option::None => Option::None,
        }
    } else if key_eq(s, klo, khi, KEY_ESPRESSO_YIELD.as_slice()) {
        if match_lit(s, v, LIT_NULL.as_slice()) {
            Option::Some((ShotConfig { espresso_yield: Option::None, ..*acc }, v + 4))
        } else {
            match parse_uint(s, v) {
                Option::Some((n, e)) => if n <= TARGET_LIMIT as u64 {
                    Option::Some(
                        (ShotConfig { espresso_yield: Option::Some(n as i64), ..*acc }, e),
                    )
                } else {
                    Option::None
                },
                Option::None => Option::None,
            }
        }
    } else if key_eq(s, klo, khi, KEY_OVERRIDE_FINAL_WEIGHT.as_slice()) {
        if match_lit(s, v, LIT_NULL.as_slice()) {
            Option::Some((ShotConfig { override_final_weight: Option::None, ..*acc }, v + 4))
        } else {
            match parse_uint(s, v) {
                Option::Some((n, e)) => if n <= TARGET_LIMIT as u64 {
                    Option::Some(
                        (ShotConfig { override_final_weight: Option::Some(n as i64), ..*acc }, e),
                    )
                } else {
                    Option::None
                },
                Option::None => Option::None,
            }
        }
    } else if key_eq(s, klo, khi, KEY_OVERRIDE_SHOT_TIME.as_slice()) {
        if match_lit(s, v, LIT_NULL.as_slice()) {
            Option::Some((ShotConfig { override_shot_time: Option::None, ..*acc }, v + 4))
        } else {
            match parse_uint(s, v) {
                Option::Some((n, e)) => if n <= 4_294_967_295u64 {
                    Option::Some(
                        (ShotConfig { override_shot_time: Option::Some(n as u32), ..*acc }, e),
                    )
                } else {
                    Option::None
                },
                Option::None => Option::None,
            }
        }
    } else if key_eq(s, klo, khi, KEY_PRESSURE.as_slice()) {
        match parse_uint(s, v) {
            Option::Some((n, e)) => if n <= TARGET_LIMIT as u64 {
                Option::Some((ShotConfig { pressure: n as i64, ..*acc }, e))
            } else {
                Option::None
            },
            Option::None => Option::None,
        }
    } else if key_eq(s, klo, khi, KEY_FLOW_RESTRICTION.as_slice()) {
        match parse_uint(s, v) {
            Option::Some((n, e)) => if n <= TARGET_LIMIT as u64 {
                Option::Some((ShotConfig { flow_restriction: n as i64, ..*acc }, e))
            } else {
                Option::None
            },
            Option::None => Option::None,
        }
    } else {
        match skip_value(s, v) {
            Option::Some(e) => Option::Some((*acc, e)),
            Option::None => Option::None,
        }
    }
}

/// The members of a shot-config object from position `i` (just after `{` or
/// a comma), folded over `acc`.
pub open spec fn spec_shot_members(s: Seq<u8>, i: int, acc: ShotConfig) -> Option<ShotConfig>
    decreases s.len() - i,
{
    if i < 0 || i > s.len() {
        Option::None
    } else {
        let k0 = spec_skip_ws(s, i);
        if !(k0 < s.len() && s[k0] == 34) {
            Option::None
        } else {
            match spec_scan_string(s, k0 + 1) {
                Option::None => Option::None,
                Option::Some(k1) => {
                    let c = spec_skip_ws(s, k1);
                    if !(c < s.len() && s[c] == 58) {
                        Option::None
                    } else {
                        let v = spec_skip_ws(s, c + 1);
                        match spec_shot_field(s, v, s.subrange(k0 + 1, k1 - 1), acc) {
                            Option::None => Option::None,
                            Option::Some((acc2, e)) => {
                                let t = spec_skip_ws(s, e);
                                if t < s.len() && s[t] == 44 {
                                    if t + 1 <= i {
                                        Option::None
                                    } else {
                                        spec_shot_members(s, t + 1, acc2)
                                    }
                                } else if t < s.len() && s[t] == 125 {
                                    if spec_skip_ws(s, t + 1) == s.len() {
                                        Option::Some(acc2)
                                    } else {
                                        Option::None
                                    }
                                } else {
                                    Option::None
                                }
                            },
                        }
                    }
                },
            }
        }
    }
}

/// The shot configuration a byte string decodes to over `base`: a single
/// JSON object; recognised fields replace `base`'s values, unknown fields
/// are skipped, absent fields keep `base`'s values.
pub open spec fn spec_decode_shot(s: Seq<u8>, base: ShotConfig) -> Option<ShotConfig> {
    let i = spec_skip_ws(s, 0);
    if !(i < s.len() && s[i] == 123) {
        Option::None
    } else {
        let j = spec_skip_ws(s, i + 1);
        if j < s.len() && s[j] == 125 {
            if spec_skip_ws(s, j + 1) == s.len() {
                Option::Some(base)
            } else {
                Option::None
            }
        } else {
            spec_shot_members(s, i + 1, base)
        }
    }
}

/// Decodes a wireless shot-config write over the current record.
///
/// Succeeds exactly when `spec_decode_shot` accepts the bytes; a rejected
/// write leaves no partial update (the caller keeps `base`).
#[verifier::rlimit(80)]
pub fn decode_shot_config(s: &[u8], base: &ShotConfig) -> (r: Result<ShotConfig, JsonError>)
    requires
        base.wf(),
    ensures
        match r {
            Result::Ok(c) => spec_decode_shot(s@, *base) == Option::Some(c) && c.wf(),
            Result::Err(e) => spec_decode_shot(s@, *base).is_none() && e == JsonError::Malformed,
        },
{
    let i = skip_ws(s, 0);
    if !(i < s.len() && s[i] == 123) {
        return Result::Err(JsonError::Malformed);
    }
    let j = skip_ws(s, i + 1);
    if j < s.len() && s[j] == 125 {
        let t = skip_ws(s, j + 1);
        if t == s.len() {
            return Result::Ok(*base);
        } else {
            return Result::Err(JsonError::Malformed);
        }
    }
    let mut acc: ShotConfig = *base;
    let mut pos: usize = i + 1;
    loop
        invariant
            pos <= s@.len(),
            acc.wf(),
            base.wf(),
            spec_shot_members(s@, pos as int, acc) == spec_decode_shot(s@, *base),
        decreases s@.len() - pos,
    {
        let k0 = skip_ws(s, pos);
        if !(k0 < s.len() && s[k0] == 34) {
            return Result::Err(JsonError::Malformed);
        }
        let k1 = match scan_string(s, k0 + 1) {
            Option::Some(v) => v,
            Option::None => {
                return Result::Err(JsonError::Malformed);
            },
        };
        let c = skip_ws(s, k1);
        if !(c < s.len() && s[c] == 58) {
            return Result::Err(JsonError::Malformed);
        }
        let v = skip_ws(s, c + 1);
        let (acc2, e) = match shot_field(s, v, k0 + 1, k1 - 1, &acc) {
            Option::Some(p) => p,
            Option::None => {
                return Result::Err(JsonError::Malformed);
            },
        };
        let t = skip_ws(s, e);
        if t < s.len() && s[t] == 44 {
            acc = acc2;
            pos = t + 1;
        } else if t < s.len() && s[t] == 125 {
            let u = skip_ws(s, t + 1);
            if u == s.len() {
                return Result::Ok(acc2);
            } else {
                return Result::Err(JsonError::Malformed);
            }
        } else {
            return Result::Err(JsonError::Malformed);
        }
    }
}

/// One machine-write member's value over the running `(led, temperature)`
/// fields.
pub open spec fn spec_machine_field(
    s: Seq<u8>,
    v: int,
    key: Seq<u8>,
    led: Option<bool>,
    temp: Option<u8>,
) -> Option<(Option<bool>, Option<u8>, int)> {
    if key == KEY_LED@ {
        if spec_match_lit(s, v, LIT_TRUE@) {
            Option::Some((Option::Some(true), temp, v + 4))
        } else if spec_match_lit(s, v, LIT_FALSE@) {
            Option::Some((Option::Some(false), temp, v + 5))
        } else if spec_match_lit(s, v, LIT_NULL@) {
            Option::Some((Option::None, temp, v + 4))
        } else {
            Option::None
        }
    } else if key == KEY_TEMPERATURE@ {
        match spec_parse_uint(s, v) {
            Option::Some((n, e)) => if n <= 255 {
                Option::Some((led, Option::Some(n as u8), e))
            } else {
                Option::None
            },
            Option::None => Option::None,
        }
    } else {
        match spec_skip_value(s, v) {
            Option::Some(e) => Option::Some((led, temp, e)),
            Option::None => Option::None,
        }
    }
}

/// The members of a machine-write object from position `i`.
pub open spec fn spec_machine_members(
    s: Seq<u8>,
    i: int,
    led: Option<bool>,
    temp: Option<u8>,
) -> Option<MachineConfigWrite>
    decreases s.len() - i,
{
    if i < 0 || i > s.len() {
        Option::None
    } else {
        let k0 = spec_skip_ws(s, i);
        if !(k0 < s.len() && s[k0] == 34) {
            Option::None
        } else {
            match spec_scan_string(s, k0 + 1) {
                Option::None => Option::None,
                Option::Some(k1) => {
                    let c = spec_skip_ws(s, k1);
                    if !(c < s.len() && s[c] == 58) {
                        Option::None
                    } else {
                        let v = spec_skip_ws(s, c + 1);
                        match spec_machine_field(s, v, s.subrange(k0 + 1, k1 - 1), led, temp) {
                            Option::None => Option::None,
                            Option::Some((led2, temp2, e)) => {
                                let t = spec_skip_ws(s, e);
                                if t < s.len() && s[t] == 44 {
                                    if t + 1 <= i {
                                        Option::None
                                    } else {
                                        spec_machine_members(s, t + 1, led2, temp2)
                                    }
                                } else if t < s.len() && s[t] == 125 {
                                    if spec_skip_ws(s, t + 1) == s.len() {
                                        match temp2 {
                                            Option::Some(tv) => Option::Some(
                                                MachineConfigWrite { led: led2, temperature: tv },
                                            ),
                                            Option::None => Option::None,
                                        }
                                    } else {
                                        Option::None
                                    }
                                } else {
                                    Option::None
                                }
                            },
                        }
                    }
                },
            }
        }
    }
}

/// The machine-configuration write a byte string decodes to: a JSON object
/// with an optional `led` flag and a required `temperature`.
pub open spec fn spec_decode_machine_write(s: Seq<u8>) -> Option<MachineConfigWrite> {
    let i = spec_skip_ws(s, 0);
    if !(i < s.len() && s[i] == 123) {
        Option::None
    } else {
        spec_machine_members(s, i + 1, Option::None, Option::None)
    }
}

/// Parses one machine-write member's value.
fn machine_field(
    s: &[u8],
    v: usize,
    klo: usize,
    khi: usize,
    led: Option<bool>,
    temp: Option<u8>,
) -> (r: Option<(Option<bool>, Option<u8>, usize)>)
    requires
        klo <= khi <= s@.len(),
        v <= s@.len(),
    ensures
        match r {
            Option::Some((led2, temp2, e)) => spec_machine_field(
                s@,
                v as int,
                s@.subrange(klo as int, khi as int),
                led,
                temp,
            ) == Option::Some((led2, temp2, e as int)) && v < e <= s@.len(),
            Option::None => spec_machine_field(
                s@,
                v as int,
                s@.subrange(klo as int, khi as int),
                led,
                temp,
            ).is_none(),
        },
{
    let slen = s.len();
    proof {
        assert(slen == s@.len());
    }
    if key_eq(s, klo, khi, KEY_LED.as_slice()) {
        if match_lit(s, v, LIT_TRUE.as_slice()) {
            Option::Some((Option::Some(true), temp, v + 4))
        } else if match_lit(s, v, LIT_FALSE.as_slice()) {
            Option::Some((Option::Some(false), temp, v + 5))
        } else if match_lit(s, v, LIT_NULL.as_slice()) {
            Option::Some((Option::None, temp, v + 4))
        } else {
            Option::None
        }
    } else if key_eq(s, klo, khi, KEY_TEMPERATURE.as_slice()) {
        match parse_uint(s, v) {
            Option::Some((n, e)) => if n <= 255 {
                Option::Some((led, Option::Some(n as u8), e))
            } else {
                Option::None
            },
            Option::None => Option::None,
        }
    } else {
        match skip_value(s, v) {
            Option::Some(e) => Option::Some((led, temp, e)),
            Option::None => Option::None,
        }
    }
}

/// Decodes a wireless machine-configuration write.
///
/// Succeeds exactly when `spec_decode_machine_write` accepts the bytes; a
/// rejected write is discarded whole.
#[verifier::rlimit(80)]
pub fn decode_machine_write(s: &[u8]) -> (r: Result<MachineConfigWrite, JsonError>)
    ensures
        match r {
            Result::Ok(w) => spec_decode_machine_write(s@) == Option::Some(w),
            Result::Err(e) => spec_decode_machine_write(s@).is_none() && e
                == JsonError::Malformed,
        },
{
    let i = skip_ws(s, 0);
    if !(i < s.len() && s[i] == 123) {
        return Result::Err(JsonError::Malformed);
    }
    let mut led: Option<bool> = Option::None;
    let mut temp: Option<u8> = Option::None;
    let mut pos: usize = i + 1;
    loop
        invariant
            pos <= s@.len(),
            spec_machine_members(s@, pos as int, led, temp) == spec_decode_machine_write(s@),
        decreases s@.len() - pos,
    {
        let k0 = skip_ws(s, pos);
        if !(k0 < s.len() && s[k0] == 34) {
            return Result::Err(JsonError::Malformed);
        }
        let k1 = match scan_string(s, k0 + 1) {
            Option::Some(v) => v,
            Option::None => {
                return Result::Err(JsonError::Malformed);
            },
        };
        let c = skip_ws(s, k1);
        if !(c < s.len() && s[c] == 58) {
            return Result::Err(JsonError::Malformed);
        }
        let v = skip_ws(s, c + 1);
        let (led2, temp2, e) = match machine_field(s, v, k0 + 1, k1 - 1, led, temp) {
            Option::Some(p) => p,
            Option::None => {
                return Result::Err(JsonError::Malformed);
            },
        };
        let t = skip_ws(s, e);
        if t < s.len() && s[t] == 44 {
            led = led2;
            temp = temp2;
            pos = t + 1;
        } else if t < s.len() && s[t] == 125 {
            let u = skip_ws(s, t + 1);
            if u == s.len() {
                match temp2 {
                    Option::Some(tv) => {
                        return Result::Ok(MachineConfigWrite { led: led2, temperature: tv });
                    },
                    Option::None => {
                        return Result::Err(JsonError::Malformed);
                    },
                }
            } else {
                return Result::Err(JsonError::Malformed);
            }
        } else {
            return Result::Err(JsonError::Malformed);
        }
    }
}

/// Appends every byte of `lit`.
pub fn push_lit(out: &mut Vec<u8>, lit: &[u8])
    ensures
        final (out)@ == old(out)@ + lit@,
{
    let mut k: usize = 0;
    while k < lit.len()
        invariant
            k <= lit@.len(),
            out@ == old(out)@ + lit@.subrange(0, k as int),
        decreases lit@.len() - k,
    {
        out.push(lit[k]);
        k = k + 1;
        proof {
            assert(out@ =~= old(out)@ + lit@.subrange(0, k as int));
        }
    }
    proof {
        assert(lit@.subrange(0, lit@.len() as int) =~= lit@);
    }
}

/// A JSON object key with its quotes and colon.
pub open spec fn spec_quoted(key: Seq<u8>) -> Seq<u8> {
    seq![34u8] + key + seq![34u8, 58u8]
}

/// Appends `"key":`.
pub fn push_key(out: &mut Vec<u8>, key: &[u8])
    ensures
        final (out)@ == old(out)@ + spec_quoted(key@),
{
    out.push(34);
    push_lit(out, key);
    out.push(34);
    out.push(58);
    proof {
        assert(out@ =~= old(out)@ + spec_quoted(key@));
    }
}

/// An optional milli-value on the wire: its digits, or `null`.
pub open spec fn spec_opt_uint_bytes(v: Option<i64>) -> Seq<u8> {
    match v {
        Option::Some(n) => spec_digits(n as nat),
        Option::None => LIT_NULL@,
    }
}

/// Appends an optional milli-value.
pub fn push_opt_uint(out: &mut Vec<u8>, v: Option<i64>)
    requires
        match v {
            Option::Some(n) => 0 <= n,
            Option::None => true,
        },
    ensures
        final (out)@ == old(out)@ + spec_opt_uint_bytes(v),
{
    match v {
        Option::Some(n) => push_uint(out, n as u64),
        Option::None => push_lit(out, LIT_NULL.as_slice()),
    }
}

/// A signed value on the wire: a minus sign for negatives, then digits.
pub open spec fn spec_int_bytes(v: int) -> Seq<u8> {
    if v < 0 {
        seq![45u8] + spec_digits((-v) as nat)
    } else {
        spec_digits(v as nat)
    }
}

/// Appends a signed value.
pub fn push_int(out: &mut Vec<u8>, v: i64)
    requires
        v > i64::MIN,
    ensures
        final (out)@ == old(out)@ + spec_int_bytes(v as int),
{
    if v < 0 {
        out.push(45);
        push_uint(out, (-v) as u64);
        proof {
            assert(out@ =~= old(out)@ + spec_int_bytes(v as int));
        }
    } else {
        push_uint(out, v as u64);
    }
}

/// The canonical encoding of a shot configuration: one JSON object, every
/// field present, absent overrides as `null`, values in milli-units.
pub open spec fn spec_encode_shot(c: ShotConfig) -> Seq<u8> {
    seq![123u8] + spec_quoted(KEY_GRAINS_WEIGHT_IN@) + spec_digits(c.grains_weight_in as nat)
        + seq![44u8] + spec_quoted(KEY_ESPRESSO_YIELD@) + spec_opt_uint_bytes(c.espresso_yield)
        + seq![44u8] + spec_quoted(KEY_OVERRIDE_FINAL_WEIGHT@) + spec_opt_uint_bytes(
        c.override_final_weight,
    ) + seq![44u8] + spec_quoted(KEY_OVERRIDE_SHOT_TIME@) + (match c.override_shot_time {
        Option::Some(t) => spec_digits(t as nat),
        Option::None => LIT_NULL@,
    }) + seq![44u8] + spec_quoted(KEY_PRESSURE@) + spec_digits(c.pressure as nat) + seq![44u8]
        + spec_quoted(KEY_FLOW_RESTRICTION@) + spec_digits(c.flow_restriction as nat)
        + seq![125u8]
}

/// Encodes a shot configuration for the wireless surface.
pub fn encode_shot_config(c: &ShotConfig) -> (out: Vec<u8>)
    requires
        c.wf(),
    ensures
        out@ == spec_encode_shot(*c),
{
    let mut out: Vec<u8> = Vec::new();
    out.push(123);
    push_key(&mut out, KEY_GRAINS_WEIGHT_IN.as_slice());
    push_uint(&mut out, c.grains_weight_in as u64);
    out.push(44);
    push_key(&mut out, KEY_ESPRESSO_YIELD.as_slice());
    push_opt_uint(&mut out, c.espresso_yield);
    out.push(44);
    push_key(&mut out, KEY_OVERRIDE_FINAL_WEIGHT.as_slice());
    push_opt_uint(&mut out, c.override_final_weight);
    out.push(44);
    push_key(&mut out, KEY_OVERRIDE_SHOT_TIME.as_slice());
    match c.override_shot_time {
        Option::Some(t) => push_uint(&mut out, t as u64),
        Option::None => push_lit(&mut out, LIT_NULL.as_slice()),
    }
    out.push(44);
    push_key(&mut out, KEY_PRESSURE.as_slice());
    push_uint(&mut out, c.pressure as u64);
    out.push(44);
    push_key(&mut out, KEY_FLOW_RESTRICTION.as_slice());
    push_uint(&mut out, c.flow_restriction as u64);
    out.push(125);
    proof {
        assert(out@ =~= spec_encode_shot(*c));
    }
    out
}

/// The telemetry encoding of a snapshot: one JSON object, every field in
/// milli-units, the flow-meter pair as a nested object.
pub open spec fn spec_encode_snapshot(s: EspressoStateSnapshot) -> Seq<u8> {
    seq![123u8] + spec_quoted(KEY_PRESSURE@) + spec_int_bytes(s.pressure as int) + seq![44u8]
        + spec_quoted(KEY_BOILER_TEMP@) + spec_int_bytes(s.boiler_temp as int) + seq![44u8]
        + spec_quoted(KEY_ESTIMATED_ESPRESSO_FLOW@) + spec_int_bytes(
        s.estimated_espresso_flow as int,
    ) + seq![44u8] + spec_quoted(KEY_TIME@) + spec_int_bytes(s.time as int) + seq![44u8]
        + spec_quoted(KEY_ELAPSED@) + spec_int_bytes(s.elapsed_time_from_last_read as int)
        + seq![44u8] + spec_quoted(KEY_ESTIMATED_WEIGHT@) + spec_int_bytes(
        s.estimated_weight as int,
    ) + seq![44u8] + spec_quoted(KEY_MEASURED_FLOW@) + seq![123u8] + spec_quoted(KEY_ENTER@)
        + spec_int_bytes(s.measured_flow.enter as int) + seq![44u8] + spec_quoted(KEY_EXIT@)
        + spec_int_bytes(s.measured_flow.exit as int) + seq![125u8] + seq![44u8] + spec_quoted(
        KEY_ESPRESSO_FLOW@,
    ) + spec_int_bytes(s.espresso_flow as int) + seq![44u8] + spec_quoted(
        KEY_PRESSURE_CHANGE_SPEED@,
    ) + spec_int_bytes(s.pressure_change_speed as int) + seq![44u8] + spec_quoted(KEY_PUMP_FLOW@)
        + spec_int_bytes(s.pump_flow as int) + seq![125u8]
}

/// Encodes a snapshot for the telemetry notification.
pub fn encode_snapshot(s: &EspressoStateSnapshot) -> (out: Vec<u8>)
    requires
        s.wf(),
    ensures
        out@ == spec_encode_snapshot(*s),
{
    let mut out: Vec<u8> = Vec::new();
    out.push(123);
    push_key(&mut out, KEY_PRESSURE.as_slice());
    push_int(&mut out, s.pressure);
    out.push(44);
    push_key(&mut out, KEY_BOILER_TEMP.as_slice());
    push_int(&mut out, s.boiler_temp);
    out.push(44);
    push_key(&mut out, KEY_ESTIMATED_ESPRESSO_FLOW.as_slice());
    push_int(&mut out, s.estimated_espresso_flow);
    out.push(44);
    push_key(&mut out, KEY_TIME.as_slice());
    push_int(&mut out, s.time);
    out.push(44);
    push_key(&mut out, KEY_ELAPSED.as_slice());
    push_int(&mut out, s.elapsed_time_from_last_read);
    out.push(44);
    push_key(&mut out, KEY_ESTIMATED_WEIGHT.as_slice());
    push_int(&mut out, s.estimated_weight);
    out.push(44);
    push_key(&mut out, KEY_MEASURED_FLOW.as_slice());
    out.push(123);
    push_key(&mut out, KEY_ENTER.as_slice());
    push_int(&mut out, s.measured_flow.enter);
    out.push(44);
    push_key(&mut out, KEY_EXIT.as_slice());
    push_int(&mut out, s.measured_flow.exit);
    out.push(125);
    out.push(44);
    push_key(&mut out, KEY_ESPRESSO_FLOW.as_slice());
    push_int(&mut out, s.espresso_flow);
    out.push(44);
    push_key(&mut out, KEY_PRESSURE_CHANGE_SPEED.as_slice());
    push_int(&mut out, s.pressure_change_speed);
    out.push(44);
    push_key(&mut out, KEY_PUMP_FLOW.as_slice());
    push_int(&mut out, s.pump_flow);
    out.push(125);
    proof {
        assert(out@ =~= spec_encode_snapshot(*s));
    }
    out
}

/// `"boiler_temp"`
pub const KEY_BOILER_TEMP: [u8; 11] = [98, 111, 105, 108, 101, 114, 95, 116, 101, 109, 112];

/// `"estimated_espresso_flow"`
pub const KEY_ESTIMATED_ESPRESSO_FLOW: [u8; 23] = [101, 115, 116, 105, 109, 97, 116, 101, 100, 95, 101, 115, 112, 114, 101, 115, 115, 111, 95, 102, 108, 111, 119];

/// `"time"`
pub const KEY_TIME: [u8; 4] = [116, 105, 109, 101];

/// `"elapsed_time_from_last_read"`
pub const KEY_ELAPSED: [u8; 27] = [101, 108, 97, 112, 115, 101, 100, 95, 116, 105, 109, 101, 95, 102, 114, 111, 109, 95, 108, 97, 115, 116, 95, 114, 101, 97, 100];

/// `"estimated_weight"`
pub const KEY_ESTIMATED_WEIGHT: [u8; 16] = [101, 115, 116, 105, 109, 97, 116, 101, 100, 95, 119, 101, 105, 103, 104, 116];

/// `"measured_flow"`
pub const KEY_MEASURED_FLOW: [u8; 13] = [109, 101, 97, 115, 117, 114, 101, 100, 95, 102, 108, 111, 119];

/// `"enter"`
pub const KEY_ENTER: [u8; 5] = [101, 110, 116, 101, 114];

/// `"exit"`
pub const KEY_EXIT: [u8; 4] = [101, 120, 105, 116];

/// `"espresso_flow"`
pub const KEY_ESPRESSO_FLOW: [u8; 13] = [101, 115, 112, 114, 101, 115, 115, 111, 95, 102, 108, 111, 119];

/// `"pressure_change_speed"`
pub const KEY_PRESSURE_CHANGE_SPEED: [u8; 21] = [112, 114, 101, 115, 115, 117, 114, 101, 95, 99, 104, 97, 110, 103, 101, 95, 115, 112, 101, 101, 100];

/// `"pump_flow"`
pub const KEY_PUMP_FLOW: [u8; 9] = [112, 117, 109, 112, 95, 102, 108, 111, 119];

/// The digit-run end of a run laid out at `i..j`.
proof fn lemma_run_end_at(s: Seq<u8>, i: int, j: int)
    requires
        0 <= i <= j <= s.len(),
        forall|t: int| i <= t < j ==> is_digit(#[trigger] s[t]),
        j == s.len() || !is_digit(s[j]),
    ensures
        spec_digit_run_end(s, i) == j,
    decreases j - i,
{
    if i < j {
        lemma_run_end_at(s, i + 1, j);
    }
}

/// The digits of `n` are digit bytes, and only zero starts with a zero byte.
proof fn lemma_digits_shape(n: nat)
    ensures
        spec_digits(n).len() >= 1,
        forall|k: int| 0 <= k < spec_digits(n).len() ==> is_digit(#[trigger] spec_digits(n)[k]),
        spec_digits(n)[0] == 48 <==> n == 0,
    decreases n,
{
    if n < 10 {
    } else {
        lemma_digits_shape(n / 10);
        let d = spec_digits(n / 10);
        let whole = spec_digits(n);
        assert forall|k: int| 0 <= k < whole.len() implies is_digit(#[trigger] whole[k]) by {
            if k < d.len() {
                assert(whole[k] == d[k]);
            } else {
                assert(whole[k] == (48 + n % 10) as u8);
            }
        }
        assert(whole[0] == d[0]);
        assert(n / 10 >= 1);
    }
}

/// A number below `10^k` has at most `k` digits.
proof fn lemma_digits_short(n: nat, k: nat)
    requires
        1 <= k,
        n < pow10(k),
    ensures
        spec_digits(n).len() <= k,
    decreases n,
{
    if n < 10 {
    } else {
        if k == 1 {
            reveal_with_fuel(pow10, 3);
        }
        assert(pow10(k) == 10 * pow10((k - 1) as nat));
        vstd::arithmetic::div_mod::lemma_fundamental_div_mod(n as int, 10);
        vstd::arithmetic::div_mod::lemma_mod_bound(n as int, 10);
        assert(n / 10 < pow10((k - 1) as nat)) by {
            assert(10 * (n / 10) <= n);
            assert((n / 10) < pow10((k - 1) as nat)) by (nonlinear_arith)
                requires
                    10 * (n / 10) < 10 * pow10((k - 1) as nat),
            ;
        }
        lemma_digits_short(n / 10, (k - 1) as nat);
    }
}

/// Parsing a number laid out canonically at `i..j` recovers it.
proof fn lemma_parse_digits_at(s: Seq<u8>, i: int, j: int, n: nat)
    requires
        0 <= i <= j <= s.len(),
        s.subrange(i, j) == spec_digits(n),
        n <= JSON_UINT_LIMIT,
        j == s.len() || !is_digit(s[j]),
    ensures
        spec_parse_uint(s, i) == Option::Some((n as int, j)),
{
    let d = spec_digits(n);
    lemma_digits_shape(n);
    lemma_pow10_12();
    lemma_digits_short(n, 12nat);
    assert(j - i == d.len());
    assert forall|t: int| i <= t < j implies is_digit(#[trigger] s[t]) by {
        assert(s[t] == s.subrange(i, j)[t - i]);
    }
    lemma_run_end_at(s, i, j);
    assert(s[i] == d[0]);
    if n == 0 {
        assert(d.len() == 1);
    } else {
        assert(s[i] != 48);
    }
    lemma_digits_roundtrip(n);
}

/// Scanning a string whose body `i..j` holds no quote and no backslash ends
/// just past the closing quote at `j`.
proof fn lemma_scan_plain(s: Seq<u8>, i: int, j: int)
    requires
        0 <= i <= j < s.len(),
        forall|t: int| i <= t < j ==> s[t] != 34 && #[trigger] s[t] != 92,
        s[j] == 34,
    ensures
        spec_scan_string(s, i) == Option::Some(j + 1),
    decreases j - i,
{
    if i < j {
        lemma_scan_plain(s, i + 1, j);
    }
}

/// A key region holds no quote and no backslash.
spec fn plain_key(key: Seq<u8>) -> bool {
    forall|t: int| 0 <= t < key.len() ==> key[t] != 34 && #[trigger] key[t] != 92
}

/// One canonically encoded member (`"key":value`, then `,` or `}`) parses to
/// its value and hands the cursor to the byte after the value.
proof fn lemma_member_shape(s: Seq<u8>, i: int, key: Seq<u8>, val: Seq<u8>)
    requires
        0 <= i,
        i + key.len() + 3 + val.len() <= s.len(),
        s.subrange(i, i + key.len() + 3) == spec_quoted(key),
        s.subrange(i + key.len() + 3, i + key.len() + 3 + val.len()) == val,
        key.len() >= 1,
        plain_key(key),
        val.len() >= 1,
        !is_ws(val[0]),
    ensures
        spec_skip_ws(s, i) == i,
        s[i] == 34,
        spec_scan_string(s, i + 1) == Option::Some(i + key.len() + 2),
        s.subrange(i + 1, i + key.len() + 1) == key,
        spec_skip_ws(s, i + key.len() + 2) == i + key.len() + 2,
        s[i + key.len() + 2] == 58,
        spec_skip_ws(s, i + key.len() + 3) == i + key.len() + 3,
{
    let q = spec_quoted(key);
    let kl = key.len() as int;
    assert(q.len() == kl + 3);
    assert(s[i] == s.subrange(i, i + kl + 3)[0]);
    assert(q[0] == 34);
    assert(s[i + kl + 1] == s.subrange(i, i + kl + 3)[kl + 1]);
    assert(q[kl + 1] == 34);
    assert(s[i + kl + 2] == s.subrange(i, i + kl + 3)[kl + 2]);
    assert(q[kl + 2] == 58);
    assert forall|t: int| i + 1 <= t < i + kl + 1 implies s[t] != 34 && #[trigger] s[t] != 92 by {
        assert(s[t] == s.subrange(i, i + kl + 3)[t - i]);
        assert(q[t - i] == key[t - i - 1]);
    }
    lemma_scan_plain(s, i + 1, i + kl + 1);
    assert(s[i + kl + 3] == s.subrange(i + kl + 3, i + kl + 3 + val.len())[0]);
    assert(s.subrange(i + 1, i + kl + 1) =~= key) by {
        assert forall|t: int| 0 <= t < kl implies s.subrange(i + 1, i + kl + 1)[t] == key[t] by {
            assert(s.subrange(i + 1, i + kl + 1)[t] == s[i + 1 + t]);
            assert(s[i + 1 + t] == s.subrange(i, i + kl + 3)[t + 1]);
            assert(q[t + 1] == key[t]);
        }
    }
}

/// An optional milli-value laid out at `v..tv` parses back to itself: `null`
/// matches the null literal, digits parse to the number and are not `null`.
proof fn lemma_opt_value_parses(s: Seq<u8>, v: int, tv: int, o: Option<i64>)
    requires
        0 <= v <= tv <= s.len(),
        s.subrange(v, tv) == spec_opt_uint_bytes(o),
        match o {
            Option::Some(n) => 0 <= n <= TARGET_LIMIT,
            Option::None => true,
        },
        tv == s.len() || !is_digit(s[tv]),
    ensures
        match o {
            Option::Some(n) => !spec_match_lit(s, v, LIT_NULL@) && spec_parse_uint(s, v)
                == Option::Some((n as int, tv)),
            Option::None => spec_match_lit(s, v, LIT_NULL@) && v + 4 == tv,
        },
{
    match o {
        Option::Some(n) => {
            lemma_digits_shape(n as nat);
            lemma_parse_digits_at(s, v, tv, n as nat);
            assert(s[v] == s.subrange(v, tv)[0]);
            if spec_match_lit(s, v, LIT_NULL@) {
                assert(s.subrange(v, v + 4)[0] == s[v]);
                assert(LIT_NULL@[0] == 110);
            }
        },
        Option::None => {
            assert(s.subrange(v, tv) =~= s.subrange(v, v + 4));
        },
    }
}


/// A subrange wholly inside the left part of a concatenation is unchanged.
proof fn lemma_prefix_subrange(a: Seq<u8>, b: Seq<u8>, x: int, y: int)
    requires
        0 <= x <= y <= a.len(),
    ensures
        (a + b).subrange(x, y) == a.subrange(x, y),
{
    assert((a + b).subrange(x, y) =~= a.subrange(x, y));
}

/// The appended part of a concatenation sits right after the left part.
proof fn lemma_tail_subrange(a: Seq<u8>, b: Seq<u8>)
    ensures
        (a + b).subrange(a.len() as int, (a.len() + b.len()) as int) == b,
{
    assert((a + b).subrange(a.len() as int, (a.len() + b.len()) as int) =~= b);
}


/// Byte offsets of the encoded shot-config members.
pub open spec fn shot_enc_off(c: ShotConfig, k: int) -> int {
    let q1 = spec_quoted(KEY_GRAINS_WEIGHT_IN@).len() as int;
    let q2 = spec_quoted(KEY_ESPRESSO_YIELD@).len() as int;
    let q3 = spec_quoted(KEY_OVERRIDE_FINAL_WEIGHT@).len() as int;
    let q4 = spec_quoted(KEY_OVERRIDE_SHOT_TIME@).len() as int;
    let q5 = spec_quoted(KEY_PRESSURE@).len() as int;
    let q6 = spec_quoted(KEY_FLOW_RESTRICTION@).len() as int;
    let v1 = spec_digits(c.grains_weight_in as nat).len() as int;
    let v2 = spec_opt_uint_bytes(c.espresso_yield).len() as int;
    let v3 = spec_opt_uint_bytes(c.override_final_weight).len() as int;
    let v4 = (match c.override_shot_time {
        Option::Some(t) => spec_digits(t as nat),
        Option::None => LIT_NULL@,
    }).len() as int;
    let v5 = spec_digits(c.pressure as nat).len() as int;
    let v6 = spec_digits(c.flow_restriction as nat).len() as int;
    if k <= 0 {
        0
    } else if k == 1 {
        1
    } else if k == 2 {
        1 + q1
    } else if k == 3 {
        1 + q1 + v1
    } else if k == 4 {
        1 + q1 + v1 + 1
    } else if k == 5 {
        1 + q1 + v1 + 1 + q2
    } else if k == 6 {
        1 + q1 + v1 + 1 + q2 + v2
    } else if k == 7 {
        1 + q1 + v1 + 1 + q2 + v2 + 1
    } else if k == 8 {
        1 + q1 + v1 + 1 + q2 + v2 + 1 + q3
    } else if k == 9 {
        1 + q1 + v1 + 1 + q2 + v2 + 1 + q3 + v3
    } else if k == 10 {
        1 + q1 + v1 + 1 + q2 + v2 + 1 + q3 + v3 + 1
    } else if k == 11 {
        1 + q1 + v1 + 1 + q2 + v2 + 1 + q3 + v3 + 1 + q4
    } else if k == 12 {
        1 + q1 + v1 + 1 + q2 + v2 + 1 + q3 + v3 + 1 + q4 + v4
    } else if k == 13 {
        1 + q1 + v1 + 1 + q2 + v2 + 1 + q3 + v3 + 1 + q4 + v4 + 1
    } else if k == 14 {
        1 + q1 + v1 + 1 + q2 + v2 + 1 + q3 + v3 + 1 + q4 + v4 + 1 + q5
    } else if k == 15 {
        1 + q1 + v1 + 1 + q2 + v2 + 1 + q3 + v3 + 1 + q4 + v4 + 1 + q5 + v5
    } else if k == 16 {
        1 + q1 + v1 + 1 + q2 + v2 + 1 + q3 + v3 + 1 + q4 + v4 + 1 + q5 + v5 + 1
    } else if k == 17 {
        1 + q1 + v1 + 1 + q2 + v2 + 1 + q3 + v3 + 1 + q4 + v4 + 1 + q5 + v5 + 1 + q6
    } else if k == 18 {
        1 + q1 + v1 + 1 + q2 + v2 + 1 + q3 + v3 + 1 + q4 + v4 + 1 + q5 + v5 + 1 + q6 + v6
    } else {
        1 + q1 + v1 + 1 + q2 + v2 + 1 + q3 + v3 + 1 + q4 + v4 + 1 + q5 + v5 + 1 + q6 + v6 + 1
    }
}

/// Layout of member 1 inside the encoded shot configuration.
#[verifier::rlimit(100)]
proof fn lemma_shot_layout_1(c: ShotConfig)
    ensures
        spec_encode_shot(c).subrange(shot_enc_off(c, 1), shot_enc_off(c, 2)) == spec_quoted(KEY_GRAINS_WEIGHT_IN@),
        spec_encode_shot(c).subrange(shot_enc_off(c, 2), shot_enc_off(c, 3)) == spec_digits(c.grains_weight_in as nat),
        spec_encode_shot(c)[shot_enc_off(c, 3)] == 44,
{
    let s = spec_encode_shot(c);
    let q1 = spec_quoted(KEY_GRAINS_WEIGHT_IN@);
    let q2 = spec_quoted(KEY_ESPRESSO_YIELD@);
    let q3 = spec_quoted(KEY_OVERRIDE_FINAL_WEIGHT@);
    let q4 = spec_quoted(KEY_OVERRIDE_SHOT_TIME@);
    let q5 = spec_quoted(KEY_PRESSURE@);
    let q6 = spec_quoted(KEY_FLOW_RESTRICTION@);
    let v1 = spec_digits(c.grains_weight_in as nat);
    let v2 = spec_opt_uint_bytes(c.espresso_yield);
    let v3 = spec_opt_uint_bytes(c.override_final_weight);
    let v4 = match c.override_shot_time {
        Option::Some(t) => spec_digits(t as nat),
        Option::None => LIT_NULL@,
    };
    let v5 = spec_digits(c.pressure as nat);
    let v6 = spec_digits(c.flow_restriction as nat);

    let b0: int = 0;
    let b1 = b0 + 1;
    let b2 = b1 + q1.len();
    let b3 = b2 + v1.len();
    let b4 = b3 + 1;
    let b5 = b4 + q2.len();
    let b6 = b5 + v2.len();
    let b7 = b6 + 1;
    let b8 = b7 + q3.len();
    let b9 = b8 + v3.len();
    let b10 = b9 + 1;
    let b11 = b10 + q4.len();
    let b12 = b11 + v4.len();
    let b13 = b12 + 1;
    let b14 = b13 + q5.len();
    let b15 = b14 + v5.len();
    let b16 = b15 + 1;
    let b17 = b16 + q6.len();
    let b18 = b17 + v6.len();
    let b19 = b18 + 1;

    let p1 = seq![123u8];
    let p2 = p1 + q1;
    let p3 = p2 + v1;
    let p4 = p3 + seq![44u8];
    let p5 = p4 + q2;
    let p6 = p5 + v2;
    let p7 = p6 + seq![44u8];
    let p8 = p7 + q3;
    let p9 = p8 + v3;
    let p10 = p9 + seq![44u8];
    let p11 = p10 + q4;
    let p12 = p11 + v4;
    let p13 = p12 + seq![44u8];
    let p14 = p13 + q5;
    let p15 = p14 + v5;
    let p16 = p15 + seq![44u8];
    let p17 = p16 + q6;
    let p18 = p17 + v6;
    let p19 = p18 + seq![125u8];

    assert(s == p19);
    lemma_tail_subrange(p1, q1);
    lemma_prefix_subrange(p2, v1, b1, b2);
    lemma_prefix_subrange(p3, seq![44u8], b1, b2);
    lemma_prefix_subrange(p4, q2, b1, b2);
    lemma_prefix_subrange(p5, v2, b1, b2);
    lemma_prefix_subrange(p6, seq![44u8], b1, b2);
    lemma_prefix_subrange(p7, q3, b1, b2);
    lemma_prefix_subrange(p8, v3, b1, b2);
    lemma_prefix_subrange(p9, seq![44u8], b1, b2);
    lemma_prefix_subrange(p10, q4, b1, b2);
    lemma_prefix_subrange(p11, v4, b1, b2);
    lemma_prefix_subrange(p12, seq![44u8], b1, b2);
    lemma_prefix_subrange(p13, q5, b1, b2);
    lemma_prefix_subrange(p14, v5, b1, b2);
    lemma_prefix_subrange(p15, seq![44u8], b1, b2);
    lemma_prefix_subrange(p16, q6, b1, b2);
    lemma_prefix_subrange(p17, v6, b1, b2);
    lemma_prefix_subrange(p18, seq![125u8], b1, b2);
    assert(s.subrange(b1, b2) == q1);
    lemma_tail_subrange(p2, v1);
    lemma_prefix_subrange(p3, seq![44u8], b2, b3);
    lemma_prefix_subrange(p4, q2, b2, b3);
    lemma_prefix_subrange(p5, v2, b2, b3);
    lemma_prefix_subrange(p6, seq![44u8], b2, b3);
    lemma_prefix_subrange(p7, q3, b2, b3);
    lemma_prefix_subrange(p8, v3, b2, b3);
    lemma_prefix_subrange(p9, seq![44u8], b2, b3);
    lemma_prefix_subrange(p10, q4, b2, b3);
    lemma_prefix_subrange(p11, v4, b2, b3);
    lemma_prefix_subrange(p12, seq![44u8], b2, b3);
    lemma_prefix_subrange(p13, q5, b2, b3);
    lemma_prefix_subrange(p14, v5, b2, b3);
    lemma_prefix_subrange(p15, seq![44u8], b2, b3);
    lemma_prefix_subrange(p16, q6, b2, b3);
    lemma_prefix_subrange(p17, v6, b2, b3);
    lemma_prefix_subrange(p18, seq![125u8], b2, b3);
    assert(s.subrange(b2, b3) == v1);
    lemma_tail_subrange(p3, seq![44u8]);
    lemma_prefix_subrange(p4, q2, b3, b4);
    lemma_prefix_subrange(p5, v2, b3, b4);
    lemma_prefix_subrange(p6, seq![44u8], b3, b4);
    lemma_prefix_subrange(p7, q3, b3, b4);
    lemma_prefix_subrange(p8, v3, b3, b4);
    lemma_prefix_subrange(p9, seq![44u8], b3, b4);
    lemma_prefix_subrange(p10, q4, b3, b4);
    lemma_prefix_subrange(p11, v4, b3, b4);
    lemma_prefix_subrange(p12, seq![44u8], b3, b4);
    lemma_prefix_subrange(p13, q5, b3, b4);
    lemma_prefix_subrange(p14, v5, b3, b4);
    lemma_prefix_subrange(p15, seq![44u8], b3, b4);
    lemma_prefix_subrange(p16, q6, b3, b4);
    lemma_prefix_subrange(p17, v6, b3, b4);
    lemma_prefix_subrange(p18, seq![125u8], b3, b4);
    assert(s.subrange(b3, b4) == seq![44u8]);
    assert(s[b3] == s.subrange(b3, b4)[0]);
    assert(b1 == shot_enc_off(c, 1) && b2 == shot_enc_off(c, 2));
    assert(b3 == shot_enc_off(c, 3));
}

/// Layout of member 2 inside the encoded shot configuration.
#[verifier::rlimit(100)]
proof fn lemma_shot_layout_2(c: ShotConfig)
    ensures
        spec_encode_shot(c).subrange(shot_enc_off(c, 4), shot_enc_off(c, 5)) == spec_quoted(KEY_ESPRESSO_YIELD@),
        spec_encode_shot(c).subrange(shot_enc_off(c, 5), shot_enc_off(c, 6)) == spec_opt_uint_bytes(c.espresso_yield),
        spec_encode_shot(c)[shot_enc_off(c, 6)] == 44,
{
    let s = spec_encode_shot(c);
    let q1 = spec_quoted(KEY_GRAINS_WEIGHT_IN@);
    let q2 = spec_quoted(KEY_ESPRESSO_YIELD@);
    let q3 = spec_quoted(KEY_OVERRIDE_FINAL_WEIGHT@);
    let q4 = spec_quoted(KEY_OVERRIDE_SHOT_TIME@);
    let q5 = spec_quoted(KEY_PRESSURE@);
    let q6 = spec_quoted(KEY_FLOW_RESTRICTION@);
    let v1 = spec_digits(c.grains_weight_in as nat);
    let v2 = spec_opt_uint_bytes(c.espresso_yield);
    let v3 = spec_opt_uint_bytes(c.override_final_weight);
    let v4 = match c.override_shot_time {
        Option::Some(t) => spec_digits(t as nat),
        Option::None => LIT_NULL@,
    };
    let v5 = spec_digits(c.pressure as nat);
    let v6 = spec_digits(c.flow_restriction as nat);

    let b0: int = 0;
    let b1 = b0 + 1;
    let b2 = b1 + q1.len();
    let b3 = b2 + v1.len();
    let b4 = b3 + 1;
    let b5 = b4 + q2.len();
    let b6 = b5 + v2.len();
    let b7 = b6 + 1;
    let b8 = b7 + q3.len();
    let b9 = b8 + v3.len();
    let b10 = b9 + 1;
    let b11 = b10 + q4.len();
    let b12 = b11 + v4.len();
    let b13 = b12 + 1;
    let b14 = b13 + q5.len();
    let b15 = b14 + v5.len();
    let b16 = b15 + 1;
    let b17 = b16 + q6.len();
    let b18 = b17 + v6.len();
    let b19 = b18 + 1;

    let p1 = seq![123u8];
    let p2 = p1 + q1;
    let p3 = p2 + v1;
    let p4 = p3 + seq![44u8];
    let p5 = p4 + q2;
    let p6 = p5 + v2;
    let p7 = p6 + seq![44u8];
    let p8 = p7 + q3;
    let p9 = p8 + v3;
    let p10 = p9 + seq![44u8];
    let p11 = p10 + q4;
    let p12 = p11 + v4;
    let p13 = p12 + seq![44u8];
    let p14 = p13 + q5;
    let p15 = p14 + v5;
    let p16 = p15 + seq![44u8];
    let p17 = p16 + q6;
    let p18 = p17 + v6;
    let p19 = p18 + seq![125u8];

    assert(s == p19);
    lemma_tail_subrange(p4, q2);
    lemma_prefix_subrange(p5, v2, b4, b5);
    lemma_prefix_subrange(p6, seq![44u8], b4, b5);
    lemma_prefix_subrange(p7, q3, b4, b5);
    lemma_prefix_subrange(p8, v3, b4, b5);
    lemma_prefix_subrange(p9, seq![44u8], b4, b5);
    lemma_prefix_subrange(p10, q4, b4, b5);
    lemma_prefix_subrange(p11, v4, b4, b5);
    lemma_prefix_subrange(p12, seq![44u8], b4, b5);
    lemma_prefix_subrange(p13, q5, b4, b5);
    lemma_prefix_subrange(p14, v5, b4, b5);
    lemma_prefix_subrange(p15, seq![44u8], b4, b5);
    lemma_prefix_subrange(p16, q6, b4, b5);
    lemma_prefix_subrange(p17, v6, b4, b5);
    lemma_prefix_subrange(p18, seq![125u8], b4, b5);
    assert(s.subrange(b4, b5) == q2);
    lemma_tail_subrange(p5, v2);
    lemma_prefix_subrange(p6, seq![44u8], b5, b6);
    lemma_prefix_subrange(p7, q3, b5, b6);
    lemma_prefix_subrange(p8, v3, b5, b6);
    lemma_prefix_subrange(p9, seq![44u8], b5, b6);
    lemma_prefix_subrange(p10, q4, b5, b6);
    lemma_prefix_subrange(p11, v4, b5, b6);
    lemma_prefix_subrange(p12, seq![44u8], b5, b6);
    lemma_prefix_subrange(p13, q5, b5, b6);
    lemma_prefix_subrange(p14, v5, b5, b6);
    lemma_prefix_subrange(p15, seq![44u8], b5, b6);
    lemma_prefix_subrange(p16, q6, b5, b6);
    lemma_prefix_subrange(p17, v6, b5, b6);
    lemma_prefix_subrange(p18, seq![125u8], b5, b6);
    assert(s.subrange(b5, b6) == v2);
    lemma_tail_subrange(p6, seq![44u8]);
    lemma_prefix_subrange(p7, q3, b6, b7);
    lemma_prefix_subrange(p8, v3, b6, b7);
    lemma_prefix_subrange(p9, seq![44u8], b6, b7);
    lemma_prefix_subrange(p10, q4, b6, b7);
    lemma_prefix_subrange(p11, v4, b6, b7);
    lemma_prefix_subrange(p12, seq![44u8], b6, b7);
    lemma_prefix_subrange(p13, q5, b6, b7);
    lemma_prefix_subrange(p14, v5, b6, b7);
    lemma_prefix_subrange(p15, seq![44u8], b6, b7);
    lemma_prefix_subrange(p16, q6, b6, b7);
    lemma_prefix_subrange(p17, v6, b6, b7);
    lemma_prefix_subrange(p18, seq![125u8], b6, b7);
    assert(s.subrange(b6, b7) == seq![44u8]);
    assert(s[b6] == s.subrange(b6, b7)[0]);
    assert(b4 == shot_enc_off(c, 4) && b5 == shot_enc_off(c, 5));
    assert(b6 == shot_enc_off(c, 6));
}

/// Layout of member 3 inside the encoded shot configuration.
#[verifier::rlimit(100)]
proof fn lemma_shot_layout_3(c: ShotConfig)
    ensures
        spec_encode_shot(c).subrange(shot_enc_off(c, 7), shot_enc_off(c, 8)) == spec_quoted(KEY_OVERRIDE_FINAL_WEIGHT@),
        spec_encode_shot(c).subrange(shot_enc_off(c, 8), shot_enc_off(c, 9)) == spec_opt_uint_bytes(c.override_final_weight),
        spec_encode_shot(c)[shot_enc_off(c, 9)] == 44,
{
    let s = spec_encode_shot(c);
    let q1 = spec_quoted(KEY_GRAINS_WEIGHT_IN@);
    let q2 = spec_quoted(KEY_ESPRESSO_YIELD@);
    let q3 = spec_quoted(KEY_OVERRIDE_FINAL_WEIGHT@);
    let q4 = spec_quoted(KEY_OVERRIDE_SHOT_TIME@);
    let q5 = spec_quoted(KEY_PRESSURE@);
    let q6 = spec_quoted(KEY_FLOW_RESTRICTION@);
    let v1 = spec_digits(c.grains_weight_in as nat);
    let v2 = spec_opt_uint_bytes(c.espresso_yield);
    let v3 = spec_opt_uint_bytes(c.override_final_weight);
    let v4 = match c.override_shot_time {
        Option::Some(t) => spec_digits(t as nat),
        Option::None => LIT_NULL@,
    };
    let v5 = spec_digits(c.pressure as nat);
    let v6 = spec_digits(c.flow_restriction as nat);

    let b0: int = 0;
    let b1 = b0 + 1;
    let b2 = b1 + q1.len();
    let b3 = b2 + v1.len();
    let b4 = b3 + 1;
    let b5 = b4 + q2.len();
    let b6 = b5 + v2.len();
    let b7 = b6 + 1;
    let b8 = b7 + q3.len();
    let b9 = b8 + v3.len();
    let b10 = b9 + 1;
    let b11 = b10 + q4.len();
    let b12 = b11 + v4.len();
    let b13 = b12 + 1;
    let b14 = b13 + q5.len();
    let b15 = b14 + v5.len();
    let b16 = b15 + 1;
    let b17 = b16 + q6.len();
    let b18 = b17 + v6.len();
    let b19 = b18 + 1;

    let p1 = seq![123u8];
    let p2 = p1 + q1;
    let p3 = p2 + v1;
    let p4 = p3 + seq![44u8];
    let p5 = p4 + q2;
    let p6 = p5 + v2;
    let p7 = p6 + seq![44u8];
    let p8 = p7 + q3;
    let p9 = p8 + v3;
    let p10 = p9 + seq![44u8];
    let p11 = p10 + q4;
    let p12 = p11 + v4;
    let p13 = p12 + seq![44u8];
    let p14 = p13 + q5;
    let p15 = p14 + v5;
    let p16 = p15 + seq![44u8];
    let p17 = p16 + q6;
    let p18 = p17 + v6;
    let p19 = p18 + seq![125u8];

    assert(s == p19);
    lemma_tail_subrange(p7, q3);
    lemma_prefix_subrange(p8, v3, b7, b8);
    lemma_prefix_subrange(p9, seq![44u8], b7, b8);
    lemma_prefix_subrange(p10, q4, b7, b8);
    lemma_prefix_subrange(p11, v4, b7, b8);
    lemma_prefix_subrange(p12, seq![44u8], b7, b8);
    lemma_prefix_subrange(p13, q5, b7, b8);
    lemma_prefix_subrange(p14, v5, b7, b8);
    lemma_prefix_subrange(p15, seq![44u8], b7, b8);
    lemma_prefix_subrange(p16, q6, b7, b8);
    lemma_prefix_subrange(p17, v6, b7, b8);
    lemma_prefix_subrange(p18, seq![125u8], b7, b8);
    assert(s.subrange(b7, b8) == q3);
    lemma_tail_subrange(p8, v3);
    lemma_prefix_subrange(p9, seq![44u8], b8, b9);
    lemma_prefix_subrange(p10, q4, b8, b9);
    lemma_prefix_subrange(p11, v4, b8, b9);
    lemma_prefix_subrange(p12, seq![44u8], b8, b9);
    lemma_prefix_subrange(p13, q5, b8, b9);
    lemma_prefix_subrange(p14, v5, b8, b9);
    lemma_prefix_subrange(p15, seq![44u8], b8, b9);
    lemma_prefix_subrange(p16, q6, b8, b9);
    lemma_prefix_subrange(p17, v6, b8, b9);
    lemma_prefix_subrange(p18, seq![125u8], b8, b9);
    assert(s.subrange(b8, b9) == v3);
    lemma_tail_subrange(p9, seq![44u8]);
    lemma_prefix_subrange(p10, q4, b9, b10);
    lemma_prefix_subrange(p11, v4, b9, b10);
    lemma_prefix_subrange(p12, seq![44u8], b9, b10);
    lemma_prefix_subrange(p13, q5, b9, b10);
    lemma_prefix_subrange(p14, v5, b9, b10);
    lemma_prefix_subrange(p15, seq![44u8], b9, b10);
    lemma_prefix_subrange(p16, q6, b9, b10);
    lemma_prefix_subrange(p17, v6, b9, b10);
    lemma_prefix_subrange(p18, seq![125u8], b9, b10);
    assert(s.subrange(b9, b10) == seq![44u8]);
    assert(s[b9] == s.subrange(b9, b10)[0]);
    assert(b7 == shot_enc_off(c, 7) && b8 == shot_enc_off(c, 8));
    assert(b9 == shot_enc_off(c, 9));
}

/// Layout of member 4 inside the encoded shot configuration.
#[verifier::rlimit(100)]
proof fn lemma_shot_layout_4(c: ShotConfig)
    ensures
        spec_encode_shot(c).subrange(shot_enc_off(c, 10), shot_enc_off(c, 11)) == spec_quoted(KEY_OVERRIDE_SHOT_TIME@),
        spec_encode_shot(c).subrange(shot_enc_off(c, 11), shot_enc_off(c, 12)) == (match c.override_shot_time {
            Option::Some(t) => spec_digits(t as nat),
            Option::None => LIT_NULL@,
        }),
        spec_encode_shot(c)[shot_enc_off(c, 12)] == 44,
{
    let s = spec_encode_shot(c);
    let q1 = spec_quoted(KEY_GRAINS_WEIGHT_IN@);
    let q2 = spec_quoted(KEY_ESPRESSO_YIELD@);
    let q3 = spec_quoted(KEY_OVERRIDE_FINAL_WEIGHT@);
    let q4 = spec_quoted(KEY_OVERRIDE_SHOT_TIME@);
    let q5 = spec_quoted(KEY_PRESSURE@);
    let q6 = spec_quoted(KEY_FLOW_RESTRICTION@);
    let v1 = spec_digits(c.grains_weight_in as nat);
    let v2 = spec_opt_uint_bytes(c.espresso_yield);
    let v3 = spec_opt_uint_bytes(c.override_final_weight);
    let v4 = match c.override_shot_time {
        Option::Some(t) => spec_digits(t as nat),
        Option::None => LIT_NULL@,
    };
    let v5 = spec_digits(c.pressure as nat);
    let v6 = spec_digits(c.flow_restriction as nat);

    let b0: int = 0;
    let b1 = b0 + 1;
    let b2 = b1 + q1.len();
    let b3 = b2 + v1.len();
    let b4 = b3 + 1;
    let b5 = b4 + q2.len();
    let b6 = b5 + v2.len();
    let b7 = b6 + 1;
    let b8 = b7 + q3.len();
    let b9 = b8 + v3.len();
    let b10 = b9 + 1;
    let b11 = b10 + q4.len();
    let b12 = b11 + v4.len();
    let b13 = b12 + 1;
    let b14 = b13 + q5.len();
    let b15 = b14 + v5.len();
    let b16 = b15 + 1;
    let b17 = b16 + q6.len();
    let b18 = b17 + v6.len();
    let b19 = b18 + 1;

    let p1 = seq![123u8];
    let p2 = p1 + q1;
    let p3 = p2 + v1;
    let p4 = p3 + seq![44u8];
    let p5 = p4 + q2;
    let p6 = p5 + v2;
    let p7 = p6 + seq![44u8];
    let p8 = p7 + q3;
    let p9 = p8 + v3;
    let p10 = p9 + seq![44u8];
    let p11 = p10 + q4;
    let p12 = p11 + v4;
    let p13 = p12 + seq![44u8];
    let p14 = p13 + q5;
    let p15 = p14 + v5;
    let p16 = p15 + seq![44u8];
    let p17 = p16 + q6;
    let p18 = p17 + v6;
    let p19 = p18 + seq![125u8];

    assert(s == p19);
    lemma_tail_subrange(p10, q4);
    lemma_prefix_subrange(p11, v4, b10, b11);
    lemma_prefix_subrange(p12, seq![44u8], b10, b11);
    lemma_prefix_subrange(p13, q5, b10, b11);
    lemma_prefix_subrange(p14, v5, b10, b11);
    lemma_prefix_subrange(p15, seq![44u8], b10, b11);
    lemma_prefix_subrange(p16, q6, b10, b11);
    lemma_prefix_subrange(p17, v6, b10, b11);
    lemma_prefix_subrange(p18, seq![125u8], b10, b11);
    assert(s.subrange(b10, b11) == q4);
    lemma_tail_subrange(p11, v4);
    lemma_prefix_subrange(p12, seq![44u8], b11, b12);
    lemma_prefix_subrange(p13, q5, b11, b12);
    lemma_prefix_subrange(p14, v5, b11, b12);
    lemma_prefix_subrange(p15, seq![44u8], b11, b12);
    lemma_prefix_subrange(p16, q6, b11, b12);
    lemma_prefix_subrange(p17, v6, b11, b12);
    lemma_prefix_subrange(p18, seq![125u8], b11, b12);
    assert(s.subrange(b11, b12) == v4);
    lemma_tail_subrange(p12, seq![44u8]);
    lemma_prefix_subrange(p13, q5, b12, b13);
    lemma_prefix_subrange(p14, v5, b12, b13);
    lemma_prefix_subrange(p15, seq![44u8], b12, b13);
    lemma_prefix_subrange(p16, q6, b12, b13);
    lemma_prefix_subrange(p17, v6, b12, b13);
    lemma_prefix_subrange(p18, seq![125u8], b12, b13);
    assert(s.subrange(b12, b13) == seq![44u8]);
    assert(s[b12] == s.subrange(b12, b13)[0]);
    assert(b10 == shot_enc_off(c, 10) && b11 == shot_enc_off(c, 11));
    assert(b12 == shot_enc_off(c, 12));
}

/// Layout of member 5 inside the encoded shot configuration.
#[verifier::rlimit(100)]
proof fn lemma_shot_layout_5(c: ShotConfig)
    ensures
        spec_encode_shot(c).subrange(shot_enc_off(c, 13), shot_enc_off(c, 14)) == spec_quoted(KEY_PRESSURE@),
        spec_encode_shot(c).subrange(shot_enc_off(c, 14), shot_enc_off(c, 15)) == spec_digits(c.pressure as nat),
        spec_encode_shot(c)[shot_enc_off(c, 15)] == 44,
{
    let s = spec_encode_shot(c);
    let q1 = spec_quoted(KEY_GRAINS_WEIGHT_IN@);
    let q2 = spec_quoted(KEY_ESPRESSO_YIELD@);
    let q3 = spec_quoted(KEY_OVERRIDE_FINAL_WEIGHT@);
    let q4 = spec_quoted(KEY_OVERRIDE_SHOT_TIME@);
    let q5 = spec_quoted(KEY_PRESSURE@);
    let q6 = spec_quoted(KEY_FLOW_RESTRICTION@);
    let v1 = spec_digits(c.grains_weight_in as nat);
    let v2 = spec_opt_uint_bytes(c.espresso_yield);
    let v3 = spec_opt_uint_bytes(c.override_final_weight);
    let v4 = match c.override_shot_time {
        Option::Some(t) => spec_digits(t as nat),
        Option::None => LIT_NULL@,
    };
    let v5 = spec_digits(c.pressure as nat);
    let v6 = spec_digits(c.flow_restriction as nat);

    let b0: int = 0;
    let b1 = b0 + 1;
    let b2 = b1 + q1.len();
    let b3 = b2 + v1.len();
    let b4 = b3 + 1;
    let b5 = b4 + q2.len();
    let b6 = b5 + v2.len();
    let b7 = b6 + 1;
    let b8 = b7 + q3.len();
    let b9 = b8 + v3.len();
    let b10 = b9 + 1;
    let b11 = b10 + q4.len();
    let b12 = b11 + v4.len();
    let b13 = b12 + 1;
    let b14 = b13 + q5.len();
    let b15 = b14 + v5.len();
    let b16 = b15 + 1;
    let b17 = b16 + q6.len();
    let b18 = b17 + v6.len();
    let b19 = b18 + 1;

    let p1 = seq![123u8];
    let p2 = p1 + q1;
    let p3 = p2 + v1;
    let p4 = p3 + seq![44u8];
    let p5 = p4 + q2;
    let p6 = p5 + v2;
    let p7 = p6 + seq![44u8];
    let p8 = p7 + q3;
    let p9 = p8 + v3;
    let p10 = p9 + seq![44u8];
    let p11 = p10 + q4;
    let p12 = p11 + v4;
    let p13 = p12 + seq![44u8];
    let p14 = p13 + q5;
    let p15 = p14 + v5;
    let p16 = p15 + seq![44u8];
    let p17 = p16 + q6;
    let p18 = p17 + v6;
    let p19 = p18 + seq![125u8];

    assert(s == p19);
    lemma_tail_subrange(p13, q5);
    lemma_prefix_subrange(p14, v5, b13, b14);
    lemma_prefix_subrange(p15, seq![44u8], b13, b14);
    lemma_prefix_subrange(p16, q6, b13, b14);
    lemma_prefix_subrange(p17, v6, b13, b14);
    lemma_prefix_subrange(p18, seq![125u8], b13, b14);
    assert(s.subrange(b13, b14) == q5);
    lemma_tail_subrange(p14, v5);
    lemma_prefix_subrange(p15, seq![44u8], b14, b15);
    lemma_prefix_subrange(p16, q6, b14, b15);
    lemma_prefix_subrange(p17, v6, b14, b15);
    lemma_prefix_subrange(p18, seq![125u8], b14, b15);
    assert(s.subrange(b14, b15) == v5);
    lemma_tail_subrange(p15, seq![44u8]);
    lemma_prefix_subrange(p16, q6, b15, b16);
    lemma_prefix_subrange(p17, v6, b15, b16);
    lemma_prefix_subrange(p18, seq![125u8], b15, b16);
    assert(s.subrange(b15, b16) == seq![44u8]);
    assert(s[b15] == s.subrange(b15, b16)[0]);
    assert(b13 == shot_enc_off(c, 13) && b14 == shot_enc_off(c, 14));
    assert(b15 == shot_enc_off(c, 15));
}

/// Layout of member 6 inside the encoded shot configuration.
#[verifier::rlimit(100)]
proof fn lemma_shot_layout_6(c: ShotConfig)
    ensures
        spec_encode_shot(c).subrange(shot_enc_off(c, 16), shot_enc_off(c, 17)) == spec_quoted(KEY_FLOW_RESTRICTION@),
        spec_encode_shot(c).subrange(shot_enc_off(c, 17), shot_enc_off(c, 18)) == spec_digits(c.flow_restriction as nat),
        spec_encode_shot(c)[shot_enc_off(c, 18)] == 125,
{
    let s = spec_encode_shot(c);
    let q1 = spec_quoted(KEY_GRAINS_WEIGHT_IN@);
    let q2 = spec_quoted(KEY_ESPRESSO_YIELD@);
    let q3 = spec_quoted(KEY_OVERRIDE_FINAL_WEIGHT@);
    let q4 = spec_quoted(KEY_OVERRIDE_SHOT_TIME@);
    let q5 = spec_quoted(KEY_PRESSURE@);
    let q6 = spec_quoted(KEY_FLOW_RESTRICTION@);
    let v1 = spec_digits(c.grains_weight_in as nat);
    let v2 = spec_opt_uint_bytes(c.espresso_yield);
    let v3 = spec_opt_uint_bytes(c.override_final_weight);
    let v4 = match c.override_shot_time {
        Option::Some(t) => spec_digits(t as nat),
        Option::None => LIT_NULL@,
    };
    let v5 = spec_digits(c.pressure as nat);
    let v6 = spec_digits(c.flow_restriction as nat);

    let b0: int = 0;
    let b1 = b0 + 1;
    let b2 = b1 + q1.len();
    let b3 = b2 + v1.len();
    let b4 = b3 + 1;
    let b5 = b4 + q2.len();
    let b6 = b5 + v2.len();
    let b7 = b6 + 1;
    let b8 = b7 + q3.len();
    let b9 = b8 + v3.len();
    let b10 = b9 + 1;
    let b11 = b10 + q4.len();
    let b12 = b11 + v4.len();
    let b13 = b12 + 1;
    let b14 = b13 + q5.len();
    let b15 = b14 + v5.len();
    let b16 = b15 + 1;
    let b17 = b16 + q6.len();
    let b18 = b17 + v6.len();
    let b19 = b18 + 1;

    let p1 = seq![123u8];
    let p2 = p1 + q1;
    let p3 = p2 + v1;
    let p4 = p3 + seq![44u8];
    let p5 = p4 + q2;
    let p6 = p5 + v2;
    let p7 = p6 + seq![44u8];
    let p8 = p7 + q3;
    let p9 = p8 + v3;
    let p10 = p9 + seq![44u8];
    let p11 = p10 + q4;
    let p12 = p11 + v4;
    let p13 = p12 + seq![44u8];
    let p14 = p13 + q5;
    let p15 = p14 + v5;
    let p16 = p15 + seq![44u8];
    let p17 = p16 + q6;
    let p18 = p17 + v6;
    let p19 = p18 + seq![125u8];

    assert(s == p19);
    lemma_tail_subrange(p16, q6);
    lemma_prefix_subrange(p17, v6, b16, b17);
    lemma_prefix_subrange(p18, seq![125u8], b16, b17);
    assert(s.subrange(b16, b17) == q6);
    lemma_tail_subrange(p17, v6);
    lemma_prefix_subrange(p18, seq![125u8], b17, b18);
    assert(s.subrange(b17, b18) == v6);
    lemma_tail_subrange(p18, seq![125u8]);
    assert(s.subrange(b18, b19) == seq![125u8]);
    assert(s[b18] == s.subrange(b18, b19)[0]);
    assert(b16 == shot_enc_off(c, 16) && b17 == shot_enc_off(c, 17));
    assert(b18 == shot_enc_off(c, 18));
}


/// An optional whole-second value laid out at `v..tv` parses back to itself.
proof fn lemma_opt_u32_value_parses(s: Seq<u8>, v: int, tv: int, o: Option<u32>)
    requires
        0 <= v <= tv <= s.len(),
        s.subrange(v, tv) == (match o {
            Option::Some(t) => spec_digits(t as nat),
            Option::None => LIT_NULL@,
        }),
        tv == s.len() || !is_digit(s[tv]),
    ensures
        match o {
            Option::Some(t) => !spec_match_lit(s, v, LIT_NULL@) && spec_parse_uint(s, v)
                == Option::Some((t as int, tv)),
            Option::None => spec_match_lit(s, v, LIT_NULL@) && v + 4 == tv,
        },
{
    match o {
        Option::Some(t) => {
            lemma_digits_shape(t as nat);
            lemma_parse_digits_at(s, v, tv, t as nat);
            assert(s[v] == s.subrange(v, tv)[0]);
            if spec_match_lit(s, v, LIT_NULL@) {
                assert(s.subrange(v, v + 4)[0] == s[v]);
                assert(LIT_NULL@[0] == 110);
            }
        },
        Option::None => {
            assert(s.subrange(v, tv) =~= s.subrange(v, v + 4));
        },
    }
}

/// Total length of the encoded shot configuration.
proof fn lemma_shot_layout_len(c: ShotConfig)
    ensures
        spec_encode_shot(c).len() == shot_enc_off(c, 19),
        spec_encode_shot(c)[0] == 123,
{
    let s = spec_encode_shot(c);
    assert(s[0] == 123) by {
        assert(s.subrange(0, 1) =~= seq![123u8]);
        assert(s[0] == s.subrange(0, 1)[0]);
    }
}
/// Decoding member 1 of a canonical encoding replaces exactly its field.
#[verifier::rlimit(100)]
proof fn lemma_shot_member_1(c: ShotConfig, acc: ShotConfig)
    requires
        c.wf(),
    ensures
        spec_shot_members(spec_encode_shot(c), shot_enc_off(c, 1), acc) == spec_shot_members(
            spec_encode_shot(c),
            shot_enc_off(c, 3) + 1,
            ShotConfig { grains_weight_in: c.grains_weight_in, ..acc },
        ),
{
    let s = spec_encode_shot(c);
    let key = KEY_GRAINS_WEIGHT_IN@;
    let val = spec_digits(c.grains_weight_in as nat);
    let i = shot_enc_off(c, 1);
    let vpos = shot_enc_off(c, 2);
    let tv = shot_enc_off(c, 3);
    lemma_shot_layout_1(c);
    lemma_shot_layout_len(c);
    assert(plain_key(key));
    lemma_digits_shape(c.grains_weight_in as nat);
    assert(is_digit(val[0]));
    lemma_member_shape(s, i, key, val);
    lemma_parse_digits_at(s, vpos, tv, c.grains_weight_in as nat);
    assert(spec_shot_field(s, vpos, key, acc) == Option::Some((
        ShotConfig { grains_weight_in: c.grains_weight_in, ..acc },
        tv,
    )));
    assert(s[tv] == 44);
}
/// Decoding member 2 of a canonical encoding replaces exactly its field.
#[verifier::rlimit(100)]
proof fn lemma_shot_member_2(c: ShotConfig, acc: ShotConfig)
    requires
        c.wf(),
    ensures
        spec_shot_members(spec_encode_shot(c), shot_enc_off(c, 4), acc) == spec_shot_members(
            spec_encode_shot(c),
            shot_enc_off(c, 6) + 1,
            ShotConfig { espresso_yield: c.espresso_yield, ..acc },
        ),
{
    let s = spec_encode_shot(c);
    let key = KEY_ESPRESSO_YIELD@;
    let val = spec_opt_uint_bytes(c.espresso_yield);
    let i = shot_enc_off(c, 4);
    let vpos = shot_enc_off(c, 5);
    let tv = shot_enc_off(c, 6);
    lemma_shot_layout_2(c);
    lemma_shot_layout_len(c);
    assert(plain_key(key));
    match c.espresso_yield {
        Option::Some(n) => {
            lemma_digits_shape(n as nat);
            assert(is_digit(val[0]));
        },
        Option::None => {
            assert(val[0] == 110);
        },
    }
    lemma_member_shape(s, i, key, val);
    lemma_opt_value_parses(s, vpos, tv, c.espresso_yield);
    assert(spec_shot_field(s, vpos, key, acc) == Option::Some((
        ShotConfig { espresso_yield: c.espresso_yield, ..acc },
        tv,
    )));
    assert(s[tv] == 44);
}
/// Decoding member 3 of a canonical encoding replaces exactly its field.
#[verifier::rlimit(100)]
proof fn lemma_shot_member_3(c: ShotConfig, acc: ShotConfig)
    requires
        c.wf(),
    ensures
        spec_shot_members(spec_encode_shot(c), shot_enc_off(c, 7), acc) == spec_shot_members(
            spec_encode_shot(c),
            shot_enc_off(c, 9) + 1,
            ShotConfig { override_final_weight: c.override_final_weight, ..acc },
        ),
{
    let s = spec_encode_shot(c);
    let key = KEY_OVERRIDE_FINAL_WEIGHT@;
    let val = spec_opt_uint_bytes(c.override_final_weight);
    let i = shot_enc_off(c, 7);
    let vpos = shot_enc_off(c, 8);
    let tv = shot_enc_off(c, 9);
    lemma_shot_layout_3(c);
    lemma_shot_layout_len(c);
    assert(plain_key(key));
    match c.override_final_weight {
        Option::Some(n) => {
            lemma_digits_shape(n as nat);
            assert(is_digit(val[0]));
        },
        Option::None => {
            assert(val[0] == 110);
        },
    }
    lemma_member_shape(s, i, key, val);
    lemma_opt_value_parses(s, vpos, tv, c.override_final_weight);
    assert(spec_shot_field(s, vpos, key, acc) == Option::Some((
        ShotConfig { override_final_weight: c.override_final_weight, ..acc },
        tv,
    )));
    assert(s[tv] == 44);
}
/// Decoding member 4 of a canonical encoding replaces exactly its field.
#[verifier::rlimit(100)]
proof fn lemma_shot_member_4(c: ShotConfig, acc: ShotConfig)
    requires
        c.wf(),
    ensures
        spec_shot_members(spec_encode_shot(c), shot_enc_off(c, 10), acc) == spec_shot_members(
            spec_encode_shot(c),
            shot_enc_off(c, 12) + 1,
            ShotConfig { override_shot_time: c.override_shot_time, ..acc },
        ),
{
    let s = spec_encode_shot(c);
    let key = KEY_OVERRIDE_SHOT_TIME@;
    let val = (match c.override_shot_time {
        Option::Some(t) => spec_digits(t as nat),
        Option::None => LIT_NULL@,
    });
    let i = shot_enc_off(c, 10);
    let vpos = shot_enc_off(c, 11);
    let tv = shot_enc_off(c, 12);
    lemma_shot_layout_4(c);
    lemma_shot_layout_len(c);
    assert(plain_key(key));
    match c.override_shot_time {
        Option::Some(t) => {
            lemma_digits_shape(t as nat);
            assert(is_digit(val[0]));
        },
        Option::None => {
            assert(val[0] == 110);
        },
    }
    lemma_member_shape(s, i, key, val);
    assert(vpos == i + key.len() + 3);
    assert(spec_scan_string(s, i + 1) == Option::Some(i + key.len() + 2));
    assert(s.subrange(i + 1, i + key.len() + 1) == key);
    lemma_opt_u32_value_parses(s, vpos, tv, c.override_shot_time);
    assert(key.len() == 18 && KEY_GRAINS_WEIGHT_IN@.len() == 16 && KEY_ESPRESSO_YIELD@.len()
        == 14 && KEY_OVERRIDE_FINAL_WEIGHT@.len() == 21);
    assert(key != KEY_GRAINS_WEIGHT_IN@ && key != KEY_ESPRESSO_YIELD@ && key
        != KEY_OVERRIDE_FINAL_WEIGHT@);
    assert(spec_shot_field(s, vpos, key, acc) == Option::Some((
        ShotConfig { override_shot_time: c.override_shot_time, ..acc },
        tv,
    )));
    assert(s[tv] == 44);
}
/// Decoding member 5 of a canonical encoding replaces exactly its field.
#[verifier::rlimit(100)]
proof fn lemma_shot_member_5(c: ShotConfig, acc: ShotConfig)
    requires
        c.wf(),
    ensures
        spec_shot_members(spec_encode_shot(c), shot_enc_off(c, 13), acc) == spec_shot_members(
            spec_encode_shot(c),
            shot_enc_off(c, 15) + 1,
            ShotConfig { pressure: c.pressure, ..acc },
        ),
{
    let s = spec_encode_shot(c);
    let key = KEY_PRESSURE@;
    let val = spec_digits(c.pressure as nat);
    let i = shot_enc_off(c, 13);
    let vpos = shot_enc_off(c, 14);
    let tv = shot_enc_off(c, 15);
    lemma_shot_layout_5(c);
    lemma_shot_layout_len(c);
    assert(plain_key(key));
    lemma_digits_shape(c.pressure as nat);
    assert(is_digit(val[0]));
    lemma_member_shape(s, i, key, val);
    lemma_parse_digits_at(s, vpos, tv, c.pressure as nat);
    assert(spec_shot_field(s, vpos, key, acc) == Option::Some((
        ShotConfig { pressure: c.pressure, ..acc },
        tv,
    )));
    assert(s[tv] == 44);
}
/// Decoding member 6 of a canonical encoding replaces exactly its field.
#[verifier::rlimit(100)]
proof fn lemma_shot_member_6(c: ShotConfig, acc: ShotConfig)
    requires
        c.wf(),
    ensures
        spec_shot_members(spec_encode_shot(c), shot_enc_off(c, 16), acc) == Option::Some(
            ShotConfig { flow_restriction: c.flow_restriction, ..acc },
        ),
{
    let s = spec_encode_shot(c);
    let key = KEY_FLOW_RESTRICTION@;
    let val = spec_digits(c.flow_restriction as nat);
    let i = shot_enc_off(c, 16);
    let vpos = shot_enc_off(c, 17);
    let tv = shot_enc_off(c, 18);
    lemma_shot_layout_6(c);
    lemma_shot_layout_len(c);
    assert(plain_key(key));
    lemma_digits_shape(c.flow_restriction as nat);
    assert(is_digit(val[0]));
    lemma_member_shape(s, i, key, val);
    lemma_parse_digits_at(s, vpos, tv, c.flow_restriction as nat);
    assert(KEY_FLOW_RESTRICTION@[0] == 102 && KEY_GRAINS_WEIGHT_IN@[0] == 103);
    assert(key != KEY_GRAINS_WEIGHT_IN@);
    assert(spec_shot_field(s, vpos, key, acc) == Option::Some((
        ShotConfig { flow_restriction: c.flow_restriction, ..acc },
        tv,
    )));
    assert(s[tv] == 125);
    assert(tv + 1 == s.len());
}

/// JSON-encoding a shot configuration and decoding it back yields an equal
/// record, whatever record the decode merges over: every field is present in
/// the encoding, so none is taken from the base.
#[verifier::rlimit(100)]
pub proof fn lemma_shot_config_roundtrip(c: ShotConfig, base: ShotConfig)
    requires
        c.wf(),
    ensures
        spec_decode_shot(spec_encode_shot(c), base) == Option::Some(c),
{
    let s = spec_encode_shot(c);
    lemma_shot_layout_len(c);
    lemma_shot_layout_1(c);
    let a0 = base;
    let a1 = ShotConfig { grains_weight_in: c.grains_weight_in, ..a0 };
    let a2 = ShotConfig { espresso_yield: c.espresso_yield, ..a1 };
    let a3 = ShotConfig { override_final_weight: c.override_final_weight, ..a2 };
    let a4 = ShotConfig { override_shot_time: c.override_shot_time, ..a3 };
    let a5 = ShotConfig { pressure: c.pressure, ..a4 };
    let a6 = ShotConfig { flow_restriction: c.flow_restriction, ..a5 };
    lemma_shot_member_1(c, a0);
    lemma_shot_member_2(c, a1);
    lemma_shot_member_3(c, a2);
    lemma_shot_member_4(c, a3);
    lemma_shot_member_5(c, a4);
    lemma_shot_member_6(c, a5);
    assert(a6 == c);
    // The separator after each member hands the cursor to the next member.
    assert(shot_enc_off(c, 3) + 1 == shot_enc_off(c, 4));
    assert(shot_enc_off(c, 6) + 1 == shot_enc_off(c, 7));
    assert(shot_enc_off(c, 9) + 1 == shot_enc_off(c, 10));
    assert(shot_enc_off(c, 12) + 1 == shot_enc_off(c, 13));
    assert(shot_enc_off(c, 15) + 1 == shot_enc_off(c, 16));
    assert(spec_shot_members(s, 1, base) == Option::Some(c));
    // The object opens with a brace and the first key follows at once.
    let q1 = spec_quoted(KEY_GRAINS_WEIGHT_IN@);
    assert(s[1] == s.subrange(1, 1 + q1.len() as int)[0]);
    assert(s[1] == 34);
    assert(spec_skip_ws(s, 0) == 0);
    assert(spec_skip_ws(s, 1) == 1);
}
} // verus!
