//! The pure converter and input parsing.

use vstd::prelude::*;

use crate::errors::{ConversionError, InputError};
use crate::models::{is_code, rate_in, ApiResponse};

verus! {

/// `amount_cents * rate_micro / 1_000_000`, rounded half away from zero.
/// Amounts are in hundredths of the base unit, rates in millionths, so the
/// result is in hundredths of the target unit.
pub open spec fn spec_convert(amount_cents: u64, rate_micro: u64) -> int {
    (amount_cents * rate_micro + 500000) / 1000000
}

proof fn lemma_rate_in_skip(rates: Seq<(Seq<char>, u64)>, code: Seq<char>, i: int)
    requires
        0 <= i <= rates.len(),
        forall|j: int| 0 <= j < i ==> (#[trigger] rates[j].0) != code,
    ensures
        rate_in(rates, code) == rate_in(rates.skip(i), code),
    decreases i,
{
    if i > 0 {
        lemma_rate_in_skip(rates.skip(1), code, i - 1);
        assert(rates.skip(1).skip(i - 1) =~= rates.skip(i));
    } else {
        assert(rates.skip(0) =~= rates);
    }
}

/// Converts `amount_cents` of the snapshot's base currency into the target
/// currency. Fails exactly when the target code has no entry in the
/// snapshot's rate table; otherwise returns the rounded converted amount.
pub fn convert_currency(amount_cents: u64, to_currency: &str, api_data: &ApiResponse) -> (r: Result<
    u128,
    ConversionError,
>)
    ensures
        match r {
            Ok(v) => rate_in(api_data.model().rates, to_currency@) is Some && v == spec_convert(
                amount_cents,
                rate_in(api_data.model().rates, to_currency@).unwrap(),
            ),
            Err(e) => rate_in(api_data.model().rates, to_currency@) is None && (e matches
                ConversionError::CurrencyNotFound(b, t) && b@ == api_data.base_code@ && t@
                == to_currency@),
        },
{
    let ghost rates = api_data.model().rates;
    let target = to_currency.to_owned();
    let n = api_data.conversion_rates.len();
    let mut i: usize = 0;
    while i < n
        invariant
            n == api_data.conversion_rates.len(),
            i <= n,
            rates == api_data.model().rates,
            target@ == to_currency@,
            forall|j: int| 0 <= j < i ==> (#[trigger] rates[j].0) != to_currency@,
        decreases n - i,
    {
        let e = &api_data.conversion_rates[i];
        if e.code == target {
            proof {
                lemma_rate_in_skip(rates, to_currency@, i as int);
                assert(rates.skip(i as int)[0] == rates[i as int]);
            }
            proof {
                vstd::arithmetic::mul::lemma_mul_upper_bound(
                    amount_cents as int,
                    u64::MAX as int,
                    e.rate_micro as int,
                    u64::MAX as int,
                );
            }
            let p: u128 = (amount_cents as u128) * (e.rate_micro as u128);
            let v: u128 = (p + 500000) / 1000000;
            return Ok(v);
        }
        i = i + 1;
    }
    proof {
        lemma_rate_in_skip(rates, to_currency@, n as int);
        assert(rates.skip(n as int) =~= Seq::<(Seq<char>, u64)>::empty());
    }
    Err(ConversionError::CurrencyNotFound(api_data.base_code.clone(), target))
}

/// The conversion is deterministic: equal inputs give equal results.
pub proof fn lemma_convert_deterministic(a1: u64, r1: u64, a2: u64, r2: u64)
    requires
        a1 == a2,
        r1 == r2,
    ensures
        spec_convert(a1, r1) == spec_convert(a2, r2),
{
}

/// Rounding is half away from zero: a product whose last six digits are
/// exactly one half (or more) rounds up, below one half rounds down.
pub proof fn lemma_round_half_away(amount_cents: u64, rate_micro: u64)
    ensures
        ({
            let p = (amount_cents as int) * (rate_micro as int);
            &&& p % 1000000 >= 500000 ==> spec_convert(amount_cents, rate_micro) == p / 1000000 + 1
            &&& p % 1000000 < 500000 ==> spec_convert(amount_cents, rate_micro) == p / 1000000
        }),
{
    let p = (amount_cents as int) * (rate_micro as int);
    let q = p / 1000000;
    let m = p % 1000000;
    vstd::arithmetic::mul::lemma_mul_nonnegative(amount_cents as int, rate_micro as int);
    vstd::arithmetic::div_mod::lemma_fundamental_div_mod(p, 1000000);
    assert(p + 500000 == 1000000 * q + (m + 500000));
    if m < 500000 {
        vstd::arithmetic::div_mod::lemma_div_multiples_vanish_fancy(q, m + 500000, 1000000);
    } else {
        assert(1000000 * (q + 1) == 1000000 * q + 1000000) by {
            vstd::arithmetic::mul::lemma_mul_is_distributive_add(1000000, q, 1);
        };
        assert(p + 500000 == 1000000 * (q + 1) + (m - 500000));
        vstd::arithmetic::div_mod::lemma_div_multiples_vanish_fancy(q + 1, m - 500000, 1000000);
    }
}

/// A trimmable character: one with Unicode's White_Space property, the
/// set that `str::trim` removes.
pub open spec fn is_space(c: char) -> bool {
    ||| c == '\u{0009}' || c == '\u{000A}' || c == '\u{000B}' || c == '\u{000C}'
    ||| c == '\u{000D}' || c == ' ' || c == '\u{0085}' || c == '\u{00A0}'
    ||| c == '\u{1680}' || ('\u{2000}' <= c && c <= '\u{200A}')
    ||| c == '\u{2028}' || c == '\u{2029}' || c == '\u{202F}' || c == '\u{205F}'
    ||| c == '\u{3000}'
}

pub open spec fn trim_front_spec(s: Seq<char>) -> Seq<char>
    decreases s.len(),
{
    if s.len() > 0 && is_space(s[0]) {
        trim_front_spec(s.skip(1))
    } else {
        s
    }
}

pub open spec fn trim_back_spec(s: Seq<char>) -> Seq<char>
    decreases s.len(),
{
    if s.len() > 0 && is_space(s.last()) {
        trim_back_spec(s.drop_last())
    } else {
        s
    }
}

/// The input with leading and trailing whitespace removed.
pub open spec fn trim_spec(s: Seq<char>) -> Seq<char> {
    trim_back_spec(trim_front_spec(s))
}

proof fn lemma_trim_front_at(s: Seq<char>, lo: int)
    requires
        0 <= lo <= s.len(),
        forall|j: int| 0 <= j < lo ==> is_space(#[trigger] s[j]),
        lo < s.len() ==> !is_space(s[lo]),
    ensures
        trim_front_spec(s) == s.skip(lo),
    decreases lo,
{
    if lo > 0 {
        lemma_trim_front_at(s.skip(1), lo - 1);
        assert(s.skip(1).skip(lo - 1) =~= s.skip(lo));
    } else {
        assert(s.skip(0) =~= s);
    }
}

proof fn lemma_trim_back_at(s: Seq<char>, hi: int)
    requires
        0 <= hi <= s.len(),
        forall|j: int| hi <= j < s.len() ==> is_space(#[trigger] s[j]),
        hi > 0 ==> !is_space(s[hi - 1]),
    ensures
        trim_back_spec(s) == s.take(hi),
    decreases s.len() - hi,
{
    if hi < s.len() {
        lemma_trim_back_at(s.drop_last(), hi);
        assert(s.drop_last().take(hi) =~= s.take(hi));
    } else {
        assert(s.take(s.len() as int) =~= s);
    }
}

fn space_char(c: char) -> (r: bool)
    ensures
        r == is_space(c),
{
    let v = c as u32;
    (9 <= v && v <= 13) || v == 32 || v == 133 || v == 160 || v == 5760 || (8192 <= v && v
        <= 8202) || v == 8232 || v == 8233 || v == 8239 || v == 8287 || v == 12288
}

fn scan_front(t: &str, i: usize, n: usize) -> (r: usize)
    requires
        i <= n,
        n == t@.len(),
    ensures
        i <= r <= n,
        forall|j: int| i <= j < r ==> is_space(#[trigger] t@[j]),
        r < n ==> !is_space(t@[r as int]),
    decreases n - i,
{
    if i == n {
        n
    } else if space_char(t.get_char(i)) {
        scan_front(t, i + 1, n)
    } else {
        i
    }
}

fn scan_back(t: &str, i: usize, n: usize) -> (r: usize)
    requires
        i <= n,
        n == t@.len(),
    ensures
        r <= i,
        forall|j: int| r <= j < i ==> is_space(#[trigger] t@[j]),
        r > 0 ==> !is_space(t@[r - 1]),
    decreases i,
{
    if i == 0 {
        0
    } else if space_char(t.get_char(i - 1)) {
        scan_back(t, i - 1, n)
    } else {
        i
    }
}

fn check_uppercase(t: &str, i: usize, n: usize) -> (r: bool)
    requires
        i <= n,
        n == t@.len(),
    ensures
        r == (forall|j: int| i <= j < n ==> 'A' <= #[trigger] t@[j] && t@[j] <= 'Z'),
    decreases n - i,
{
    if i == n {
        true
    } else {
        let c = t.get_char(i);
        let v = c as u32;
        if 65 <= v && v <= 90 {
            check_uppercase(t, i + 1, n)
        } else {
            false
        }
    }
}

/// Trims the input; accepts it exactly when what remains is a currency
/// code — three ASCII uppercase letters — and returns the trimmed code.
pub fn parse_code(buffer: &str) -> (r: Result<String, InputError>)
    ensures
        match r {
            Ok(c) => c@ == trim_spec(buffer@) && is_code(trim_spec(buffer@)),
            Err(e) => !is_code(trim_spec(buffer@)) && e == InputError::InvalidCode(),
        },
{
    let n = buffer.unicode_len();
    let lo = scan_front(buffer, 0, n);
    let hi = scan_back(buffer, n, n);
    if lo >= hi {
        proof {
            assert(lo == n) by {
                if lo < n {
                    assert(is_space(buffer@[lo as int]));
                }
            };
            lemma_trim_front_at(buffer@, n as int);
            assert(buffer@.skip(n as int) =~= Seq::<char>::empty());
            lemma_trim_back_at(Seq::<char>::empty(), 0);
            assert(trim_spec(buffer@) =~= Seq::<char>::empty());
        }
        Err(InputError::InvalidCode())
    } else {
        let sub = buffer.substring_char(lo, hi);
        proof {
            lemma_trim_front_at(buffer@, lo as int);
            lemma_trim_back_at(buffer@.skip(lo as int), hi - lo);
            assert(buffer@.skip(lo as int).take(hi - lo) =~= buffer@.subrange(
                lo as int,
                hi as int,
            ));
            assert(trim_spec(buffer@) == sub@);
        }
        if hi - lo == 3 && check_uppercase(sub, 0, 3) {
            Ok(sub.to_owned())
        } else {
            Err(InputError::InvalidCode())
        }
    }
}

} // verus!

