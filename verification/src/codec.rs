//! The cache payload format.
//!
//! A snapshot is stored as one text value:
//! the base code (3 characters), the next-update timestamp (20 decimal
//! digits, zero padded), then one 23-character block per rate entry:
//! its currency code (3 characters) and its rate in millionths
//! (20 decimal digits, zero padded).

use vstd::prelude::*;

use crate::errors::CacheError;
use crate::models::{is_code, ApiResponse, RateEntry, SnapModel};

verus! {

pub open spec fn pow10(k: nat) -> int
    decreases k,
{
    if k == 0 {
        1
    } else {
        10 * pow10((k - 1) as nat)
    }
}

pub open spec fn is_digit(c: char) -> bool {
    '0' <= c && c <= '9'
}

pub open spec fn digit_val(c: char) -> int {
    c as u32 - 48
}

pub open spec fn digit_char(d: int) -> char {
    if d == 0 {
        '0'
    } else if d == 1 {
        '1'
    } else if d == 2 {
        '2'
    } else if d == 3 {
        '3'
    } else if d == 4 {
        '4'
    } else if d == 5 {
        '5'
    } else if d == 6 {
        '6'
    } else if d == 7 {
        '7'
    } else if d == 8 {
        '8'
    } else {
        '9'
    }
}

/// The low `k` decimal digits of `n`, most significant first.
pub open spec fn num_chars_rec(n: int, k: nat) -> Seq<char>
    decreases k,
{
    if k == 0 {
        Seq::empty()
    } else {
        num_chars_rec(n / 10, (k - 1) as nat).push(digit_char(n % 10))
    }
}

/// A `u64` as exactly 20 decimal digits, zero padded.
pub open spec fn num_chars(n: u64) -> Seq<char> {
    num_chars_rec(n as int, 20)
}

/// The value of a digit string, most significant digit first.
pub open spec fn chars_val(s: Seq<char>) -> int
    decreases s.len(),
{
    if s.len() == 0 {
        0
    } else {
        chars_val(s.drop_last()) * 10 + digit_val(s.last())
    }
}

pub open spec fn all_digits(s: Seq<char>) -> bool {
    forall|i: int| 0 <= i < s.len() ==> is_digit(#[trigger] s[i])
}

/// A well-formed 20-digit window whose value fits a `u64`.
pub open spec fn valid_num(s: Seq<char>) -> bool {
    s.len() == 20 && all_digits(s) && chars_val(s) <= u64::MAX
}

pub open spec fn entry_chars(e: (Seq<char>, u64)) -> Seq<char> {
    e.0 + num_chars(e.1)
}

pub open spec fn entries_chars(rs: Seq<(Seq<char>, u64)>) -> Seq<char>
    decreases rs.len(),
{
    if rs.len() == 0 {
        Seq::empty()
    } else {
        entry_chars(rs[0]) + entries_chars(rs.skip(1))
    }
}

/// The encoding of a whole snapshot.
pub open spec fn snap_chars(m: SnapModel) -> Seq<char> {
    m.base + num_chars(m.next) + entries_chars(m.rates)
}

/// Decoding of the entry blocks: every block must be exactly shaped, and
/// the text must consist of whole blocks.
pub open spec fn entries_of_chars(t: Seq<char>) -> Option<Seq<(Seq<char>, u64)>>
    decreases t.len(),
{
    if t.len() == 0 {
        Some(Seq::empty())
    } else if t.len() < 23 {
        None
    } else {
        let c = t.subrange(0, 3);
        let w = t.subrange(3, 23);
        if is_code(c) && valid_num(w) && chars_val(w) >= 1 {
            match entries_of_chars(t.skip(23)) {
                Some(rest) => Some(seq![(c, chars_val(w) as u64)] + rest),
                None => None,
            }
        } else {
            None
        }
    }
}

/// Decoding of a whole payload.
pub open spec fn snap_of_chars(t: Seq<char>) -> Option<SnapModel> {
    if t.len() >= 46 && is_code(t.subrange(0, 3)) && valid_num(t.subrange(3, 23)) {
        match entries_of_chars(t.skip(23)) {
            Some(rs) => Some(
                SnapModel {
                    base: t.subrange(0, 3),
                    next: chars_val(t.subrange(3, 23)) as u64,
                    rates: rs,
                },
            ),
            None => None,
        }
    } else {
        None
    }
}

proof fn lemma_pow10_val()
    ensures
        pow10(20) == 100000000000000000000,
{
    reveal_with_fuel(pow10, 21);
}

proof fn lemma_pow10_pos(k: nat)
    ensures
        pow10(k) >= 1,
    decreases k,
{
    if k > 0 {
        lemma_pow10_pos((k - 1) as nat);
    }
}

proof fn lemma_pow10_mono(a: nat, b: nat)
    requires
        a <= b,
    ensures
        pow10(a) <= pow10(b),
    decreases b,
{
    if a < b {
        lemma_pow10_mono(a, (b - 1) as nat);
        lemma_pow10_pos((b - 1) as nat);
    }
}

/// The digit encoding of `0 <= n < 10^k` is `k` digits whose value is `n`.
proof fn lemma_num_chars_rec_props(n: int, k: nat)
    requires
        0 <= n < pow10(k),
    ensures
        num_chars_rec(n, k).len() == k,
        all_digits(num_chars_rec(n, k)),
        chars_val(num_chars_rec(n, k)) == n,
    decreases k,
{
    if k > 0 {
        assert(n / 10 < pow10((k - 1) as nat)) by {
            lemma_pow10_pos((k - 1) as nat);
        };
        lemma_num_chars_rec_props(n / 10, (k - 1) as nat);
        let s = num_chars_rec(n, k);
        let pre = num_chars_rec(n / 10, (k - 1) as nat);
        let d = digit_char(n % 10);
        assert(s.drop_last() =~= pre);
        assert(s.last() == d);
        assert(is_digit(d) && digit_val(d) == n % 10);
        assert(chars_val(s) == chars_val(pre) * 10 + digit_val(d));
        assert(chars_val(s) == (n / 10) * 10 + n % 10);
        assert(forall|i: int|
            0 <= i < s.len() ==> is_digit(#[trigger] s[i]) && (i < k - 1 ==> s[i] == pre[i]));
    }
}

/// A `u64` always fits in 20 digits.
pub proof fn lemma_num_chars_valid(n: u64)
    ensures
        valid_num(num_chars(n)),
        chars_val(num_chars(n)) == n,
{
    lemma_pow10_val();
    lemma_num_chars_rec_props(n as int, 20);
}

/// Entry blocks decode back to the entries they encode.
proof fn lemma_entries_roundtrip(rs: Seq<(Seq<char>, u64)>)
    requires
        forall|i: int| 0 <= i < rs.len() ==> is_code(#[trigger] rs[i].0) && rs[i].1 >= 1,
    ensures
        entries_of_chars(entries_chars(rs)) == Some(rs),
    decreases rs.len(),
{
    if rs.len() == 0 {
        assert(entries_chars(rs).len() == 0);
    } else {
        let t = entries_chars(rs);
        let e = rs[0];
        lemma_num_chars_valid(e.1);
        assert(num_chars(e.1).len() == 20);
        assert(e.0.len() == 3);
        assert(t == e.0 + num_chars(e.1) + entries_chars(rs.skip(1)));
        assert(t.len() >= 23);
        assert(t.subrange(0, 3) =~= e.0);
        assert(t.subrange(3, 23) =~= num_chars(e.1));
        assert(t.skip(23) =~= entries_chars(rs.skip(1)));
        assert(forall|i: int| 0 <= i < rs.skip(1).len() ==> is_code(#[trigger] rs.skip(1)[i].0)
            && rs.skip(1)[i].1 >= 1);
        lemma_entries_roundtrip(rs.skip(1));
        assert(seq![(e.0, e.1)] + rs.skip(1) =~= rs);
    }
}

/// Round trip: a structurally valid snapshot decodes back from its encoding.
pub proof fn lemma_snapshot_roundtrip(m: SnapModel)
    requires
        m.shaped(),
    ensures
        snap_of_chars(snap_chars(m)) == Some(m),
{
    let t = snap_chars(m);
    lemma_num_chars_valid(m.next);
    assert(num_chars(m.next).len() == 20);
    lemma_entries_roundtrip(m.rates);
    assert(entries_chars(m.rates).len() >= 23) by {
        assert(m.rates.len() >= 1);
        lemma_num_chars_valid(m.rates[0].1);
        assert(entries_chars(m.rates) == entry_chars(m.rates[0]) + entries_chars(
            m.rates.skip(1),
        ));
    };
    assert(t.len() >= 46);
    assert(t.subrange(0, 3) =~= m.base);
    assert(t.subrange(3, 23) =~= num_chars(m.next));
    assert(t.skip(23) =~= entries_chars(m.rates));
}

/// Every decoded entry sequence is nonempty when the text is nonempty, and
/// is structurally valid.
proof fn lemma_entries_of_shaped(t: Seq<char>)
    requires
        entries_of_chars(t) is Some,
    ensures
        (forall|i: int|
            0 <= i < entries_of_chars(t).unwrap().len() ==> is_code(
                #[trigger] entries_of_chars(t).unwrap()[i].0,
            ) && entries_of_chars(t).unwrap()[i].1 >= 1),
        t.len() > 0 ==> entries_of_chars(t).unwrap().len() >= 1,
    decreases t.len(),
{
    if t.len() == 0 {
    } else {
        lemma_entries_of_shaped(t.skip(23));
        let rs = entries_of_chars(t).unwrap();
        let rest = entries_of_chars(t.skip(23)).unwrap();
        assert(rs == seq![(t.subrange(0, 3), chars_val(t.subrange(3, 23)) as u64)] + rest);
        assert(forall|i: int| 1 <= i < rs.len() ==> rs[i] == rest[i - 1]);
    }
}

fn digit_str(d: u64) -> (r: &'static str)
    requires
        d < 10,
    ensures
        r@.len() == 1,
        r@[0] == digit_char(d as int),
{
    proof {
        reveal_strlit("0");
        reveal_strlit("1");
        reveal_strlit("2");
        reveal_strlit("3");
        reveal_strlit("4");
        reveal_strlit("5");
        reveal_strlit("6");
        reveal_strlit("7");
        reveal_strlit("8");
        reveal_strlit("9");
    }
    if d == 0 {
        "0"
    } else if d == 1 {
        "1"
    } else if d == 2 {
        "2"
    } else if d == 3 {
        "3"
    } else if d == 4 {
        "4"
    } else if d == 5 {
        "5"
    } else if d == 6 {
        "6"
    } else if d == 7 {
        "7"
    } else if d == 8 {
        "8"
    } else {
        "9"
    }
}

fn num_string_rec(n: u64, k: usize) -> (r: String)
    ensures
        r@ == num_chars_rec(n as int, k as nat),
    decreases k,
{
    if k == 0 {
        String::new()
    } else {
        let mut s = num_string_rec(n / 10, k - 1);
        let d = digit_str(n % 10);
        s.append(d);
        proof {
            assert(s@ =~= num_chars_rec(n as int, k as nat));
        }
        s
    }
}

/// A `u64` as its 20-digit zero-padded text.
fn num_string(n: u64) -> (r: String)
    ensures
        r@ == num_chars(n),
{
    num_string_rec(n, 20)
}

fn entries_string(rates: &Vec<RateEntry>, i: usize) -> (r: String)
    requires
        i <= rates.len(),
    ensures
        r@ == entries_chars(rates@.map_values(|e: RateEntry| e.model()).skip(i as int)),
    decreases rates.len() - i,
{
    let ghost rs = rates@.map_values(|e: RateEntry| e.model());
    if i == rates.len() {
        proof {
            assert(rs.skip(i as int) =~= Seq::<(Seq<char>, u64)>::empty());
        }
        String::new()
    } else {
        let mut s = rates[i].code.clone();
        let num = num_string(rates[i].rate_micro);
        s.append(num.as_str());
        let rest = entries_string(rates, i + 1);
        s.append(rest.as_str());
        proof {
            assert(rs.skip(i as int)[0] == rs[i as int]);
            assert(rs.skip(i as int).skip(1) =~= rs.skip(i as int + 1));
            assert(s@ =~= entries_chars(rs.skip(i as int)));
        }
        s
    }
}

/// Serializes a snapshot as its cache payload text.
pub fn encode_snapshot(s: &ApiResponse) -> (r: String)
    ensures
        r@ == snap_chars(s.model()),
{
    let mut out = s.base_code.clone();
    let num = num_string(s.time_next_update_unix);
    out.append(num.as_str());
    let rest = entries_string(&s.conversion_rates, 0);
    out.append(rest.as_str());
    proof {
        assert(s.model().rates.skip(0) =~= s.model().rates);
        assert(out@ =~= snap_chars(s.model()));
    }
    out
}

fn char_upper(c: char) -> (r: bool)
    ensures
        r == ('A' <= c && c <= 'Z'),
{
    let v = c as u32;
    65 <= v && v <= 90
}

fn read_code(t: &str, at: usize) -> (r: Option<String>)
    requires
        at + 3 <= t@.len(),
        t@.len() <= usize::MAX,
    ensures
        ({
            let w = t@.subrange(at as int, at as int + 3);
            match r {
                Some(c) => c@ == w && is_code(w),
                None => !is_code(w),
            }
        }),
{
    let ghost w = t@.subrange(at as int, at as int + 3);
    let c0 = t.get_char(at);
    let c1 = t.get_char(at + 1);
    let c2 = t.get_char(at + 2);
    if char_upper(c0) && char_upper(c1) && char_upper(c2) {
        let sub = t.substring_char(at, at + 3);
        let owned = sub.to_owned();
        proof {
            assert(forall|i: int| 0 <= i < 3 ==> 'A' <= #[trigger] w[i] && w[i] <= 'Z') by {
                assert(w[0] == c0 && w[1] == c1 && w[2] == c2);
            };
        }
        Some(owned)
    } else {
        proof {
            assert(w[0] == c0 && w[1] == c1 && w[2] == c2);
        }
        None
    }
}

fn read_num(t: &str, at: usize, k: usize) -> (r: Option<u128>)
    requires
        at + k <= t@.len(),
        t@.len() <= usize::MAX,
        k <= 20,
    ensures
        ({
            let w = t@.subrange(at as int, at as int + k as int);
            match r {
                Some(v) => all_digits(w) && v == chars_val(w) && v < pow10(k as nat),
                None => !all_digits(w),
            }
        }),
    decreases k,
{
    let ghost w = t@.subrange(at as int, at as int + k as int);
    if k == 0 {
        proof {
            lemma_pow10_pos(k as nat);
        }
        Some(0)
    } else {
        let ghost pre = t@.subrange(at as int, at as int + k as int - 1);
        proof {
            assert(w.drop_last() =~= pre);
        }
        match read_num(t, at, k - 1) {
            None => {
                proof {
                    assert(!all_digits(w)) by {
                        let i = choose|i: int| 0 <= i < pre.len() && !is_digit(pre[i]);
                        assert(w[i] == pre[i]);
                    };
                }
                None
            },
            Some(v) => {
                let c = t.get_char(at + k - 1);
                let cv = c as u32;
                if 48 <= cv && cv <= 57 {
                    proof {
                        assert(w.last() == c);
                        lemma_pow10_mono(k as nat, 20);
                        lemma_pow10_val();
                        assert(v * 10 + 9 < pow10(k as nat)) by {
                            assert(v < pow10((k - 1) as nat));
                            assert(10 * pow10((k - 1) as nat) == pow10(k as nat));
                        };
                        assert(forall|i: int| 0 <= i < w.len() ==> is_digit(#[trigger] w[i])) by {
                            assert(forall|i: int|
                                0 <= i < pre.len() ==> #[trigger] w[i] == pre[i]);
                        };
                    }
                    Some(v * 10 + ((cv - 48) as u128))
                } else {
                    proof {
                        assert(w.last() == c);
                        assert(!is_digit(c));
                    }
                    None
                }
            },
        }
    }
}

fn decode_entries(t: &str, at: usize) -> (r: Option<Vec<RateEntry>>)
    requires
        at <= t@.len(),
    ensures
        ({
            let w = t@.skip(at as int);
            match r {
                Some(v) => entries_of_chars(w) == Some(
                    v@.map_values(|e: RateEntry| e.model()),
                ),
                None => entries_of_chars(w) is None,
            }
        }),
    decreases t@.len() - at,
{
    let ghost w = t@.skip(at as int);
    let n = t.unicode_len();
    if at == n {
        let r: Vec<RateEntry> = Vec::new();
        proof {
            assert(w.len() == 0);
            assert(r@.map_values(|e: RateEntry| e.model()) =~= Seq::<(Seq<char>, u64)>::empty());
        }
        Some(r)
    } else if n - at < 23 {
        proof {
            assert(0 < w.len() < 23);
        }
        None
    } else {
        proof {
            assert(w.subrange(0, 3) =~= t@.subrange(at as int, at as int + 3));
            assert(w.subrange(3, 23) =~= t@.subrange(at as int + 3, at as int + 23));
            assert(w.skip(23) =~= t@.skip(at as int + 23));
        }
        let code = read_code(t, at);
        let num = read_num(t, at + 3, 20);
        match (code, num) {
            (Some(c), Some(v)) => {
                if 1 <= v && v <= u64::MAX as u128 {
                    match decode_entries(t, at + 23) {
                        Some(mut rest) => {
                            let entry = RateEntry { code: c, rate_micro: v as u64 };
                            rest.insert(0, entry);
                            proof {
                                let m = rest@.map_values(|e: RateEntry| e.model());
                                assert(m =~= seq![
                                    (w.subrange(0, 3), chars_val(w.subrange(3, 23)) as u64),
                                ] + rest@.skip(1).map_values(|e: RateEntry| e.model()));
                            }
                            Some(rest)
                        },
                        None => None,
                    }
                } else {
                    None
                }
            },
            _ => None,
        }
    }
}

/// Deserializes a cache payload; fails exactly on text that is not the
/// encoding of a structurally valid snapshot.
pub fn decode_snapshot(t: &str) -> (r: Result<ApiResponse, CacheError>)
    ensures
        match r {
            Ok(s) => snap_of_chars(t@) == Some(s.model()) && s.model().shaped(),
            Err(e) => snap_of_chars(t@) is None && e is DeserializeError,
        },
{
    let n = t.unicode_len();
    if n < 46 {
        return Err(CacheError::DeserializeError("payload too short".to_owned()));
    }
    let base = match read_code(t, 0) {
        Some(c) => c,
        None => {
            proof {
                assert(t@.subrange(0int, 0int + 3) =~= t@.subrange(0, 3));
            }
            return Err(CacheError::DeserializeError("bad base code".to_owned()));
        },
    };
    proof {
        assert(t@.subrange(0int, 0int + 3) =~= t@.subrange(0, 3));
    }
    let next = match read_num(t, 3, 20) {
        Some(v) => {
            if v <= u64::MAX as u128 {
                v as u64
            } else {
                return Err(CacheError::DeserializeError("timestamp out of range".to_owned()));
            }
        },
        None => {
            return Err(CacheError::DeserializeError("bad timestamp".to_owned()));
        },
    };
    let rates = match decode_entries(t, 23) {
        Some(v) => v,
        None => {
            return Err(CacheError::DeserializeError("bad rate table".to_owned()));
        },
    };
    let out = ApiResponse { base_code: base, time_next_update_unix: next, conversion_rates: rates };
    proof {
        assert(t@.subrange(3int, 3int + 20) =~= t@.subrange(3, 23));
        assert(valid_num(t@.subrange(3, 23)));
        lemma_entries_of_shaped(t@.skip(23));
        assert(t@.skip(23).len() > 0);
        assert(snap_of_chars(t@) == Some(out.model()));
        assert(out.model().shaped());
    }
    Ok(out)
}

} // verus!
