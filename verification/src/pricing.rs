//! Price parsing and price-list extraction. Rates arrive as decimal
//! strings ("0.0104"); the library stores them as micro-dollars per hour.
//! The decimal parser is fully verified; the navigation through the
//! price-list JSON goes through small trusted wrappers around serde_json.

use vstd::prelude::*;

verus! {

/// `c` is a decimal digit.
pub open spec fn is_digit(c: char) -> bool {
    '0' <= c && c <= '9'
}

/// The numeric value of a digit character.
pub open spec fn digit_val(c: char) -> int {
    c as int - '0' as int
}

/// Every character is a digit.
pub open spec fn all_digits(s: Seq<char>) -> bool {
    forall|i: int| 0 <= i < s.len() ==> is_digit(#[trigger] s[i])
}

/// The number a digit string denotes, most significant first.
pub open spec fn digits_val(s: Seq<char>) -> int
    decreases s.len(),
{
    if s.len() == 0 {
        0
    } else {
        digits_val(s.drop_last()) * 10 + digit_val(s.last())
    }
}

/// Ten to the `n`th power (one for non-positive `n`).
pub open spec fn pow10(n: int) -> int
    decreases (if n <= 0 {
        0
    } else {
        n
    }),
{
    if n <= 0 {
        1
    } else {
        10 * pow10(n - 1)
    }
}

/// How many dots the string holds.
pub open spec fn count_dots(s: Seq<char>) -> int
    decreases s.len(),
{
    if s.len() == 0 {
        0
    } else {
        count_dots(s.drop_last()) + if s.last() == '.' {
            1int
        } else {
            0int
        }
    }
}

/// The index of the first dot, or the length when there is none.
pub open spec fn first_dot(s: Seq<char>) -> int
    decreases s.len(),
{
    if s.len() == 0 {
        0
    } else if s[0] == '.' {
        0
    } else {
        1 + first_dot(s.drop_first())
    }
}

/// A well-formed decimal rate: non-empty, at most one dot, everything
/// else digits, and at least one digit.
pub open spec fn price_str_valid(s: Seq<char>) -> bool {
    &&& s.len() > 0
    &&& count_dots(s) <= 1
    &&& forall|i: int| 0 <= i < s.len() ==> (is_digit(#[trigger] s[i]) || s[i] == '.')
    &&& s.len() > count_dots(s)
}

/// The rate in micro-units: the integer part scaled by a million, plus
/// the first six fractional digits (further digits are truncated).
pub open spec fn price_micros_of(s: Seq<char>) -> int {
    let k = first_dot(s);
    let f = if k < s.len() {
        s.skip(k + 1)
    } else {
        Seq::<char>::empty()
    };
    let fl: int = if f.len() > 6 {
        6
    } else {
        f.len() as int
    };
    digits_val(s.take(k)) * 1000000 + digits_val(f.take(fl)) * pow10(6 - fl)
}

proof fn lemma_digits_val_nonneg(s: Seq<char>)
    requires
        all_digits(s),
    ensures
        0 <= digits_val(s),
    decreases s.len(),
{
    if s.len() > 0 {
        assert(all_digits(s.drop_last()));
        lemma_digits_val_nonneg(s.drop_last());
    }
}

proof fn lemma_digits_val_bound(s: Seq<char>)
    requires
        all_digits(s),
    ensures
        digits_val(s) < pow10(s.len() as int),
    decreases s.len(),
{
    if s.len() == 0 {
    } else {
        assert(all_digits(s.drop_last()));
        lemma_digits_val_bound(s.drop_last());
        lemma_digits_val_nonneg(s.drop_last());
        assert(pow10(s.len() as int) == 10 * pow10(s.len() - 1));
    }
}

proof fn lemma_digits_val_prefix(s: Seq<char>, i: int)
    requires
        all_digits(s),
        0 <= i <= s.len(),
    ensures
        digits_val(s.take(i)) <= digits_val(s),
    decreases s.len(),
{
    if i < s.len() {
        assert(all_digits(s.drop_last()));
        assert(s.drop_last().take(i) =~= s.take(i));
        lemma_digits_val_prefix(s.drop_last(), i);
        lemma_digits_val_nonneg(s.drop_last());
        assert(digit_val(s.last()) >= 0);
        assert(digits_val(s) >= digits_val(s.drop_last()));
    } else {
        assert(s.take(i) =~= s);
    }
}

proof fn lemma_first_dot_at(s: Seq<char>, i: int)
    requires
        0 <= i <= s.len(),
        forall|j: int| 0 <= j < i ==> s[j] != '.',
        i == s.len() || s[i] == '.',
    ensures
        first_dot(s) == i,
    decreases s.len(),
{
    if s.len() > 0 && s[0] != '.' {
        assert(i > 0);
        lemma_first_dot_at(s.drop_first(), i - 1);
    }
}

proof fn lemma_count_dots_none(s: Seq<char>)
    requires
        forall|j: int| 0 <= j < s.len() ==> s[j] != '.',
    ensures
        count_dots(s) == 0,
    decreases s.len(),
{
    if s.len() > 0 {
        assert(forall|j: int| 0 <= j < s.drop_last().len() ==> s.drop_last()[j] != '.');
        lemma_count_dots_none(s.drop_last());
    }
}

proof fn lemma_count_dots_one(s: Seq<char>, k: int)
    requires
        0 <= k < s.len(),
        s[k] == '.',
        forall|j: int| 0 <= j < s.len() && j != k ==> s[j] != '.',
    ensures
        count_dots(s) == 1,
    decreases s.len(),
{
    if k == s.len() - 1 {
        assert(forall|j: int| 0 <= j < s.drop_last().len() ==> s.drop_last()[j] != '.');
        lemma_count_dots_none(s.drop_last());
    } else {
        assert(s.drop_last()[k] == s[k]);
        lemma_count_dots_one(s.drop_last(), k);
        assert(s.last() != '.');
    }
}

proof fn lemma_count_dots_two(s: Seq<char>, a: int, b: int)
    requires
        0 <= a < b < s.len(),
        s[a] == '.',
        s[b] == '.',
    ensures
        count_dots(s) >= 2,
    decreases s.len(),
{
    if b == s.len() - 1 {
        lemma_count_dots_at_least_one(s.drop_last(), a);
    } else {
        assert(s.drop_last()[a] == s[a]);
        assert(s.drop_last()[b] == s[b]);
        lemma_count_dots_two(s.drop_last(), a, b);
        lemma_count_dots_nonneg(s.drop_last());
    }
}

proof fn lemma_count_dots_at_least_one(s: Seq<char>, a: int)
    requires
        0 <= a < s.len(),
        s[a] == '.',
    ensures
        count_dots(s) >= 1,
    decreases s.len(),
{
    if a == s.len() - 1 {
        lemma_count_dots_nonneg(s.drop_last());
    } else {
        assert(s.drop_last()[a] == s[a]);
        lemma_count_dots_at_least_one(s.drop_last(), a);
    }
}

proof fn lemma_count_dots_nonneg(s: Seq<char>)
    ensures
        count_dots(s) >= 0,
    decreases s.len(),
{
    if s.len() > 0 {
        lemma_count_dots_nonneg(s.drop_last());
    }
}

/// If the string is a well-formed rate whose integer digits up to
/// position `i` already exceed the value `v`, the whole rate exceeds
/// `v` micro-units a fortiori.
proof fn lemma_int_part_overflow(s: Seq<char>, i: int, v: int)
    requires
        price_str_valid(s),
        0 <= i <= first_dot(s),
        first_dot(s) <= s.len(),
        digits_val(s.take(i)) > v,
        v >= 0,
    ensures
        price_micros_of(s) > v,
{
    let k = first_dot(s);
    assert(forall|j: int| 0 <= j < k ==> s[j] != '.') by {
        lemma_first_dot_is_first(s);
    }
    assert(all_digits(s.take(k))) by {
        assert(forall|j: int| 0 <= j < k ==> (is_digit(s[j]) || s[j] == '.'));
    }
    assert(s.take(k).take(i) =~= s.take(i));
    lemma_digits_val_prefix(s.take(k), i);
    let f = if k < s.len() {
        s.skip(k + 1)
    } else {
        Seq::<char>::empty()
    };
    let fl: int = if f.len() > 6 {
        6
    } else {
        f.len() as int
    };
    assert(digits_val(f.take(fl)) >= 0) by {
        if k < s.len() {
            assert(s[k] == '.') by {
                lemma_first_dot_hits(s);
            }
            assert(all_digits(f.take(fl))) by {
                assert(forall|j: int| 0 <= j < fl ==> #[trigger] f.take(fl)[j] == s[k + 1 + j]);
                assert(forall|j: int| 0 <= j < fl ==> #[trigger] s[k + 1 + j] != '.') by {
                    if exists|j: int| 0 <= j < fl && #[trigger] s[k + 1 + j] == '.' {
                        let j = choose|j: int| 0 <= j < fl && #[trigger] s[k + 1 + j] == '.';
                        lemma_count_dots_two(s, k, k + 1 + j);
                    }
                }
            }
            lemma_digits_val_nonneg(f.take(fl));
        } else {
            assert(f.take(fl) =~= Seq::<char>::empty());
        }
    }
    assert(pow10(6 - fl) >= 1) by {
        lemma_pow10_pos(6 - fl);
    }
    assert(digits_val(s.take(k)) * 1000000 > v) by (nonlinear_arith)
        requires
            digits_val(s.take(k)) > v,
            v >= 0,
    ;
    assert(digits_val(f.take(fl)) * pow10(6 - fl) >= 0) by (nonlinear_arith)
        requires
            digits_val(f.take(fl)) >= 0,
            pow10(6 - fl) >= 1,
    ;
}

proof fn lemma_pow10_pos(n: int)
    ensures
        pow10(n) >= 1,
    decreases (if n <= 0 {
        0
    } else {
        n
    }),
{
    if n > 0 {
        lemma_pow10_pos(n - 1);
    }
}

/// No dot stands before the first dot.
proof fn lemma_first_dot_is_first(s: Seq<char>)
    ensures
        forall|j: int| 0 <= j < first_dot(s) && j < s.len() ==> s[j] != '.',
        first_dot(s) <= s.len(),
    decreases s.len(),
{
    if s.len() > 0 && s[0] != '.' {
        lemma_first_dot_is_first(s.drop_first());
        assert(first_dot(s) == 1 + first_dot(s.drop_first()));
        assert forall|j: int| 0 <= j < first_dot(s) && j < s.len() implies s[j] != '.' by {
            if j > 0 {
                assert(s.drop_first()[j - 1] == s[j]);
            }
        }
    }
}

/// When the first dot lies inside the string, it is a dot.
proof fn lemma_first_dot_hits(s: Seq<char>)
    ensures
        first_dot(s) < s.len() ==> s[first_dot(s)] == '.',
    decreases s.len(),
{
    if s.len() > 0 && s[0] != '.' {
        lemma_first_dot_hits(s.drop_first());
        lemma_first_dot_nonneg(s.drop_first());
        let fdd = first_dot(s.drop_first());
        assert(first_dot(s) == 1 + fdd);
        if first_dot(s) < s.len() {
            assert(s.drop_first()[fdd] == s[fdd + 1]);
        }
    }
}

proof fn lemma_first_dot_nonneg(s: Seq<char>)
    ensures
        first_dot(s) >= 0,
    decreases s.len(),
{
    if s.len() > 0 && s[0] != '.' {
        lemma_first_dot_nonneg(s.drop_first());
    }
}

/// Parses a decimal rate string into micro-units: the integer part times
/// a million plus the first six fractional digits. Returns nothing for a
/// malformed string or a value beyond `u64`.
pub fn parse_price_micros(s: &str) -> (r: Option<u64>)
    ensures
        (r matches Some(v) ==> price_str_valid(s@) && v as int == price_micros_of(s@)),
        (r is None ==> !price_str_valid(s@) || price_micros_of(s@) > u64::MAX as int),
{
    let ghost sv = s@;
    let n = s.unicode_len();
    if n == 0 {
        return None;
    }
    let mut i: usize = 0;
    let mut int_part: u64 = 0;
    let mut saw_dot: bool = false;
    while i < n
        invariant_except_break
            !saw_dot,
        invariant
            sv == s@,
            n == sv.len(),
            0 <= i <= n,
            forall|j: int| 0 <= j < i ==> is_digit(#[trigger] sv[j]),
            int_part as int == digits_val(sv.take(i as int)),
        ensures
            sv == s@,
            n == sv.len(),
            0 <= i <= n,
            forall|j: int| 0 <= j < i ==> is_digit(#[trigger] sv[j]),
            int_part as int == digits_val(sv.take(i as int)),
            saw_dot ==> i < n && sv[i as int] == '.',
            !saw_dot ==> i == n,
        decreases n - i,
    {
        let c = s.get_char(i);
        if c == '.' {
            saw_dot = true;
            break ;
        }
        if c < '0' || c > '9' {
            proof {
                assert(!(is_digit(sv[i as int]) || sv[i as int] == '.'));
            }
            return None;
        }
        let d: u64 = (c as u32 - 48) as u64;
        proof {
            assert(d as int == digit_val(sv[i as int]));
        }
        let stepped = match int_part.checked_mul(10) {
            Some(x) => x.checked_add(d),
            None => None,
        };
        match stepped {
            Some(x) => {
                int_part = x;
                proof {
                    assert(sv.take(i + 1).drop_last() =~= sv.take(i as int));
                    assert(sv.take(i + 1).last() == sv[i as int]);
                }
            },
            None => {
                proof {
                    if price_str_valid(sv) {
                        assert(sv.take(i + 1).drop_last() =~= sv.take(i as int));
                        assert(sv.take(i + 1).last() == sv[i as int]);
                        assert(digits_val(sv.take(i + 1)) > u64::MAX as int);
                        lemma_first_dot_is_first(sv);
                        assert(first_dot(sv) >= i + 1) by {
                            lemma_first_dot_at_least(sv, i + 1);
                        }
                        lemma_int_part_overflow(sv, i + 1, u64::MAX as int);
                    }
                }
                return None;
            },
        }
        i += 1;
    }
    let ghost k = i as int;
    proof {
        if saw_dot {
            lemma_first_dot_at(sv, k);
        } else {
            lemma_first_dot_at(sv, k);
            lemma_count_dots_none(sv);
        }
    }
    if !saw_dot {
        // no fractional part
        proof {
            assert(sv.take(k) =~= sv);
            assert(price_str_valid(sv));
            assert(price_micros_of(sv) == digits_val(sv) * 1000000 + 0) by {
                assert(first_dot(sv) == k && k == sv.len());
                assert((Seq::<char>::empty()).take(0) =~= Seq::<char>::empty());
            }
        }
        return match int_part.checked_mul(1000000) {
            Some(total) => Some(total),
            None => {
                proof {
                    lemma_digits_val_nonneg(sv);
                    assert(price_micros_of(sv) > u64::MAX as int);
                }
                None
            },
        };
    }
    // fractional part after the dot at position i
    if n == 1 {
        // the string is just a dot
        proof {
            assert(count_dots(sv) == 1) by {
                lemma_count_dots_one(sv, 0);
            }
            assert(!price_str_valid(sv));
        }
        return None;
    }
    let mut j: usize = i + 1;
    let mut frac_acc: u64 = 0;
    let mut fcount: usize = 0;
    while j < n
        invariant
            sv == s@,
            n == sv.len(),
            0 <= k < n,
            k == i as int,
            sv[k] == '.',
            first_dot(sv) == k,
            forall|m: int| 0 <= m < k ==> is_digit(#[trigger] sv[m]),
            k < j <= n,
            forall|m: int| k < m < j ==> is_digit(#[trigger] sv[m]),
            fcount as int == (if j - (k + 1) > 6 {
                6
            } else {
                j - (k + 1)
            }),
            frac_acc as int == digits_val(sv.subrange(k + 1, k + 1 + fcount as int)),
            frac_acc < 1000000,
        decreases n - j,
    {
        let c = s.get_char(j);
        if c < '0' || c > '9' {
            proof {
                if c == '.' {
                    lemma_count_dots_two(sv, k, j as int);
                    assert(!price_str_valid(sv));
                } else {
                    assert(!(is_digit(sv[j as int]) || sv[j as int] == '.'));
                    assert(!price_str_valid(sv));
                }
            }
            return None;
        }
        if fcount < 6 {
            let d: u64 = (c as u32 - 48) as u64;
            proof {
                assert(d as int == digit_val(sv[j as int]));
                let pre = sv.subrange(k + 1, k + 1 + fcount as int);
                let post = sv.subrange(k + 1, k + 2 + fcount as int);
                assert(post.drop_last() =~= pre);
                assert(post.last() == sv[j as int]);
                assert(all_digits(pre));
                lemma_digits_val_bound(pre);
                lemma_digits_val_nonneg(pre);
                assert(pow10(fcount as int) <= 100000) by {
                    reveal_with_fuel(pow10, 8);
                }
            }
            frac_acc = frac_acc * 10 + d;
            fcount += 1;
        }
        j += 1;
    }
    // the whole string is validated
    proof {
        lemma_count_dots_one(sv, k);
        assert(price_str_valid(sv));
    }
    // scale the fractional digits to micro-units
    let flen = n - (i + 1);
    let scale_digits: usize = if flen >= 6 {
        0
    } else {
        6 - flen
    };
    let mut mul: u64 = 1;
    let mut c2: usize = 0;
    while c2 < scale_digits
        invariant
            0 <= c2 <= scale_digits,
            scale_digits <= 6,
            mul as int == pow10(c2 as int),
            mul <= 1000000,
        decreases scale_digits - c2,
    {
        proof {
            assert(pow10(c2 + 1) == 10 * pow10(c2 as int));
            assert(pow10(c2 as int) <= 100000) by {
                reveal_with_fuel(pow10, 8);
            }
        }
        mul = mul * 10;
        c2 += 1;
    }
    let ghost f = sv.skip(k + 1);
    let ghost fl: int = if f.len() > 6 {
        6
    } else {
        f.len() as int
    };
    proof {
        assert(f.len() == n - (k + 1));
        assert(fl == fcount as int);
        assert(f.take(fl) =~= sv.subrange(k + 1, k + 1 + fcount as int));
        assert(mul as int == pow10(6 - fl));
        assert(all_digits(f.take(fl)));
        lemma_digits_val_bound(f.take(fl));
        lemma_digits_val_nonneg(f.take(fl));
        assert(pow10(0) == 1 && pow10(1) == 10 && pow10(2) == 100 && pow10(3) == 1000 && pow10(4)
            == 10000 && pow10(5) == 100000 && pow10(6) == 1000000) by {
            reveal_with_fuel(pow10, 8);
        }
        assert(0 <= fl <= 6);
        assert(pow10(fl) * pow10(6 - fl) == 1000000) by {
            reveal_with_fuel(pow10, 8);
            if fl == 0 {
            } else if fl == 1 {
            } else if fl == 2 {
            } else if fl == 3 {
            } else if fl == 4 {
            } else if fl == 5 {
            } else {
                assert(fl == 6);
            }
        }
        assert(digits_val(f.take(fl)) * pow10(6 - fl) < 1000000) by (nonlinear_arith)
            requires
                0 <= digits_val(f.take(fl)),
                digits_val(f.take(fl)) < pow10(fl),
                pow10(fl) * pow10(6 - fl) == 1000000,
                pow10(6 - fl) >= 1;
        assert((frac_acc as int) * (mul as int) < 1000000) by (nonlinear_arith)
            requires
                frac_acc as int == digits_val(f.take(fl)),
                mul as int == pow10(6 - fl),
                digits_val(f.take(fl)) * pow10(6 - fl) < 1000000;
        assert(pow10(6 - fl) >= 1) by {
            lemma_pow10_pos(6 - fl);
        }
    }
    let frac_term: u64 = frac_acc * mul;
    match int_part.checked_mul(1000000) {
        Some(base) => match base.checked_add(frac_term) {
            Some(total) => Some(total),
            None => {
                proof {
                    assert(price_micros_of(sv) > u64::MAX as int);
                }
                None
            },
        },
        None => {
            proof {
                assert(digits_val(sv.take(k)) * 1000000 > u64::MAX as int);
                assert(digits_val(f.take(fl)) * pow10(6 - fl) >= 0);
                assert(price_micros_of(sv) > u64::MAX as int);
            }
            None
        },
    }
}

/// Needed so `first_dot` can be bounded below by a scanned prefix.
proof fn lemma_first_dot_at_least(s: Seq<char>, i: int)
    requires
        0 <= i <= s.len(),
        forall|j: int| 0 <= j < i ==> s[j] != '.',
    ensures
        first_dot(s) >= i,
    decreases s.len(),
{
    if s.len() > 0 && s[0] != '.' {
        if i > 0 {
            assert forall|j: int| 0 <= j < i - 1 implies s.drop_first()[j] != '.' by {
                assert(s.drop_first()[j] == s[j + 1]);
            }
            lemma_first_dot_at_least(s.drop_first(), i - 1);
        } else {
            lemma_first_dot_nonneg(s.drop_first());
        }
        assert(first_dot(s) == 1 + first_dot(s.drop_first()));
    }
}

// ---------------------------------------------------------------------------
// Price-list extraction
// ---------------------------------------------------------------------------
/// The raw on-demand entry a price-list document determines: the instance
/// type name under `product.attributes.instanceType`, paired with the USD
/// rate string of the first price dimension of the first OnDemand term
/// (first in the object's key order); nothing when any member of that
/// path is missing or not of the expected kind. A function of the
/// document text alone.
pub uninterp spec fn od_entry_of(doc: Seq<char>) -> Option<(Seq<char>, Seq<char>)>;

/// Relies on serde_json: `from_str::<Value>`, `Value::get`,
/// `Value::as_str`, `Value::as_object` and `Map::values` (backed by an
/// ordered map, so "first member" is determined by the document). All of
/// them are deterministic in the document text, so together they compute
/// [`od_entry_of`]; none of them panics on any input.
#[verifier::external_body]
fn od_entry_raw(doc: &str) -> (r: Option<(String, String)>)
    ensures
        (r matches Some(p) ==> od_entry_of(doc@) == Some((p.0@, p.1@))),
        (r is None ==> od_entry_of(doc@) is None),
{
    let v: serde_json::Value = serde_json::from_str(doc).ok()?;
    let name = v.get("product")?.get("attributes")?.get("instanceType")?.as_str()?;
    let term = v.get("terms")?.get("OnDemand")?.as_object()?.values().next()?;
    let dim = term.get("priceDimensions")?.as_object()?.values().next()?;
    let rate = dim.get("pricePerUnit")?.get("USD")?.as_str()?;
    Some((name.to_owned(), rate.to_owned()))
}

/// Pulls one entry of the bulk on-demand price list out of a price-list
/// document: the type name and the USD rate the document determines (see
/// [`od_entry_of`]), the rate parsed to micro-dollars. Returns nothing
/// exactly when the document determines no entry, or its rate string is
/// malformed or beyond `u64`.
pub fn extract_on_demand_entry(item_json: &str) -> (r: Option<(String, u64)>)
    ensures
        (r matches Some(entry) ==> od_entry_of(item_json@) matches Some(raw) && entry.0@ == raw.0
            && price_str_valid(raw.1) && entry.1 as int == price_micros_of(raw.1)),
        (r is None ==> od_entry_of(item_json@) is None || (od_entry_of(
            item_json@,
        ) matches Some(raw) && (!price_str_valid(raw.1) || price_micros_of(raw.1) > u64::MAX
            as int))),
{
    match od_entry_raw(item_json) {
        Some(entry) => {
            let (name, rate) = entry;
            match parse_price_micros(rate.as_str()) {
                Some(p) => Some((name, p)),
                None => None,
            }
        },
        None => None,
    }
}

} // verus!
