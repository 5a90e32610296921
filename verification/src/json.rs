//! The textual interchange form of search-space restrictions.  Values are
//! rendered in a canonical JSON shape — objects with the fields in
//! declaration order, arrays of decimal numbers, no whitespace — and parsed
//! back by a strict parser that accepts exactly that shape.  Both directions
//! are specified against the same character-level grammar, and
//! serialize-then-deserialize provably returns the original value.

use crate::restriction::{
    KeysetInfo, KeysetRestriction, LweBootstrapKeyInfo, LweKeyswitchKeyInfo, LweSecretKeyInfo,
    RangeRestriction,
};
use vstd::prelude::*;

verus! {

/// The digit character of a value below ten.
pub open spec fn digit_char(d: nat) -> char {
    if d == 0 {
        '0'
    } else if d == 1 {
        '1'
    } else if d == 2 {
        '2'
    } else if d == 3 {
        '3'
    } else if d == 4 {
        '4'
    } else if d == 5 {
        '5'
    } else if d == 6 {
        '6'
    } else if d == 7 {
        '7'
    } else if d == 8 {
        '8'
    } else {
        '9'
    }
}

/// Whether a character is a decimal digit.
pub open spec fn is_digit(c: char) -> bool {
    48 <= c as u32 <= 57
}

/// The value of a digit character.
pub open spec fn digit_val(c: char) -> nat {
    (c as u32 - 48) as nat
}

/// The canonical decimal representation of a number: no sign, no leading
/// zero.
pub open spec fn dec_repr(n: nat) -> Seq<char>
    decreases n,
{
    if n < 10 {
        seq![digit_char(n)]
    } else {
        dec_repr(n / 10).push(digit_char(n % 10))
    }
}

/// The numeric value of a digit string.
pub open spec fn dec_value(ds: Seq<char>) -> nat
    decreases ds.len(),
{
    if ds.len() == 0 {
        0
    } else {
        dec_value(ds.drop_last()) * 10 + digit_val(ds.last())
    }
}

/// The ten digit characters read back as their values.
pub proof fn lemma_digit_char_val(d: nat)
    requires
        d < 10,
    ensures
        digit_val(digit_char(d)) == d,
        is_digit(digit_char(d)),
        digit_char(d) != '0' <==> d != 0,
{
}

/// Every character of a canonical decimal representation is a digit.
pub proof fn lemma_dec_repr_digits(n: nat)
    ensures
        dec_repr(n).len() >= 1,
        forall|k: int| 0 <= k < dec_repr(n).len() ==> is_digit(#[trigger] dec_repr(n)[k]),
    decreases n,
{
    if n >= 10 {
        lemma_dec_repr_digits(n / 10);
        let pre = dec_repr(n / 10);
        let cur = dec_repr(n);
        assert forall|k: int| 0 <= k < cur.len() implies is_digit(#[trigger] cur[k]) by {
            if k < pre.len() {
                assert(cur[k] == pre[k]);
            } else {
                assert(cur[k] == digit_char(n % 10));
            }
        }
    }
}

/// Reading a canonical representation back gives the number.
pub proof fn lemma_dec_value_of_repr(n: nat)
    ensures
        dec_value(dec_repr(n)) == n,
    decreases n,
{
    lemma_digit_char_val(n % 10);
    if n < 10 {
        lemma_digit_char_val(n);
        assert(dec_repr(n).drop_last() =~= Seq::<char>::empty());
        assert(dec_value(dec_repr(n)) == dec_value(Seq::<char>::empty()) * 10 + digit_val(
            digit_char(n),
        ));
    } else {
        lemma_dec_value_of_repr(n / 10);
        assert(dec_repr(n).drop_last() =~= dec_repr(n / 10));
        assert(dec_value(dec_repr(n)) == (n / 10) * 10 + (n % 10));
    }
}

/// A canonical representation of a positive number never starts with the
/// zero digit; zero itself is the single zero digit.
pub proof fn lemma_dec_repr_no_leading_zero(n: nat)
    ensures
        n == 0 ==> dec_repr(n) =~= seq!['0'],
        n > 0 ==> dec_repr(n)[0] != '0',
    decreases n,
{
    if n >= 10 {
        lemma_dec_repr_no_leading_zero(n / 10);
        assert(dec_repr(n)[0] == dec_repr(n / 10)[0]);
    }
}

/// Appending a digit never shrinks the value.
pub proof fn lemma_dec_value_push_ge(ds: Seq<char>, c: char)
    ensures
        dec_value(ds.push(c)) >= dec_value(ds),
        dec_value(ds.push(c)) == dec_value(ds) * 10 + digit_val(c),
{
    assert(ds.push(c).drop_last() =~= ds);
    assert(ds.push(c).last() == c);
    assert(dec_value(ds) * 10 + digit_val(c) >= dec_value(ds)) by (nonlinear_arith);
}

/// The first position at or after `i` that does not hold a digit.
pub open spec fn sp_digits_end(s: Seq<char>, i: int) -> int
    decreases s.len() - i,
{
    if 0 <= i && i < s.len() && is_digit(s[i]) {
        sp_digits_end(s, i + 1)
    } else {
        i
    }
}

/// The digit run starts at `i` and only ever moves forward, within bounds.
pub proof fn lemma_digits_end_bounds(s: Seq<char>, i: int)
    requires
        0 <= i <= s.len(),
    ensures
        i <= sp_digits_end(s, i) <= s.len(),
        forall|k: int| i <= k < sp_digits_end(s, i) ==> is_digit(#[trigger] s[k]),
        sp_digits_end(s, i) < s.len() ==> !is_digit(s[sp_digits_end(s, i)]),
    decreases s.len() - i,
{
    if i < s.len() && is_digit(s[i]) {
        lemma_digits_end_bounds(s, i + 1);
    }
}

/// The strict number parser: a nonempty digit run without a leading zero
/// whose value fits in `u64`; returns the value and the position after the
/// run.
pub open spec fn sp_u64(s: Seq<char>, i: int) -> Option<(u64, int)> {
    let e = sp_digits_end(s, i);
    if e == i {
        None
    } else if s[i] == '0' && e > i + 1 {
        None
    } else if dec_value(s.subrange(i, e)) > u64::MAX {
        None
    } else {
        Some((dec_value(s.subrange(i, e)) as u64, e))
    }
}

/// Parsing right after a canonical representation stops at its end: the
/// digit run of `dec_repr(n)` embedded before a non-digit ends exactly at
/// the boundary, and the parser returns `n`.
pub proof fn lemma_sp_u64_of_repr(s: Seq<char>, i: int, n: u64)
    requires
        0 <= i,
        i + dec_repr(n as nat).len() <= s.len(),
        s.subrange(i, i + dec_repr(n as nat).len() as int) == dec_repr(n as nat),
        i + dec_repr(n as nat).len() < s.len() ==> !is_digit(
            s[i + dec_repr(n as nat).len() as int],
        ),
    ensures
        sp_u64(s, i) == Some((n, i + dec_repr(n as nat).len() as int)),
{
    let d = dec_repr(n as nat);
    let e0 = i + d.len() as int;
    lemma_dec_repr_digits(n as nat);
    assert forall|k: int| i <= k < e0 implies is_digit(#[trigger] s[k]) by {
        assert(s[k] == d[k - i]);
        assert(is_digit(d[k - i]));
    }
    lemma_digits_end_run(s, i, e0);
    assert(sp_digits_end(s, i) == e0);
    assert(s.subrange(i, e0) == d);
    lemma_dec_value_of_repr(n as nat);
    lemma_dec_repr_no_leading_zero(n as nat);
    if n == 0 {
        assert(s[i] == d[0]);
    } else {
        assert(s[i] == d[0]);
        assert(s[i] != '0');
    }
}

/// A run of digits from `i` to `e`, with a non-digit (or the end) at `e`,
/// is exactly what the digit scan finds.
pub proof fn lemma_digits_end_run(s: Seq<char>, i: int, e: int)
    requires
        0 <= i <= e <= s.len(),
        forall|k: int| i <= k < e ==> is_digit(#[trigger] s[k]),
        e < s.len() ==> !is_digit(s[e]),
    ensures
        sp_digits_end(s, i) == e,
    decreases e - i,
{
    if i < e {
        lemma_digits_end_run(s, i + 1, e);
    }
}

/// Exec mirror of [`sp_digits_end`].
fn digits_end(s: &str, i: usize) -> (r: usize)
    requires
        i <= s@.len(),
    ensures
        r == sp_digits_end(s@, i as int),
        i <= r <= s@.len(),
    decreases s@.len() - i,
{
    proof {
        lemma_digits_end_bounds(s@, i as int);
    }
    let n = s.unicode_len();
    if i < n {
        let c = s.get_char(i);
        if (c as u32) >= 48 && (c as u32) <= 57 {
            return digits_end(s, i + 1);
        }
    }
    i
}

/// Exec mirror of [`sp_u64`].
fn parse_u64(s: &str, i: usize) -> (r: Option<(u64, usize)>)
    requires
        i <= s@.len(),
    ensures
        match r {
            Some((n, j)) => sp_u64(s@, i as int) == Some((n, j as int)) && i < j <= s@.len(),
            None => sp_u64(s@, i as int) is None,
        },
{
    let e = digits_end(s, i);
    proof {
        lemma_digits_end_bounds(s@, i as int);
    }
    if e == i {
        return None;
    }
    let first = s.get_char(i);
    if first == '0' && e > i + 1 {
        return None;
    }
    let ghost ds = s@.subrange(i as int, e as int);
    let mut acc: u64 = 0;
    let mut j: usize = i;
    while j < e
        invariant
            i <= j <= e <= s@.len(),
            e == sp_digits_end(s@, i as int),
            forall|k: int| i <= k < e ==> is_digit(#[trigger] s@[k]),
            ds == s@.subrange(i as int, e as int),
            acc == dec_value(s@.subrange(i as int, j as int)),
        decreases e - j,
    {
        let c = s.get_char(j);
        proof {
            assert(is_digit(s@[j as int]));
        }
        let d: u64 = (c as u32 - 48) as u64;
        if acc > (u64::MAX - d) / 10 {
            proof {
                let pre = s@.subrange(i as int, j as int);
                let cur = s@.subrange(i as int, j + 1 as int);
                assert(cur =~= pre.push(s@[j as int]));
                lemma_dec_value_push_ge(pre, s@[j as int]);
                assert(acc * 10 + digit_val(s@[j as int]) > u64::MAX) by (nonlinear_arith)
                    requires
                        acc > (u64::MAX - digit_val(s@[j as int])) / 10,
                        digit_val(s@[j as int]) <= 9,
                        acc == dec_value(pre),
                ;
                lemma_dec_value_prefix_mono(s@, i as int, j + 1 as int, e as int);
            }
            return None;
        }
        proof {
            let pre = s@.subrange(i as int, j as int);
            let cur = s@.subrange(i as int, j + 1 as int);
            assert(cur =~= pre.push(s@[j as int]));
            lemma_dec_value_push_ge(pre, s@[j as int]);
            assert(acc * 10 + digit_val(s@[j as int]) <= u64::MAX) by (nonlinear_arith)
                requires
                    acc <= (u64::MAX - digit_val(s@[j as int])) / 10,
                    digit_val(s@[j as int]) <= 9,
                    acc == dec_value(pre),
            ;
        }
        acc = acc * 10 + d;
        j += 1;
    }
    proof {
        assert(s@.subrange(i as int, e as int) == ds);
    }
    Some((acc, e))
}

/// The value of a digit string is at least the value of any of its
/// prefixes.
pub proof fn lemma_dec_value_prefix_mono(s: Seq<char>, i: int, j: int, e: int)
    requires
        0 <= i <= j <= e <= s.len(),
    ensures
        dec_value(s.subrange(i, e)) >= dec_value(s.subrange(i, j)),
    decreases e - j,
{
    if j < e {
        let a = s.subrange(i, j);
        let b = s.subrange(i, j + 1);
        assert(b =~= a.push(s[j]));
        lemma_dec_value_push_ge(a, s[j]);
        lemma_dec_value_prefix_mono(s, i, j + 1, e);
    }
}


/// The comma-separated items of a numeric array.
pub open spec fn list_items_json(v: Seq<u64>) -> Seq<char>
    decreases v.len(),
{
    if v.len() == 0 {
        Seq::empty()
    } else if v.len() == 1 {
        dec_repr(v[0] as nat)
    } else {
        list_items_json(v.drop_last()) + seq![','] + dec_repr(v.last() as nat)
    }
}

/// A numeric array rendered canonically.
pub open spec fn list_json(v: Seq<u64>) -> Seq<char> {
    seq!['['] + list_items_json(v) + seq![']']
}

/// Front decomposition of the rendered items: the first number, then a
/// comma and the remaining items.
pub proof fn lemma_list_items_front(v: Seq<u64>)
    requires
        v.len() >= 1,
    ensures
        v.len() == 1 ==> list_items_json(v) =~= dec_repr(v[0] as nat),
        v.len() > 1 ==> list_items_json(v) =~= dec_repr(v[0] as nat) + seq![',']
            + list_items_json(v.subrange(1, v.len() as int)),
    decreases v.len(),
{
    if v.len() > 1 {
        lemma_list_items_front(v.drop_last());
        if v.len() == 2 {
            assert(v.drop_last() =~= seq![v[0]]);
            assert(v.subrange(1, v.len() as int) =~= seq![v[1]]);
        } else {
            assert(v.drop_last().subrange(1, v.drop_last().len() as int) =~= v.subrange(
                1,
                v.len() as int,
            ).drop_last());
            assert(v.subrange(1, v.len() as int).last() == v.last());
        }
    }
}

/// Matching a fixed literal at a position: the position after it on
/// success.
pub open spec fn sp_lit(s: Seq<char>, i: int, lit: Seq<char>) -> Option<int> {
    if 0 <= i && i + lit.len() <= s.len() && s.subrange(i, i + lit.len() as int) == lit {
        Some(i + lit.len() as int)
    } else {
        None
    }
}

/// The strict parser of one or more comma-separated numbers terminated by
/// a closing bracket; returns the numbers and the position after the
/// bracket.
pub open spec fn sp_list_items(s: Seq<char>, i: int) -> Option<(Seq<u64>, int)>
    decreases s.len() - i,
{
    if i < 0 || i >= s.len() {
        None
    } else {
        match sp_u64(s, i) {
            None => None,
            Some((n, j)) => {
                if j < s.len() && s[j] == ',' {
                    let next = if j + 1 > i + 1 {
                        j + 1
                    } else {
                        i + 1
                    };
                    match sp_list_items(s, next) {
                        None => None,
                        Some((rest, k)) => Some((seq![n] + rest, k)),
                    }
                } else if j < s.len() && s[j] == ']' {
                    Some((seq![n], j + 1))
                } else {
                    None
                }
            },
        }
    }
}

/// The strict parser of a full numeric array.
pub open spec fn sp_list(s: Seq<char>, i: int) -> Option<(Seq<u64>, int)> {
    if 0 <= i && i < s.len() && s[i] == '[' {
        if i + 1 < s.len() && s[i + 1] == ']' {
            Some((Seq::empty(), i + 2))
        } else {
            sp_list_items(s, i + 1)
        }
    } else {
        None
    }
}

/// Characters of an embedded segment read back one by one.
pub proof fn lemma_embed_index(s: Seq<char>, i: int, seg: Seq<char>)
    requires
        0 <= i,
        i + seg.len() <= s.len(),
        s.subrange(i, i + seg.len() as int) == seg,
    ensures
        forall|k: int| 0 <= k < seg.len() ==> s[i + k] == seg[k],
{
    assert forall|k: int| 0 <= k < seg.len() implies s[i + k] == seg[k] by {
        assert(seg[k] == s.subrange(i, i + seg.len() as int)[k]);
    }
}

/// Parsing an embedded rendered item list succeeds and stops after its
/// closing bracket.
pub proof fn lemma_sp_list_items_of_json(s: Seq<char>, i: int, v: Seq<u64>)
    requires
        v.len() >= 1,
        0 <= i,
        i + list_items_json(v).len() + 1 <= s.len(),
        s.subrange(i, i + list_items_json(v).len() as int) == list_items_json(v),
        s[i + list_items_json(v).len() as int] == ']',
    ensures
        sp_list_items(s, i) == Some((v, i + list_items_json(v).len() + 1)),
    decreases v.len(),
{
    lemma_list_items_front(v);
    let items = list_items_json(v);
    let d = dec_repr(v[0] as nat);
    lemma_dec_repr_digits(v[0] as nat);
    assert(d.len() >= 1);
    lemma_embed_index(s, i, items);
    if v.len() == 1 {
        assert(items =~= d);
        assert forall|k: int| 0 <= k < d.len() implies s.subrange(i, i + d.len() as int)[k]
            == d[k] by {
            assert(s[i + k] == items[k]);
        }
        assert(s.subrange(i, i + d.len() as int) =~= d);
        assert(!is_digit(']'));
        lemma_sp_u64_of_repr(s, i, v[0]);
        assert(s[i + d.len() as int] == ']');
        assert(seq![v[0]] =~= v);
    } else {
        let tail = v.subrange(1, v.len() as int);
        let tail_items = list_items_json(tail);
        assert(items =~= d + seq![','] + tail_items);
        assert forall|k: int| 0 <= k < d.len() implies s.subrange(i, i + d.len() as int)[k]
            == d[k] by {
            assert(s[i + k] == items[k]);
            assert(items[k] == d[k]);
        }
        assert(s.subrange(i, i + d.len() as int) =~= d);
        assert(s[i + d.len() as int] == items[d.len() as int]);
        assert(items[d.len() as int] == ',');
        assert(!is_digit(','));
        lemma_sp_u64_of_repr(s, i, v[0]);
        let j = i + d.len() as int;
        let next = j + 1;
        assert forall|k: int| 0 <= k < tail_items.len() implies s.subrange(
            next,
            next + tail_items.len() as int,
        )[k] == tail_items[k] by {
            assert(s[i + (d.len() + 1 + k)] == items[d.len() + 1 + k]);
            assert(items[d.len() + 1 + k] == tail_items[k]);
        }
        assert(s.subrange(next, next + tail_items.len() as int) =~= tail_items);
        assert(s[i + items.len() as int] == ']');
        assert(next + tail_items.len() as int == i + items.len() as int);
        lemma_sp_list_items_of_json(s, next, tail);
        assert(seq![v[0]] + tail =~= v);
    }
}

/// Parsing an embedded rendered array succeeds and stops after it.
pub proof fn lemma_sp_list_of_json(s: Seq<char>, i: int, v: Seq<u64>)
    requires
        0 <= i,
        i + list_json(v).len() <= s.len(),
        s.subrange(i, i + list_json(v).len() as int) == list_json(v),
    ensures
        sp_list(s, i) == Some((v, i + list_json(v).len() as int)),
{
    let l = list_json(v);
    assert(s[i] == l[0]);
    assert(l[0] == '[');
    if v.len() == 0 {
        assert(l =~= seq!['[', ']']);
        assert(s[i + 1] == ']');
    } else {
        let items = list_items_json(v);
        lemma_list_items_front(v);
        lemma_dec_repr_digits(v[0] as nat);
        assert(items.len() >= 1);
        assert(s[i + 1] == l[1]);
        assert(l[1] == items[0]);
        assert(items[0] == dec_repr(v[0] as nat)[0]);
        assert(is_digit(items[0]));
        assert(!is_digit(']'));
        assert(s[i + 1] != ']');
        lemma_embed_index(s, i, l);
        assert forall|k: int| 0 <= k < items.len() implies s.subrange(
            i + 1,
            i + 1 + items.len() as int,
        )[k] == items[k] by {
            assert(s[i + (1 + k)] == l[1 + k]);
            assert(l[1 + k] == items[k]);
        }
        assert(s.subrange(i + 1, i + 1 + items.len() as int) =~= items);
        assert(s[i + (1 + items.len() as int)] == l[1 + items.len() as int]);
        assert(l[1 + items.len() as int] == ']');
        assert(s[i + 1 + items.len() as int] == ']');
        lemma_sp_list_items_of_json(s, i + 1, v);
    }
}

/// Exec literal match: mirrors [`sp_lit`].
fn expect_lit(s: &str, i: usize, lit: &str) -> (r: Option<usize>)
    requires
        i <= s@.len(),
    ensures
        match r {
            Some(j) => sp_lit(s@, i as int, lit@) == Some(j as int) && i <= j <= s@.len(),
            None => sp_lit(s@, i as int, lit@) is None,
        },
{
    let n = s.unicode_len();
    let m = lit.unicode_len();
    if m > n - i {
        return None;
    }
    let mut k: usize = 0;
    while k < m
        invariant
            k <= m,
            m == lit@.len(),
            n == s@.len(),
            i + m <= n,
            forall|t: int| 0 <= t < k ==> s@[i + t] == lit@[t],
        decreases m - k,
    {
        if s.get_char(i + k) != lit.get_char(k) {
            proof {
                assert(s@.subrange(i as int, i + m as int)[k as int] != lit@[k as int]);
            }
            return None;
        }
        k += 1;
    }
    proof {
        assert(s@.subrange(i as int, i + m as int) =~= lit@);
    }
    Some(i + m)
}

/// Exec mirror of [`sp_list_items`].
fn parse_list_items(s: &str, i: usize) -> (r: Option<(Vec<u64>, usize)>)
    requires
        i <= s@.len(),
    ensures
        match r {
            Some((v, j)) => sp_list_items(s@, i as int) == Some((v@, j as int)) && j <= s@.len(),
            None => sp_list_items(s@, i as int) is None,
        },
    decreases s@.len() - i,
{
    let n = s.unicode_len();
    if i >= n {
        return None;
    }
    match parse_u64(s, i) {
        None => None,
        Some((x, j)) => {
            if j < n {
                let c = s.get_char(j);
                if c == ',' {
                    match parse_list_items(s, j + 1) {
                        None => None,
                        Some((rest, k)) => {
                            let mut rest = rest;
                            rest.insert(0, x);
                            proof {
                                assert(rest@ =~= seq![x] + rest@.subrange(
                                    1,
                                    rest@.len() as int,
                                ));
                            }
                            Some((rest, k))
                        },
                    }
                } else if c == ']' {
                    let mut v: Vec<u64> = Vec::new();
                    v.push(x);
                    proof {
                        assert(v@ =~= seq![x]);
                    }
                    Some((v, j + 1))
                } else {
                    None
                }
            } else {
                None
            }
        },
    }
}

/// Exec mirror of [`sp_list`].
fn parse_list(s: &str, i: usize) -> (r: Option<(Vec<u64>, usize)>)
    requires
        i <= s@.len(),
    ensures
        match r {
            Some((v, j)) => sp_list(s@, i as int) == Some((v@, j as int)) && j <= s@.len(),
            None => sp_list(s@, i as int) is None,
        },
{
    let n = s.unicode_len();
    if i >= n {
        return None;
    }
    if s.get_char(i) != '[' {
        return None;
    }
    if i + 1 < n && s.get_char(i + 1) == ']' {
        return Some((Vec::new(), i + 2));
    }
    parse_list_items(s, i + 1)
}

/// Appends the canonical decimal representation of `n`.
pub(crate) fn append_u64(s: &mut String, n: u64)
    ensures
        final(s)@ == old(s)@ + dec_repr(n as nat),
    decreases n,
{
    if n >= 10 {
        append_u64(s, n / 10);
    }
    let d = n % 10;
    match d {
        0 => {
            s.append("0");
            proof {
                reveal_strlit("0");
                assert("0"@ =~= seq![digit_char(0)]);
            }
        },
        1 => {
            s.append("1");
            proof {
                reveal_strlit("1");
                assert("1"@ =~= seq![digit_char(1)]);
            }
        },
        2 => {
            s.append("2");
            proof {
                reveal_strlit("2");
                assert("2"@ =~= seq![digit_char(2)]);
            }
        },
        3 => {
            s.append("3");
            proof {
                reveal_strlit("3");
                assert("3"@ =~= seq![digit_char(3)]);
            }
        },
        4 => {
            s.append("4");
            proof {
                reveal_strlit("4");
                assert("4"@ =~= seq![digit_char(4)]);
            }
        },
        5 => {
            s.append("5");
            proof {
                reveal_strlit("5");
                assert("5"@ =~= seq![digit_char(5)]);
            }
        },
        6 => {
            s.append("6");
            proof {
                reveal_strlit("6");
                assert("6"@ =~= seq![digit_char(6)]);
            }
        },
        7 => {
            s.append("7");
            proof {
                reveal_strlit("7");
                assert("7"@ =~= seq![digit_char(7)]);
            }
        },
        8 => {
            s.append("8");
            proof {
                reveal_strlit("8");
                assert("8"@ =~= seq![digit_char(8)]);
            }
        },
        _ => {
            s.append("9");
            proof {
                reveal_strlit("9");
                assert("9"@ =~= seq![digit_char(9)]);
                assert(d == 9);
            }
        },
    }
    proof {
        if n < 10 {
            assert(dec_repr(n as nat) =~= seq![digit_char(n as nat)]);
        } else {
            assert(dec_repr(n as nat) =~= dec_repr((n / 10) as nat).push(
                digit_char((n % 10) as nat),
            ));
            assert(old(s)@ + dec_repr((n / 10) as nat) + seq![digit_char((n % 10) as nat)] =~= old(
                s,
            )@ + dec_repr(n as nat));
        }
    }
}

/// Appends a numeric array in the canonical shape.
pub(crate) fn append_list(s: &mut String, v: &Vec<u64>)
    ensures
        final(s)@ == old(s)@ + list_json(v@),
{
    s.append("[");
    proof {
        reveal_strlit("[");
        assert("["@ =~= seq!['[']);
    }
    let n = v.len();
    let mut i: usize = 0;
    while i < n
        invariant
            i <= n,
            n == v@.len(),
            s@ == old(s)@ + seq!['['] + list_items_json(v@.take(i as int)),
        decreases n - i,
    {
        if i > 0 {
            s.append(",");
            proof {
                reveal_strlit(",");
                assert(","@ =~= seq![',']);
            }
        }
        append_u64(s, v[i]);
        proof {
            let pre = v@.take(i as int);
            let cur = v@.take(i + 1 as int);
            assert(cur.drop_last() =~= pre);
            assert(cur.last() == v@[i as int]);
            if i == 0 {
                assert(list_items_json(cur) =~= dec_repr(v@[0] as nat));
                assert(s@ =~= old(s)@ + seq!['['] + list_items_json(cur));
            } else {
                assert(list_items_json(cur) =~= list_items_json(pre) + seq![','] + dec_repr(
                    v@[i as int] as nat,
                ));
                assert(s@ =~= old(s)@ + seq!['['] + list_items_json(cur));
            }
        }
        i += 1;
    }
    s.append("]");
    proof {
        reveal_strlit("]");
        assert("]"@ =~= seq![']']);
        assert(v@.take(n as int) =~= v@);
        assert(s@ =~= old(s)@ + list_json(v@));
    }
}


/// The mathematical view of a range restriction: the seven allowed-value
/// lists.
pub ghost struct RangeModel {
    pub glwe_log_polynomial_sizes: Seq<u64>,
    pub glwe_dimensions: Seq<u64>,
    pub internal_lwe_dimensions: Seq<u64>,
    pub pbs_level_count: Seq<u64>,
    pub pbs_base_log: Seq<u64>,
    pub ks_level_count: Seq<u64>,
    pub ks_base_log: Seq<u64>,
}

impl View for RangeRestriction {
    type V = RangeModel;

    open spec fn view(&self) -> RangeModel {
        RangeModel {
            glwe_log_polynomial_sizes: self.glwe_log_polynomial_sizes@,
            glwe_dimensions: self.glwe_dimensions@,
            internal_lwe_dimensions: self.internal_lwe_dimensions@,
            pbs_level_count: self.pbs_level_count@,
            pbs_base_log: self.pbs_base_log@,
            ks_level_count: self.ks_level_count@,
            ks_base_log: self.ks_base_log@,
        }
    }
}

/// The canonical interchange rendering of a range restriction.
pub open spec fn range_restriction_json(m: RangeModel) -> Seq<char> {
    ("{\"glwe_log_polynomial_sizes\":"@ + (list_json(m.glwe_log_polynomial_sizes) + (",\"glwe_dimensions\":"@ + (list_json(m.glwe_dimensions) + (",\"internal_lwe_dimensions\":"@ + (list_json(m.internal_lwe_dimensions) + (",\"pbs_level_count\":"@ + (list_json(m.pbs_level_count) + (",\"pbs_base_log\":"@ + (list_json(m.pbs_base_log) + (",\"ks_level_count\":"@ + (list_json(m.ks_level_count) + (",\"ks_base_log\":"@ + (list_json(m.ks_base_log) + "}"@))))))))))))))
}

/// Peels the first segment off an embedded concatenation: if the suffix of
/// `s` at `i` reads `a + b`, then `a` sits at `i` and `b` right after it.
pub proof fn lemma_peel(a: Seq<char>, b: Seq<char>, s: Seq<char>, i: int)
    requires
        0 <= i,
        i + a.len() + b.len() <= s.len(),
        s.subrange(i, i + a.len() + b.len()) == a + b,
    ensures
        s.subrange(i, i + a.len() as int) =~= a,
        s.subrange(i + a.len() as int, i + a.len() + b.len()) =~= b,
        sp_lit(s, i, a) == Some(i + a.len() as int),
{
    lemma_embed_index(s, i, a + b);
    assert forall|k: int| 0 <= k < a.len() implies s.subrange(i, i + a.len() as int)[k] == a[k] by {
        assert(s[i + k] == (a + b)[k]);
    }
    assert forall|k: int| 0 <= k < b.len() implies s.subrange(
        i + a.len() as int,
        i + a.len() + b.len(),
    )[k] == b[k] by {
        assert(s[i + (a.len() + k)] == (a + b)[a.len() + k]);
    }
    assert(s.subrange(i, i + a.len() as int) =~= a);
}

/// The strict parser of the canonical range-restriction rendering:
/// `None` exactly on malformed input.
pub open spec fn sp_range(s: Seq<char>) -> Option<RangeModel> {
    match sp_lit(s, 0, "{\"glwe_log_polynomial_sizes\":"@) {
        None => None,
        Some(a0) => match sp_list(s, a0) {
            None => None,
            Some((v0, b0)) => {
                match sp_lit(s, b0, ",\"glwe_dimensions\":"@) {
                    None => None,
                    Some(a1) => match sp_list(s, a1) {
                        None => None,
                        Some((v1, b1)) => {
                            match sp_lit(s, b1, ",\"internal_lwe_dimensions\":"@) {
                                None => None,
                                Some(a2) => match sp_list(s, a2) {
                                    None => None,
                                    Some((v2, b2)) => {
                                        match sp_lit(s, b2, ",\"pbs_level_count\":"@) {
                                            None => None,
                                            Some(a3) => match sp_list(s, a3) {
                                                None => None,
                                                Some((v3, b3)) => {
                                                    match sp_lit(s, b3, ",\"pbs_base_log\":"@) {
                                                        None => None,
                                                        Some(a4) => match sp_list(s, a4) {
                                                            None => None,
                                                            Some((v4, b4)) => {
                                                                match sp_lit(s, b4, ",\"ks_level_count\":"@) {
                                                                    None => None,
                                                                    Some(a5) => match sp_list(s, a5) {
                                                                        None => None,
                                                                        Some((v5, b5)) => {
                                                                            match sp_lit(s, b5, ",\"ks_base_log\":"@) {
                                                                                None => None,
                                                                                Some(a6) => match sp_list(s, a6) {
                                                                                    None => None,
                                                                                    Some((v6, b6)) => {
                                                                                        match sp_lit(s, b6, "}"@) {
                                                                                            None => None,
                                                                                            Some(e) => if e == s.len() {
                                                                                                Some(RangeModel {
                                                                                                    glwe_log_polynomial_sizes: v0,
                                                                                                    glwe_dimensions: v1,
                                                                                                    internal_lwe_dimensions: v2,
                                                                                                    pbs_level_count: v3,
                                                                                                    pbs_base_log: v4,
                                                                                                    ks_level_count: v5,
                                                                                                    ks_base_log: v6,
                                                                                                })
                                                                                            } else {
                                                                                                None
                                                                                            },
                                                                                        }
                                                                                    },
                                                                                },
                                                                            }
                                                                        },
                                                                    },
                                                                }
                                                            },
                                                        },
                                                    }
                                                },
                                            },
                                        }
                                    },
                                },
                            }
                        },
                    },
                }
            },
        },
    }
}

/// Peels one rendered field — its literal label and its numeric array —
/// off an embedded suffix, parsing both.
pub proof fn lemma_peel_field(s: Seq<char>, i: int, lit: Seq<char>, v: Seq<u64>, rest: Seq<char>)
    requires
        0 <= i,
        i + lit.len() + list_json(v).len() + rest.len() <= s.len(),
        s.subrange(i, i + lit.len() + list_json(v).len() + rest.len()) == lit + (list_json(v)
            + rest),
    ensures
        sp_lit(s, i, lit) == Some(i + lit.len() as int),
        sp_list(s, i + lit.len() as int) == Some(
            (v, i + lit.len() + list_json(v).len() as int),
        ),
        s.subrange(i + lit.len() + list_json(v).len() as int, i + lit.len() + list_json(v).len()
            + rest.len()) == rest,
{
    lemma_peel(lit, list_json(v) + rest, s, i);
    lemma_peel(list_json(v), rest, s, i + lit.len() as int);
    lemma_sp_list_of_json(s, i + lit.len() as int, v);
}

/// The back half of the canonical rendering parses field by field from
/// position `i` to the end of the string.
#[verifier::rlimit(100)]
#[verifier::spinoff_prover]
proof fn lemma_range_rt_back(s: Seq<char>, i: int, m: RangeModel)
    requires
        0 <= i,
        i + (",\"pbs_base_log\":"@ + (list_json(m.pbs_base_log) + (",\"ks_level_count\":"@ + (list_json(m.ks_level_count) + (",\"ks_base_log\":"@ + (list_json(m.ks_base_log) + "}"@)))))).len() == s.len(),
        s.subrange(i, s.len() as int) == (",\"pbs_base_log\":"@ + (list_json(m.pbs_base_log) + (",\"ks_level_count\":"@ + (list_json(m.ks_level_count) + (",\"ks_base_log\":"@ + (list_json(m.ks_base_log) + "}"@)))))),
    ensures
        sp_lit(s, i, ",\"pbs_base_log\":"@) == Some(i + ",\"pbs_base_log\":"@.len() as int),
        sp_list(s, i + ",\"pbs_base_log\":"@.len() as int) == Some((m.pbs_base_log, i + ",\"pbs_base_log\":"@.len() as int + list_json(m.pbs_base_log).len() as int)),
        sp_lit(s, i + ",\"pbs_base_log\":"@.len() as int + list_json(m.pbs_base_log).len() as int, ",\"ks_level_count\":"@) == Some(i + ",\"pbs_base_log\":"@.len() as int + list_json(m.pbs_base_log).len() as int + ",\"ks_level_count\":"@.len() as int),
        sp_list(s, i + ",\"pbs_base_log\":"@.len() as int + list_json(m.pbs_base_log).len() as int + ",\"ks_level_count\":"@.len() as int) == Some((m.ks_level_count, i + ",\"pbs_base_log\":"@.len() as int + list_json(m.pbs_base_log).len() as int + ",\"ks_level_count\":"@.len() as int + list_json(m.ks_level_count).len() as int)),
        sp_lit(s, i + ",\"pbs_base_log\":"@.len() as int + list_json(m.pbs_base_log).len() as int + ",\"ks_level_count\":"@.len() as int + list_json(m.ks_level_count).len() as int, ",\"ks_base_log\":"@) == Some(i + ",\"pbs_base_log\":"@.len() as int + list_json(m.pbs_base_log).len() as int + ",\"ks_level_count\":"@.len() as int + list_json(m.ks_level_count).len() as int + ",\"ks_base_log\":"@.len() as int),
        sp_list(s, i + ",\"pbs_base_log\":"@.len() as int + list_json(m.pbs_base_log).len() as int + ",\"ks_level_count\":"@.len() as int + list_json(m.ks_level_count).len() as int + ",\"ks_base_log\":"@.len() as int) == Some((m.ks_base_log, i + ",\"pbs_base_log\":"@.len() as int + list_json(m.pbs_base_log).len() as int + ",\"ks_level_count\":"@.len() as int + list_json(m.ks_level_count).len() as int + ",\"ks_base_log\":"@.len() as int + list_json(m.ks_base_log).len() as int)),
        sp_lit(s, i + ",\"pbs_base_log\":"@.len() as int + list_json(m.pbs_base_log).len() as int + ",\"ks_level_count\":"@.len() as int + list_json(m.ks_level_count).len() as int + ",\"ks_base_log\":"@.len() as int + list_json(m.ks_base_log).len() as int, "}"@) == Some(s.len() as int),
{
    lemma_peel_field(s, i, ",\"pbs_base_log\":"@, m.pbs_base_log, (",\"ks_level_count\":"@ + (list_json(m.ks_level_count) + (",\"ks_base_log\":"@ + (list_json(m.ks_base_log) + "}"@)))));
    let q4 = i + ",\"pbs_base_log\":"@.len() + list_json(m.pbs_base_log).len() as int;
    lemma_peel_field(s, q4, ",\"ks_level_count\":"@, m.ks_level_count, (",\"ks_base_log\":"@ + (list_json(m.ks_base_log) + "}"@)));
    let q5 = q4 + ",\"ks_level_count\":"@.len() + list_json(m.ks_level_count).len() as int;
    lemma_peel_field(s, q5, ",\"ks_base_log\":"@, m.ks_base_log, "}"@);
    let q6 = q5 + ",\"ks_base_log\":"@.len() + list_json(m.ks_base_log).len() as int;
    assert(q6 + "}"@.len() as int == s.len());
}

/// The front half of the canonical rendering parses field by field from
/// the start of the string.
#[verifier::rlimit(100)]
#[verifier::spinoff_prover]
proof fn lemma_range_rt_front(s: Seq<char>, m: RangeModel)
    requires
        s == range_restriction_json(m),
    ensures
        sp_lit(s, 0, "{\"glwe_log_polynomial_sizes\":"@) == Some(0 + "{\"glwe_log_polynomial_sizes\":"@.len() as int),
        sp_list(s, 0 + "{\"glwe_log_polynomial_sizes\":"@.len() as int) == Some((m.glwe_log_polynomial_sizes, 0 + "{\"glwe_log_polynomial_sizes\":"@.len() as int + list_json(m.glwe_log_polynomial_sizes).len() as int)),
        sp_lit(s, 0 + "{\"glwe_log_polynomial_sizes\":"@.len() as int + list_json(m.glwe_log_polynomial_sizes).len() as int, ",\"glwe_dimensions\":"@) == Some(0 + "{\"glwe_log_polynomial_sizes\":"@.len() as int + list_json(m.glwe_log_polynomial_sizes).len() as int + ",\"glwe_dimensions\":"@.len() as int),
        sp_list(s, 0 + "{\"glwe_log_polynomial_sizes\":"@.len() as int + list_json(m.glwe_log_polynomial_sizes).len() as int + ",\"glwe_dimensions\":"@.len() as int) == Some((m.glwe_dimensions, 0 + "{\"glwe_log_polynomial_sizes\":"@.len() as int + list_json(m.glwe_log_polynomial_sizes).len() as int + ",\"glwe_dimensions\":"@.len() as int + list_json(m.glwe_dimensions).len() as int)),
        sp_lit(s, 0 + "{\"glwe_log_polynomial_sizes\":"@.len() as int + list_json(m.glwe_log_polynomial_sizes).len() as int + ",\"glwe_dimensions\":"@.len() as int + list_json(m.glwe_dimensions).len() as int, ",\"internal_lwe_dimensions\":"@) == Some(0 + "{\"glwe_log_polynomial_sizes\":"@.len() as int + list_json(m.glwe_log_polynomial_sizes).len() as int + ",\"glwe_dimensions\":"@.len() as int + list_json(m.glwe_dimensions).len() as int + ",\"internal_lwe_dimensions\":"@.len() as int),
        sp_list(s, 0 + "{\"glwe_log_polynomial_sizes\":"@.len() as int + list_json(m.glwe_log_polynomial_sizes).len() as int + ",\"glwe_dimensions\":"@.len() as int + list_json(m.glwe_dimensions).len() as int + ",\"internal_lwe_dimensions\":"@.len() as int) == Some((m.internal_lwe_dimensions, 0 + "{\"glwe_log_polynomial_sizes\":"@.len() as int + list_json(m.glwe_log_polynomial_sizes).len() as int + ",\"glwe_dimensions\":"@.len() as int + list_json(m.glwe_dimensions).len() as int + ",\"internal_lwe_dimensions\":"@.len() as int + list_json(m.internal_lwe_dimensions).len() as int)),
        sp_lit(s, 0 + "{\"glwe_log_polynomial_sizes\":"@.len() as int + list_json(m.glwe_log_polynomial_sizes).len() as int + ",\"glwe_dimensions\":"@.len() as int + list_json(m.glwe_dimensions).len() as int + ",\"internal_lwe_dimensions\":"@.len() as int + list_json(m.internal_lwe_dimensions).len() as int, ",\"pbs_level_count\":"@) == Some(0 + "{\"glwe_log_polynomial_sizes\":"@.len() as int + list_json(m.glwe_log_polynomial_sizes).len() as int + ",\"glwe_dimensions\":"@.len() as int + list_json(m.glwe_dimensions).len() as int + ",\"internal_lwe_dimensions\":"@.len() as int + list_json(m.internal_lwe_dimensions).len() as int + ",\"pbs_level_count\":"@.len() as int),
        sp_list(s, 0 + "{\"glwe_log_polynomial_sizes\":"@.len() as int + list_json(m.glwe_log_polynomial_sizes).len() as int + ",\"glwe_dimensions\":"@.len() as int + list_json(m.glwe_dimensions).len() as int + ",\"internal_lwe_dimensions\":"@.len() as int + list_json(m.internal_lwe_dimensions).len() as int + ",\"pbs_level_count\":"@.len() as int) == Some((m.pbs_level_count, 0 + "{\"glwe_log_polynomial_sizes\":"@.len() as int + list_json(m.glwe_log_polynomial_sizes).len() as int + ",\"glwe_dimensions\":"@.len() as int + list_json(m.glwe_dimensions).len() as int + ",\"internal_lwe_dimensions\":"@.len() as int + list_json(m.internal_lwe_dimensions).len() as int + ",\"pbs_level_count\":"@.len() as int + list_json(m.pbs_level_count).len() as int)),
        0 + "{\"glwe_log_polynomial_sizes\":"@.len() as int + list_json(m.glwe_log_polynomial_sizes).len() as int + ",\"glwe_dimensions\":"@.len() as int + list_json(m.glwe_dimensions).len() as int + ",\"internal_lwe_dimensions\":"@.len() as int + list_json(m.internal_lwe_dimensions).len() as int + ",\"pbs_level_count\":"@.len() as int + list_json(m.pbs_level_count).len() as int + (",\"pbs_base_log\":"@ + (list_json(m.pbs_base_log) + (",\"ks_level_count\":"@ + (list_json(m.ks_level_count) + (",\"ks_base_log\":"@ + (list_json(m.ks_base_log) + "}"@)))))).len() == s.len(),
        s.subrange(0 + "{\"glwe_log_polynomial_sizes\":"@.len() as int + list_json(m.glwe_log_polynomial_sizes).len() as int + ",\"glwe_dimensions\":"@.len() as int + list_json(m.glwe_dimensions).len() as int + ",\"internal_lwe_dimensions\":"@.len() as int + list_json(m.internal_lwe_dimensions).len() as int + ",\"pbs_level_count\":"@.len() as int + list_json(m.pbs_level_count).len() as int, s.len() as int) == (",\"pbs_base_log\":"@ + (list_json(m.pbs_base_log) + (",\"ks_level_count\":"@ + (list_json(m.ks_level_count) + (",\"ks_base_log\":"@ + (list_json(m.ks_base_log) + "}"@)))))),
{
    assert(s.subrange(0, s.len() as int) =~= s);
    lemma_peel_field(s, 0, "{\"glwe_log_polynomial_sizes\":"@, m.glwe_log_polynomial_sizes, (",\"glwe_dimensions\":"@ + (list_json(m.glwe_dimensions) + (",\"internal_lwe_dimensions\":"@ + (list_json(m.internal_lwe_dimensions) + (",\"pbs_level_count\":"@ + (list_json(m.pbs_level_count) + (",\"pbs_base_log\":"@ + (list_json(m.pbs_base_log) + (",\"ks_level_count\":"@ + (list_json(m.ks_level_count) + (",\"ks_base_log\":"@ + (list_json(m.ks_base_log) + "}"@)))))))))))));
    let q0 = 0 + "{\"glwe_log_polynomial_sizes\":"@.len() + list_json(m.glwe_log_polynomial_sizes).len() as int;
    lemma_peel_field(s, q0, ",\"glwe_dimensions\":"@, m.glwe_dimensions, (",\"internal_lwe_dimensions\":"@ + (list_json(m.internal_lwe_dimensions) + (",\"pbs_level_count\":"@ + (list_json(m.pbs_level_count) + (",\"pbs_base_log\":"@ + (list_json(m.pbs_base_log) + (",\"ks_level_count\":"@ + (list_json(m.ks_level_count) + (",\"ks_base_log\":"@ + (list_json(m.ks_base_log) + "}"@)))))))))));
    let q1 = q0 + ",\"glwe_dimensions\":"@.len() + list_json(m.glwe_dimensions).len() as int;
    lemma_peel_field(s, q1, ",\"internal_lwe_dimensions\":"@, m.internal_lwe_dimensions, (",\"pbs_level_count\":"@ + (list_json(m.pbs_level_count) + (",\"pbs_base_log\":"@ + (list_json(m.pbs_base_log) + (",\"ks_level_count\":"@ + (list_json(m.ks_level_count) + (",\"ks_base_log\":"@ + (list_json(m.ks_base_log) + "}"@)))))))));
    let q2 = q1 + ",\"internal_lwe_dimensions\":"@.len() + list_json(m.internal_lwe_dimensions).len() as int;
    lemma_peel_field(s, q2, ",\"pbs_level_count\":"@, m.pbs_level_count, (",\"pbs_base_log\":"@ + (list_json(m.pbs_base_log) + (",\"ks_level_count\":"@ + (list_json(m.ks_level_count) + (",\"ks_base_log\":"@ + (list_json(m.ks_base_log) + "}"@)))))));
    let q3 = q2 + ",\"pbs_level_count\":"@.len() + list_json(m.pbs_level_count).len() as int;
}

/// Serialize-then-deserialize of a range restriction returns the value:
/// the strict parser accepts the canonical rendering and rebuilds every
/// field.
#[verifier::rlimit(100)]
#[verifier::spinoff_prover]
pub proof fn lemma_range_restriction_json_round_trip(m: RangeModel)
    ensures
        sp_range(range_restriction_json(m)) == Some(m),
{
    let s = range_restriction_json(m);
    lemma_range_rt_front(s, m);
    lemma_range_rt_back(s, 0 + "{\"glwe_log_polynomial_sizes\":"@.len() + list_json(m.glwe_log_polynomial_sizes).len() as int + ",\"glwe_dimensions\":"@.len() + list_json(m.glwe_dimensions).len() as int + ",\"internal_lwe_dimensions\":"@.len() + list_json(m.internal_lwe_dimensions).len() as int + ",\"pbs_level_count\":"@.len() + list_json(m.pbs_level_count).len() as int, m);
}

impl RangeRestriction {
    /// Renders the restriction in the canonical interchange form.
    #[verifier::rlimit(100)]
    pub fn range_restriction_to_json(&self) -> (r: String)
        ensures
            r@ == range_restriction_json(self@),
    {
        let mut s = String::new();
        s.append("{\"glwe_log_polynomial_sizes\":");
        append_list(&mut s, &self.glwe_log_polynomial_sizes);
        s.append(",\"glwe_dimensions\":");
        append_list(&mut s, &self.glwe_dimensions);
        s.append(",\"internal_lwe_dimensions\":");
        append_list(&mut s, &self.internal_lwe_dimensions);
        s.append(",\"pbs_level_count\":");
        append_list(&mut s, &self.pbs_level_count);
        s.append(",\"pbs_base_log\":");
        append_list(&mut s, &self.pbs_base_log);
        s.append(",\"ks_level_count\":");
        append_list(&mut s, &self.ks_level_count);
        s.append(",\"ks_base_log\":");
        append_list(&mut s, &self.ks_base_log);
        s.append("}");
        proof {
            assert(s@ =~= range_restriction_json(self@));
        }
        s
    }
}

/// A malformed interchange payload.
#[derive(Debug, Clone, Copy, PartialEq, Eq, Structural)]
pub struct JsonParseError;

/// Parses the canonical interchange form of a range restriction;
/// reports a parse error exactly on input the strict grammar refuses.
pub fn range_restriction_from_json(input: &str) -> (r: Result<RangeRestriction, JsonParseError>)
    ensures
        match r {
            Ok(v) => sp_range(input@) == Some(v@),
            Err(_) => sp_range(input@) is None,
        },
{
    let a0 = match expect_lit(input, 0, "{\"glwe_log_polynomial_sizes\":") {
        Some(j) => j,
        None => { return Err(JsonParseError); },
    };
    let (v0, b0) = match parse_list(input, a0) {
        Some(p) => p,
        None => { return Err(JsonParseError); },
    };
    let a1 = match expect_lit(input, b0, ",\"glwe_dimensions\":") {
        Some(j) => j,
        None => { return Err(JsonParseError); },
    };
    let (v1, b1) = match parse_list(input, a1) {
        Some(p) => p,
        None => { return Err(JsonParseError); },
    };
    let a2 = match expect_lit(input, b1, ",\"internal_lwe_dimensions\":") {
        Some(j) => j,
        None => { return Err(JsonParseError); },
    };
    let (v2, b2) = match parse_list(input, a2) {
        Some(p) => p,
        None => { return Err(JsonParseError); },
    };
    let a3 = match expect_lit(input, b2, ",\"pbs_level_count\":") {
        Some(j) => j,
        None => { return Err(JsonParseError); },
    };
    let (v3, b3) = match parse_list(input, a3) {
        Some(p) => p,
        None => { return Err(JsonParseError); },
    };
    let a4 = match expect_lit(input, b3, ",\"pbs_base_log\":") {
        Some(j) => j,
        None => { return Err(JsonParseError); },
    };
    let (v4, b4) = match parse_list(input, a4) {
        Some(p) => p,
        None => { return Err(JsonParseError); },
    };
    let a5 = match expect_lit(input, b4, ",\"ks_level_count\":") {
        Some(j) => j,
        None => { return Err(JsonParseError); },
    };
    let (v5, b5) = match parse_list(input, a5) {
        Some(p) => p,
        None => { return Err(JsonParseError); },
    };
    let a6 = match expect_lit(input, b5, ",\"ks_base_log\":") {
        Some(j) => j,
        None => { return Err(JsonParseError); },
    };
    let (v6, b6) = match parse_list(input, a6) {
        Some(p) => p,
        None => { return Err(JsonParseError); },
    };
    let e = match expect_lit(input, b6, "}") {
        Some(j) => j,
        None => { return Err(JsonParseError); },
    };
    if e != input.unicode_len() {
        return Err(JsonParseError);
    }
    Ok(RangeRestriction {
        glwe_log_polynomial_sizes: v0,
        glwe_dimensions: v1,
        internal_lwe_dimensions: v2,
        pbs_level_count: v3,
        pbs_base_log: v4,
        ks_level_count: v5,
        ks_base_log: v6,
    })
}



/// Peels one rendered number — a literal label and a canonical decimal —
/// off an embedded suffix, parsing both.  The remainder must not begin
/// with a digit.
pub proof fn lemma_peel_number(s: Seq<char>, i: int, lit: Seq<char>, n: u64, rest: Seq<char>)
    requires
        0 <= i,
        rest.len() >= 1,
        !is_digit(rest[0]),
        i + lit.len() + dec_repr(n as nat).len() + rest.len() <= s.len(),
        s.subrange(i, i + lit.len() + dec_repr(n as nat).len() + rest.len()) == lit + (dec_repr(
            n as nat,
        ) + rest),
    ensures
        sp_lit(s, i, lit) == Some(i + lit.len() as int),
        sp_u64(s, i + lit.len() as int) == Some(
            (n, i + lit.len() + dec_repr(n as nat).len() as int),
        ),
        s.subrange(
            i + lit.len() + dec_repr(n as nat).len() as int,
            i + lit.len() + dec_repr(n as nat).len() + rest.len(),
        ) == rest,
{
    lemma_peel(lit, dec_repr(n as nat) + rest, s, i);
    lemma_peel(dec_repr(n as nat), rest, s, i + lit.len() as int);
    let j = i + lit.len() + dec_repr(n as nat).len() as int;
    lemma_embed_index(s, j, rest);
    assert(s[j] == rest[0]);
    lemma_sp_u64_of_repr(s, i + lit.len() as int, n);
}

/// The canonical rendering of one LweSecretKeyInfo record.
pub open spec fn secret_key_info_json(k: LweSecretKeyInfo) -> Seq<char> {
    ("{\"lwe_dimension\":"@ + (dec_repr(k.lwe_dimension as nat) + "}"@))
}

/// The strict parser of one rendered LweSecretKeyInfo record.
pub open spec fn sp_secret_key_info(s: Seq<char>, i: int) -> Option<(LweSecretKeyInfo, int)> {
    match sp_lit(s, i, "{\"lwe_dimension\":"@) {
        None => None,
        Some(a0) => match sp_u64(s, a0) {
            None => None,
            Some((v0, b0)) => {
                match sp_lit(s, b0, "}"@) {
                    None => None,
                    Some(e) => Some((LweSecretKeyInfo {
                        lwe_dimension: v0,
                    }, e)),
                }
            },
        },
    }
}

/// Parsing an embedded rendered LweSecretKeyInfo record succeeds and stops after it.
#[verifier::rlimit(100)]
#[verifier::spinoff_prover]
pub proof fn lemma_sp_secret_key_info_of_json(s: Seq<char>, i: int, k: LweSecretKeyInfo)
    requires
        0 <= i,
        i + secret_key_info_json(k).len() <= s.len(),
        s.subrange(i, i + secret_key_info_json(k).len() as int) == secret_key_info_json(k),
    ensures
        sp_secret_key_info(s, i) == Some((k, i + secret_key_info_json(k).len() as int)),
{
    reveal_strlit("{\"lwe_dimension\":");
    reveal_strlit("}");
    lemma_dec_repr_digits(k.lwe_dimension as nat);
    lemma_peel_number(s, i, "{\"lwe_dimension\":"@, k.lwe_dimension, "}"@);
    let q0 = i + "{\"lwe_dimension\":"@.len() + dec_repr(k.lwe_dimension as nat).len() as int;
}

/// The comma-separated items of an array of LweSecretKeyInfo records.
pub open spec fn secret_key_info_items_json(v: Seq<LweSecretKeyInfo>) -> Seq<char>
    decreases v.len(),
{
    if v.len() == 0 {
        Seq::empty()
    } else if v.len() == 1 {
        secret_key_info_json(v[0])
    } else {
        secret_key_info_items_json(v.drop_last()) + seq![','] + secret_key_info_json(v.last())
    }
}

/// An array of LweSecretKeyInfo records rendered canonically.
pub open spec fn secret_key_info_list_json(v: Seq<LweSecretKeyInfo>) -> Seq<char> {
    seq!['['] + secret_key_info_items_json(v) + seq![']']
}

/// Front decomposition of the rendered record items.
pub proof fn lemma_secret_key_info_items_front(v: Seq<LweSecretKeyInfo>)
    requires
        v.len() >= 1,
    ensures
        v.len() == 1 ==> secret_key_info_items_json(v) =~= secret_key_info_json(v[0]),
        v.len() > 1 ==> secret_key_info_items_json(v) =~= secret_key_info_json(v[0]) + seq![',']
            + secret_key_info_items_json(v.subrange(1, v.len() as int)),
    decreases v.len(),
{
    if v.len() > 1 {
        lemma_secret_key_info_items_front(v.drop_last());
        if v.len() == 2 {
            assert(v.drop_last() =~= seq![v[0]]);
            assert(v.subrange(1, v.len() as int) =~= seq![v[1]]);
        } else {
            assert(v.drop_last().subrange(1, v.drop_last().len() as int) =~= v.subrange(
                1,
                v.len() as int,
            ).drop_last());
            assert(v.subrange(1, v.len() as int).last() == v.last());
        }
    }
}

/// The strict parser of one or more rendered LweSecretKeyInfo records
/// separated by commas and terminated by a closing bracket.
pub open spec fn sp_secret_key_info_items(s: Seq<char>, i: int) -> Option<(Seq<LweSecretKeyInfo>, int)>
    decreases s.len() - i,
{
    if i < 0 || i >= s.len() {
        None
    } else {
        match sp_secret_key_info(s, i) {
            None => None,
            Some((k, j)) => {
                if j < s.len() && s[j] == ',' {
                    let next = if j + 1 > i + 1 {
                        j + 1
                    } else {
                        i + 1
                    };
                    match sp_secret_key_info_items(s, next) {
                        None => None,
                        Some((rest, e)) => Some((seq![k] + rest, e)),
                    }
                } else if j < s.len() && s[j] == ']' {
                    Some((seq![k], j + 1))
                } else {
                    None
                }
            },
        }
    }
}

/// The strict parser of a full array of LweSecretKeyInfo records.
pub open spec fn sp_secret_key_info_list(s: Seq<char>, i: int) -> Option<(Seq<LweSecretKeyInfo>, int)> {
    if 0 <= i && i < s.len() && s[i] == '[' {
        if i + 1 < s.len() && s[i + 1] == ']' {
            Some((Seq::empty(), i + 2))
        } else {
            sp_secret_key_info_items(s, i + 1)
        }
    } else {
        None
    }
}

/// The canonical rendering of one LweBootstrapKeyInfo record.
pub open spec fn bootstrap_key_info_json(k: LweBootstrapKeyInfo) -> Seq<char> {
    ("{\"level_count\":"@ + (dec_repr(k.level_count as nat) + (",\"base_log\":"@ + (dec_repr(k.base_log as nat) + (",\"glwe_dimension\":"@ + (dec_repr(k.glwe_dimension as nat) + (",\"polynomial_size\":"@ + (dec_repr(k.polynomial_size as nat) + (",\"input_lwe_dimension\":"@ + (dec_repr(k.input_lwe_dimension as nat) + "}"@))))))))))
}

/// The strict parser of one rendered LweBootstrapKeyInfo record.
pub open spec fn sp_bootstrap_key_info(s: Seq<char>, i: int) -> Option<(LweBootstrapKeyInfo, int)> {
    match sp_lit(s, i, "{\"level_count\":"@) {
        None => None,
        Some(a0) => match sp_u64(s, a0) {
            None => None,
            Some((v0, b0)) => {
                match sp_lit(s, b0, ",\"base_log\":"@) {
                    None => None,
                    Some(a1) => match sp_u64(s, a1) {
                        None => None,
                        Some((v1, b1)) => {
                            match sp_lit(s, b1, ",\"glwe_dimension\":"@) {
                                None => None,
                                Some(a2) => match sp_u64(s, a2) {
                                    None => None,
                                    Some((v2, b2)) => {
                                        match sp_lit(s, b2, ",\"polynomial_size\":"@) {
                                            None => None,
                                            Some(a3) => match sp_u64(s, a3) {
                                                None => None,
                                                Some((v3, b3)) => {
                                                    match sp_lit(s, b3, ",\"input_lwe_dimension\":"@) {
                                                        None => None,
                                                        Some(a4) => match sp_u64(s, a4) {
                                                            None => None,
                                                            Some((v4, b4)) => {
                                                                match sp_lit(s, b4, "}"@) {
                                                                    None => None,
                                                                    Some(e) => Some((LweBootstrapKeyInfo {
                                                                        level_count: v0,
                                                                        base_log: v1,
                                                                        glwe_dimension: v2,
                                                                        polynomial_size: v3,
                                                                        input_lwe_dimension: v4,
                                                                    }, e)),
                                                                }
                                                            },
                                                        },
                                                    }
                                                },
                                            },
                                        }
                                    },
                                },
                            }
                        },
                    },
                }
            },
        },
    }
}

/// Parsing an embedded rendered LweBootstrapKeyInfo record succeeds and stops after it.
#[verifier::rlimit(100)]
#[verifier::spinoff_prover]
pub proof fn lemma_sp_bootstrap_key_info_of_json(s: Seq<char>, i: int, k: LweBootstrapKeyInfo)
    requires
        0 <= i,
        i + bootstrap_key_info_json(k).len() <= s.len(),
        s.subrange(i, i + bootstrap_key_info_json(k).len() as int) == bootstrap_key_info_json(k),
    ensures
        sp_bootstrap_key_info(s, i) == Some((k, i + bootstrap_key_info_json(k).len() as int)),
{
    reveal_strlit("{\"level_count\":");
    reveal_strlit(",\"base_log\":");
    reveal_strlit(",\"glwe_dimension\":");
    reveal_strlit(",\"polynomial_size\":");
    reveal_strlit(",\"input_lwe_dimension\":");
    reveal_strlit("}");
    lemma_dec_repr_digits(k.level_count as nat);
    lemma_peel_number(s, i, "{\"level_count\":"@, k.level_count, (",\"base_log\":"@ + (dec_repr(k.base_log as nat) + (",\"glwe_dimension\":"@ + (dec_repr(k.glwe_dimension as nat) + (",\"polynomial_size\":"@ + (dec_repr(k.polynomial_size as nat) + (",\"input_lwe_dimension\":"@ + (dec_repr(k.input_lwe_dimension as nat) + "}"@)))))))));
    let q0 = i + "{\"level_count\":"@.len() + dec_repr(k.level_count as nat).len() as int;
    lemma_dec_repr_digits(k.base_log as nat);
    lemma_peel_number(s, q0, ",\"base_log\":"@, k.base_log, (",\"glwe_dimension\":"@ + (dec_repr(k.glwe_dimension as nat) + (",\"polynomial_size\":"@ + (dec_repr(k.polynomial_size as nat) + (",\"input_lwe_dimension\":"@ + (dec_repr(k.input_lwe_dimension as nat) + "}"@)))))));
    let q1 = q0 + ",\"base_log\":"@.len() + dec_repr(k.base_log as nat).len() as int;
    lemma_dec_repr_digits(k.glwe_dimension as nat);
    lemma_peel_number(s, q1, ",\"glwe_dimension\":"@, k.glwe_dimension, (",\"polynomial_size\":"@ + (dec_repr(k.polynomial_size as nat) + (",\"input_lwe_dimension\":"@ + (dec_repr(k.input_lwe_dimension as nat) + "}"@)))));
    let q2 = q1 + ",\"glwe_dimension\":"@.len() + dec_repr(k.glwe_dimension as nat).len() as int;
    lemma_dec_repr_digits(k.polynomial_size as nat);
    lemma_peel_number(s, q2, ",\"polynomial_size\":"@, k.polynomial_size, (",\"input_lwe_dimension\":"@ + (dec_repr(k.input_lwe_dimension as nat) + "}"@)));
    let q3 = q2 + ",\"polynomial_size\":"@.len() + dec_repr(k.polynomial_size as nat).len() as int;
    lemma_dec_repr_digits(k.input_lwe_dimension as nat);
    lemma_peel_number(s, q3, ",\"input_lwe_dimension\":"@, k.input_lwe_dimension, "}"@);
    let q4 = q3 + ",\"input_lwe_dimension\":"@.len() + dec_repr(k.input_lwe_dimension as nat).len() as int;
}

/// The comma-separated items of an array of LweBootstrapKeyInfo records.
pub open spec fn bootstrap_key_info_items_json(v: Seq<LweBootstrapKeyInfo>) -> Seq<char>
    decreases v.len(),
{
    if v.len() == 0 {
        Seq::empty()
    } else if v.len() == 1 {
        bootstrap_key_info_json(v[0])
    } else {
        bootstrap_key_info_items_json(v.drop_last()) + seq![','] + bootstrap_key_info_json(v.last())
    }
}

/// An array of LweBootstrapKeyInfo records rendered canonically.
pub open spec fn bootstrap_key_info_list_json(v: Seq<LweBootstrapKeyInfo>) -> Seq<char> {
    seq!['['] + bootstrap_key_info_items_json(v) + seq![']']
}

/// Front decomposition of the rendered record items.
pub proof fn lemma_bootstrap_key_info_items_front(v: Seq<LweBootstrapKeyInfo>)
    requires
        v.len() >= 1,
    ensures
        v.len() == 1 ==> bootstrap_key_info_items_json(v) =~= bootstrap_key_info_json(v[0]),
        v.len() > 1 ==> bootstrap_key_info_items_json(v) =~= bootstrap_key_info_json(v[0]) + seq![',']
            + bootstrap_key_info_items_json(v.subrange(1, v.len() as int)),
    decreases v.len(),
{
    if v.len() > 1 {
        lemma_bootstrap_key_info_items_front(v.drop_last());
        if v.len() == 2 {
            assert(v.drop_last() =~= seq![v[0]]);
            assert(v.subrange(1, v.len() as int) =~= seq![v[1]]);
        } else {
            assert(v.drop_last().subrange(1, v.drop_last().len() as int) =~= v.subrange(
                1,
                v.len() as int,
            ).drop_last());
            assert(v.subrange(1, v.len() as int).last() == v.last());
        }
    }
}

/// The strict parser of one or more rendered LweBootstrapKeyInfo records
/// separated by commas and terminated by a closing bracket.
pub open spec fn sp_bootstrap_key_info_items(s: Seq<char>, i: int) -> Option<(Seq<LweBootstrapKeyInfo>, int)>
    decreases s.len() - i,
{
    if i < 0 || i >= s.len() {
        None
    } else {
        match sp_bootstrap_key_info(s, i) {
            None => None,
            Some((k, j)) => {
                if j < s.len() && s[j] == ',' {
                    let next = if j + 1 > i + 1 {
                        j + 1
                    } else {
                        i + 1
                    };
                    match sp_bootstrap_key_info_items(s, next) {
                        None => None,
                        Some((rest, e)) => Some((seq![k] + rest, e)),
                    }
                } else if j < s.len() && s[j] == ']' {
                    Some((seq![k], j + 1))
                } else {
                    None
                }
            },
        }
    }
}

/// The strict parser of a full array of LweBootstrapKeyInfo records.
pub open spec fn sp_bootstrap_key_info_list(s: Seq<char>, i: int) -> Option<(Seq<LweBootstrapKeyInfo>, int)> {
    if 0 <= i && i < s.len() && s[i] == '[' {
        if i + 1 < s.len() && s[i + 1] == ']' {
            Some((Seq::empty(), i + 2))
        } else {
            sp_bootstrap_key_info_items(s, i + 1)
        }
    } else {
        None
    }
}

/// The canonical rendering of one LweKeyswitchKeyInfo record.
pub open spec fn keyswitch_key_info_json(k: LweKeyswitchKeyInfo) -> Seq<char> {
    ("{\"level_count\":"@ + (dec_repr(k.level_count as nat) + (",\"base_log\":"@ + (dec_repr(k.base_log as nat) + (",\"input_lwe_dimension\":"@ + (dec_repr(k.input_lwe_dimension as nat) + (",\"output_lwe_dimension\":"@ + (dec_repr(k.output_lwe_dimension as nat) + "}"@))))))))
}

/// The strict parser of one rendered LweKeyswitchKeyInfo record.
pub open spec fn sp_keyswitch_key_info(s: Seq<char>, i: int) -> Option<(LweKeyswitchKeyInfo, int)> {
    match sp_lit(s, i, "{\"level_count\":"@) {
        None => None,
        Some(a0) => match sp_u64(s, a0) {
            None => None,
            Some((v0, b0)) => {
                match sp_lit(s, b0, ",\"base_log\":"@) {
                    None => None,
                    Some(a1) => match sp_u64(s, a1) {
                        None => None,
                        Some((v1, b1)) => {
                            match sp_lit(s, b1, ",\"input_lwe_dimension\":"@) {
                                None => None,
                                Some(a2) => match sp_u64(s, a2) {
                                    None => None,
                                    Some((v2, b2)) => {
                                        match sp_lit(s, b2, ",\"output_lwe_dimension\":"@) {
                                            None => None,
                                            Some(a3) => match sp_u64(s, a3) {
                                                None => None,
                                                Some((v3, b3)) => {
                                                    match sp_lit(s, b3, "}"@) {
                                                        None => None,
                                                        Some(e) => Some((LweKeyswitchKeyInfo {
                                                            level_count: v0,
                                                            base_log: v1,
                                                            input_lwe_dimension: v2,
                                                            output_lwe_dimension: v3,
                                                        }, e)),
                                                    }
                                                },
                                            },
                                        }
                                    },
                                },
                            }
                        },
                    },
                }
            },
        },
    }
}

/// Parsing an embedded rendered LweKeyswitchKeyInfo record succeeds and stops after it.
#[verifier::rlimit(100)]
#[verifier::spinoff_prover]
pub proof fn lemma_sp_keyswitch_key_info_of_json(s: Seq<char>, i: int, k: LweKeyswitchKeyInfo)
    requires
        0 <= i,
        i + keyswitch_key_info_json(k).len() <= s.len(),
        s.subrange(i, i + keyswitch_key_info_json(k).len() as int) == keyswitch_key_info_json(k),
    ensures
        sp_keyswitch_key_info(s, i) == Some((k, i + keyswitch_key_info_json(k).len() as int)),
{
    reveal_strlit("{\"level_count\":");
    reveal_strlit(",\"base_log\":");
    reveal_strlit(",\"input_lwe_dimension\":");
    reveal_strlit(",\"output_lwe_dimension\":");
    reveal_strlit("}");
    lemma_dec_repr_digits(k.level_count as nat);
    lemma_peel_number(s, i, "{\"level_count\":"@, k.level_count, (",\"base_log\":"@ + (dec_repr(k.base_log as nat) + (",\"input_lwe_dimension\":"@ + (dec_repr(k.input_lwe_dimension as nat) + (",\"output_lwe_dimension\":"@ + (dec_repr(k.output_lwe_dimension as nat) + "}"@)))))));
    let q0 = i + "{\"level_count\":"@.len() + dec_repr(k.level_count as nat).len() as int;
    lemma_dec_repr_digits(k.base_log as nat);
    lemma_peel_number(s, q0, ",\"base_log\":"@, k.base_log, (",\"input_lwe_dimension\":"@ + (dec_repr(k.input_lwe_dimension as nat) + (",\"output_lwe_dimension\":"@ + (dec_repr(k.output_lwe_dimension as nat) + "}"@)))));
    let q1 = q0 + ",\"base_log\":"@.len() + dec_repr(k.base_log as nat).len() as int;
    lemma_dec_repr_digits(k.input_lwe_dimension as nat);
    lemma_peel_number(s, q1, ",\"input_lwe_dimension\":"@, k.input_lwe_dimension, (",\"output_lwe_dimension\":"@ + (dec_repr(k.output_lwe_dimension as nat) + "}"@)));
    let q2 = q1 + ",\"input_lwe_dimension\":"@.len() + dec_repr(k.input_lwe_dimension as nat).len() as int;
    lemma_dec_repr_digits(k.output_lwe_dimension as nat);
    lemma_peel_number(s, q2, ",\"output_lwe_dimension\":"@, k.output_lwe_dimension, "}"@);
    let q3 = q2 + ",\"output_lwe_dimension\":"@.len() + dec_repr(k.output_lwe_dimension as nat).len() as int;
}

/// The comma-separated items of an array of LweKeyswitchKeyInfo records.
pub open spec fn keyswitch_key_info_items_json(v: Seq<LweKeyswitchKeyInfo>) -> Seq<char>
    decreases v.len(),
{
    if v.len() == 0 {
        Seq::empty()
    } else if v.len() == 1 {
        keyswitch_key_info_json(v[0])
    } else {
        keyswitch_key_info_items_json(v.drop_last()) + seq![','] + keyswitch_key_info_json(v.last())
    }
}

/// An array of LweKeyswitchKeyInfo records rendered canonically.
pub open spec fn keyswitch_key_info_list_json(v: Seq<LweKeyswitchKeyInfo>) -> Seq<char> {
    seq!['['] + keyswitch_key_info_items_json(v) + seq![']']
}

/// Front decomposition of the rendered record items.
pub proof fn lemma_keyswitch_key_info_items_front(v: Seq<LweKeyswitchKeyInfo>)
    requires
        v.len() >= 1,
    ensures
        v.len() == 1 ==> keyswitch_key_info_items_json(v) =~= keyswitch_key_info_json(v[0]),
        v.len() > 1 ==> keyswitch_key_info_items_json(v) =~= keyswitch_key_info_json(v[0]) + seq![',']
            + keyswitch_key_info_items_json(v.subrange(1, v.len() as int)),
    decreases v.len(),
{
    if v.len() > 1 {
        lemma_keyswitch_key_info_items_front(v.drop_last());
        if v.len() == 2 {
            assert(v.drop_last() =~= seq![v[0]]);
            assert(v.subrange(1, v.len() as int) =~= seq![v[1]]);
        } else {
            assert(v.drop_last().subrange(1, v.drop_last().len() as int) =~= v.subrange(
                1,
                v.len() as int,
            ).drop_last());
            assert(v.subrange(1, v.len() as int).last() == v.last());
        }
    }
}

/// The strict parser of one or more rendered LweKeyswitchKeyInfo records
/// separated by commas and terminated by a closing bracket.
pub open spec fn sp_keyswitch_key_info_items(s: Seq<char>, i: int) -> Option<(Seq<LweKeyswitchKeyInfo>, int)>
    decreases s.len() - i,
{
    if i < 0 || i >= s.len() {
        None
    } else {
        match sp_keyswitch_key_info(s, i) {
            None => None,
            Some((k, j)) => {
                if j < s.len() && s[j] == ',' {
                    let next = if j + 1 > i + 1 {
                        j + 1
                    } else {
                        i + 1
                    };
                    match sp_keyswitch_key_info_items(s, next) {
                        None => None,
                        Some((rest, e)) => Some((seq![k] + rest, e)),
                    }
                } else if j < s.len() && s[j] == ']' {
                    Some((seq![k], j + 1))
                } else {
                    None
                }
            },
        }
    }
}

/// The strict parser of a full array of LweKeyswitchKeyInfo records.
pub open spec fn sp_keyswitch_key_info_list(s: Seq<char>, i: int) -> Option<(Seq<LweKeyswitchKeyInfo>, int)> {
    if 0 <= i && i < s.len() && s[i] == '[' {
        if i + 1 < s.len() && s[i + 1] == ']' {
            Some((Seq::empty(), i + 2))
        } else {
            sp_keyswitch_key_info_items(s, i + 1)
        }
    } else {
        None
    }
}

/// Parsing an embedded rendered item array succeeds and stops after its
/// closing bracket.
#[verifier::rlimit(100)]
#[verifier::spinoff_prover]
pub proof fn lemma_sp_secret_key_info_items_of_json(s: Seq<char>, i: int, v: Seq<LweSecretKeyInfo>)
    requires
        v.len() >= 1,
        0 <= i,
        i + secret_key_info_items_json(v).len() + 1 <= s.len(),
        s.subrange(i, i + secret_key_info_items_json(v).len() as int) == secret_key_info_items_json(v),
        s[i + secret_key_info_items_json(v).len() as int] == ']',
    ensures
        sp_secret_key_info_items(s, i) == Some((v, i + secret_key_info_items_json(v).len() + 1)),
    decreases v.len(),
{
    lemma_secret_key_info_items_front(v);
    let items = secret_key_info_items_json(v);
    let d = secret_key_info_json(v[0]);
    lemma_embed_index(s, i, items);
    if v.len() == 1 {
        assert(items =~= d);
        assert forall|t: int| 0 <= t < d.len() implies s.subrange(i, i + d.len() as int)[t]
            == d[t] by {
            assert(s[i + t] == items[t]);
        }
        assert(s.subrange(i, i + d.len() as int) =~= d);
        lemma_sp_secret_key_info_of_json(s, i, v[0]);
        assert(s[i + d.len() as int] == ']');
        assert(seq![v[0]] =~= v);
    } else {
        let tail = v.subrange(1, v.len() as int);
        let tail_items = secret_key_info_items_json(tail);
        assert(items =~= d + seq![','] + tail_items);
        assert forall|t: int| 0 <= t < d.len() implies s.subrange(i, i + d.len() as int)[t]
            == d[t] by {
            assert(s[i + t] == items[t]);
            assert(items[t] == d[t]);
        }
        assert(s.subrange(i, i + d.len() as int) =~= d);
        lemma_sp_secret_key_info_of_json(s, i, v[0]);
        assert(s[i + d.len() as int] == items[d.len() as int]);
        assert(items[d.len() as int] == ',');
        let j = i + d.len() as int;
        let next = j + 1;
        assert forall|t: int| 0 <= t < tail_items.len() implies s.subrange(
            next,
            next + tail_items.len() as int,
        )[t] == tail_items[t] by {
            assert(s[i + (d.len() + 1 + t)] == items[d.len() + 1 + t]);
            assert(items[d.len() + 1 + t] == tail_items[t]);
        }
        assert(s.subrange(next, next + tail_items.len() as int) =~= tail_items);
        assert(s[i + items.len() as int] == ']');
        assert(next + tail_items.len() as int == i + items.len() as int);
        lemma_sp_secret_key_info_items_of_json(s, next, tail);
        assert(seq![v[0]] + tail =~= v);
    }
}

/// Parsing an embedded rendered array succeeds and stops after it.
#[verifier::rlimit(100)]
#[verifier::spinoff_prover]
pub proof fn lemma_sp_secret_key_info_list_of_json(s: Seq<char>, i: int, v: Seq<LweSecretKeyInfo>)
    requires
        0 <= i,
        i + secret_key_info_list_json(v).len() <= s.len(),
        s.subrange(i, i + secret_key_info_list_json(v).len() as int) == secret_key_info_list_json(v),
    ensures
        sp_secret_key_info_list(s, i) == Some((v, i + secret_key_info_list_json(v).len() as int)),
{
    let l = secret_key_info_list_json(v);
    lemma_embed_index(s, i, l);
    assert(s[i] == l[0]);
    assert(l[0] == '[');
    if v.len() == 0 {
        assert(l =~= seq!['[', ']']);
        assert(s[i + 1] == ']');
    } else {
        let items = secret_key_info_items_json(v);
        lemma_secret_key_info_items_front(v);
        reveal_strlit("{\"lwe_dimension\":");
        assert(secret_key_info_json(v[0])[0] == '{');
        assert(items.len() >= 1);
        assert(s[i + 1] == l[1]);
        assert(l[1] == items[0]);
        assert(items[0] == secret_key_info_json(v[0])[0]);
        assert(s[i + 1] != ']');
        assert forall|t: int| 0 <= t < items.len() implies s.subrange(
            i + 1,
            i + 1 + items.len() as int,
        )[t] == items[t] by {
            assert(s[i + (1 + t)] == l[1 + t]);
            assert(l[1 + t] == items[t]);
        }
        assert(s.subrange(i + 1, i + 1 + items.len() as int) =~= items);
        assert(s[i + (1 + items.len() as int)] == l[1 + items.len() as int]);
        assert(l[1 + items.len() as int] == ']');
        assert(s[i + 1 + items.len() as int] == ']');
        lemma_sp_secret_key_info_items_of_json(s, i + 1, v);
    }
}

/// Exec mirror of [`sp_secret_key_info`].
fn parse_secret_key_info(s: &str, i: usize) -> (r: Option<(LweSecretKeyInfo, usize)>)
    requires
        i <= s@.len(),
    ensures
        match r {
            Some((k, j)) => sp_secret_key_info(s@, i as int) == Some((k, j as int)) && j <= s@.len(),
            None => sp_secret_key_info(s@, i as int) is None,
        },
{
    let a0 = match expect_lit(s, i, "{\"lwe_dimension\":") {
        Some(j) => j,
        None => { return None; },
    };
    let (v0, b0) = match parse_u64(s, a0) {
        Some(p) => p,
        None => { return None; },
    };
    let e = match expect_lit(s, b0, "}") {
        Some(j) => j,
        None => { return None; },
    };
    Some((LweSecretKeyInfo {
        lwe_dimension: v0,
    }, e))
}

/// Exec mirror of [`sp_secret_key_info_items`].
fn parse_secret_key_info_items(s: &str, i: usize) -> (r: Option<(Vec<LweSecretKeyInfo>, usize)>)
    requires
        i <= s@.len(),
    ensures
        match r {
            Some((v, j)) => sp_secret_key_info_items(s@, i as int) == Some((v@, j as int)) && j <= s@.len(),
            None => sp_secret_key_info_items(s@, i as int) is None,
        },
    decreases s@.len() - i,
{
    let n = s.unicode_len();
    if i >= n {
        return None;
    }
    match parse_secret_key_info(s, i) {
        None => None,
        Some((k, j)) => {
            if j < n {
                let c = s.get_char(j);
                if c == ',' {
                    let next = if j + 1 > i + 1 {
                        j + 1
                    } else {
                        i + 1
                    };
                    match parse_secret_key_info_items(s, next) {
                        None => None,
                        Some((rest, e)) => {
                            let mut rest = rest;
                            rest.insert(0, k);
                            proof {
                                assert(rest@ =~= seq![k] + rest@.subrange(
                                    1,
                                    rest@.len() as int,
                                ));
                            }
                            Some((rest, e))
                        },
                    }
                } else if c == ']' {
                    let mut v: Vec<LweSecretKeyInfo> = Vec::new();
                    v.push(k);
                    proof {
                        assert(v@ =~= seq![k]);
                    }
                    Some((v, j + 1))
                } else {
                    None
                }
            } else {
                None
            }
        },
    }
}

/// Exec mirror of [`sp_secret_key_info_list`].
fn parse_secret_key_info_list(s: &str, i: usize) -> (r: Option<(Vec<LweSecretKeyInfo>, usize)>)
    requires
        i <= s@.len(),
    ensures
        match r {
            Some((v, j)) => sp_secret_key_info_list(s@, i as int) == Some((v@, j as int)) && j <= s@.len(),
            None => sp_secret_key_info_list(s@, i as int) is None,
        },
{
    let n = s.unicode_len();
    if i >= n {
        return None;
    }
    if s.get_char(i) != '[' {
        return None;
    }
    if i + 1 < n && s.get_char(i + 1) == ']' {
        return Some((Vec::new(), i + 2));
    }
    parse_secret_key_info_items(s, i + 1)
}

/// Appends the canonical rendering of one LweSecretKeyInfo record.
#[verifier::rlimit(100)]
fn append_secret_key_info(s: &mut String, k: &LweSecretKeyInfo)
    ensures
        final(s)@ == old(s)@ + secret_key_info_json(*k),
{
    s.append("{\"lwe_dimension\":");
    append_u64(s, k.lwe_dimension);
    s.append("}");
    proof {
        assert(s@ =~= old(s)@ + secret_key_info_json(*k));
    }
}

/// Appends an array of LweSecretKeyInfo records in the canonical shape.
fn append_secret_key_info_list(s: &mut String, v: &Vec<LweSecretKeyInfo>)
    ensures
        final(s)@ == old(s)@ + secret_key_info_list_json(v@),
{
    s.append("[");
    proof {
        reveal_strlit("[");
        assert("["@ =~= seq!['[']);
    }
    let n = v.len();
    let mut i: usize = 0;
    while i < n
        invariant
            i <= n,
            n == v@.len(),
            s@ == old(s)@ + seq!['['] + secret_key_info_items_json(v@.take(i as int)),
        decreases n - i,
    {
        if i > 0 {
            s.append(",");
            proof {
                reveal_strlit(",");
                assert(","@ =~= seq![',']);
            }
        }
        append_secret_key_info(s, &v[i]);
        proof {
            let pre = v@.take(i as int);
            let cur = v@.take(i + 1 as int);
            assert(cur.drop_last() =~= pre);
            assert(cur.last() == v@[i as int]);
            if i == 0 {
                assert(secret_key_info_items_json(cur) =~= secret_key_info_json(v@[0]));
                assert(s@ =~= old(s)@ + seq!['['] + secret_key_info_items_json(cur));
            } else {
                assert(secret_key_info_items_json(cur) =~= secret_key_info_items_json(pre) + seq![',']
                    + secret_key_info_json(v@[i as int]));
                assert(s@ =~= old(s)@ + seq!['['] + secret_key_info_items_json(cur));
            }
        }
        i += 1;
    }
    s.append("]");
    proof {
        reveal_strlit("]");
        assert("]"@ =~= seq![']']);
        assert(v@.take(n as int) =~= v@);
        assert(s@ =~= old(s)@ + secret_key_info_list_json(v@));
    }
}

/// Parsing an embedded rendered item array succeeds and stops after its
/// closing bracket.
#[verifier::rlimit(100)]
#[verifier::spinoff_prover]
pub proof fn lemma_sp_bootstrap_key_info_items_of_json(s: Seq<char>, i: int, v: Seq<LweBootstrapKeyInfo>)
    requires
        v.len() >= 1,
        0 <= i,
        i + bootstrap_key_info_items_json(v).len() + 1 <= s.len(),
        s.subrange(i, i + bootstrap_key_info_items_json(v).len() as int) == bootstrap_key_info_items_json(v),
        s[i + bootstrap_key_info_items_json(v).len() as int] == ']',
    ensures
        sp_bootstrap_key_info_items(s, i) == Some((v, i + bootstrap_key_info_items_json(v).len() + 1)),
    decreases v.len(),
{
    lemma_bootstrap_key_info_items_front(v);
    let items = bootstrap_key_info_items_json(v);
    let d = bootstrap_key_info_json(v[0]);
    lemma_embed_index(s, i, items);
    if v.len() == 1 {
        assert(items =~= d);
        assert forall|t: int| 0 <= t < d.len() implies s.subrange(i, i + d.len() as int)[t]
            == d[t] by {
            assert(s[i + t] == items[t]);
        }
        assert(s.subrange(i, i + d.len() as int) =~= d);
        lemma_sp_bootstrap_key_info_of_json(s, i, v[0]);
        assert(s[i + d.len() as int] == ']');
        assert(seq![v[0]] =~= v);
    } else {
        let tail = v.subrange(1, v.len() as int);
        let tail_items = bootstrap_key_info_items_json(tail);
        assert(items =~= d + seq![','] + tail_items);
        assert forall|t: int| 0 <= t < d.len() implies s.subrange(i, i + d.len() as int)[t]
            == d[t] by {
            assert(s[i + t] == items[t]);
            assert(items[t] == d[t]);
        }
        assert(s.subrange(i, i + d.len() as int) =~= d);
        lemma_sp_bootstrap_key_info_of_json(s, i, v[0]);
        assert(s[i + d.len() as int] == items[d.len() as int]);
        assert(items[d.len() as int] == ',');
        let j = i + d.len() as int;
        let next = j + 1;
        assert forall|t: int| 0 <= t < tail_items.len() implies s.subrange(
            next,
            next + tail_items.len() as int,
        )[t] == tail_items[t] by {
            assert(s[i + (d.len() + 1 + t)] == items[d.len() + 1 + t]);
            assert(items[d.len() + 1 + t] == tail_items[t]);
        }
        assert(s.subrange(next, next + tail_items.len() as int) =~= tail_items);
        assert(s[i + items.len() as int] == ']');
        assert(next + tail_items.len() as int == i + items.len() as int);
        lemma_sp_bootstrap_key_info_items_of_json(s, next, tail);
        assert(seq![v[0]] + tail =~= v);
    }
}

/// Parsing an embedded rendered array succeeds and stops after it.
#[verifier::rlimit(100)]
#[verifier::spinoff_prover]
pub proof fn lemma_sp_bootstrap_key_info_list_of_json(s: Seq<char>, i: int, v: Seq<LweBootstrapKeyInfo>)
    requires
        0 <= i,
        i + bootstrap_key_info_list_json(v).len() <= s.len(),
        s.subrange(i, i + bootstrap_key_info_list_json(v).len() as int) == bootstrap_key_info_list_json(v),
    ensures
        sp_bootstrap_key_info_list(s, i) == Some((v, i + bootstrap_key_info_list_json(v).len() as int)),
{
    let l = bootstrap_key_info_list_json(v);
    lemma_embed_index(s, i, l);
    assert(s[i] == l[0]);
    assert(l[0] == '[');
    if v.len() == 0 {
        assert(l =~= seq!['[', ']']);
        assert(s[i + 1] == ']');
    } else {
        let items = bootstrap_key_info_items_json(v);
        lemma_bootstrap_key_info_items_front(v);
        reveal_strlit("{\"level_count\":");
        assert(bootstrap_key_info_json(v[0])[0] == '{');
        assert(items.len() >= 1);
        assert(s[i + 1] == l[1]);
        assert(l[1] == items[0]);
        assert(items[0] == bootstrap_key_info_json(v[0])[0]);
        assert(s[i + 1] != ']');
        assert forall|t: int| 0 <= t < items.len() implies s.subrange(
            i + 1,
            i + 1 + items.len() as int,
        )[t] == items[t] by {
            assert(s[i + (1 + t)] == l[1 + t]);
            assert(l[1 + t] == items[t]);
        }
        assert(s.subrange(i + 1, i + 1 + items.len() as int) =~= items);
        assert(s[i + (1 + items.len() as int)] == l[1 + items.len() as int]);
        assert(l[1 + items.len() as int] == ']');
        assert(s[i + 1 + items.len() as int] == ']');
        lemma_sp_bootstrap_key_info_items_of_json(s, i + 1, v);
    }
}

/// Exec mirror of [`sp_bootstrap_key_info`].
fn parse_bootstrap_key_info(s: &str, i: usize) -> (r: Option<(LweBootstrapKeyInfo, usize)>)
    requires
        i <= s@.len(),
    ensures
        match r {
            Some((k, j)) => sp_bootstrap_key_info(s@, i as int) == Some((k, j as int)) && j <= s@.len(),
            None => sp_bootstrap_key_info(s@, i as int) is None,
        },
{
    let a0 = match expect_lit(s, i, "{\"level_count\":") {
        Some(j) => j,
        None => { return None; },
    };
    let (v0, b0) = match parse_u64(s, a0) {
        Some(p) => p,
        None => { return None; },
    };
    let a1 = match expect_lit(s, b0, ",\"base_log\":") {
        Some(j) => j,
        None => { return None; },
    };
    let (v1, b1) = match parse_u64(s, a1) {
        Some(p) => p,
        None => { return None; },
    };
    let a2 = match expect_lit(s, b1, ",\"glwe_dimension\":") {
        Some(j) => j,
        None => { return None; },
    };
    let (v2, b2) = match parse_u64(s, a2) {
        Some(p) => p,
        None => { return None; },
    };
    let a3 = match expect_lit(s, b2, ",\"polynomial_size\":") {
        Some(j) => j,
        None => { return None; },
    };
    let (v3, b3) = match parse_u64(s, a3) {
        Some(p) => p,
        None => { return None; },
    };
    let a4 = match expect_lit(s, b3, ",\"input_lwe_dimension\":") {
        Some(j) => j,
        None => { return None; },
    };
    let (v4, b4) = match parse_u64(s, a4) {
        Some(p) => p,
        None => { return None; },
    };
    let e = match expect_lit(s, b4, "}") {
        Some(j) => j,
        None => { return None; },
    };
    Some((LweBootstrapKeyInfo {
        level_count: v0,
        base_log: v1,
        glwe_dimension: v2,
        polynomial_size: v3,
        input_lwe_dimension: v4,
    }, e))
}

/// Exec mirror of [`sp_bootstrap_key_info_items`].
fn parse_bootstrap_key_info_items(s: &str, i: usize) -> (r: Option<(Vec<LweBootstrapKeyInfo>, usize)>)
    requires
        i <= s@.len(),
    ensures
        match r {
            Some((v, j)) => sp_bootstrap_key_info_items(s@, i as int) == Some((v@, j as int)) && j <= s@.len(),
            None => sp_bootstrap_key_info_items(s@, i as int) is None,
        },
    decreases s@.len() - i,
{
    let n = s.unicode_len();
    if i >= n {
        return None;
    }
    match parse_bootstrap_key_info(s, i) {
        None => None,
        Some((k, j)) => {
            if j < n {
                let c = s.get_char(j);
                if c == ',' {
                    let next = if j + 1 > i + 1 {
                        j + 1
                    } else {
                        i + 1
                    };
                    match parse_bootstrap_key_info_items(s, next) {
                        None => None,
                        Some((rest, e)) => {
                            let mut rest = rest;
                            rest.insert(0, k);
                            proof {
                                assert(rest@ =~= seq![k] + rest@.subrange(
                                    1,
                                    rest@.len() as int,
                                ));
                            }
                            Some((rest, e))
                        },
                    }
                } else if c == ']' {
                    let mut v: Vec<LweBootstrapKeyInfo> = Vec::new();
                    v.push(k);
                    proof {
                        assert(v@ =~= seq![k]);
                    }
                    Some((v, j + 1))
                } else {
                    None
                }
            } else {
                None
            }
        },
    }
}

/// Exec mirror of [`sp_bootstrap_key_info_list`].
fn parse_bootstrap_key_info_list(s: &str, i: usize) -> (r: Option<(Vec<LweBootstrapKeyInfo>, usize)>)
    requires
        i <= s@.len(),
    ensures
        match r {
            Some((v, j)) => sp_bootstrap_key_info_list(s@, i as int) == Some((v@, j as int)) && j <= s@.len(),
            None => sp_bootstrap_key_info_list(s@, i as int) is None,
        },
{
    let n = s.unicode_len();
    if i >= n {
        return None;
    }
    if s.get_char(i) != '[' {
        return None;
    }
    if i + 1 < n && s.get_char(i + 1) == ']' {
        return Some((Vec::new(), i + 2));
    }
    parse_bootstrap_key_info_items(s, i + 1)
}

/// Appends the canonical rendering of one LweBootstrapKeyInfo record.
#[verifier::rlimit(100)]
fn append_bootstrap_key_info(s: &mut String, k: &LweBootstrapKeyInfo)
    ensures
        final(s)@ == old(s)@ + bootstrap_key_info_json(*k),
{
    s.append("{\"level_count\":");
    append_u64(s, k.level_count);
    s.append(",\"base_log\":");
    append_u64(s, k.base_log);
    s.append(",\"glwe_dimension\":");
    append_u64(s, k.glwe_dimension);
    s.append(",\"polynomial_size\":");
    append_u64(s, k.polynomial_size);
    s.append(",\"input_lwe_dimension\":");
    append_u64(s, k.input_lwe_dimension);
    s.append("}");
    proof {
        assert(s@ =~= old(s)@ + bootstrap_key_info_json(*k));
    }
}

/// Appends an array of LweBootstrapKeyInfo records in the canonical shape.
fn append_bootstrap_key_info_list(s: &mut String, v: &Vec<LweBootstrapKeyInfo>)
    ensures
        final(s)@ == old(s)@ + bootstrap_key_info_list_json(v@),
{
    s.append("[");
    proof {
        reveal_strlit("[");
        assert("["@ =~= seq!['[']);
    }
    let n = v.len();
    let mut i: usize = 0;
    while i < n
        invariant
            i <= n,
            n == v@.len(),
            s@ == old(s)@ + seq!['['] + bootstrap_key_info_items_json(v@.take(i as int)),
        decreases n - i,
    {
        if i > 0 {
            s.append(",");
            proof {
                reveal_strlit(",");
                assert(","@ =~= seq![',']);
            }
        }
        append_bootstrap_key_info(s, &v[i]);
        proof {
            let pre = v@.take(i as int);
            let cur = v@.take(i + 1 as int);
            assert(cur.drop_last() =~= pre);
            assert(cur.last() == v@[i as int]);
            if i == 0 {
                assert(bootstrap_key_info_items_json(cur) =~= bootstrap_key_info_json(v@[0]));
                assert(s@ =~= old(s)@ + seq!['['] + bootstrap_key_info_items_json(cur));
            } else {
                assert(bootstrap_key_info_items_json(cur) =~= bootstrap_key_info_items_json(pre) + seq![',']
                    + bootstrap_key_info_json(v@[i as int]));
                assert(s@ =~= old(s)@ + seq!['['] + bootstrap_key_info_items_json(cur));
            }
        }
        i += 1;
    }
    s.append("]");
    proof {
        reveal_strlit("]");
        assert("]"@ =~= seq![']']);
        assert(v@.take(n as int) =~= v@);
        assert(s@ =~= old(s)@ + bootstrap_key_info_list_json(v@));
    }
}

/// Parsing an embedded rendered item array succeeds and stops after its
/// closing bracket.
#[verifier::rlimit(100)]
#[verifier::spinoff_prover]
pub proof fn lemma_sp_keyswitch_key_info_items_of_json(s: Seq<char>, i: int, v: Seq<LweKeyswitchKeyInfo>)
    requires
        v.len() >= 1,
        0 <= i,
        i + keyswitch_key_info_items_json(v).len() + 1 <= s.len(),
        s.subrange(i, i + keyswitch_key_info_items_json(v).len() as int) == keyswitch_key_info_items_json(v),
        s[i + keyswitch_key_info_items_json(v).len() as int] == ']',
    ensures
        sp_keyswitch_key_info_items(s, i) == Some((v, i + keyswitch_key_info_items_json(v).len() + 1)),
    decreases v.len(),
{
    lemma_keyswitch_key_info_items_front(v);
    let items = keyswitch_key_info_items_json(v);
    let d = keyswitch_key_info_json(v[0]);
    lemma_embed_index(s, i, items);
    if v.len() == 1 {
        assert(items =~= d);
        assert forall|t: int| 0 <= t < d.len() implies s.subrange(i, i + d.len() as int)[t]
            == d[t] by {
            assert(s[i + t] == items[t]);
        }
        assert(s.subrange(i, i + d.len() as int) =~= d);
        lemma_sp_keyswitch_key_info_of_json(s, i, v[0]);
        assert(s[i + d.len() as int] == ']');
        assert(seq![v[0]] =~= v);
    } else {
        let tail = v.subrange(1, v.len() as int);
        let tail_items = keyswitch_key_info_items_json(tail);
        assert(items =~= d + seq![','] + tail_items);
        assert forall|t: int| 0 <= t < d.len() implies s.subrange(i, i + d.len() as int)[t]
            == d[t] by {
            assert(s[i + t] == items[t]);
            assert(items[t] == d[t]);
        }
        assert(s.subrange(i, i + d.len() as int) =~= d);
        lemma_sp_keyswitch_key_info_of_json(s, i, v[0]);
        assert(s[i + d.len() as int] == items[d.len() as int]);
        assert(items[d.len() as int] == ',');
        let j = i + d.len() as int;
        let next = j + 1;
        assert forall|t: int| 0 <= t < tail_items.len() implies s.subrange(
            next,
            next + tail_items.len() as int,
        )[t] == tail_items[t] by {
            assert(s[i + (d.len() + 1 + t)] == items[d.len() + 1 + t]);
            assert(items[d.len() + 1 + t] == tail_items[t]);
        }
        assert(s.subrange(next, next + tail_items.len() as int) =~= tail_items);
        assert(s[i + items.len() as int] == ']');
        assert(next + tail_items.len() as int == i + items.len() as int);
        lemma_sp_keyswitch_key_info_items_of_json(s, next, tail);
        assert(seq![v[0]] + tail =~= v);
    }
}

/// Parsing an embedded rendered array succeeds and stops after it.
#[verifier::rlimit(100)]
#[verifier::spinoff_prover]
pub proof fn lemma_sp_keyswitch_key_info_list_of_json(s: Seq<char>, i: int, v: Seq<LweKeyswitchKeyInfo>)
    requires
        0 <= i,
        i + keyswitch_key_info_list_json(v).len() <= s.len(),
        s.subrange(i, i + keyswitch_key_info_list_json(v).len() as int) == keyswitch_key_info_list_json(v),
    ensures
        sp_keyswitch_key_info_list(s, i) == Some((v, i + keyswitch_key_info_list_json(v).len() as int)),
{
    let l = keyswitch_key_info_list_json(v);
    lemma_embed_index(s, i, l);
    assert(s[i] == l[0]);
    assert(l[0] == '[');
    if v.len() == 0 {
        assert(l =~= seq!['[', ']']);
        assert(s[i + 1] == ']');
    } else {
        let items = keyswitch_key_info_items_json(v);
        lemma_keyswitch_key_info_items_front(v);
        reveal_strlit("{\"level_count\":");
        assert(keyswitch_key_info_json(v[0])[0] == '{');
        assert(items.len() >= 1);
        assert(s[i + 1] == l[1]);
        assert(l[1] == items[0]);
        assert(items[0] == keyswitch_key_info_json(v[0])[0]);
        assert(s[i + 1] != ']');
        assert forall|t: int| 0 <= t < items.len() implies s.subrange(
            i + 1,
            i + 1 + items.len() as int,
        )[t] == items[t] by {
            assert(s[i + (1 + t)] == l[1 + t]);
            assert(l[1 + t] == items[t]);
        }
        assert(s.subrange(i + 1, i + 1 + items.len() as int) =~= items);
        assert(s[i + (1 + items.len() as int)] == l[1 + items.len() as int]);
        assert(l[1 + items.len() as int] == ']');
        assert(s[i + 1 + items.len() as int] == ']');
        lemma_sp_keyswitch_key_info_items_of_json(s, i + 1, v);
    }
}

/// Exec mirror of [`sp_keyswitch_key_info`].
fn parse_keyswitch_key_info(s: &str, i: usize) -> (r: Option<(LweKeyswitchKeyInfo, usize)>)
    requires
        i <= s@.len(),
    ensures
        match r {
            Some((k, j)) => sp_keyswitch_key_info(s@, i as int) == Some((k, j as int)) && j <= s@.len(),
            None => sp_keyswitch_key_info(s@, i as int) is None,
        },
{
    let a0 = match expect_lit(s, i, "{\"level_count\":") {
        Some(j) => j,
        None => { return None; },
    };
    let (v0, b0) = match parse_u64(s, a0) {
        Some(p) => p,
        None => { return None; },
    };
    let a1 = match expect_lit(s, b0, ",\"base_log\":") {
        Some(j) => j,
        None => { return None; },
    };
    let (v1, b1) = match parse_u64(s, a1) {
        Some(p) => p,
        None => { return None; },
    };
    let a2 = match expect_lit(s, b1, ",\"input_lwe_dimension\":") {
        Some(j) => j,
        None => { return None; },
    };
    let (v2, b2) = match parse_u64(s, a2) {
        Some(p) => p,
        None => { return None; },
    };
    let a3 = match expect_lit(s, b2, ",\"output_lwe_dimension\":") {
        Some(j) => j,
        None => { return None; },
    };
    let (v3, b3) = match parse_u64(s, a3) {
        Some(p) => p,
        None => { return None; },
    };
    let e = match expect_lit(s, b3, "}") {
        Some(j) => j,
        None => { return None; },
    };
    Some((LweKeyswitchKeyInfo {
        level_count: v0,
        base_log: v1,
        input_lwe_dimension: v2,
        output_lwe_dimension: v3,
    }, e))
}

/// Exec mirror of [`sp_keyswitch_key_info_items`].
fn parse_keyswitch_key_info_items(s: &str, i: usize) -> (r: Option<(Vec<LweKeyswitchKeyInfo>, usize)>)
    requires
        i <= s@.len(),
    ensures
        match r {
            Some((v, j)) => sp_keyswitch_key_info_items(s@, i as int) == Some((v@, j as int)) && j <= s@.len(),
            None => sp_keyswitch_key_info_items(s@, i as int) is None,
        },
    decreases s@.len() - i,
{
    let n = s.unicode_len();
    if i >= n {
        return None;
    }
    match parse_keyswitch_key_info(s, i) {
        None => None,
        Some((k, j)) => {
            if j < n {
                let c = s.get_char(j);
                if c == ',' {
                    let next = if j + 1 > i + 1 {
                        j + 1
                    } else {
                        i + 1
                    };
                    match parse_keyswitch_key_info_items(s, next) {
                        None => None,
                        Some((rest, e)) => {
                            let mut rest = rest;
                            rest.insert(0, k);
                            proof {
                                assert(rest@ =~= seq![k] + rest@.subrange(
                                    1,
                                    rest@.len() as int,
                                ));
                            }
                            Some((rest, e))
                        },
                    }
                } else if c == ']' {
                    let mut v: Vec<LweKeyswitchKeyInfo> = Vec::new();
                    v.push(k);
                    proof {
                        assert(v@ =~= seq![k]);
                    }
                    Some((v, j + 1))
                } else {
                    None
                }
            } else {
                None
            }
        },
    }
}

/// Exec mirror of [`sp_keyswitch_key_info_list`].
fn parse_keyswitch_key_info_list(s: &str, i: usize) -> (r: Option<(Vec<LweKeyswitchKeyInfo>, usize)>)
    requires
        i <= s@.len(),
    ensures
        match r {
            Some((v, j)) => sp_keyswitch_key_info_list(s@, i as int) == Some((v@, j as int)) && j <= s@.len(),
            None => sp_keyswitch_key_info_list(s@, i as int) is None,
        },
{
    let n = s.unicode_len();
    if i >= n {
        return None;
    }
    if s.get_char(i) != '[' {
        return None;
    }
    if i + 1 < n && s.get_char(i + 1) == ']' {
        return Some((Vec::new(), i + 2));
    }
    parse_keyswitch_key_info_items(s, i + 1)
}

/// Appends the canonical rendering of one LweKeyswitchKeyInfo record.
#[verifier::rlimit(100)]
fn append_keyswitch_key_info(s: &mut String, k: &LweKeyswitchKeyInfo)
    ensures
        final(s)@ == old(s)@ + keyswitch_key_info_json(*k),
{
    s.append("{\"level_count\":");
    append_u64(s, k.level_count);
    s.append(",\"base_log\":");
    append_u64(s, k.base_log);
    s.append(",\"input_lwe_dimension\":");
    append_u64(s, k.input_lwe_dimension);
    s.append(",\"output_lwe_dimension\":");
    append_u64(s, k.output_lwe_dimension);
    s.append("}");
    proof {
        assert(s@ =~= old(s)@ + keyswitch_key_info_json(*k));
    }
}

/// Appends an array of LweKeyswitchKeyInfo records in the canonical shape.
fn append_keyswitch_key_info_list(s: &mut String, v: &Vec<LweKeyswitchKeyInfo>)
    ensures
        final(s)@ == old(s)@ + keyswitch_key_info_list_json(v@),
{
    s.append("[");
    proof {
        reveal_strlit("[");
        assert("["@ =~= seq!['[']);
    }
    let n = v.len();
    let mut i: usize = 0;
    while i < n
        invariant
            i <= n,
            n == v@.len(),
            s@ == old(s)@ + seq!['['] + keyswitch_key_info_items_json(v@.take(i as int)),
        decreases n - i,
    {
        if i > 0 {
            s.append(",");
            proof {
                reveal_strlit(",");
                assert(","@ =~= seq![',']);
            }
        }
        append_keyswitch_key_info(s, &v[i]);
        proof {
            let pre = v@.take(i as int);
            let cur = v@.take(i + 1 as int);
            assert(cur.drop_last() =~= pre);
            assert(cur.last() == v@[i as int]);
            if i == 0 {
                assert(keyswitch_key_info_items_json(cur) =~= keyswitch_key_info_json(v@[0]));
                assert(s@ =~= old(s)@ + seq!['['] + keyswitch_key_info_items_json(cur));
            } else {
                assert(keyswitch_key_info_items_json(cur) =~= keyswitch_key_info_items_json(pre) + seq![',']
                    + keyswitch_key_info_json(v@[i as int]));
                assert(s@ =~= old(s)@ + seq!['['] + keyswitch_key_info_items_json(cur));
            }
        }
        i += 1;
    }
    s.append("]");
    proof {
        reveal_strlit("]");
        assert("]"@ =~= seq![']']);
        assert(v@.take(n as int) =~= v@);
        assert(s@ =~= old(s)@ + keyswitch_key_info_list_json(v@));
    }
}

/// The mathematical view of a keyset restriction: the three lists of
/// deployed-key descriptions.
pub ghost struct KeysetModel {
    pub lwe_secret_keys: Seq<LweSecretKeyInfo>,
    pub lwe_bootstrap_keys: Seq<LweBootstrapKeyInfo>,
    pub lwe_keyswitch_keys: Seq<LweKeyswitchKeyInfo>,
}

impl View for KeysetInfo {
    type V = KeysetModel;

    open spec fn view(&self) -> KeysetModel {
        KeysetModel {
            lwe_secret_keys: self.lwe_secret_keys@,
            lwe_bootstrap_keys: self.lwe_bootstrap_keys@,
            lwe_keyswitch_keys: self.lwe_keyswitch_keys@,
        }
    }
}

impl View for KeysetRestriction {
    type V = KeysetModel;

    open spec fn view(&self) -> KeysetModel {
        self.info@
    }
}

/// The canonical interchange rendering of a keyset restriction.
pub open spec fn keyset_restriction_json(m: KeysetModel) -> Seq<char> {
    ("{\"info\":{\"lwe_secret_keys\":"@ + (secret_key_info_list_json(m.lwe_secret_keys) + (",\"lwe_bootstrap_keys\":"@ + (bootstrap_key_info_list_json(m.lwe_bootstrap_keys) + (",\"lwe_keyswitch_keys\":"@ + (keyswitch_key_info_list_json(m.lwe_keyswitch_keys) + "}}"@))))))
}

/// The strict parser of the canonical keyset-restriction rendering:
/// `None` exactly on malformed input.
pub open spec fn sp_keyset(s: Seq<char>) -> Option<KeysetModel> {
    match sp_lit(s, 0, "{\"info\":{\"lwe_secret_keys\":"@) {
        None => None,
        Some(a0) => match sp_secret_key_info_list(s, a0) {
            None => None,
            Some((v0, b0)) => {
                match sp_lit(s, b0, ",\"lwe_bootstrap_keys\":"@) {
                    None => None,
                    Some(a1) => match sp_bootstrap_key_info_list(s, a1) {
                        None => None,
                        Some((v1, b1)) => {
                            match sp_lit(s, b1, ",\"lwe_keyswitch_keys\":"@) {
                                None => None,
                                Some(a2) => match sp_keyswitch_key_info_list(s, a2) {
                                    None => None,
                                    Some((v2, b2)) => {
                                        match sp_lit(s, b2, "}}"@) {
                                            None => None,
                                            Some(e) => if e == s.len() {
                                                Some(KeysetModel {
                                                    lwe_secret_keys: v0,
                                                    lwe_bootstrap_keys: v1,
                                                    lwe_keyswitch_keys: v2,
                                                })
                                            } else {
                                                None
                                            },
                                        }
                                    },
                                },
                            }
                        },
                    },
                }
            },
        },
    }
}

/// The back half of the canonical keyset rendering parses list by list
/// from position `i` to the end of the string.
#[verifier::rlimit(100)]
#[verifier::spinoff_prover]
proof fn lemma_keyset_rt_back(s: Seq<char>, i: int, m: KeysetModel)
    requires
        0 <= i,
        i + (",\"lwe_bootstrap_keys\":"@ + (bootstrap_key_info_list_json(m.lwe_bootstrap_keys) + (",\"lwe_keyswitch_keys\":"@ + (keyswitch_key_info_list_json(m.lwe_keyswitch_keys) + "}}"@)))).len() == s.len(),
        s.subrange(i, s.len() as int) == (",\"lwe_bootstrap_keys\":"@ + (bootstrap_key_info_list_json(m.lwe_bootstrap_keys) + (",\"lwe_keyswitch_keys\":"@ + (keyswitch_key_info_list_json(m.lwe_keyswitch_keys) + "}}"@)))),
    ensures
        sp_lit(s, i, ",\"lwe_bootstrap_keys\":"@) == Some(i + ",\"lwe_bootstrap_keys\":"@.len() as int),
        sp_bootstrap_key_info_list(s, i + ",\"lwe_bootstrap_keys\":"@.len() as int) == Some((m.lwe_bootstrap_keys, i + ",\"lwe_bootstrap_keys\":"@.len() as int + bootstrap_key_info_list_json(m.lwe_bootstrap_keys).len() as int)),
        sp_lit(s, i + ",\"lwe_bootstrap_keys\":"@.len() as int + bootstrap_key_info_list_json(m.lwe_bootstrap_keys).len() as int, ",\"lwe_keyswitch_keys\":"@) == Some(i + ",\"lwe_bootstrap_keys\":"@.len() as int + bootstrap_key_info_list_json(m.lwe_bootstrap_keys).len() as int + ",\"lwe_keyswitch_keys\":"@.len() as int),
        sp_keyswitch_key_info_list(s, i + ",\"lwe_bootstrap_keys\":"@.len() as int + bootstrap_key_info_list_json(m.lwe_bootstrap_keys).len() as int + ",\"lwe_keyswitch_keys\":"@.len() as int) == Some((m.lwe_keyswitch_keys, i + ",\"lwe_bootstrap_keys\":"@.len() as int + bootstrap_key_info_list_json(m.lwe_bootstrap_keys).len() as int + ",\"lwe_keyswitch_keys\":"@.len() as int + keyswitch_key_info_list_json(m.lwe_keyswitch_keys).len() as int)),
        sp_lit(s, i + ",\"lwe_bootstrap_keys\":"@.len() as int + bootstrap_key_info_list_json(m.lwe_bootstrap_keys).len() as int + ",\"lwe_keyswitch_keys\":"@.len() as int + keyswitch_key_info_list_json(m.lwe_keyswitch_keys).len() as int, "}}"@) == Some(s.len() as int),
{
    lemma_peel(",\"lwe_bootstrap_keys\":"@, bootstrap_key_info_list_json(m.lwe_bootstrap_keys) + (",\"lwe_keyswitch_keys\":"@ + (keyswitch_key_info_list_json(m.lwe_keyswitch_keys) + "}}"@)), s, i);
    lemma_peel(bootstrap_key_info_list_json(m.lwe_bootstrap_keys), (",\"lwe_keyswitch_keys\":"@ + (keyswitch_key_info_list_json(m.lwe_keyswitch_keys) + "}}"@)), s, i + ",\"lwe_bootstrap_keys\":"@.len() as int);
    lemma_sp_bootstrap_key_info_list_of_json(s, i + ",\"lwe_bootstrap_keys\":"@.len() as int, m.lwe_bootstrap_keys);
    let q1 = i + ",\"lwe_bootstrap_keys\":"@.len() as int + bootstrap_key_info_list_json(m.lwe_bootstrap_keys).len() as int;
    lemma_peel(",\"lwe_keyswitch_keys\":"@, keyswitch_key_info_list_json(m.lwe_keyswitch_keys) + "}}"@, s, q1);
    lemma_peel(keyswitch_key_info_list_json(m.lwe_keyswitch_keys), "}}"@, s, q1 + ",\"lwe_keyswitch_keys\":"@.len() as int);
    lemma_sp_keyswitch_key_info_list_of_json(s, q1 + ",\"lwe_keyswitch_keys\":"@.len() as int, m.lwe_keyswitch_keys);
    let q2 = q1 + ",\"lwe_keyswitch_keys\":"@.len() as int + keyswitch_key_info_list_json(m.lwe_keyswitch_keys).len() as int;
    assert(q2 + "}}"@.len() as int == s.len());
}

/// Serialize-then-deserialize of a keyset restriction returns the value:
/// the strict parser accepts the canonical rendering and rebuilds every
/// key list.
#[verifier::rlimit(100)]
#[verifier::spinoff_prover]
pub proof fn lemma_keyset_restriction_json_round_trip(m: KeysetModel)
    ensures
        sp_keyset(keyset_restriction_json(m)) == Some(m),
{
    let s = keyset_restriction_json(m);
    assert(s.subrange(0, s.len() as int) =~= s);
    lemma_peel("{\"info\":{\"lwe_secret_keys\":"@, secret_key_info_list_json(m.lwe_secret_keys) + (",\"lwe_bootstrap_keys\":"@ + (bootstrap_key_info_list_json(m.lwe_bootstrap_keys) + (",\"lwe_keyswitch_keys\":"@ + (keyswitch_key_info_list_json(m.lwe_keyswitch_keys) + "}}"@)))), s, 0);
    lemma_peel(secret_key_info_list_json(m.lwe_secret_keys), (",\"lwe_bootstrap_keys\":"@ + (bootstrap_key_info_list_json(m.lwe_bootstrap_keys) + (",\"lwe_keyswitch_keys\":"@ + (keyswitch_key_info_list_json(m.lwe_keyswitch_keys) + "}}"@)))), s, 0 + "{\"info\":{\"lwe_secret_keys\":"@.len() as int);
    lemma_sp_secret_key_info_list_of_json(s, 0 + "{\"info\":{\"lwe_secret_keys\":"@.len() as int, m.lwe_secret_keys);
    let q0 = 0 + "{\"info\":{\"lwe_secret_keys\":"@.len() as int + secret_key_info_list_json(m.lwe_secret_keys).len() as int;
    lemma_keyset_rt_back(s, q0, m);
}

impl KeysetRestriction {
    /// Renders the restriction in the canonical interchange form.
    #[verifier::rlimit(100)]
    pub fn keyset_restriction_to_json(&self) -> (r: String)
        ensures
            r@ == keyset_restriction_json(self@),
    {
        let mut s = String::new();
        s.append("{\"info\":{\"lwe_secret_keys\":");
        append_secret_key_info_list(&mut s, &self.info.lwe_secret_keys);
        s.append(",\"lwe_bootstrap_keys\":");
        append_bootstrap_key_info_list(&mut s, &self.info.lwe_bootstrap_keys);
        s.append(",\"lwe_keyswitch_keys\":");
        append_keyswitch_key_info_list(&mut s, &self.info.lwe_keyswitch_keys);
        s.append("}}");
        proof {
            assert(s@ =~= keyset_restriction_json(self@));
        }
        s
    }
}

/// Parses the canonical interchange form of a keyset restriction;
/// reports a parse error exactly on input the strict grammar refuses.
pub fn keyset_restriction_from_json(input: &str) -> (r: Result<KeysetRestriction, JsonParseError>)
    ensures
        match r {
            Ok(v) => sp_keyset(input@) == Some(v@),
            Err(_) => sp_keyset(input@) is None,
        },
{
    let a0 = match expect_lit(input, 0, "{\"info\":{\"lwe_secret_keys\":") {
        Some(j) => j,
        None => { return Err(JsonParseError); },
    };
    let (v0, b0) = match parse_secret_key_info_list(input, a0) {
        Some(p) => p,
        None => { return Err(JsonParseError); },
    };
    let a1 = match expect_lit(input, b0, ",\"lwe_bootstrap_keys\":") {
        Some(j) => j,
        None => { return Err(JsonParseError); },
    };
    let (v1, b1) = match parse_bootstrap_key_info_list(input, a1) {
        Some(p) => p,
        None => { return Err(JsonParseError); },
    };
    let a2 = match expect_lit(input, b1, ",\"lwe_keyswitch_keys\":") {
        Some(j) => j,
        None => { return Err(JsonParseError); },
    };
    let (v2, b2) = match parse_keyswitch_key_info_list(input, a2) {
        Some(p) => p,
        None => { return Err(JsonParseError); },
    };
    let e = match expect_lit(input, b2, "}}") {
        Some(j) => j,
        None => { return Err(JsonParseError); },
    };
    if e != input.unicode_len() {
        return Err(JsonParseError);
    }
    Ok(KeysetRestriction {
        info: KeysetInfo {
            lwe_secret_keys: v0,
            lwe_bootstrap_keys: v1,
            lwe_keyswitch_keys: v2,
        },
    })
}

} // verus!
