//! Verified helpers over strings and decimal numbers.
//!
//! Everything here is ordinary verified code: substring search, character
//! search, suffix/prefix extraction, and conversions between integers and
//! their decimal digit strings, each pinned to a spec-level definition.

use vstd::prelude::*;

verus! {

/// The needle `n` occurs in `h` starting at position `i`.
pub open spec fn is_sub_at(h: Seq<char>, n: Seq<char>, i: int) -> bool {
    0 <= i && i + n.len() <= h.len() && h.subrange(i, i + n.len() as int) == n
}

/// The needle `n` occurs somewhere in `h`.
pub open spec fn contains_sub(h: Seq<char>, n: Seq<char>) -> bool {
    exists|i: int| is_sub_at(h, n, i)
}

/// Character-for-character equality of two string slices.
pub fn str_eq(a: &str, b: &str) -> (r: bool)
    ensures
        r == (a@ == b@),
{
    let alen = a.unicode_len();
    let blen = b.unicode_len();
    if alen != blen {
        assert(a@ != b@);
        return false;
    }
    let mut i: usize = 0;
    while i < alen
        invariant
            i <= alen,
            alen == a@.len(),
            alen == b@.len(),
            forall|j: int| 0 <= j < i ==> a@[j] == b@[j],
        decreases alen - i,
    {
        if a.get_char(i) != b.get_char(i) {
            assert(a@ != b@);
            return false;
        }
        i += 1;
    }
    proof {
        assert(a@ =~= b@);
    }
    true
}

/// The needle `n` stands in `h` at position `i`.
pub(crate) fn matches_at(h: &str, n: &str, i: usize) -> (r: bool)
    requires
        i + n@.len() <= h@.len(),
        i + n@.len() <= usize::MAX,
    ensures
        r == is_sub_at(h@, n@, i as int),
{
    let nlen = n.unicode_len();
    let mut k: usize = 0;
    while k < nlen
        invariant
            k <= nlen,
            nlen == n@.len(),
            i + nlen <= h@.len(),
            i + nlen <= usize::MAX,
            forall|j: int| 0 <= j < k ==> h@[i + j] == n@[j],
        decreases nlen - k,
    {
        if h.get_char(i + k) != n.get_char(k) {
            assert(h@.subrange(i as int, i + n@.len() as int)[k as int] != n@[k as int]);
            return false;
        }
        k += 1;
    }
    proof {
        assert(h@.subrange(i as int, i + n@.len() as int) =~= n@);
    }
    true
}

/// Substring search: does `n` occur anywhere in `h`?
pub fn str_contains(h: &str, n: &str) -> (r: bool)
    ensures
        r == contains_sub(h@, n@),
{
    let hlen = h.unicode_len();
    let nlen = n.unicode_len();
    if nlen > hlen {
        assert(forall|i: int| !is_sub_at(h@, n@, i));
        return false;
    }
    if nlen == 0 {
        assert(h@.subrange(0, 0) =~= n@);
        assert(is_sub_at(h@, n@, 0));
        return true;
    }
    let bound = hlen - nlen;
    let mut i: usize = 0;
    while i <= bound
        invariant
            i <= bound + 1,
            bound == hlen - nlen,
            hlen == h@.len(),
            nlen == n@.len(),
            1 <= nlen <= hlen,
            forall|j: int| 0 <= j < i ==> !is_sub_at(h@, n@, j),
        decreases bound + 1 - i,
    {
        if matches_at(h, n, i) {
            return true;
        }
        i += 1;
    }
    assert(forall|j: int| is_sub_at(h@, n@, j) ==> 0 <= j < i);
    false
}

/// First position of `c` in `s`, if any.
pub fn find_first(s: &str, c: char) -> (r: Option<usize>)
    ensures
        match r {
            Some(i) => i < s@.len() && s@[i as int] == c && forall|j: int|
                0 <= j < i ==> s@[j] != c,
            None => forall|j: int| 0 <= j < s@.len() ==> s@[j] != c,
        },
{
    let len = s.unicode_len();
    let mut i: usize = 0;
    while i < len
        invariant
            i <= len,
            len == s@.len(),
            forall|j: int| 0 <= j < i ==> s@[j] != c,
        decreases len - i,
    {
        if s.get_char(i) == c {
            return Some(i);
        }
        i += 1;
    }
    None
}

/// Last position of `c` in `s`, if any.
pub fn find_last(s: &str, c: char) -> (r: Option<usize>)
    ensures
        match r {
            Some(i) => i < s@.len() && s@[i as int] == c && forall|j: int|
                i < j < s@.len() ==> s@[j] != c,
            None => forall|j: int| 0 <= j < s@.len() ==> s@[j] != c,
        },
{
    let len = s.unicode_len();
    let mut i: usize = len;
    while i > 0
        invariant
            i <= len,
            len == s@.len(),
            forall|j: int| i <= j < s@.len() ==> s@[j] != c,
        decreases i,
    {
        i -= 1;
        if s.get_char(i) == c {
            return Some(i);
        }
    }
    None
}

/// `t` is the suffix of `s` after the last occurrence of `c`, or all of
/// `s` when `c` does not occur.
pub open spec fn is_suffix_after_last(s: Seq<char>, c: char, t: Seq<char>) -> bool {
    if exists|j: int| 0 <= j < s.len() && s[j] == c {
        exists|j: int|
            0 <= j < s.len() && s[j] == c && (forall|k: int| j < k < s.len() ==> s[k] != c) && t
                == s.subrange(j + 1, s.len() as int)
    } else {
        t == s
    }
}

/// The suffix of `s` after the last occurrence of `c`; `s` itself when `c`
/// does not occur.
pub fn after_last(s: &str, c: char) -> (r: String)
    ensures
        is_suffix_after_last(s@, c, r@),
{
    let len = s.unicode_len();
    match find_last(s, c) {
        Some(i) => {
            let tail = s.substring_char(i + 1, len);
            tail.to_owned()
        },
        None => s.to_owned(),
    }
}

/// The prefix of `s` before the last occurrence of `c`; `None` when `c` does
/// not occur.
pub fn before_last(s: &str, c: char) -> (r: Option<String>)
    ensures
        match r {
            Some(p) => exists|j: int|
                0 <= j < s@.len() && s@[j] == c && (forall|k: int|
                    j < k < s@.len() ==> s@[k] != c) && p@ == s@.subrange(0, j),
            None => forall|j: int| 0 <= j < s@.len() ==> s@[j] != c,
        },
{
    match find_last(s, c) {
        Some(i) => {
            let head = s.substring_char(0, i);
            Some(head.to_owned())
        },
        None => None,
    }
}

/// `s` with every (left-to-right, non-overlapping) occurrence of `m`
/// removed.
pub open spec fn strip_marker(s: Seq<char>, m: Seq<char>) -> Seq<char>
    decreases s.len(),
    when m.len() > 0
{
    if s.len() == 0 {
        s
    } else if is_sub_at(s, m, 0) {
        strip_marker(s.skip(m.len() as int), m)
    } else {
        seq![s[0]] + strip_marker(s.skip(1), m)
    }
}

/// Removes every occurrence of `marker` from `s`, scanning left to right.
pub fn strip_all(s: &str, marker: &str) -> (r: String)
    requires
        marker@.len() > 0,
    ensures
        r@ == strip_marker(s@, marker@),
{
    let len = s.unicode_len();
    let mlen = marker.unicode_len();
    let mut out = String::new();
    let mut i: usize = 0;
    proof {
        assert(s@.skip(0) =~= s@);
    }
    while i < len
        invariant
            i <= len,
            len == s@.len(),
            mlen == marker@.len(),
            mlen > 0,
            strip_marker(s@, marker@) == out@ + strip_marker(s@.skip(i as int), marker@),
        decreases len - i,
    {
        let is_match = if mlen <= len - i {
            matches_at(s, marker, i)
        } else {
            false
        };
        if is_match {
            proof {
                assert(s@.skip(i as int).subrange(0, mlen as int) =~= s@.subrange(
                    i as int,
                    i + mlen,
                ));
                assert(is_sub_at(s@.skip(i as int), marker@, 0));
                assert(s@.skip(i as int).skip(mlen as int) =~= s@.skip(i + mlen));
            }
            i += mlen;
        } else {
            proof {
                if i + mlen <= len {
                    assert(s@.skip(i as int).subrange(0, mlen as int) =~= s@.subrange(
                        i as int,
                        i + mlen,
                    ));
                }
                assert(!is_sub_at(s@.skip(i as int), marker@, 0));
                assert(s@.skip(i as int)[0] == s@[i as int]);
                assert(s@.skip(i as int).skip(1) =~= s@.skip(i + 1));
            }
            let c = s.substring_char(i, i + 1);
            out.append(c);
            proof {
                assert(c@ =~= seq![s@[i as int]]);
            }
            i += 1;
        }
    }
    proof {
        assert(s@.skip(len as int) =~= Seq::<char>::empty());
        assert(out@ =~= out@ + strip_marker(s@.skip(len as int), marker@));
    }
    out
}

/// The characters of `s` before its first `c`; all of `s` when `c` does not
/// occur.
pub open spec fn head_until(s: Seq<char>, c: char) -> Seq<char>
    decreases s.len(),
{
    if s.len() == 0 {
        s
    } else if s[0] == c {
        Seq::empty()
    } else {
        seq![s[0]] + head_until(s.skip(1), c)
    }
}

/// The characters of `s` after its first `c`; `None` when `c` does not
/// occur.
pub open spec fn tail_after(s: Seq<char>, c: char) -> Option<Seq<char>>
    decreases s.len(),
{
    if s.len() == 0 {
        None
    } else if s[0] == c {
        Some(s.skip(1))
    } else {
        tail_after(s.skip(1), c)
    }
}

/// What is left after the first `c` is shorter than `s`.
pub proof fn lemma_tail_after_len(s: Seq<char>, c: char)
    ensures
        tail_after(s, c) matches Some(t) ==> t.len() < s.len(),
    decreases s.len(),
{
    if s.len() > 0 && s[0] != c {
        lemma_tail_after_len(s.skip(1), c);
    }
}

/// When the first `c` of `s` stands at `d`, the head is what precedes it
/// and the tail what follows it.
pub proof fn lemma_head_tail_at_first(s: Seq<char>, c: char, d: int)
    requires
        0 <= d < s.len(),
        s[d] == c,
        forall|j: int| 0 <= j < d ==> s[j] != c,
    ensures
        head_until(s, c) == s.subrange(0, d),
        tail_after(s, c) == Some(s.subrange(d + 1, s.len() as int)),
    decreases d,
{
    if d == 0 {
        assert(head_until(s, c) =~= s.subrange(0, 0));
        assert(s.skip(1) =~= s.subrange(1, s.len() as int));
    } else {
        let t = s.skip(1);
        lemma_head_tail_at_first(t, c, d - 1);
        assert(t.subrange(0, d - 1) =~= s.subrange(1, d));
        assert(seq![s[0]] + s.subrange(1, d) =~= s.subrange(0, d));
        assert(t.subrange(d, t.len() as int) =~= s.subrange(d + 1, s.len() as int));
    }
}

/// A string without `c` is all head and no tail.
pub proof fn lemma_head_tail_none(s: Seq<char>, c: char)
    requires
        forall|j: int| 0 <= j < s.len() ==> s[j] != c,
    ensures
        head_until(s, c) == s,
        tail_after(s, c) is None,
    decreases s.len(),
{
    if s.len() > 0 {
        let t = s.skip(1);
        lemma_head_tail_none(t, c);
        assert(seq![s[0]] + t =~= s);
    }
}

/// A decimal digit.
pub open spec fn is_digit(c: char) -> bool {
    48 <= c as int <= 57
}

/// Every character of `s` is a decimal digit.
pub open spec fn all_digits(s: Seq<char>) -> bool {
    forall|i: int| 0 <= i < s.len() ==> is_digit(#[trigger] s[i])
}

/// The digit character of a value below ten.
pub open spec fn digit_char(d: int) -> char {
    if d == 0 {
        '0'
    } else if d == 1 {
        '1'
    } else if d == 2 {
        '2'
    } else if d == 3 {
        '3'
    } else if d == 4 {
        '4'
    } else if d == 5 {
        '5'
    } else if d == 6 {
        '6'
    } else if d == 7 {
        '7'
    } else if d == 8 {
        '8'
    } else {
        '9'
    }
}

/// The decimal digit string of `n`, most significant digit first.
pub open spec fn dec_of(n: nat) -> Seq<char>
    decreases n,
{
    if n < 10 {
        seq![digit_char(n as int)]
    } else {
        dec_of(n / 10).push(digit_char((n % 10) as int))
    }
}

/// The numeric value of a digit string (most significant digit first).
pub open spec fn digits_val(s: Seq<char>) -> nat
    decreases s.len(),
{
    if s.len() == 0 {
        0
    } else {
        (digits_val(s.drop_last()) * 10 + (s.last() as int - 48)) as nat
    }
}

/// One-character string slice for a single decimal digit.
fn digit_str(d: u64) -> (r: &'static str)
    requires
        d < 10,
    ensures
        r@ =~= seq![digit_char(d as int)],
{
    proof {
        reveal_strlit("0");
        reveal_strlit("1");
        reveal_strlit("2");
        reveal_strlit("3");
        reveal_strlit("4");
        reveal_strlit("5");
        reveal_strlit("6");
        reveal_strlit("7");
        reveal_strlit("8");
        reveal_strlit("9");
    }
    if d == 0 {
        "0"
    } else if d == 1 {
        "1"
    } else if d == 2 {
        "2"
    } else if d == 3 {
        "3"
    } else if d == 4 {
        "4"
    } else if d == 5 {
        "5"
    } else if d == 6 {
        "6"
    } else if d == 7 {
        "7"
    } else if d == 8 {
        "8"
    } else {
        "9"
    }
}

/// The decimal string of `n`.
pub fn u64_to_string(n: u64) -> (r: String)
    ensures
        r@ == dec_of(n as nat),
    decreases n,
{
    if n < 10 {
        let mut s = String::new();
        s.append(digit_str(n));
        s
    } else {
        let mut s = u64_to_string(n / 10);
        s.append(digit_str(n % 10));
        s
    }
}

/// Parses a string of decimal digits as a `u32`.  Fails on an empty string,
/// on any non-digit character, and on overflow.
pub fn parse_u32_digits(s: &str) -> (r: Option<u32>)
    ensures
        match r {
            Some(v) => s@.len() > 0 && all_digits(s@) && v == digits_val(s@),
            None => s@.len() == 0 || !all_digits(s@) || digits_val(s@) > u32::MAX,
        },
{
    let len = s.unicode_len();
    if len == 0 {
        return None;
    }
    let mut acc: u64 = 0;
    let mut i: usize = 0;
    while i < len
        invariant
            i <= len,
            len == s@.len(),
            all_digits(s@.subrange(0, i as int)),
            acc == digits_val(s@.subrange(0, i as int)),
            acc <= u32::MAX,
        decreases len - i,
    {
        let c = s.get_char(i);
        let u = c as u32;
        if u < 48 || u > 57 {
            assert(!is_digit(s@[i as int]));
            return None;
        }
        let d: u64 = (u - 48) as u64;
        let next: u64 = acc * 10 + d;
        proof {
            assert(s@.subrange(0, i + 1).drop_last() =~= s@.subrange(0, i as int));
            assert(s@.subrange(0, i + 1).last() == s@[i as int]);
        }
        if next > 0xffff_ffff {
            proof {
                if all_digits(s@) {
                    lemma_digits_val_monotonic(s@, i + 1);
                }
            }
            return None;
        }
        acc = next;
        i += 1;
    }
    proof {
        assert(s@.subrange(0, len as int) =~= s@);
    }
    Some(acc as u32)
}

/// The value of a digit string only grows as more digits follow.
proof fn lemma_digits_val_monotonic(s: Seq<char>, i: int)
    requires
        0 <= i <= s.len(),
        all_digits(s),
    ensures
        digits_val(s) >= digits_val(s.subrange(0, i)),
    decreases s.len() - i,
{
    if i == s.len() {
        assert(s.subrange(0, i) =~= s);
    } else {
        lemma_digits_val_monotonic(s, i + 1);
        assert(s.subrange(0, i + 1).drop_last() =~= s.subrange(0, i));
    }
}

/// Parses a string of decimal digits as a `u64` no greater than `max`.
pub fn parse_u64_digits_bounded(s: &str, max: u64) -> (r: Option<u64>)
    ensures
        match r {
            Some(v) => s@.len() > 0 && all_digits(s@) && v == digits_val(s@) && v <= max,
            None => s@.len() == 0 || !all_digits(s@) || digits_val(s@) > max,
        },
{
    let len = s.unicode_len();
    if len == 0 {
        return None;
    }
    let mut acc: u64 = 0;
    let mut i: usize = 0;
    while i < len
        invariant
            i <= len,
            len == s@.len(),
            all_digits(s@.subrange(0, i as int)),
            acc == digits_val(s@.subrange(0, i as int)),
            acc <= max,
        decreases len - i,
    {
        let c = s.get_char(i);
        let u = c as u32;
        if u < 48 || u > 57 {
            assert(!is_digit(s@[i as int]));
            return None;
        }
        let d: u128 = (u - 48) as u128;
        let next: u128 = (acc as u128) * 10 + d;
        proof {
            assert(s@.subrange(0, i + 1).drop_last() =~= s@.subrange(0, i as int));
            assert(s@.subrange(0, i + 1).last() == s@[i as int]);
        }
        if next > max as u128 {
            proof {
                if all_digits(s@) {
                    lemma_digits_val_monotonic(s@, i + 1);
                }
            }
            return None;
        }
        acc = next as u64;
        i += 1;
    }
    proof {
        assert(s@.subrange(0, len as int) =~= s@);
    }
    Some(acc)
}

/// The decimal rendering of a number is made of digits and never starts
/// with a zero it does not need.
pub proof fn lemma_dec_of_props(n: nat)
    ensures
        dec_of(n).len() >= 1,
        all_digits(dec_of(n)),
        dec_of(n).len() > 1 ==> dec_of(n)[0] != '0',
        n == 0 <==> dec_of(n) == seq!['0'],
    decreases n,
{
    if n < 10 {
        assert(dec_of(n) =~= seq![digit_char(n as int)]);
        if n == 0 {
            assert(dec_of(n) =~= seq!['0']);
        } else {
            assert(digit_char(n as int) != '0');
            assert(dec_of(n) != seq!['0']) by {
                assert(seq!['0'][0] == '0');
                assert(dec_of(n)[0] == digit_char(n as int));
            }
        }
    } else {
        lemma_dec_of_props(n / 10);
        assert(dec_of(n) == dec_of(n / 10).push(digit_char((n % 10) as int)));
        assert(dec_of(n).len() == dec_of(n / 10).len() + 1);
        assert(dec_of(n)[0] == dec_of(n / 10)[0]);
        assert(n / 10 > 0);
        if dec_of(n / 10).len() == 1 {
            assert(dec_of(n / 10)[0] != '0') by {
                if dec_of(n / 10)[0] == '0' {
                    assert(dec_of(n / 10) =~= seq!['0']);
                }
            }
        }
        assert(dec_of(n) != seq!['0']) by {
            assert(dec_of(n).len() >= 2);
            assert(seq!['0'].len() == 1);
        }
    }
}

/// Parsing the decimal rendering of `n` gives `n` back.
pub proof fn lemma_digits_val_dec_of(n: nat)
    ensures
        digits_val(dec_of(n)) == n,
    decreases n,
{
    if n < 10 {
        assert(dec_of(n) == seq![digit_char(n as int)]);
        assert(dec_of(n).drop_last() =~= Seq::<char>::empty());
        assert(digits_val(Seq::<char>::empty()) == 0);
        assert(dec_of(n).last() == digit_char(n as int));
        assert(digit_char(n as int) as int - 48 == n);
    } else {
        lemma_digits_val_dec_of(n / 10);
        assert(dec_of(n) == dec_of(n / 10).push(digit_char((n % 10) as int)));
        assert(dec_of(n).drop_last() =~= dec_of(n / 10));
        assert(dec_of(n).last() == digit_char((n % 10) as int));
        assert(digit_char((n % 10) as int) as int - 48 == n % 10);
        assert(digits_val(dec_of(n)) == (n / 10) * 10 + n % 10);
        assert((n / 10) * 10 + n % 10 == n);
    }
}

/// A decimal digit character is the rendering of its value.
pub proof fn lemma_digit_char_inverse(c: char)
    requires
        is_digit(c),
    ensures
        digit_char(c as int - 48) == c,
{
}

/// Rendering the value of a digit string without a leading zero gives the
/// string back.
pub proof fn lemma_dec_of_digits_val(d: Seq<char>)
    requires
        d.len() > 0,
        all_digits(d),
        d.len() > 1 ==> d[0] != '0',
    ensures
        dec_of(digits_val(d)) == d,
    decreases d.len(),
{
    let u = (d.last() as int - 48) as nat;
    lemma_digit_char_inverse(d.last());
    if d.len() == 1 {
        assert(d.drop_last() =~= Seq::<char>::empty());
        assert(digits_val(Seq::<char>::empty()) == 0);
        assert(digits_val(d) == u);
        assert(dec_of(digits_val(d)) =~= d);
    } else {
        let v = digits_val(d.drop_last());
        lemma_dec_of_digits_val(d.drop_last());
        assert(d.drop_last()[0] == d[0]);
        if v == 0 {
            lemma_dec_of_props(v);
            assert(d.drop_last().len() == 1 && d.drop_last()[0] == '0');
            assert(false);
        }
        assert(digits_val(d) == v * 10 + u);
        assert(digits_val(d) >= 10);
        assert(digits_val(d) / 10 == v) by (nonlinear_arith)
            requires
                digits_val(d) == v * 10 + u,
                0 <= u < 10,
                v > 0,
        ;
        assert(digits_val(d) % 10 == u) by (nonlinear_arith)
            requires
                digits_val(d) == v * 10 + u,
                0 <= u < 10,
                v > 0,
        ;
        assert(dec_of(digits_val(d)) =~= dec_of(v).push(digit_char(u as int)));
        assert(dec_of(v).push(digit_char(u as int)) =~= d);
    }
}

/// The digit string of `v`, left-padded with `'0'` to two characters.
pub open spec fn two_digit_of(v: nat) -> Seq<char> {
    if v < 10 {
        seq!['0'] + dec_of(v)
    } else {
        dec_of(v)
    }
}

/// Formats `v` as at least two decimal digits, zero-padded.
pub fn u32_to_two_digit_string(v: u32) -> (r: String)
    ensures
        r@ == two_digit_of(v as nat),
{
    if v < 10 {
        proof {
            reveal_strlit("0");
        }
        let mut s = String::new();
        s.append("0");
        let d = u64_to_string(v as u64);
        s.append(d.as_str());
        assert(s@ =~= two_digit_of(v as nat));
        s
    } else {
        u64_to_string(v as u64)
    }
}

} // verus!
