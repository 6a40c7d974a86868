//! Small verified string utilities: character classes, equality of string
//! slices, decimal parsing, and substring search.

use vstd::prelude::*;
use vstd::string::*;

verus! {

/// A decimal digit character.
pub open spec fn is_digit(c: char) -> bool {
    48 <= c as int && c as int <= 57
}

/// Numeric value of a digit character.
pub open spec fn digit_val(c: char) -> int {
    c as int - 48
}

/// Every character of `s` is a decimal digit.
pub open spec fn all_digits(s: Seq<char>) -> bool {
    forall|i: int| 0 <= i < s.len() ==> is_digit(#[trigger] s[i])
}

/// Value of a digit string read as a base-ten numeral.
pub open spec fn digits_val(s: Seq<char>) -> int
    decreases s.len(),
{
    if s.len() == 0 {
        0
    } else {
        digits_val(s.drop_last()) * 10 + digit_val(s.last())
    }
}

/// An ASCII whitespace character.
pub open spec fn is_space(c: char) -> bool {
    c == ' ' || c == '\t' || c == '\n' || c == '\r'
}

/// Exec test for [`is_digit`].
pub fn digit_of(c: char) -> (r: Option<u32>)
    ensures
        r is Some <==> is_digit(c),
        r matches Some(v) ==> v == digit_val(c),
{
    let u = c as u32;
    if 48 <= u && u <= 57 {
        Some(u - 48)
    } else {
        None
    }
}

/// Exec test for [`is_space`].
pub fn space_char(c: char) -> (r: bool)
    ensures
        r == is_space(c),
{
    c == ' ' || c == '\t' || c == '\n' || c == '\r'
}

/// Character-wise equality of two string slices.
pub fn str_eq(a: &str, b: &str) -> (r: bool)
    ensures
        r == (a@ == b@),
{
    let alen = a.unicode_len();
    let blen = b.unicode_len();
    if alen != blen {
        return false;
    }
    let mut i: usize = 0;
    while i < alen
        invariant
            alen == a@.len(),
            blen == b@.len(),
            alen == blen,
            i <= alen,
            forall|j: int| 0 <= j < i ==> a@[j] == b@[j],
        decreases alen - i,
    {
        if a.get_char(i) != b.get_char(i) {
            return false;
        }
        i += 1;
    }
    proof {
        assert(a@ =~= b@);
    }
    true
}

/// A digit string's value is never negative.
pub proof fn lemma_digits_val_nonneg(s: Seq<char>)
    requires
        all_digits(s),
    ensures
        digits_val(s) >= 0,
    decreases s.len(),
{
    if s.len() > 0 {
        assert(all_digits(s.drop_last()));
        lemma_digits_val_nonneg(s.drop_last());
    }
}

/// A short digit string has a small value.
pub proof fn lemma_digits_val_small(s: Seq<char>)
    requires
        all_digits(s),
        s.len() <= 3,
    ensures
        s.len() <= 1 ==> digits_val(s) <= 9,
        s.len() <= 2 ==> digits_val(s) <= 99,
        digits_val(s) <= 999,
    decreases s.len(),
{
    if s.len() > 0 {
        assert(all_digits(s.drop_last()));
        lemma_digits_val_small(s.drop_last());
    }
}

/// The value of any digit prefix is at most the value of the whole numeral.
proof fn lemma_digits_val_prefix_le(s: Seq<char>, i: int)
    requires
        all_digits(s),
        0 <= i <= s.len(),
    ensures
        digits_val(s.take(i)) <= digits_val(s),
    decreases s.len() - i,
{
    if i < s.len() {
        assert(s.take(i + 1).drop_last() =~= s.take(i));
        assert(all_digits(s.take(i + 1)));
        assert(all_digits(s.take(i)));
        lemma_digits_val_nonneg(s.take(i));
        assert(digits_val(s.take(i + 1)) == digits_val(s.take(i)) * 10 + digit_val(s.take(i + 1).last()));
        assert(digits_val(s.take(i)) * 10 >= digits_val(s.take(i))) by {
            lemma_digits_val_nonneg(s.take(i));
        }
        assert(digits_val(s.take(i)) <= digits_val(s.take(i + 1)));
        lemma_digits_val_prefix_le(s, i + 1);
    } else {
        assert(s.take(i) =~= s);
    }
}

/// Exec check for [`all_digits`].
pub fn all_digits_check(s: &str) -> (r: bool)
    ensures
        r == all_digits(s@),
{
    let len = s.unicode_len();
    let mut i: usize = 0;
    while i < len
        invariant
            len == s@.len(),
            i <= len,
            forall|j: int| 0 <= j < i ==> is_digit(#[trigger] s@[j]),
        decreases len - i,
    {
        if digit_of(s.get_char(i)).is_none() {
            return false;
        }
        i += 1;
    }
    true
}

/// Value of a digit string, refused when a character is no digit or the
/// value runs past the height type's range; the empty string counts as zero.
pub fn digits_value(s: &str) -> (r: Option<u64>)
    ensures
        r is Some <==> (all_digits(s@) && digits_val(s@) <= u32::MAX),
        r matches Some(v) ==> v == digits_val(s@),
{
    let len = s.unicode_len();
    let mut acc: u64 = 0;
    let mut i: usize = 0;
    while i < len
        invariant
            len == s@.len(),
            i <= len,
            all_digits(s@.take(i as int)),
            acc == digits_val(s@.take(i as int)),
            acc <= u32::MAX,
        decreases len - i,
    {
        let c = s.get_char(i);
        match digit_of(c) {
            Some(d) => {
                proof {
                    assert(s@.take(i + 1).drop_last() =~= s@.take(i as int));
                    assert(s@.take(i + 1).last() == s@[i as int]);
                    assert(all_digits(s@.take(i + 1)));
                }
                let next: u64 = acc * 10 + (d as u64);
                if next > u32::MAX as u64 {
                    proof {
                        assert(digits_val(s@.take(i + 1)) > u32::MAX);
                        if all_digits(s@) {
                            lemma_digits_val_prefix_le(s@, i + 1);
                            assert(digits_val(s@) > u32::MAX);
                        }
                    }
                    return None;
                }
                acc = next;
            },
            None => {
                proof {
                    assert(!is_digit(s@[i as int]));
                    assert(!all_digits(s@));
                }
                return None;
            },
        }
        i += 1;
    }
    proof {
        assert(s@.take(len as int) =~= s@);
    }
    Some(acc)
}

/// Parses a plain decimal numeral: the result is defined exactly when the
/// string is non-empty, consists of digits only, and its value fits in `u32`.
pub fn parse_u32(s: &str) -> (r: Option<u32>)
    ensures
        r is Some <==> (s@.len() > 0 && all_digits(s@) && digits_val(s@) <= u32::MAX),
        r matches Some(v) ==> v == digits_val(s@),
{
    if s.unicode_len() == 0 {
        return None;
    }
    match digits_value(s) {
        Some(v) => Some(v as u32),
        None => None,
    }
}

/// `n` occurs as a contiguous substring of `h`.
pub open spec fn has_substring(h: Seq<char>, n: Seq<char>) -> bool {
    exists|i: int| 0 <= i && i + n.len() <= h.len() && #[trigger] h.subrange(i, i + n.len()) == n
}

/// Naive substring search.
pub fn contains_str(h: &str, n: &str) -> (r: bool)
    ensures
        r == has_substring(h@, n@),
{
    let hlen = h.unicode_len();
    let nlen = n.unicode_len();
    if nlen > hlen {
        return false;
    }
    if nlen == 0 {
        proof {
            assert(h@.subrange(0, 0 + n@.len() as int) =~= n@);
        }
        return true;
    }
    let mut i: usize = 0;
    while i <= hlen - nlen
        invariant
            hlen == h@.len(),
            nlen == n@.len(),
            0 < nlen <= hlen,
            i <= hlen - nlen + 1,
            forall|k: int| 0 <= k < i ==> #[trigger] h@.subrange(k, k + n@.len()) != n@,
        decreases hlen - nlen + 1 - i,
    {
        let mut j: usize = 0;
        let mut matched = true;
        while j < nlen
            invariant
                hlen == h@.len(),
                nlen == n@.len(),
                nlen <= hlen,
                i + nlen <= hlen,
                j <= nlen,
                matched ==> forall|t: int| 0 <= t < j ==> h@[i + t] == n@[t],
                !matched ==> h@.subrange(i as int, i + n@.len()) != n@,
            decreases nlen - j,
        {
            if h.get_char(i + j) != n.get_char(j) {
                proof {
                    assert(h@.subrange(i as int, i + n@.len())[j as int] == h@[i + j]);
                }
                matched = false;
                j = nlen;
            } else {
                j += 1;
            }
        }
        if matched {
            proof {
                assert(h@.subrange(i as int, i + n@.len()) =~= n@);
            }
            return true;
        }
        i += 1;
    }
    proof {
        assert forall|k: int| !(0 <= k && k + n@.len() <= h@.len() && #[trigger] h@.subrange(k, k + n@.len()) == n@) by {
            if 0 <= k && k + n@.len() <= h@.len() {
                assert(k < i);
            }
        }
    }
    false
}

} // verus!
