//! Small verified helpers on strings: equality, substring containment,
//! decimal formatting and decimal parsing.

use vstd::prelude::*;
use vstd::string::StrSliceExecFns;
use vstd::string::StringExecFns;

verus! {

/// The needle occurs in the haystack starting at position `i`.
pub open spec fn contains_at(hay: Seq<char>, needle: Seq<char>, i: int) -> bool {
    0 <= i && i + needle.len() <= hay.len() && hay.subrange(i, i + needle.len()) == needle
}

/// The needle occurs somewhere in the haystack.
pub open spec fn contains_seq(hay: Seq<char>, needle: Seq<char>) -> bool {
    exists|i: int| contains_at(hay, needle, i)
}

/// Character-for-character string equality.
pub fn str_eq(a: &str, b: &str) -> (r: bool)
    ensures
        r == (a@ == b@),
{
    let a_len = a.unicode_len();
    let b_len = b.unicode_len();
    if a_len != b_len {
        return false;
    }
    let mut i: usize = 0;
    while i < a_len
        invariant
            a_len == a@.len(),
            b_len == b@.len(),
            a_len == b_len,
            i <= a_len,
            forall|j: int| 0 <= j < i ==> a@[j] == b@[j],
        decreases a_len - i,
    {
        if a.get_char(i) != b.get_char(i) {
            return false;
        }
        i = i + 1;
    }
    proof {
        assert(a@ =~= b@);
    }
    true
}

/// Substring containment, the semantics of `str::contains`.
pub fn str_contains(hay: &str, needle: &str) -> (r: bool)
    ensures
        r == contains_seq(hay@, needle@),
{
    let hay_len = hay.unicode_len();
    let needle_len = needle.unicode_len();
    if needle_len > hay_len {
        proof {
            assert(forall|i: int| !contains_at(hay@, needle@, i));
        }
        return false;
    }
    if needle_len == 0 {
        proof {
            assert(hay@.subrange(0, 0) =~= needle@);
            assert(contains_at(hay@, needle@, 0));
        }
        return true;
    }
    let mut start: usize = 0;
    while start <= hay_len - needle_len
        invariant
            hay_len == hay@.len(),
            needle_len == needle@.len(),
            0 < needle_len <= hay_len,
            start <= hay_len - needle_len + 1,
            forall|s: int| 0 <= s < start ==> !contains_at(hay@, needle@, s),
        decreases hay_len - needle_len + 1 - start,
    {
        let mut k: usize = 0;
        let mut matches = true;
        while matches && k < needle_len
            invariant
                hay_len == hay@.len(),
                needle_len == needle@.len(),
                start + needle_len <= hay_len,
                k <= needle_len,
                matches ==> forall|j: int| 0 <= j < k ==> hay@[start + j] == needle@[j],
                !matches ==> !contains_at(hay@, needle@, start as int),
            decreases needle_len - k + (if matches { 1int } else { 0int }),
        {
            if hay.get_char(start + k) != needle.get_char(k) {
                proof {
                    assert(hay@.subrange(start as int, start + needle@.len())[k as int]
                        == hay@[start + k]);
                }
                matches = false;
            } else {
                k = k + 1;
            }
        }
        if matches {
            proof {
                assert(forall|j: int|
                    0 <= j < needle@.len() ==> #[trigger] hay@.subrange(
                        start as int,
                        start + needle@.len(),
                    )[j] == hay@[start + j]);
                assert(hay@.subrange(start as int, start + needle@.len()) =~= needle@);
                assert(contains_at(hay@, needle@, start as int));
            }
            return true;
        }
        start = start + 1;
    }
    proof {
        assert(forall|s: int| !contains_at(hay@, needle@, s));
    }
    false
}

/// Equality of optional strings, by contents.
pub fn opt_str_eq(a: &Option<String>, b: &Option<String>) -> (r: bool)
    ensures
        r == (a.deep_view() == b.deep_view()),
{
    match (a, b) {
        (Some(x), Some(y)) => {
            let e = str_eq(x.as_str(), y.as_str());
            proof {
                if a.deep_view() == b.deep_view() {
                    assert(a.deep_view() == Some(x@));
                    assert(b.deep_view() == Some(y@));
                }
            }
            e
        },
        (None, None) => true,
        _ => false,
    }
}

/// A copy of an optional string with the same contents.
pub fn clone_opt_string(o: &Option<String>) -> (r: Option<String>)
    ensures
        r == *o,
{
    match o {
        Some(s) => Some(s.clone()),
        None => None,
    }
}

/// The character for one decimal digit.
pub open spec fn digit_char(d: int) -> char {
    if d == 0 { '0' }
    else if d == 1 { '1' }
    else if d == 2 { '2' }
    else if d == 3 { '3' }
    else if d == 4 { '4' }
    else if d == 5 { '5' }
    else if d == 6 { '6' }
    else if d == 7 { '7' }
    else if d == 8 { '8' }
    else { '9' }
}

/// The decimal digits of a nonnegative number, most significant first.
pub open spec fn dec_digits(n: int) -> Seq<char>
    decreases n,
{
    if n < 10 {
        seq![digit_char(n)]
    } else {
        dec_digits(n / 10).push(digit_char(n % 10))
    }
}

/// The decimal rendering of a signed number, as `to_string` writes it.
pub open spec fn dec_string(i: int) -> Seq<char> {
    if i < 0 {
        seq!['-'] + dec_digits(-i)
    } else {
        dec_digits(i)
    }
}

fn digit_str(d: u64) -> (r: &'static str)
    requires
        d < 10,
    ensures
        r@ == seq![digit_char(d as int)],
{
    proof {
        reveal_strlit("0");
        reveal_strlit("1");
        reveal_strlit("2");
        reveal_strlit("3");
        reveal_strlit("4");
        reveal_strlit("5");
        reveal_strlit("6");
        reveal_strlit("7");
        reveal_strlit("8");
        reveal_strlit("9");
    }
    match d {
        0 => "0",
        1 => "1",
        2 => "2",
        3 => "3",
        4 => "4",
        5 => "5",
        6 => "6",
        7 => "7",
        8 => "8",
        _ => "9",
    }
}

/// The decimal rendering of an unsigned number.
pub fn u64_to_string(n: u64) -> (r: String)
    ensures
        r@ == dec_digits(n as int),
    decreases n,
{
    if n < 10 {
        String::from_str(digit_str(n))
    } else {
        let mut s = u64_to_string(n / 10);
        s.append(digit_str(n % 10));
        s
    }
}

/// The decimal rendering of a signed number, as `to_string` writes it.
pub fn i64_to_string(i: i64) -> (r: String)
    ensures
        r@ == dec_string(i as int),
{
    if i >= 0 {
        u64_to_string(i as u64)
    } else {
        proof {
            reveal_strlit("-");
        }
        let mag: u64 = ((-(i as i128)) as u64);
        let mut s = String::from_str("-");
        let d = u64_to_string(mag);
        s.append(d.as_str());
        s
    }
}

/// The character is a decimal digit.
pub open spec fn is_digit(c: char) -> bool {
    48 <= c as int <= 57
}

/// The numeric value of a decimal digit character.
pub open spec fn digit_val(c: char) -> int {
    c as int - 48
}

/// Every character of the sequence is a decimal digit.
pub open spec fn all_digits(s: Seq<char>) -> bool {
    forall|i: int| 0 <= i < s.len() ==> is_digit(s[i])
}

/// The value of a sequence of decimal digits, most significant first.
pub open spec fn dec_value(s: Seq<char>) -> int
    decreases s.len(),
{
    if s.len() == 0 {
        0
    } else {
        dec_value(s.drop_last()) * 10 + digit_val(s.last())
    }
}

/// What parsing a string as a 32-bit signed integer yields: an optional
/// sign followed by at least one digit, with the value within range.
pub open spec fn spec_parse_i32(s: Seq<char>) -> Option<i32> {
    if s.len() > 0 && (s[0] == '-' || s[0] == '+') {
        spec_parse_digits(s.drop_first(), s[0] == '-')
    } else {
        spec_parse_digits(s, false)
    }
}

/// The value of a digit string under a sign, `None` when malformed or
/// out of the 32-bit range.
pub open spec fn spec_parse_digits(d: Seq<char>, neg: bool) -> Option<i32> {
    if d.len() == 0 || !all_digits(d) {
        None
    } else if neg && -dec_value(d) >= i32::MIN {
        Some((-dec_value(d)) as i32)
    } else if !neg && dec_value(d) <= i32::MAX {
        Some(dec_value(d) as i32)
    } else {
        None
    }
}

proof fn lemma_dec_value_nonneg(d: Seq<char>)
    requires
        all_digits(d),
    ensures
        dec_value(d) >= 0,
    decreases d.len(),
{
    if d.len() > 0 {
        assert(all_digits(d.drop_last()));
        lemma_dec_value_nonneg(d.drop_last());
    }
}

proof fn lemma_dec_value_prefix(d: Seq<char>, j: int)
    requires
        all_digits(d),
        0 <= j <= d.len(),
    ensures
        dec_value(d.subrange(0, j)) <= dec_value(d),
    decreases d.len() - j,
{
    if j == d.len() {
        assert(d.subrange(0, j) =~= d);
    } else {
        let p = d.subrange(0, j);
        let q = d.subrange(0, j + 1);
        assert(q.drop_last() =~= p);
        assert(all_digits(p));
        lemma_dec_value_nonneg(p);
        lemma_dec_value_prefix(d, j + 1);
    }
}

/// Parsing a string as a 32-bit signed integer.
pub fn parse_i32(s: &str) -> (r: Option<i32>)
    ensures
        r == spec_parse_i32(s@),
{
    let len = s.unicode_len();
    if len == 0 {
        return None;
    }
    let first = s.get_char(0);
    let neg = first == '-';
    let ds: usize = if first == '-' || first == '+' {
        1
    } else {
        0
    };
    let ghost d = s@.subrange(ds as int, len as int);
    proof {
        if ds == 1 {
            assert(d =~= s@.drop_first());
        } else {
            assert(d =~= s@);
        }
    }
    if ds == len {
        return None;
    }
    let mut i: usize = ds;
    let mut acc: u64 = 0;
    while i < len
        invariant
            len == s@.len(),
            ds <= i <= len,
            ds < len,
            d == s@.subrange(ds as int, len as int),
            spec_parse_i32(s@) == spec_parse_digits(d, neg),
            all_digits(s@.subrange(ds as int, i as int)),
            acc as int == dec_value(s@.subrange(ds as int, i as int)),
            acc <= 2147483648,
        decreases len - i,
    {
        let c = s.get_char(i);
        let v = c as u32;
        if v < 48 || v > 57 {
            proof {
                assert(d[i - ds] == s@[i as int]);
                assert(!all_digits(d));
            }
            return None;
        }
        let step: u64 = acc * 10 + ((v - 48) as u64);
        proof {
            let p = s@.subrange(ds as int, i as int);
            let q = s@.subrange(ds as int, i + 1);
            assert(q.drop_last() =~= p);
            assert(q.last() == s@[i as int]);
        }
        if step > 2147483648 {
            proof {
                if all_digits(d) {
                    let q = s@.subrange(ds as int, i + 1);
                    assert(q =~= d.subrange(0, i + 1 - ds));
                    lemma_dec_value_prefix(d, i + 1 - ds);
                }
            }
            return None;
        }
        acc = step;
        i = i + 1;
    }
    proof {
        assert(s@.subrange(ds as int, i as int) =~= d);
    }
    if neg {
        if acc > 2147483648 {
            return None;
        }
        Some((-(acc as i64)) as i32)
    } else {
        if acc > 2147483647 {
            return None;
        }
        Some(acc as i32)
    }
}

} // verus!
