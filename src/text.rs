//! Decimal text of unsigned integers and small helpers on the characters of a
//! string.

use vstd::prelude::*;

verus! {

/// `c` is one of the ASCII digits `0`..`9`.
pub open spec fn is_digit(c: char) -> bool {
    '0' <= c && c <= '9'
}

/// The value of an ASCII digit.
pub open spec fn digit_value(c: char) -> nat {
    ((c as u32) - ('0' as u32)) as nat
}

/// The ASCII digit for `d < 10`.
pub open spec fn digit_char(d: nat) -> char {
    ((d + ('0' as u32)) as u32) as char
}

pub open spec fn all_digits(s: Seq<char>) -> bool {
    forall|i: int| 0 <= i < s.len() ==> #[trigger] is_digit(s[i])
}

/// The number written by a sequence of decimal digits, most significant first.
pub open spec fn digits_value(s: Seq<char>) -> nat
    decreases s.len(),
{
    if s.len() == 0 {
        0
    } else {
        digits_value(s.drop_last()) * 10 + digit_value(s.last())
    }
}

/// Decimal text of `n`: no sign and no leading zero.
pub open spec fn dec_text(n: nat) -> Seq<char>
    decreases n,
{
    if n < 10 {
        seq![digit_char(n)]
    } else {
        dec_text(n / 10).push(digit_char(n % 10))
    }
}

/// The digits of an unsigned integer text: an optional leading `+` dropped.
pub open spec fn unsigned_digits(s: Seq<char>) -> Seq<char> {
    if s.len() > 0 && s[0] == '+' {
        s.drop_first()
    } else {
        s
    }
}

/// Text that std's unsigned integer parsers read: an optional `+` and one or
/// more decimal digits.
pub open spec fn is_unsigned_text(s: Seq<char>) -> bool {
    unsigned_digits(s).len() > 0 && all_digits(unsigned_digits(s))
}

pub open spec fn unsigned_value(s: Seq<char>) -> nat {
    digits_value(unsigned_digits(s))
}

/// Decimal text is digits only, starts with a digit, and reads back as `n`.
pub proof fn lemma_dec_text(n: nat)
    ensures
        dec_text(n).len() > 0,
        all_digits(dec_text(n)),
        digits_value(dec_text(n)) == n,
        is_unsigned_text(dec_text(n)),
        unsigned_value(dec_text(n)) == n,
    decreases n,
{
    if n < 10 {
        let t = dec_text(n);
        assert(t.drop_last() =~= Seq::<char>::empty());
        assert(digit_value(digit_char(n)) == n);
        assert(digits_value(t.drop_last()) == 0);
        assert(t.last() == digit_char(n));
        assert(digits_value(t) == n);
    } else {
        lemma_dec_text(n / 10);
        let t = dec_text(n);
        assert(t.drop_last() =~= dec_text(n / 10));
        assert(digit_value(digit_char(n % 10)) == n % 10);
        assert(t.last() == digit_char(n % 10));
        assert(digits_value(t) == digits_value(dec_text(n / 10)) * 10 + n % 10);
        assert(digits_value(t) == n);
        assert forall|i: int| 0 <= i < t.len() implies #[trigger] is_digit(t[i]) by {
            if i < t.len() - 1 {
                assert(t[i] == dec_text(n / 10)[i]);
            }
        }
    }
    let t = dec_text(n);
    assert(is_digit(t[0]));
    assert(unsigned_digits(t) == t);
}

/// Relies on `u64::to_string` (std's `Display` for integers): the decimal
/// digits of the value, without sign or leading zeros.
#[verifier::external_body]
pub(crate) fn u64_text(v: u64) -> (r: String)
    ensures
        r@ == dec_text(v as nat),
{
    v.to_string()
}

/// Relies on `str::parse::<u64>`: it accepts exactly an optional `+` followed
/// by decimal digits whose value fits in a `u64`, and returns that value.
#[verifier::external_body]
pub(crate) fn parse_u64(s: &str) -> (r: Option<u64>)
    ensures
        r == (if is_unsigned_text(s@) && unsigned_value(s@) <= u64::MAX {
            Some(unsigned_value(s@) as u64)
        } else {
            None::<u64>
        }),
{
    s.parse::<u64>().ok()
}

/// Relies on `str::parse::<u16>`: it accepts exactly an optional `+` followed
/// by decimal digits whose value fits in a `u16`, and returns that value.
#[verifier::external_body]
pub(crate) fn parse_u16(s: &str) -> (r: Option<u16>)
    ensures
        r == (if is_unsigned_text(s@) && unsigned_value(s@) <= u16::MAX {
            Some(unsigned_value(s@) as u16)
        } else {
            None::<u16>
        }),
{
    s.parse::<u16>().ok()
}

/// `s` ends with `suffix`.
pub open spec fn has_suffix(s: Seq<char>, suffix: Seq<char>) -> bool {
    suffix.len() <= s.len() && s.subrange(s.len() - suffix.len(), s.len() as int) == suffix
}

/// `c` does not occur in `s`.
pub open spec fn lacks(s: Seq<char>, c: char) -> bool {
    forall|i: int| 0 <= i < s.len() ==> s[i] != c
}

/// `i` is the index of the first `c` in `s`.
pub open spec fn is_first_at(s: Seq<char>, c: char, i: int) -> bool {
    0 <= i < s.len() && s[i] == c && lacks(s.subrange(0, i), c)
}

/// `i` is the index of the last `c` in `s`.
pub open spec fn is_last_at(s: Seq<char>, c: char, i: int) -> bool {
    0 <= i < s.len() && s[i] == c && lacks(s.subrange(i + 1, s.len() as int), c)
}

/// Index of the first `c` in `s`, if any.
pub open spec fn first_of(s: Seq<char>, c: char) -> Option<int> {
    if exists|i: int| is_first_at(s, c, i) {
        Some(choose|i: int| is_first_at(s, c, i))
    } else {
        None
    }
}

/// Index of the last `c` in `s`, if any.
pub open spec fn last_of(s: Seq<char>, c: char) -> Option<int> {
    if exists|i: int| is_last_at(s, c, i) {
        Some(choose|i: int| is_last_at(s, c, i))
    } else {
        None
    }
}

/// The first occurrence is unique.
pub proof fn lemma_first_of(s: Seq<char>, c: char, i: int)
    requires
        is_first_at(s, c, i),
    ensures
        first_of(s, c) == Some(i),
{
    let j = choose|j: int| is_first_at(s, c, j);
    if j < i {
        assert(s.subrange(0, i)[j] == c);
    } else if i < j {
        assert(s.subrange(0, j)[i] == c);
    }
}

/// The last occurrence is unique.
pub proof fn lemma_last_of(s: Seq<char>, c: char, i: int)
    requires
        is_last_at(s, c, i),
    ensures
        last_of(s, c) == Some(i),
{
    let j = choose|j: int| is_last_at(s, c, j);
    if j < i {
        assert(s.subrange(j + 1, s.len() as int)[i - j - 1] == c);
    } else if i < j {
        assert(s.subrange(i + 1, s.len() as int)[j - i - 1] == c);
    }
}

/// Without any `c` there is neither a first nor a last one.
pub proof fn lemma_none_of(s: Seq<char>, c: char)
    requires
        lacks(s, c),
    ensures
        first_of(s, c) is None,
        last_of(s, c) is None,
{
}

/// Whether `s` ends with `suffix`, compared character by character.
pub fn ends_with(s: &str, suffix: &str) -> (r: bool)
    ensures
        r == has_suffix(s@, suffix@),
{
    let n = s.unicode_len();
    let m = suffix.unicode_len();
    if m > n {
        return false;
    }
    let off: usize = n - m;
    let mut i: usize = 0;
    while i < m
        invariant
            n == s@.len(),
            m == suffix@.len(),
            off == n - m,
            i <= m,
            forall|j: int| 0 <= j < i ==> s@[off + j] == suffix@[j],
        decreases m - i,
    {
        if s.get_char(off + i) != suffix.get_char(i) {
            assert(s@.subrange(off as int, n as int)[i as int] != suffix@[i as int]);
            return false;
        }
        i = i + 1;
    }
    assert(s@.subrange(off as int, n as int) =~= suffix@);
    true
}

/// Index of the first `c` in `s`, if any.
pub fn find_char(s: &str, c: char) -> (r: Option<usize>)
    ensures
        match r {
            Some(i) => first_of(s@, c) == Some(i as int),
            None => first_of(s@, c) is None,
        },
{
    let n = s.unicode_len();
    let mut i: usize = 0;
    while i < n
        invariant
            n == s@.len(),
            i <= n,
            lacks(s@.subrange(0, i as int), c),
        decreases n - i,
    {
        if s.get_char(i) == c {
            proof {
                lemma_first_of(s@, c, i as int);
            }
            return Some(i);
        }
        assert(lacks(s@.subrange(0, i + 1), c)) by {
            assert forall|j: int| 0 <= j < i + 1 implies #[trigger] s@.subrange(0, i + 1)[j] != c by {
                if j < i {
                    assert(s@.subrange(0, i + 1)[j] == s@.subrange(0, i as int)[j]);
                }
            }
        }
        i = i + 1;
    }
    assert(s@.subrange(0, n as int) =~= s@);
    proof {
        lemma_none_of(s@, c);
    }
    None
}

/// Index of the last `c` in `s`, if any.
pub fn rfind_char(s: &str, c: char) -> (r: Option<usize>)
    ensures
        match r {
            Some(i) => last_of(s@, c) == Some(i as int),
            None => last_of(s@, c) is None,
        },
{
    let n = s.unicode_len();
    let mut i: usize = n;
    while i > 0
        invariant
            n == s@.len(),
            i <= n,
            lacks(s@.subrange(i as int, n as int), c),
        decreases i,
    {
        if s.get_char(i - 1) == c {
            proof {
                lemma_last_of(s@, c, i - 1);
            }
            return Some(i - 1);
        }
        assert(lacks(s@.subrange(i - 1, n as int), c)) by {
            assert forall|j: int| 0 <= j < n - (i - 1) implies #[trigger] s@.subrange(i - 1, n as int)[j]
                != c by {
                if j > 0 {
                    assert(s@.subrange(i - 1, n as int)[j] == s@.subrange(i as int, n as int)[j
                        - 1]);
                }
            }
        }
        i = i - 1;
    }
    assert(s@.subrange(0, n as int) =~= s@);
    proof {
        lemma_none_of(s@, c);
    }
    None
}

/// Relies on `String::push`: appends one character.
#[verifier::external_body]
pub(crate) fn push_char(s: &mut String, c: char)
    ensures
        final(s)@ == old(s)@.push(c),
{
    s.push(c)
}

} // verus!
