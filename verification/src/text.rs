//! Small verified text utilities: building strings character by character,
//! decimal rendering of integers, and the `HH:MM` clock rendering used by the
//! view projector.

use vstd::prelude::*;

verus! {

/// Relies on `String::push`: appends exactly one character.
#[verifier::external_body]
pub fn push_char(s: &mut String, c: char)
    ensures
        final(s)@ == old(s)@.push(c),
{
    s.push(c);
}

/// Relies on `Iterator::collect` over `str::chars`: the characters of a
/// string slice, in order.
#[verifier::external_body]
pub fn str_chars(s: &str) -> (r: Vec<char>)
    ensures
        r@ == s@,
{
    s.chars().collect()
}

/// Builds a string from a character sequence.
pub fn chars_to_string(cs: &Vec<char>) -> (r: String)
    ensures
        r@ == cs@,
{
    let mut out = String::new();
    let n = cs.len();
    let mut i: usize = 0;
    while i < n
        invariant
            i <= n,
            n == cs@.len(),
            out@ =~= cs@.take(i as int),
        decreases n - i,
    {
        push_char(&mut out, cs[i]);
        proof {
            assert(cs@.take(i + 1) =~= cs@.take(i as int).push(cs@[i as int]));
        }
        i = i + 1;
    }
    proof {
        assert(cs@.take(n as int) =~= cs@);
    }
    out
}

/// Compares two string slices by their characters.
pub fn str_eq(a: &str, b: &str) -> (r: bool)
    ensures
        r == (a@ == b@),
{
    let sa = a.to_owned();
    let sb = b.to_owned();
    sa == sb
}

/// Appends one string to another.
pub fn append_str(s: &mut String, other: &str)
    ensures
        final(s)@ == old(s)@ + other@,
{
    s.append(other);
}

/// The decimal digit character for a value below ten.
pub open spec fn spec_digit(d: int) -> char {
    if d == 0 {
        '0'
    } else if d == 1 {
        '1'
    } else if d == 2 {
        '2'
    } else if d == 3 {
        '3'
    } else if d == 4 {
        '4'
    } else if d == 5 {
        '5'
    } else if d == 6 {
        '6'
    } else if d == 7 {
        '7'
    } else if d == 8 {
        '8'
    } else {
        '9'
    }
}

fn digit_char(d: u64) -> (r: char)
    requires
        d < 10,
    ensures
        r == spec_digit(d as int),
{
    if d == 0 {
        '0'
    } else if d == 1 {
        '1'
    } else if d == 2 {
        '2'
    } else if d == 3 {
        '3'
    } else if d == 4 {
        '4'
    } else if d == 5 {
        '5'
    } else if d == 6 {
        '6'
    } else if d == 7 {
        '7'
    } else if d == 8 {
        '8'
    } else {
        '9'
    }
}

/// Decimal rendering of a non-negative integer, without leading zeros.
pub open spec fn spec_u64_dec(n: int) -> Seq<char>
    decreases n,
{
    if n < 10 {
        seq![spec_digit(n)]
    } else {
        spec_u64_dec(n / 10).push(spec_digit(n % 10))
    }
}

/// Decimal rendering of a signed integer: a minus sign before the magnitude
/// for negative values.
pub open spec fn spec_i64_dec(n: int) -> Seq<char> {
    if n < 0 {
        seq!['-'] + spec_u64_dec(-n)
    } else {
        spec_u64_dec(n)
    }
}

/// Renders an unsigned integer in decimal.
pub fn u64_to_string(n: u64) -> (r: String)
    ensures
        r@ == spec_u64_dec(n as int),
{
    let mut rev: Vec<char> = Vec::new();
    let mut rest = n;
    while rest >= 10
        invariant
            rev@.len() == 0 ==> rest == n,
            rev@.len() > 0 ==> spec_u64_dec(n as int) == spec_u64_dec(rest as int)
                + rev@.reverse(),
        decreases rest,
    {
        let d = rest % 10;
        let ghost rev0 = rev@;
        rev.push(digit_char(d));
        proof {
            assert(rev@.reverse() =~= seq![spec_digit(d as int)] + rev0.reverse());
            assert(spec_u64_dec(rest as int) == spec_u64_dec(rest as int / 10).push(
                spec_digit(rest as int % 10),
            ));
            assert(spec_u64_dec(rest as int / 10) + rev@.reverse() =~= (spec_u64_dec(
                rest as int / 10,
            ).push(spec_digit(d as int))) + rev0.reverse());
            assert(spec_u64_dec(n as int) =~= spec_u64_dec(rest as int / 10) + rev@.reverse());
        }
        rest = rest / 10;
    }
    let mut out = String::new();
    push_char(&mut out, digit_char(rest));
    let n_rev = rev.len();
    let mut i: usize = 0;
    while i < n_rev
        invariant
            i <= n_rev,
            n_rev == rev@.len(),
            out@ =~= seq![spec_digit(rest as int)] + rev@.reverse().take(i as int),
            rest < 10,
        decreases n_rev - i,
    {
        let c = rev[n_rev - 1 - i];
        push_char(&mut out, c);
        proof {
            assert(rev@.reverse()[i as int] == rev@[n_rev - 1 - i]);
            assert(rev@.reverse().take(i + 1) =~= rev@.reverse().take(i as int).push(
                rev@.reverse()[i as int],
            ));
            assert(out@ =~= seq![spec_digit(rest as int)] + rev@.reverse().take(i + 1));
        }
        i = i + 1;
    }
    proof {
        assert(rev@.reverse().take(n_rev as int) =~= rev@.reverse());
        if rev@.len() == 0 {
            assert(out@ =~= spec_u64_dec(n as int));
        } else {
            assert(out@ =~= spec_u64_dec(rest as int) + rev@.reverse());
        }
    }
    out
}

/// Renders a signed integer in decimal.
pub fn i64_to_string(n: i64) -> (r: String)
    ensures
        r@ == spec_i64_dec(n as int),
{
    if n >= 0 {
        u64_to_string(n as u64)
    } else {
        let wide: i128 = n as i128;
        let mag: u64 = (-wide) as u64;
        proof {
            assert(mag as int == -(n as int));
        }
        let digits = u64_to_string(mag);
        let mut out = String::new();
        push_char(&mut out, '-');
        append_str(&mut out, digits.as_str());
        proof {
            assert(out@ =~= seq!['-'] + spec_u64_dec(-(n as int)));
        }
        out
    }
}

/// What `str::to_lowercase` returns: a function of the characters alone.
pub uninterp spec fn lower_of(s: Seq<char>) -> Seq<char>;

/// Relies on `str::to_lowercase`: the result depends on the characters
/// alone, and an empty string stays empty.
#[verifier::external_body]
pub fn to_lowercase(s: &str) -> (r: String)
    ensures
        r@ == lower_of(s@),
        s@.len() == 0 ==> r@.len() == 0,
{
    s.to_lowercase()
}

/// What `str::trim` returns: a function of the characters alone.
pub uninterp spec fn trimmed_of(s: Seq<char>) -> Seq<char>;

/// Relies on `str::trim`: the result depends on the characters alone, its
/// length never grows, and an empty string stays empty.
#[verifier::external_body]
pub fn trim(s: &str) -> (r: &str)
    ensures
        r@ == trimmed_of(s@),
        r@.len() <= s@.len(),
        s@.len() == 0 ==> r@.len() == 0,
{
    s.trim()
}

/// The needle occurs contiguously somewhere in the haystack.
pub open spec fn spec_contains(hay: Seq<char>, needle: Seq<char>) -> bool {
    exists|k: int|
        0 <= k <= hay.len() - needle.len() && #[trigger] hay.subrange(k, k + needle.len() as int)
            == needle
}

/// Substring search over character sequences.
pub fn contains_chars(hay: &Vec<char>, needle: &Vec<char>) -> (r: bool)
    ensures
        r == spec_contains(hay@, needle@),
{
    let n = hay.len();
    let m = needle.len();
    if m > n {
        proof {
            assert(!spec_contains(hay@, needle@));
        }
        return false;
    }
    if m == 0 {
        proof {
            assert(hay@.subrange(0, 0 + needle@.len() as int) =~= needle@);
        }
        return true;
    }
    let mut k: usize = 0;
    while k <= n - m
        invariant
            1 <= m <= n,
            n == hay@.len(),
            m == needle@.len(),
            k <= n - m + 1,
            forall|t: int|
                0 <= t < k ==> #[trigger] hay@.subrange(t, t + m as int) != needle@,
        decreases n - m + 1 - k,
    {
        let mut j: usize = 0;
        let mut matches_here = true;
        while j < m
            invariant
                j <= m,
                k + m <= n,
                n == hay@.len(),
                m == needle@.len(),
                matches_here ==> forall|t: int| 0 <= t < j ==> hay@[k + t] == #[trigger] needle@[t],
                !matches_here ==> hay@.subrange(k as int, k + m as int) != needle@,
            decreases m - j,
        {
            if hay[k + j] != needle[j] {
                proof {
                    assert(hay@.subrange(k as int, k + m as int)[j as int] == hay@[k + j]);
                }
                matches_here = false;
                j = m;
            } else {
                j = j + 1;
            }
        }
        if matches_here {
            proof {
                assert(hay@.subrange(k as int, k as int + needle@.len() as int) =~= needle@);
            }
            return true;
        }
        k = k + 1;
    }
    proof {
        assert forall|t: int| 0 <= t <= hay@.len() - needle@.len() implies #[trigger] hay@.subrange(
            t,
            t + needle@.len() as int,
        ) != needle@ by {
            assert(t < k);
        }
    }
    false
}

} // verus!
