use vstd::prelude::*;

verus! {

/// Character-for-character string equality, stated over the views.
pub fn str_eq(a: &str, b: &str) -> (r: bool)
    ensures
        r == (a@ == b@),
{
    a.to_owned() == b.to_owned()
}

/// Relies on String::push: appends one character at the end of the string.
#[verifier::external_body]
pub(crate) fn push_char(s: &mut String, c: char)
    ensures
        final(s)@ == old(s)@.push(c),
{
    s.push(c)
}

/// ASCII lower-casing of a single character.
pub open spec fn lower_char(c: char) -> char {
    if 'A' <= c && c <= 'Z' {
        (c as u8 + 32) as char
    } else {
        c
    }
}

/// ASCII lower-casing of a whole character sequence.
pub open spec fn lower_chars(s: Seq<char>) -> Seq<char> {
    s.map_values(|c: char| lower_char(c))
}

/// Lower-cases the ASCII letters of a string.
pub fn to_ascii_lower(s: &str) -> (r: String)
    ensures
        r@ == lower_chars(s@),
{
    let n: usize = s.unicode_len();
    let mut out = String::new();
    let mut i: usize = 0;
    while i < n
        invariant
            n == s@.len(),
            0 <= i <= n,
            out@ == lower_chars(s@.take(i as int)),
        decreases n - i,
    {
        let c = s.get_char(i);
        let lc: char = if 'A' <= c && c <= 'Z' {
            ((c as u8) + 32) as char
        } else {
            c
        };
        assert(lc == lower_char(s@[i as int]));
        push_char(&mut out, lc);
        proof {
            assert(s@.take(i + 1) == s@.take(i as int).push(s@[i as int]));
            assert(lower_chars(s@.take(i + 1)) =~= lower_chars(s@.take(i as int)).push(lc));
        }
        i = i + 1;
    }
    proof {
        assert(s@.take(n as int) == s@);
    }
    out
}

/// Whether `pat` occurs in `s` starting at position `i`.
pub open spec fn spec_matches_at(s: Seq<char>, i: int, pat: Seq<char>) -> bool {
    0 <= i && i + pat.len() <= s.len() && s.subrange(i, i + pat.len()) == pat
}

/// Decides whether `pat` occurs in `s` at character position `i`.
pub fn matches_at(s: &str, n: usize, i: usize, pat: &str, m: usize) -> (r: bool)
    requires
        n == s@.len(),
        m == pat@.len(),
        i <= n,
    ensures
        r == spec_matches_at(s@, i as int, pat@),
{
    if m > n - i {
        return false;
    }
    let mut k: usize = 0;
    while k < m
        invariant
            n == s@.len(),
            m == pat@.len(),
            i + m <= n,
            0 <= k <= m,
            forall|k2: int| 0 <= k2 < k ==> s@[i + k2] == pat@[k2],
        decreases m - k,
    {
        if s.get_char(i + k) != pat.get_char(k) {
            proof {
                assert(s@.subrange(i as int, i + m) != pat@) by {
                    assert(s@.subrange(i as int, i + m)[k as int] == s@[i + k]);
                }
            }
            return false;
        }
        k = k + 1;
    }
    proof {
        assert(s@.subrange(i as int, i + m) =~= pat@);
    }
    true
}

/// `s` with every non-overlapping occurrence of `pat` removed, scanning
/// left to right.
pub open spec fn spec_remove_all(s: Seq<char>, pat: Seq<char>) -> Seq<char>
    decreases s.len(),
{
    if s.len() == 0 {
        s
    } else if 1 <= pat.len() <= s.len() && s.take(pat.len() as int) == pat {
        spec_remove_all(s.skip(pat.len() as int), pat)
    } else {
        seq![s[0]] + spec_remove_all(s.drop_first(), pat)
    }
}

/// Removes every non-overlapping occurrence of `pat` from `s`, scanning
/// left to right.
pub fn remove_all(s: &str, pat: &str) -> (r: String)
    requires
        pat@.len() >= 1,
    ensures
        r@ == spec_remove_all(s@, pat@),
{
    let n = s.unicode_len();
    let m = pat.unicode_len();
    let mut out = String::new();
    let mut i: usize = 0;
    proof {
        assert(s@.skip(0) =~= s@);
        assert(out@ + spec_remove_all(s@, pat@) =~= spec_remove_all(s@, pat@));
    }
    while i < n
        invariant
            n == s@.len(),
            m == pat@.len(),
            m >= 1,
            0 <= i <= n,
            out@ + spec_remove_all(s@.skip(i as int), pat@) == spec_remove_all(s@, pat@),
        decreases n - i,
    {
        let ghost tail = s@.skip(i as int);
        if matches_at(s, n, i, pat, m) {
            proof {
                assert(tail.take(m as int) =~= s@.subrange(i as int, i + m));
                assert(tail.skip(m as int) =~= s@.skip(i + m));
                assert(spec_remove_all(tail, pat@) == spec_remove_all(s@.skip(i + m), pat@));
            }
            i = i + m;
        } else {
            let c = s.get_char(i);
            push_char(&mut out, c);
            proof {
                if m <= tail.len() {
                    assert(tail.take(m as int) =~= s@.subrange(i as int, i + m));
                }
                assert(tail[0] == s@[i as int]);
                assert(tail.drop_first() =~= s@.skip(i + 1));
                assert(spec_remove_all(tail, pat@) == seq![s@[i as int]] + spec_remove_all(
                    s@.skip(i + 1),
                    pat@,
                ));
                assert(out@ + spec_remove_all(s@.skip(i + 1), pat@) == spec_remove_all(
                    s@,
                    pat@,
                ));
            }
            i = i + 1;
        }
    }
    proof {
        assert(s@.skip(n as int) =~= Seq::<char>::empty());
        assert(out@ + Seq::<char>::empty() =~= out@);
    }
    out
}

/// Whether a character is a decimal digit.
pub open spec fn is_digit(c: char) -> bool {
    '0' <= c && c <= '9'
}

/// The value of one decimal digit.
pub open spec fn digit_val(c: char) -> int {
    c as int - '0' as int
}

/// Whether every character of `s` is a decimal digit.
pub open spec fn all_digits(s: Seq<char>) -> bool {
    forall|i: int| 0 <= i < s.len() ==> is_digit(#[trigger] s[i])
}

/// The number a digit string denotes.
pub open spec fn digits_value(s: Seq<char>) -> int
    decreases s.len(),
{
    if s.len() == 0 {
        0
    } else {
        digits_value(s.drop_last()) * 10 + digit_val(s.last())
    }
}

/// A digit string's value only grows as digits are appended.
pub proof fn lemma_digits_value_mono(s: Seq<char>, k: int)
    requires
        0 <= k <= s.len(),
        all_digits(s),
    ensures
        0 <= digits_value(s.take(k)) <= digits_value(s),
    decreases s.len(),
{
    if s.len() == 0 {
        assert(s.take(k) =~= s);
    } else if k == s.len() {
        assert(s.take(k) =~= s);
        lemma_digits_value_mono(s.drop_last(), s.len() - 1);
        assert(s.drop_last().take(s.len() - 1) =~= s.drop_last());
    } else {
        assert(s.take(k) =~= s.drop_last().take(k));
        assert(all_digits(s.drop_last())) by {
            assert(forall|i: int| 0 <= i < s.len() - 1 ==> s.drop_last()[i] == s[i]);
        }
        lemma_digits_value_mono(s.drop_last(), k);
    }
}

/// Parses the digit run `s[from..to]` as a number, refusing one that
/// does not fit.
pub fn parse_digits(s: &str, from: usize, to: usize) -> (r: Option<u64>)
    requires
        from <= to <= s@.len(),
        all_digits(s@.subrange(from as int, to as int)),
    ensures
        ({
            let v = digits_value(s@.subrange(from as int, to as int));
            match r {
                Some(x) => x == v,
                None => v > u64::MAX,
            }
        }),
{
    let ghost digits = s@.subrange(from as int, to as int);
    let mut v: u64 = 0;
    let mut i: usize = from;
    while i < to
        invariant
            from <= i <= to <= s@.len(),
            digits == s@.subrange(from as int, to as int),
            all_digits(digits),
            v == digits_value(digits.take(i - from)),
        decreases to - i,
    {
        let c = s.get_char(i);
        proof {
            assert(digits[i - from] == s@[i as int]);
            assert(is_digit(digits[i - from]));
        }
        let d: u64 = (c as u64) - 48;
        if v > (u64::MAX - d) / 10 {
            proof {
                assert(digits.take(i - from + 1) =~= digits.take(i - from).push(
                    digits[i - from],
                ));
                assert(digits.take(i - from + 1).drop_last() =~= digits.take(i - from));
                assert(digits_value(digits.take(i - from + 1)) == v * 10 + d);
                assert(v * 10 + d > u64::MAX) by (nonlinear_arith)
                    requires
                        v > ((u64::MAX - d) / 10),
                        0 <= d <= 9,
                ;
                lemma_digits_value_mono(digits, i - from + 1);
            }
            return None;
        }
        proof {
            assert(v * 10 + d <= u64::MAX) by (nonlinear_arith)
                requires
                    v <= ((u64::MAX - d) / 10),
                    0 <= d <= 9,
            ;
            assert(digits.take(i - from + 1) =~= digits.take(i - from).push(digits[i - from]));
            assert(digits.take(i - from + 1).drop_last() =~= digits.take(i - from));
        }
        v = v * 10 + d;
        i = i + 1;
    }
    proof {
        assert(digits.take(to - from) =~= digits);
    }
    Some(v)
}

/// The decimal spelling of a number.
pub open spec fn dec_digits(n: int) -> Seq<char>
    decreases n,
{
    if n <= 0 {
        seq!['0']
    } else if n < 10 {
        seq![(n + '0' as int) as char]
    } else {
        dec_digits(n / 10).push((n % 10 + '0' as int) as char)
    }
}

/// Writes a number in decimal.
pub fn u64_to_string(n: u64) -> (r: String)
    ensures
        r@ == dec_digits(n as int),
{
    if n == 0 {
        let mut out = String::new();
        push_char(&mut out, '0');
        proof {
            assert(out@ =~= seq!['0']);
        }
        return out;
    }
    let mut rev: Vec<char> = Vec::new();
    let mut v: u64 = n;
    while v > 0
        invariant
            0 <= v <= n,
            n > 0,
            v > 0 ==> dec_digits(n as int) == dec_digits(v as int) + rev@.reverse(),
            v == 0 ==> rev@.len() > 0 && dec_digits(n as int) == rev@.reverse(),
        decreases v,
    {
        let d = v % 10;
        let c: char = ((d as u8) + 48) as char;
        let ghost prev = rev@;
        rev.push(c);
        proof {
            assert(c == (v as int % 10 + '0' as int) as char);
            if v >= 10 {
                assert(dec_digits(v as int) == dec_digits(v as int / 10).push(c));
                assert(dec_digits(v as int / 10) + rev@.reverse() =~= dec_digits(v as int)
                    + prev.reverse()) by {
                    assert(rev@.reverse() =~= seq![c] + prev.reverse());
                }
            } else {
                assert(dec_digits(v as int) =~= seq![c]);
                assert(rev@.reverse() =~= seq![c] + prev.reverse());
                assert(dec_digits(v as int) + prev.reverse() =~= rev@.reverse());
            }
        }
        v = v / 10;
    }
    let mut out = String::new();
    let mut i: usize = rev.len();
    while i > 0
        invariant
            i <= rev@.len(),
            out@ == rev@.reverse().take(rev@.len() - i),
        decreases i,
    {
        i = i - 1;
        push_char(&mut out, rev[i]);
        proof {
            let rv = rev@.reverse();
            assert(rv[rev@.len() - i - 1] == rev@[i as int]);
            assert(out@ =~= rv.take(rev@.len() - i));
        }
    }
    proof {
        assert(rev@.reverse().take(rev@.len() as int) =~= rev@.reverse());
    }
    out
}

} // verus!
