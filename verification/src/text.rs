//! Verified text helpers: equality and prefix tests on strings, decimal
//! formatting and parsing of integers, and appending single characters.

use vstd::prelude::*;

verus! {

/// Relies on std's `String::push`: appends the given character to the end of
/// the string.
pub assume_specification[ std::string::String::push ](s: &mut String, c: char)
    ensures
        final(s)@ == old(s)@.push(c),
;

/// Whether two string slices hold the same characters.
pub fn eq_str(a: &str, b: &str) -> (r: bool)
    ensures
        r == (a@ == b@),
{
    let sa: String = a.to_owned();
    let sb: String = b.to_owned();
    sa == sb
}

/// Whether `prefix` is a prefix of `s`.
pub fn starts_with_str(s: &str, prefix: &str) -> (r: bool)
    ensures
        r == prefix@.is_prefix_of(s@),
{
    let n: usize = prefix.unicode_len();
    if n > s.unicode_len() {
        return false;
    }
    let mut i: usize = 0;
    while i < n
        invariant
            i <= n,
            n == prefix@.len(),
            n <= s@.len(),
            forall|j: int| 0 <= j < i ==> s@[j] == prefix@[j],
        decreases n - i,
    {
        if s.get_char(i) != prefix.get_char(i) {
            assert(s@.subrange(0, n as int)[i as int] != prefix@[i as int]);
            return false;
        }
        i += 1;
    }
    assert(s@.subrange(0, n as int) =~= prefix@);
    true
}

/// The character for one decimal digit.
pub open spec fn dec_digit_char(d: int) -> char {
    if d == 0 {
        '0'
    } else if d == 1 {
        '1'
    } else if d == 2 {
        '2'
    } else if d == 3 {
        '3'
    } else if d == 4 {
        '4'
    } else if d == 5 {
        '5'
    } else if d == 6 {
        '6'
    } else if d == 7 {
        '7'
    } else if d == 8 {
        '8'
    } else {
        '9'
    }
}

/// The decimal representation of a natural number, most significant digit
/// first, with no leading zeros (a single `0` for zero).
pub open spec fn dec_nat_str(n: nat) -> Seq<char>
    decreases n,
{
    if n < 10 {
        seq![dec_digit_char(n as int)]
    } else {
        dec_nat_str(n / 10) + seq![dec_digit_char((n % 10) as int)]
    }
}

/// The decimal representation of an integer: a leading `-` for negatives.
pub open spec fn dec_int_str(i: int) -> Seq<char> {
    if i < 0 {
        seq!['-'] + dec_nat_str((-i) as nat)
    } else {
        dec_nat_str(i as nat)
    }
}

/// The character for one decimal digit, executable form.
fn dec_digit(d: u64) -> (c: char)
    requires
        d < 10,
    ensures
        c == dec_digit_char(d as int),
{
    if d == 0 {
        '0'
    } else if d == 1 {
        '1'
    } else if d == 2 {
        '2'
    } else if d == 3 {
        '3'
    } else if d == 4 {
        '4'
    } else if d == 5 {
        '5'
    } else if d == 6 {
        '6'
    } else if d == 7 {
        '7'
    } else if d == 8 {
        '8'
    } else {
        '9'
    }
}

/// The decimal representation of a `u64`.
pub fn u64_to_string(n: u64) -> (r: String)
    ensures
        r@ == dec_nat_str(n as nat),
{
    let mut digits: Vec<char> = Vec::new();
    let mut m: u64 = n;
    while m >= 10
        invariant
            dec_nat_str(n as nat) == dec_nat_str(m as nat) + digits@,
        decreases m,
    {
        let d: u64 = m % 10;
        let ghost old_digits = digits@;
        let ghost old_m = m;
        digits.insert(0, dec_digit(d));
        m = m / 10;
        proof {
            assert(dec_nat_str(old_m as nat) == dec_nat_str(m as nat) + seq![
                dec_digit_char(d as int),
            ]);
            assert(dec_nat_str(m as nat) + digits@ =~= (dec_nat_str(m as nat) + seq![
                dec_digit_char(d as int),
            ]) + old_digits);
        }
    }
    let ghost old_digits = digits@;
    digits.insert(0, dec_digit(m));
    proof {
        assert(dec_nat_str(n as nat) =~= (seq![dec_digit_char(m as int)] + old_digits));
    }
    let mut r = String::new();
    let mut i: usize = 0;
    while i < digits.len()
        invariant
            i <= digits@.len(),
            r@ == digits@.subrange(0, i as int),
            digits@ == dec_nat_str(n as nat),
        decreases digits@.len() - i,
    {
        r.push(digits[i]);
        proof {
            assert(r@ =~= digits@.subrange(0, i + 1 as int));
        }
        i += 1;
    }
    proof {
        assert(r@ =~= dec_nat_str(n as nat));
    }
    r
}

/// The decimal representation of an `i64`.
pub fn i64_to_string(v: i64) -> (r: String)
    ensures
        r@ == dec_int_str(v as int),
{
    if v >= 0 {
        u64_to_string(v as u64)
    } else {
        let mag: u64 = ((-(v + 1)) as u64) + 1;
        assert(mag as int == -(v as int));
        let mut r = String::new();
        r.push('-');
        let m = u64_to_string(mag);
        r.append(m.as_str());
        proof {
            assert(r@ =~= dec_int_str(v as int));
        }
        r
    }
}

/// Whether a character is a decimal digit.
pub open spec fn is_dec_digit(c: char) -> bool {
    '0' as int <= c as int && c as int <= '9' as int
}

/// Whether every character of a sequence is a decimal digit.
pub open spec fn all_dec_digits(s: Seq<char>) -> bool {
    forall|i: int| 0 <= i < s.len() ==> is_dec_digit(s[i])
}

/// The numeric value of one digit character.
pub open spec fn digit_val(c: char) -> int {
    c as int - '0' as int
}

/// The numeric value of a digit sequence, most significant digit first.
pub open spec fn digits_val(s: Seq<char>) -> int
    decreases s.len(),
{
    if s.len() == 0 {
        0
    } else {
        digits_val(s.drop_last()) * 10 + digit_val(s.last())
    }
}

proof fn lemma_digits_val_nonneg(s: Seq<char>)
    requires
        all_dec_digits(s),
    ensures
        digits_val(s) >= 0,
    decreases s.len(),
{
    if s.len() > 0 {
        assert(all_dec_digits(s.drop_last()));
        lemma_digits_val_nonneg(s.drop_last());
    }
}

/// The value of a digit string only grows as more digits are read.
proof fn lemma_digits_val_prefix_le(s: Seq<char>, i: int)
    requires
        all_dec_digits(s),
        0 <= i <= s.len(),
    ensures
        digits_val(s.subrange(0, i)) <= digits_val(s),
    decreases s.len() - i,
{
    if i < s.len() {
        let t = s.subrange(0, s.len() - 1);
        assert(all_dec_digits(t));
        assert(t =~= s.drop_last());
        lemma_digits_val_nonneg(t);
        if i < s.len() - 1 {
            lemma_digits_val_prefix_le(t, i);
            assert(t.subrange(0, i) =~= s.subrange(0, i));
        } else {
            assert(s.subrange(0, i) =~= t);
        }
        assert(digits_val(s) == digits_val(t) * 10 + digit_val(s.last()));
        assert(digit_val(s.last()) >= 0);
        assert(digits_val(t) * 10 >= digits_val(t));
    } else {
        assert(s.subrange(0, i) =~= s);
    }
}

/// The part of a numeral after an optional leading `+`.
pub open spec fn unsigned_body(s: Seq<char>) -> Seq<char> {
    if s.len() > 0 && s[0] == '+' {
        s.drop_first()
    } else {
        s
    }
}

/// Whether a string is a valid `usize` numeral: an optional `+`, then at
/// least one digit, with a value that fits.
pub open spec fn parse_usize_ok(s: Seq<char>) -> bool {
    &&& unsigned_body(s).len() > 0
    &&& all_dec_digits(unsigned_body(s))
    &&& digits_val(unsigned_body(s)) <= usize::MAX as int
}

/// The value of a valid `usize` numeral.
pub open spec fn parse_usize_val(s: Seq<char>) -> int {
    digits_val(unsigned_body(s))
}

/// Parse a `usize` the way std's `parse` does: an optional `+`, then one or
/// more decimal digits; anything else, or a value out of range, is rejected.
pub fn parse_usize(s: &str) -> (r: Option<usize>)
    ensures
        match r {
            Some(v) => parse_usize_ok(s@) && v as int == parse_usize_val(s@),
            None => !parse_usize_ok(s@),
        },
{
    let n: usize = s.unicode_len();
    let start: usize = if n > 0 && s.get_char(0) == '+' {
        1
    } else {
        0
    };
    let ghost body = s@.subrange(start as int, n as int);
    proof {
        assert(body =~= unsigned_body(s@));
    }
    if start == n {
        return None;
    }
    let mut acc: usize = 0;
    let mut i: usize = start;
    while i < n
        invariant
            start <= i <= n,
            n == s@.len(),
            body == s@.subrange(start as int, n as int),
            body == unsigned_body(s@),
            all_dec_digits(body.subrange(0, i - start)),
            acc as int == digits_val(body.subrange(0, i - start)),
        decreases n - i,
    {
        let c = s.get_char(i);
        let cv: u32 = c as u32;
        if cv < 48 || cv > 57 {
            assert(!is_dec_digit(body[i - start]));
            return None;
        }
        let d: usize = (cv - 48) as usize;
        let ghost pref = body.subrange(0, i - start);
        let ghost pref1 = body.subrange(0, i + 1 - start);
        proof {
            assert(pref1.drop_last() =~= pref);
            assert(pref1.last() == body[i - start]);
            assert(all_dec_digits(pref1));
        }
        let next = match acc.checked_mul(10) {
            Some(m) => m.checked_add(d),
            None => None,
        };
        match next {
            Some(v) => {
                acc = v;
            },
            None => {
                proof {
                    assert(digits_val(pref1) > usize::MAX as int);
                    if all_dec_digits(body) {
                        lemma_digits_val_prefix_le(body, i + 1 - start);
                    }
                }
                return None;
            },
        }
        i += 1;
    }
    proof {
        assert(body.subrange(0, n - start) =~= body);
    }
    Some(acc)
}

/// The sign and magnitude of a signed numeral.
pub open spec fn signed_neg(s: Seq<char>) -> bool {
    s.len() > 0 && s[0] == '-'
}

/// The digit part of a signed numeral, after an optional `+` or `-`.
pub open spec fn signed_body(s: Seq<char>) -> Seq<char> {
    if s.len() > 0 && (s[0] == '+' || s[0] == '-') {
        s.drop_first()
    } else {
        s
    }
}

/// Whether a string is a valid `i64` numeral.
pub open spec fn parse_i64_ok(s: Seq<char>) -> bool {
    &&& signed_body(s).len() > 0
    &&& all_dec_digits(signed_body(s))
    &&& (if signed_neg(s) {
        digits_val(signed_body(s)) <= -(i64::MIN as int)
    } else {
        digits_val(signed_body(s)) <= i64::MAX as int
    })
}

/// The value of a valid `i64` numeral.
pub open spec fn parse_i64_val(s: Seq<char>) -> int {
    if signed_neg(s) {
        -digits_val(signed_body(s))
    } else {
        digits_val(signed_body(s))
    }
}

/// Parse an `i64` the way std's `parse` does: an optional sign, then one or
/// more decimal digits; anything else, or a value out of range, is rejected.
pub fn parse_i64(s: &str) -> (r: Option<i64>)
    ensures
        match r {
            Some(v) => parse_i64_ok(s@) && v as int == parse_i64_val(s@),
            None => !parse_i64_ok(s@),
        },
{
    let n: usize = s.unicode_len();
    let mut neg: bool = false;
    let mut start: usize = 0;
    if n > 0 {
        let c0 = s.get_char(0);
        if c0 == '-' {
            neg = true;
            start = 1;
        } else if c0 == '+' {
            start = 1;
        }
    }
    let ghost body = s@.subrange(start as int, n as int);
    proof {
        assert(body =~= signed_body(s@));
        assert(neg == signed_neg(s@));
    }
    if start == n {
        return None;
    }
    let mut acc: u64 = 0;
    let mut i: usize = start;
    while i < n
        invariant
            start <= i <= n,
            n == s@.len(),
            body == s@.subrange(start as int, n as int),
            body == signed_body(s@),
            all_dec_digits(body.subrange(0, i - start)),
            acc as int == digits_val(body.subrange(0, i - start)),
        decreases n - i,
    {
        let c = s.get_char(i);
        let cv: u32 = c as u32;
        if cv < 48 || cv > 57 {
            assert(!is_dec_digit(body[i - start]));
            return None;
        }
        let d: u64 = (cv - 48) as u64;
        let ghost pref1 = body.subrange(0, i + 1 - start);
        proof {
            assert(pref1.drop_last() =~= body.subrange(0, i - start));
            assert(pref1.last() == body[i - start]);
            assert(all_dec_digits(pref1));
        }
        let next = match acc.checked_mul(10) {
            Some(m) => m.checked_add(d),
            None => None,
        };
        match next {
            Some(v) => {
                acc = v;
            },
            None => {
                proof {
                    assert(digits_val(pref1) > u64::MAX as int);
                    if all_dec_digits(body) {
                        lemma_digits_val_prefix_le(body, i + 1 - start);
                    }
                }
                return None;
            },
        }
        i += 1;
    }
    proof {
        assert(body.subrange(0, n - start) =~= body);
    }
    if neg {
        if acc > 9223372036854775808u64 {
            return None;
        }
        if acc == 9223372036854775808u64 {
            Some(i64::MIN)
        } else {
            Some(-(acc as i64))
        }
    } else {
        if acc > 9223372036854775807u64 {
            return None;
        }
        Some(acc as i64)
    }
}

/// The result of translating each two-character `$$` escape to a `|`.
pub open spec fn dollar_replace(s: Seq<char>) -> Seq<char>
    decreases s.len(),
{
    if s.len() == 0 {
        Seq::empty()
    } else if s.len() >= 2 && s[0] == '$' && s[1] == '$' {
        seq!['|'] + dollar_replace(s.skip(2))
    } else {
        seq![s[0]] + dollar_replace(s.skip(1))
    }
}

/// Whether a character never occurs in a sequence.
pub open spec fn no_char(s: Seq<char>, c: char) -> bool {
    forall|i: int| 0 <= i < s.len() ==> s[i] != c
}

/// A string without `$` is left unchanged by the escape translation.
pub proof fn lemma_dollar_replace_plain(s: Seq<char>)
    requires
        no_char(s, '$'),
    ensures
        dollar_replace(s) == s,
    decreases s.len(),
{
    if s.len() > 0 {
        assert(no_char(s.skip(1), '$'));
        lemma_dollar_replace_plain(s.skip(1));
        assert(dollar_replace(s) =~= s);
    } else {
        assert(dollar_replace(s) =~= s);
    }
}

/// Translate each `$$` escape in a string to a literal `|`.
pub fn replace_dollars(s: &str) -> (r: String)
    ensures
        r@ == dollar_replace(s@),
{
    let n: usize = s.unicode_len();
    let mut out = String::new();
    let mut i: usize = 0;
    proof {
        assert(s@.skip(0) =~= s@);
        assert(out@ + dollar_replace(s@) =~= dollar_replace(s@));
    }
    while i < n
        invariant
            i <= n,
            n == s@.len(),
            out@ + dollar_replace(s@.skip(i as int)) == dollar_replace(s@),
        decreases n - i,
    {
        let ghost rest = s@.skip(i as int);
        let c = s.get_char(i);
        if c == '$' && i + 1 < n && s.get_char(i + 1) == '$' {
            out.push('|');
            proof {
                assert(rest[0] == '$' && rest[1] == '$');
                assert(rest.skip(2) =~= s@.skip(i + 2 as int));
                assert(dollar_replace(rest) == seq!['|'] + dollar_replace(s@.skip(i + 2 as int)));
                assert(out@ + dollar_replace(s@.skip(i + 2 as int)) =~= dollar_replace(s@));
            }
            i += 2;
        } else {
            out.push(c);
            proof {
                assert(rest[0] == c);
                assert(!(rest.len() >= 2 && rest[0] == '$' && rest[1] == '$'));
                assert(rest.skip(1) =~= s@.skip(i + 1 as int));
                assert(dollar_replace(rest) == seq![c] + dollar_replace(s@.skip(i + 1 as int)));
                assert(out@ + dollar_replace(s@.skip(i + 1 as int)) =~= dollar_replace(s@));
            }
            i += 1;
        }
    }
    proof {
        assert(s@.skip(n as int) =~= Seq::<char>::empty());
        assert(out@ =~= dollar_replace(s@));
    }
    out
}

/// Whether canonical path `p` lies inside canonical directory `root`: it is
/// the root itself, or extends it by a path separator.
pub open spec fn path_within(root: Seq<char>, p: Seq<char>) -> bool {
    ||| p == root
    ||| (root.len() > 0 && root[root.len() - 1] == '/' && root.is_prefix_of(p))
    ||| (root + seq!['/']).is_prefix_of(p)
}

/// Whether canonical path `p` lies inside canonical directory `root`.
pub fn is_path_within(root: &str, p: &str) -> (r: bool)
    ensures
        r == path_within(root@, p@),
{
    if eq_str(p, root) {
        return true;
    }
    let n: usize = root.unicode_len();
    if n > 0 && root.get_char(n - 1) == '/' {
        if starts_with_str(p, root) {
            return true;
        }
    }
    let mut root_slash: String = root.to_owned();
    root_slash.push('/');
    proof {
        assert(root_slash@ =~= root@ + seq!['/']);
    }
    starts_with_str(p, root_slash.as_str())
}

} // verus!
