//! Verified text utilities: decimal printing and parsing, character search,
//! substring containment, and JSON string escaping.

use vstd::prelude::*;
use vstd::string::StrSliceExecFns;
use vstd::string::StringExecFns;

verus! {

/// Relies on `String::push` of std: appends exactly the given character.
pub assume_specification[ String::push ](s: &mut String, c: char)
    ensures
        final(s)@ == old(s)@.push(c),
;

// ---------------------------------------------------------------------------
// Decimal digits
// ---------------------------------------------------------------------------

/// `c` is an ASCII decimal digit (`'0'` is code 48, `'9'` is code 57).
pub open spec fn is_dec_digit(c: char) -> bool {
    48 <= c as u32 && c as u32 <= 57
}

/// Numeric value of a decimal digit character.
pub open spec fn dec_digit_val(c: char) -> int {
    c as u32 - 48
}

/// The digit character for a value in `0 ..= 9`.
pub open spec fn dec_digit_char(n: int) -> char {
    if n == 0 {
        '0'
    } else if n == 1 {
        '1'
    } else if n == 2 {
        '2'
    } else if n == 3 {
        '3'
    } else if n == 4 {
        '4'
    } else if n == 5 {
        '5'
    } else if n == 6 {
        '6'
    } else if n == 7 {
        '7'
    } else if n == 8 {
        '8'
    } else {
        '9'
    }
}

/// Decimal representation of a natural number, most significant digit first,
/// with no leading zeros (`0` is `"0"`).
pub open spec fn dec_rep(n: nat) -> Seq<char>
    decreases n,
{
    if n < 10 {
        seq![dec_digit_char(n as int)]
    } else {
        dec_rep(n / 10).push(dec_digit_char((n % 10) as int))
    }
}

/// Decimal representation of an integer: a minus sign before the magnitude
/// when negative.
pub open spec fn int_rep(i: int) -> Seq<char> {
    if i < 0 {
        seq!['-'] + dec_rep((-i) as nat)
    } else {
        dec_rep(i as nat)
    }
}

fn dec_digit_to_char(d: u64) -> (c: char)
    requires
        d <= 9,
    ensures
        c == dec_digit_char(d as int),
{
    if d == 0 {
        '0'
    } else if d == 1 {
        '1'
    } else if d == 2 {
        '2'
    } else if d == 3 {
        '3'
    } else if d == 4 {
        '4'
    } else if d == 5 {
        '5'
    } else if d == 6 {
        '6'
    } else if d == 7 {
        '7'
    } else if d == 8 {
        '8'
    } else {
        '9'
    }
}

/// Renders a natural number in decimal.
pub fn u64_to_string(n: u64) -> (r: String)
    ensures
        r@ == dec_rep(n as nat),
{
    let mut digits: Vec<char> = Vec::new();
    let mut m: u64 = n;
    while m >= 10
        invariant
            dec_rep(n as nat) == dec_rep(m as nat) + digits@.reverse(),
        decreases m,
    {
        let d: u64 = m % 10;
        let dc = dec_digit_to_char(d);
        proof {
            assert(dec_rep(m as nat) == dec_rep((m as nat) / 10).push(dec_digit_char(d as int)));
            assert(digits@.push(dc).reverse() =~= seq![dc] + digits@.reverse());
            assert(dec_rep((m as nat) / 10) + digits@.push(dc).reverse() =~= dec_rep(m as nat)
                + digits@.reverse());
        }
        digits.push(dc);
        m = m / 10;
    }
    let dc = dec_digit_to_char(m);
    proof {
        assert(dec_rep(m as nat) =~= seq![dc]);
        assert(digits@.push(dc).reverse() =~= seq![dc] + digits@.reverse());
        assert(digits@.push(dc).reverse() =~= dec_rep(n as nat));
    }
    digits.push(dc);
    let ghost full = dec_rep(n as nat);
    let mut r = String::new();
    let len = digits.len();
    let mut k: usize = len;
    while k > 0
        invariant
            k <= len,
            len == digits@.len(),
            digits@.reverse() == full,
            full.len() == len,
            r@ == full.subrange(0, len - k),
        decreases k,
    {
        let c = digits[k - 1];
        proof {
            assert(digits@.reverse()[len - k] == digits@[k - 1]);
            assert(full.subrange(0, len - k).push(digits@[k - 1]) =~= full.subrange(
                0,
                len - k + 1,
            ));
        }
        r.push(c);
        k = k - 1;
    }
    proof {
        assert(full.subrange(0, len as int) =~= full);
    }
    r
}

/// Renders a `usize` in decimal.
pub fn usize_to_string(n: usize) -> (r: String)
    ensures
        r@ == dec_rep(n as nat),
{
    u64_to_string(n as u64)
}

/// Renders a signed integer in decimal.
pub fn i32_to_string(i: i32) -> (r: String)
    ensures
        r@ == int_rep(i as int),
{
    if i >= 0 {
        u64_to_string(i as u64)
    } else {
        let mag: u64 = (-(i as i64)) as u64;
        let mut r = String::new();
        r.push('-');
        let digits_str = u64_to_string(mag);
        r.append(digits_str.as_str());
        proof {
            assert(Seq::<char>::empty().push('-') =~= seq!['-']);
        }
        r
    }
}

// ---------------------------------------------------------------------------
// Decimal parsing, with the same shape `str::parse::<i32>` accepts:
// an optional sign followed by one or more digits, in range.
// ---------------------------------------------------------------------------

/// Every character of `s` is a decimal digit.
pub open spec fn seq_all_digits(s: Seq<char>) -> bool {
    forall|i: int| 0 <= i < s.len() ==> is_dec_digit(#[trigger] s[i])
}

/// Value of a digit string, most significant digit first.
pub open spec fn digits_val(s: Seq<char>) -> int
    decreases s.len(),
{
    if s.len() == 0 {
        0
    } else {
        digits_val(s.drop_last()) * 10 + dec_digit_val(s.last())
    }
}

/// The magnitude part of an integer string: everything after an optional
/// leading sign.
pub open spec fn int_str_mag(s: Seq<char>) -> Seq<char> {
    if s.len() > 0 && (s[0] == '-' || s[0] == '+') {
        s.drop_first()
    } else {
        s
    }
}

/// `-1` for a leading minus sign, `1` otherwise.
pub open spec fn int_str_sign(s: Seq<char>) -> int {
    if s.len() > 0 && s[0] == '-' {
        -1
    } else {
        1
    }
}

/// `s` is an optional sign followed by at least one digit.
pub open spec fn is_int_str(s: Seq<char>) -> bool {
    int_str_mag(s).len() > 0 && seq_all_digits(int_str_mag(s))
}

/// The integer an integer string denotes.
pub open spec fn int_str_val(s: Seq<char>) -> int {
    int_str_sign(s) * digits_val(int_str_mag(s))
}

/// `s` is an integer string whose value fits in `i32`; exactly the strings
/// `str::parse::<i32>` accepts.
pub open spec fn is_i32_str(s: Seq<char>) -> bool {
    is_int_str(s) && i32::MIN <= int_str_val(s) <= i32::MAX
}

/// The value of a digit string is never negative.
pub proof fn lemma_digits_val_nonneg(s: Seq<char>)
    requires
        seq_all_digits(s),
    ensures
        digits_val(s) >= 0,
    decreases s.len(),
{
    if s.len() > 0 {
        assert(seq_all_digits(s.drop_last()));
        lemma_digits_val_nonneg(s.drop_last());
        assert(is_dec_digit(s.last()));
    }
}

/// Extending a digit string never decreases its value.
pub proof fn lemma_digits_val_prefix_le(s: Seq<char>, i: int)
    requires
        seq_all_digits(s),
        0 <= i <= s.len(),
    ensures
        digits_val(s.subrange(0, i)) <= digits_val(s),
    decreases s.len() - i,
{
    if i < s.len() {
        let t = s.subrange(0, i + 1);
        assert(t.drop_last() =~= s.subrange(0, i));
        assert(seq_all_digits(t.drop_last()));
        lemma_digits_val_nonneg(t.drop_last());
        assert(digits_val(t) == digits_val(t.drop_last()) * 10 + dec_digit_val(t.last()));
        assert(digits_val(t.drop_last()) * 10 == digits_val(t.drop_last()) * 9 + digits_val(
            t.drop_last(),
        )) by (nonlinear_arith);
        assert(digits_val(t.drop_last()) * 9 >= 0) by (nonlinear_arith)
            requires
                digits_val(t.drop_last()) >= 0,
        ;
        assert(digits_val(s.subrange(0, i)) <= digits_val(t));
        lemma_digits_val_prefix_le(s, i + 1);
    } else {
        assert(s.subrange(0, i) =~= s);
    }
}

/// Parses a decimal integer exactly as `str::parse::<i32>` would: `Some`
/// on an optional sign followed by digits denoting a value in range, `None`
/// otherwise.
pub fn parse_i32(s: &str) -> (r: Option<i32>)
    ensures
        r is Some <==> is_i32_str(s@),
        r is Some ==> r->0 as int == int_str_val(s@),
{
    let n = s.unicode_len();
    if n == 0 {
        return None;
    }
    let c0 = s.get_char(0);
    let neg = c0 == '-';
    let signed = c0 == '-' || c0 == '+';
    let start: usize = if signed {
        1
    } else {
        0
    };
    proof {
        if signed {
            assert(int_str_mag(s@) =~= s@.subrange(1, n as int));
        } else {
            assert(int_str_mag(s@) =~= s@);
            assert(int_str_mag(s@) =~= s@.subrange(0, n as int));
        }
    }
    let ghost mag = int_str_mag(s@);
    if n == start {
        return None;
    }
    let limit: u64 = if neg {
        2147483648
    } else {
        2147483647
    };
    let mut acc: u64 = 0;
    let mut i: usize = start;
    while i < n
        invariant
            start <= i <= n,
            start <= 1,
            n == s@.len(),
            mag == int_str_mag(s@),
            mag == s@.subrange(start as int, n as int),
            mag.len() > 0,
            seq_all_digits(s@.subrange(start as int, i as int)),
            acc as int == digits_val(s@.subrange(start as int, i as int)),
            acc <= limit,
            limit <= 2147483648,
            neg ==> limit == 2147483648,
            !neg ==> limit == 2147483647,
            neg == (int_str_sign(s@) == -1),
        decreases n - i,
    {
        let c = s.get_char(i);
        let cv: u32 = c as u32;
        let ghost pre = s@.subrange(start as int, i as int);
        let ghost cur = s@.subrange(start as int, i + 1 as int);
        proof {
            assert(cur.drop_last() =~= pre);
            assert(cur.last() == s@[i as int]);
        }
        if cv < 48 || cv > 57 {
            // A non-digit inside the magnitude: not an integer string.
            proof {
                assert(mag[i - start] == s@[i as int]);
                assert(!is_dec_digit(mag[i - start]));
            }
            return None;
        }
        let d: u64 = (cv - 48) as u64;
        let new_acc: u64 = acc * 10 + d;
        if new_acc > limit {
            // Any continuation only grows the magnitude, so the value cannot
            // fit in `i32`.
            proof {
                assert(seq_all_digits(cur));
                if seq_all_digits(mag) {
                    assert(cur =~= mag.subrange(0, i + 1 - start));
                    lemma_digits_val_prefix_le(mag, i + 1 - start);
                    lemma_digits_val_nonneg(mag);
                    assert(digits_val(mag) >= new_acc);
                    if neg {
                        assert(int_str_val(s@) == -1 * digits_val(mag));
                        assert(int_str_val(s@) < i32::MIN);
                    } else {
                        assert(int_str_val(s@) == 1 * digits_val(mag));
                        assert(int_str_val(s@) > i32::MAX);
                    }
                }
            }
            return None;
        }
        acc = new_acc;
        i = i + 1;
    }
    proof {
        assert(s@.subrange(start as int, i as int) =~= mag);
        assert(seq_all_digits(mag));
        assert(is_int_str(s@));
        lemma_digits_val_nonneg(mag);
    }
    if neg {
        let v: i64 = -(acc as i64);
        proof {
            assert(int_str_val(s@) == -1 * digits_val(mag));
        }
        Some(v as i32)
    } else {
        proof {
            assert(int_str_val(s@) == 1 * digits_val(mag));
        }
        Some(acc as i32)
    }
}

// ---------------------------------------------------------------------------
// Character search and string comparison
// ---------------------------------------------------------------------------

/// `s` holds `c` somewhere.
pub open spec fn contains_char(s: Seq<char>, c: char) -> bool {
    exists|i: int| 0 <= i < s.len() && s[i] == c
}

/// `k` is the position of the first occurrence of `c` in `s`.
pub open spec fn is_first_index_of(s: Seq<char>, c: char, k: int) -> bool {
    0 <= k < s.len() && s[k] == c && forall|j: int| 0 <= j < k ==> s[j] != c
}

/// The position of the first occurrence of `c` in `s`; meaningful only when
/// `contains_char(s, c)` holds.
pub open spec fn first_index_of(s: Seq<char>, c: char) -> int {
    choose|k: int| is_first_index_of(s, c, k)
}

/// A character that occurs at all has a first occurrence.
pub proof fn lemma_first_index_exists(s: Seq<char>, c: char)
    requires
        contains_char(s, c),
    ensures
        is_first_index_of(s, c, first_index_of(s, c)),
    decreases s.len(),
{
    let i = choose|i: int| 0 <= i < s.len() && s[i] == c;
    if s[0] == c {
        assert(is_first_index_of(s, c, 0));
    } else {
        let t = s.drop_first();
        assert(t[i - 1] == c);
        assert(contains_char(t, c));
        lemma_first_index_exists(t, c);
        let k = first_index_of(t, c);
        assert(s[k + 1] == t[k]);
        assert(forall|j: int| 1 <= j < k + 1 ==> s[j] == t[j - 1]);
        assert(is_first_index_of(s, c, k + 1));
    }
}

/// The first occurrence is unique, so any witness pins it down.
pub proof fn lemma_first_index_unique(s: Seq<char>, c: char, k: int)
    requires
        is_first_index_of(s, c, k),
    ensures
        first_index_of(s, c) == k,
        contains_char(s, c),
{
    assert(contains_char(s, c)) by {
        assert(s[k] == c);
    }
    lemma_first_index_exists(s, c);
    let k2 = first_index_of(s, c);
    if k2 < k {
        assert(s[k2] != c);
    } else if k < k2 {
        assert(s[k] != c);
    }
}

/// Position of the first occurrence of `c` in `s` at or after `from`,
/// or `None`.
pub fn find_char_from(s: &str, c: char, from: usize) -> (r: Option<usize>)
    requires
        from <= s@.len(),
    ensures
        match r {
            Some(i) => from <= i < s@.len() && s@[i as int] == c && forall|j: int|
                from <= j < i ==> s@[j] != c,
            None => forall|j: int| from <= j < s@.len() ==> s@[j] != c,
        },
{
    let n = s.unicode_len();
    let mut i: usize = from;
    while i < n
        invariant
            from <= i <= n,
            n == s@.len(),
            forall|j: int| from <= j < i ==> s@[j] != c,
        decreases n - i,
    {
        if s.get_char(i) == c {
            return Some(i);
        }
        i = i + 1;
    }
    None
}

/// Position of the first occurrence of `c` in `s`, or `None`.
pub fn find_char(s: &str, c: char) -> (r: Option<usize>)
    ensures
        match r {
            Some(i) => i < s@.len() && s@[i as int] == c && forall|j: int| 0 <= j < i ==> s@[j]
                != c,
            None => !contains_char(s@, c),
        },
{
    find_char_from(s, c, 0)
}

/// Character-for-character string equality.
pub fn str_eq(a: &str, b: &str) -> (r: bool)
    ensures
        r <==> a@ == b@,
{
    let an = a.unicode_len();
    let bn = b.unicode_len();
    if an != bn {
        return false;
    }
    let mut i: usize = 0;
    while i < an
        invariant
            i <= an,
            an == a@.len(),
            an == b@.len(),
            forall|j: int| 0 <= j < i ==> a@[j] == b@[j],
        decreases an - i,
    {
        if a.get_char(i) != b.get_char(i) {
            return false;
        }
        i = i + 1;
    }
    proof {
        assert(a@ =~= b@);
    }
    true
}

// ---------------------------------------------------------------------------
// Substring containment
// ---------------------------------------------------------------------------

/// `needle` occurs contiguously somewhere in `hay`.
pub open spec fn seq_contains_sub(hay: Seq<char>, needle: Seq<char>) -> bool {
    exists|k: int|
        0 <= k && k + needle.len() <= hay.len() && #[trigger] hay.subrange(
            k,
            k + needle.len() as int,
        ) == needle
}

/// Substring search, the way `str::contains` decides it.
pub fn str_contains(hay: &str, needle: &str) -> (r: bool)
    ensures
        r <==> seq_contains_sub(hay@, needle@),
{
    let hn = hay.unicode_len();
    let nn = needle.unicode_len();
    if nn > hn {
        return false;
    }
    if nn == 0 {
        proof {
            assert(hay@.subrange(0, 0 + needle@.len() as int) =~= needle@);
        }
        return true;
    }
    let mut k: usize = 0;
    while k <= hn - nn
        invariant
            1 <= nn <= hn,
            hn == hay@.len(),
            nn == needle@.len(),
            k <= hn - nn + 1,
            forall|k2: int|
                0 <= k2 < k ==> #[trigger] hay@.subrange(k2, k2 + needle@.len() as int)
                    != needle@,
        decreases hn - nn - k + 1,
    {
        let mut j: usize = 0;
        let mut mismatch = false;
        while j < nn
            invariant
                j <= nn,
                k + nn <= hn,
                hn == hay@.len(),
                nn == needle@.len(),
                !mismatch ==> forall|j2: int|
                    0 <= j2 < j ==> hay@[k + j2] == needle@[j2],
                mismatch ==> hay@.subrange(k as int, k + nn as int) != needle@,
            decreases nn - j,
        {
            if hay.get_char(k + j) != needle.get_char(j) {
                proof {
                    assert(hay@.subrange(k as int, k + nn as int)[j as int] == hay@[k + j]);
                }
                mismatch = true;
                j = nn;
            } else {
                j = j + 1;
            }
        }
        if !mismatch {
            proof {
                assert(hay@.subrange(k as int, k + nn as int) =~= needle@);
            }
            return true;
        }
        k = k + 1;
    }
    proof {
        assert forall|k2: int| 0 <= k2 && k2 + needle@.len() <= hay@.len() implies #[trigger] hay@.subrange(
            k2,
            k2 + needle@.len() as int,
        ) != needle@ by {
            assert(k2 < k);
        }
    }
    false
}

// ---------------------------------------------------------------------------
// JSON string escaping
// ---------------------------------------------------------------------------

/// The hexadecimal digit character for a value in `0 ..= 15`.
pub open spec fn hex_digit_char(n: int) -> char {
    if n < 10 {
        dec_digit_char(n)
    } else if n == 10 {
        'a'
    } else if n == 11 {
        'b'
    } else if n == 12 {
        'c'
    } else if n == 13 {
        'd'
    } else if n == 14 {
        'e'
    } else {
        'f'
    }
}

/// How one character appears inside a JSON string literal: quote and
/// backslash get a backslash escape, the named control characters their
/// short escapes, any other control character a `\u00XX` escape, and
/// everything else stands as itself.
pub open spec fn json_esc_char(c: char) -> Seq<char> {
    if c == '"' {
        seq!['\\', '"']
    } else if c == '\\' {
        seq!['\\', '\\']
    } else if c as u32 == 8 {
        seq!['\\', 'b']
    } else if c as u32 == 9 {
        seq!['\\', 't']
    } else if c as u32 == 10 {
        seq!['\\', 'n']
    } else if c as u32 == 12 {
        seq!['\\', 'f']
    } else if c as u32 == 13 {
        seq!['\\', 'r']
    } else if (c as u32) < 32 {
        seq!['\\', 'u', '0', '0', hex_digit_char(((c as u32) / 16) as int), hex_digit_char(((c as u32) % 16) as int)]
    } else {
        seq![c]
    }
}

/// A whole string escaped for inclusion in a JSON string literal.
pub open spec fn json_escaped(s: Seq<char>) -> Seq<char>
    decreases s.len(),
{
    if s.len() == 0 {
        Seq::empty()
    } else {
        json_escaped(s.drop_last()) + json_esc_char(s.last())
    }
}

fn hex_digit_to_char(d: u32) -> (c: char)
    requires
        d <= 15,
    ensures
        c == hex_digit_char(d as int),
{
    if d == 0 {
        '0'
    } else if d == 1 {
        '1'
    } else if d == 2 {
        '2'
    } else if d == 3 {
        '3'
    } else if d == 4 {
        '4'
    } else if d == 5 {
        '5'
    } else if d == 6 {
        '6'
    } else if d == 7 {
        '7'
    } else if d == 8 {
        '8'
    } else if d == 9 {
        '9'
    } else if d == 10 {
        'a'
    } else if d == 11 {
        'b'
    } else if d == 12 {
        'c'
    } else if d == 13 {
        'd'
    } else if d == 14 {
        'e'
    } else {
        'f'
    }
}

/// Escapes a string for inclusion in a JSON string literal.
pub fn json_escape(s: &str) -> (r: String)
    ensures
        r@ == json_escaped(s@),
{
    let n = s.unicode_len();
    let mut r = String::new();
    let mut i: usize = 0;
    while i < n
        invariant
            i <= n,
            n == s@.len(),
            r@ == json_escaped(s@.subrange(0, i as int)),
        decreases n - i,
    {
        let c = s.get_char(i);
        let cv: u32 = c as u32;
        let ghost pre = s@.subrange(0, i as int);
        let ghost cur = s@.subrange(0, i + 1 as int);
        proof {
            assert(cur.drop_last() =~= pre);
            assert(cur.last() == s@[i as int]);
        }
        if c == '"' {
            r.push('\\');
            r.push('"');
            proof {
                assert(r@ =~= json_escaped(cur));
            }
        } else if c == '\\' {
            r.push('\\');
            r.push('\\');
            proof {
                assert(r@ =~= json_escaped(cur));
            }
        } else if cv == 8 {
            r.push('\\');
            r.push('b');
            proof {
                assert(r@ =~= json_escaped(cur));
            }
        } else if cv == 9 {
            r.push('\\');
            r.push('t');
            proof {
                assert(r@ =~= json_escaped(cur));
            }
        } else if cv == 10 {
            r.push('\\');
            r.push('n');
            proof {
                assert(r@ =~= json_escaped(cur));
            }
        } else if cv == 12 {
            r.push('\\');
            r.push('f');
            proof {
                assert(r@ =~= json_escaped(cur));
            }
        } else if cv == 13 {
            r.push('\\');
            r.push('r');
            proof {
                assert(r@ =~= json_escaped(cur));
            }
        } else if cv < 32 {
            r.push('\\');
            r.push('u');
            r.push('0');
            r.push('0');
            r.push(hex_digit_to_char(cv / 16));
            r.push(hex_digit_to_char(cv % 16));
            proof {
                assert(r@ =~= json_escaped(cur));
            }
        } else {
            r.push(c);
            proof {
                assert(r@ =~= json_escaped(cur));
            }
        }
        i = i + 1;
    }
    proof {
        assert(s@.subrange(0, n as int) =~= s@);
    }
    r
}

} // verus!
