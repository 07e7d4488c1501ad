//! Decimal numbers and whitespace in text, written and read character by character.
use vstd::prelude::*;

verus! {

/// Relies on `String::push`: appends one character.
#[verifier::external_body]
pub(crate) fn push_char(s: &mut String, c: char)
    ensures
        final(s)@ == old(s)@.push(c),
{
    s.push(c)
}

/// The character of a decimal digit.
pub open spec fn digit_char(d: nat) -> char {
    if d == 0 { '0' } else if d == 1 { '1' } else if d == 2 { '2' } else if d == 3 { '3' }
    else if d == 4 { '4' } else if d == 5 { '5' } else if d == 6 { '6' } else if d == 7 { '7' }
    else if d == 8 { '8' } else { '9' }
}

/// Whether `c` is an ASCII decimal digit.
pub open spec fn is_digit(c: char) -> bool {
    '0' <= c && c <= '9'
}

/// The value of an ASCII digit.
pub open spec fn digit_value(c: char) -> nat {
    (c as u32 - '0' as u32) as nat
}

/// `n` written in decimal, without leading zeros.
pub open spec fn decimal(n: nat) -> Seq<char>
    decreases n,
{
    if n < 10 {
        seq![digit_char(n)]
    } else {
        decimal(n / 10).push(digit_char(n % 10))
    }
}

/// A signed integer written in decimal, with `-` before a negative one.
pub open spec fn signed_decimal(n: int) -> Seq<char> {
    if n < 0 {
        seq!['-'] + decimal((-n) as nat)
    } else {
        decimal(n as nat)
    }
}

/// The value of a string of decimal digits.
pub open spec fn digits_value(s: Seq<char>) -> nat
    decreases s.len(),
{
    if s.len() == 0 {
        0
    } else {
        digits_value(s.drop_last()) * 10 + digit_value(s.last())
    }
}

/// Whether every character of `s` is a decimal digit.
pub open spec fn all_digits(s: Seq<char>) -> bool {
    forall|i: int| 0 <= i < s.len() ==> is_digit(#[trigger] s[i])
}

/// Why a string is not a number.
#[derive(Clone, Copy, Debug, PartialEq, Eq, Structural)]
pub enum ParseIntError {
    /// There are no digits.
    Empty,
    /// A character is not a digit (or a sign stands where none may).
    InvalidDigit,
    /// The number is too large for the type.
    Overflow,
}

/// Reads an unsigned number of at most `limit` from a string of digits.
pub open spec fn parse_digits(s: Seq<char>, limit: nat) -> Result<nat, ParseIntError> {
    if s.len() == 0 {
        Err(ParseIntError::Empty)
    } else if !all_digits(s) {
        Err(ParseIntError::InvalidDigit)
    } else if digits_value(s) > limit {
        Err(ParseIntError::Overflow)
    } else {
        Ok(digits_value(s))
    }
}

/// Reads a `u16`: decimal digits, optionally after a `+`.
pub open spec fn parse_u16_spec(s: Seq<char>) -> Result<u16, ParseIntError> {
    let body = if s.len() > 0 && s[0] == '+' { s.drop_first() } else { s };
    if s.len() == 0 {
        Err(ParseIntError::Empty)
    } else if body.len() == 0 {
        Err(ParseIntError::InvalidDigit)
    } else {
        match parse_digits(body, 65535) {
            Ok(v) => Ok(v as u16),
            Err(e) => Err(e),
        }
    }
}

/// Reads an `i32`: decimal digits, optionally after a `+` or a `-`.
pub open spec fn parse_i32_spec(s: Seq<char>) -> Result<i32, ParseIntError> {
    let neg = s.len() > 0 && s[0] == '-';
    let body = if s.len() > 0 && (s[0] == '+' || s[0] == '-') { s.drop_first() } else { s };
    if s.len() == 0 {
        Err(ParseIntError::Empty)
    } else if body.len() == 0 {
        Err(ParseIntError::InvalidDigit)
    } else {
        match parse_digits(body, if neg { 2147483648 } else { 2147483647 }) {
            Ok(v) => Ok(if neg { (0 - v) as i32 } else { v as i32 }),
            Err(e) => Err(e),
        }
    }
}

/// The characters that `char::is_whitespace` accepts (Unicode `White_Space`).
pub open spec fn is_space(c: char) -> bool {
    c == '\t' || c == '\n' || c == '\u{0B}' || c == '\u{0C}' || c == '\r' || c == ' '
        || c == '\u{85}' || c == '\u{A0}' || c == '\u{1680}' || ('\u{2000}' <= c && c <= '\u{200A}')
        || c == '\u{2028}' || c == '\u{2029}' || c == '\u{202F}' || c == '\u{205F}'
        || c == '\u{3000}'
}

/// `s` without the whitespace at its start.
pub open spec fn trim_start(s: Seq<char>) -> Seq<char>
    decreases s.len(),
{
    if s.len() > 0 && is_space(s[0]) {
        trim_start(s.drop_first())
    } else {
        s
    }
}

/// `s` without the whitespace at its end.
pub open spec fn trim_end(s: Seq<char>) -> Seq<char>
    decreases s.len(),
{
    if s.len() > 0 && is_space(s.last()) {
        trim_end(s.drop_last())
    } else {
        s
    }
}

/// `s` without whitespace at either end.
pub open spec fn trimmed(s: Seq<char>) -> Seq<char> {
    trim_end(trim_start(s))
}

/// Whether `c` is whitespace.
pub fn char_is_space(c: char) -> (r: bool)
    ensures
        r == is_space(c),
{
    c == '\t' || c == '\n' || c == '\u{0B}' || c == '\u{0C}' || c == '\r' || c == ' '
        || c == '\u{85}' || c == '\u{A0}' || c == '\u{1680}' || ('\u{2000}' <= c && c <= '\u{200A}')
        || c == '\u{2028}' || c == '\u{2029}' || c == '\u{202F}' || c == '\u{205F}'
        || c == '\u{3000}'
}

/// The character of the digit `d`.
fn digit_to_char(d: u64) -> (c: char)
    requires
        d < 10,
    ensures
        c == digit_char(d as nat),
{
    if d == 0 { '0' } else if d == 1 { '1' } else if d == 2 { '2' } else if d == 3 { '3' }
    else if d == 4 { '4' } else if d == 5 { '5' } else if d == 6 { '6' } else if d == 7 { '7' }
    else if d == 8 { '8' } else { '9' }
}

/// Appends `n` in decimal.
pub fn push_decimal(s: &mut String, n: u64)
    ensures
        final(s)@ == old(s)@ + decimal(n as nat),
    decreases n,
{
    if n >= 10 {
        push_decimal(s, n / 10);
    }
    push_char(s, digit_to_char(n % 10));
    assert(decimal(n as nat) == if n < 10 { seq![digit_char(n as nat)] } else { decimal((n / 10) as nat).push(digit_char((n % 10) as nat)) });
    if n >= 10 {
        assert(old(s)@ + decimal((n / 10) as nat).push(digit_char((n % 10) as nat)) =~= (old(s)@ + decimal((n / 10) as nat)).push(digit_char((n % 10) as nat)));
    } else {
        assert(old(s)@ + seq![digit_char(n as nat)] =~= old(s)@.push(digit_char(n as nat)));
    }
}

/// Appends a signed number in decimal.
pub fn push_signed_decimal(s: &mut String, n: i64)
    ensures
        final(s)@ == old(s)@ + signed_decimal(n as int),
{
    if n < 0 {
        push_char(s, '-');
        let m: u64 = if n == i64::MIN { 9223372036854775808u64 } else { (-n) as u64 };
        push_decimal(s, m);
        assert(old(s)@.push('-') + decimal(m as nat) =~= old(s)@ + (seq!['-'] + decimal(m as nat)));
    } else {
        push_decimal(s, n as u64);
    }
}

proof fn lemma_digits_value_push(s: Seq<char>, c: char)
    ensures
        digits_value(s.push(c)) == digits_value(s) * 10 + digit_value(c),
{
    assert(s.push(c).drop_last() =~= s);
}

proof fn lemma_all_digits_push(s: Seq<char>, c: char)
    ensures
        all_digits(s.push(c)) == (all_digits(s) && is_digit(c)),
{
    if all_digits(s) && is_digit(c) {
        assert forall|i: int| 0 <= i < s.push(c).len() implies is_digit(#[trigger] s.push(c)[i]) by {
            if i < s.len() {
                assert(s.push(c)[i] == s[i]);
            }
        }
    }
    if all_digits(s.push(c)) {
        assert(is_digit(s.push(c)[s.len() as int]));
        assert forall|i: int| 0 <= i < s.len() implies is_digit(#[trigger] s[i]) by {
            assert(s.push(c)[i] == s[i]);
        }
    }
}

/// Reads the digits `s[from..]` as a number of at most `limit`.
fn read_digits(s: &str, from: usize, limit: u64) -> (r: Result<u64, ParseIntError>)
    requires
        from <= s@.len(),
        limit < 0x1_0000_0000,
    ensures
        match parse_digits(s@.subrange(from as int, s@.len() as int), limit as nat) {
            Ok(v) => r == Ok::<u64, ParseIntError>(v as u64),
            Err(e) => r == Err::<u64, ParseIntError>(e),
        },
{
    let n = s.unicode_len();
    let ghost body = s@.subrange(from as int, s@.len() as int);
    if from == n {
        return Err(ParseIntError::Empty);
    }
    let mut i: usize = from;
    let mut acc: u64 = 0;
    let mut big = false;
    let mut bad = false;
    while i < n
        invariant
            n == s@.len(),
            from < n,
            from <= i <= n,
            limit < 0x1_0000_0000,
            body == s@.subrange(from as int, n as int),
            bad == !all_digits(s@.subrange(from as int, i as int)),
            !bad && big ==> digits_value(s@.subrange(from as int, i as int)) > limit,
            !bad && !big ==> acc == digits_value(s@.subrange(from as int, i as int)) && acc <= limit,
        decreases n - i,
    {
        let c = s.get_char(i);
        let ghost pre = s@.subrange(from as int, i as int);
        assert(s@.subrange(from as int, i + 1) =~= pre.push(c));
        proof {
            lemma_digits_value_push(pre, c);
            lemma_all_digits_push(pre, c);
        }
        if '0' <= c && c <= '9' {
            if !bad && !big {
                let d = (c as u32 - '0' as u32) as u64;
                acc = acc * 10 + d;
                if acc > limit {
                    big = true;
                }
            } else if !bad && big {
                assert(digits_value(pre.push(c)) >= digits_value(pre));
            }
        } else {
            bad = true;
        }
        i = i + 1;
    }
    if bad {
        Err(ParseIntError::InvalidDigit)
    } else if big {
        Err(ParseIntError::Overflow)
    } else {
        Ok(acc)
    }
}

/// Reads a `u16` from the whole of `s`: digits, optionally after a `+`.
pub fn parse_u16(s: &str) -> (r: Result<u16, ParseIntError>)
    ensures
        r == parse_u16_spec(s@),
{
    let n = s.unicode_len();
    if n == 0 {
        return Err(ParseIntError::Empty);
    }
    let from: usize = if s.get_char(0) == '+' { 1 } else { 0 };
    assert(s@.subrange(from as int, n as int) =~= if s@[0] == '+' { s@.drop_first() } else { s@ });
    if from == n {
        return Err(ParseIntError::InvalidDigit);
    }
    match read_digits(s, from, 65535) {
        Ok(v) => Ok(v as u16),
        Err(e) => Err(e),
    }
}

/// Reads an `i32` from the whole of `s`: digits, optionally after a `+` or a `-`.
pub fn parse_i32(s: &str) -> (r: Result<i32, ParseIntError>)
    ensures
        r == parse_i32_spec(s@),
{
    let n = s.unicode_len();
    if n == 0 {
        return Err(ParseIntError::Empty);
    }
    let first = s.get_char(0);
    let neg = first == '-';
    let from: usize = if first == '+' || first == '-' { 1 } else { 0 };
    assert(s@.subrange(from as int, n as int) =~= if s@[0] == '+' || s@[0] == '-' { s@.drop_first() } else { s@ });
    if from == n {
        return Err(ParseIntError::InvalidDigit);
    }
    match read_digits(s, from, if neg { 2147483648 } else { 2147483647 }) {
        Ok(v) => {
            if neg {
                Ok((0 - (v as i64)) as i32)
            } else {
                Ok(v as i32)
            }
        },
        Err(e) => Err(e),
    }
}

/// The bounds of `s` without whitespace at either end, as character indices.
pub fn trim_bounds(s: &str) -> (r: (usize, usize))
    ensures
        r.0 <= r.1 <= s@.len(),
        s@.subrange(r.0 as int, r.1 as int) == trimmed(s@),
{
    let n = s.unicode_len();
    let mut a: usize = 0;
    assert(s@ =~= s@.subrange(0, n as int));
    while a < n && char_is_space(s.get_char(a))
        invariant
            n == s@.len(),
            a <= n,
            trim_start(s@) == trim_start(s@.subrange(a as int, n as int)),
        decreases n - a,
    {
        assert(s@.subrange(a + 1, n as int) =~= s@.subrange(a as int, n as int).drop_first());
        a = a + 1;
    }
    assert(trim_start(s@) == s@.subrange(a as int, n as int));
    let mut b: usize = n;
    while b > a && char_is_space(s.get_char(b - 1))
        invariant
            n == s@.len(),
            a <= b <= n,
            trimmed(s@) == trim_end(s@.subrange(a as int, b as int)),
        decreases b,
    {
        assert(s@.subrange(a as int, b - 1) =~= s@.subrange(a as int, b as int).drop_last());
        b = b - 1;
    }
    (a, b)
}

/// Appends every character of `t`.
pub fn push_str(s: &mut String, t: &str)
    ensures
        final(s)@ == old(s)@ + t@,
{
    let n = t.unicode_len();
    let mut i: usize = 0;
    while i < n
        invariant
            n == t@.len(),
            i <= n,
            s@ == old(s)@ + t@.subrange(0, i as int),
        decreases n - i,
    {
        push_char(s, t.get_char(i));
        assert(t@.subrange(0, i + 1) =~= t@.subrange(0, i as int).push(t@[i as int]));
        assert(s@ =~= old(s)@ + t@.subrange(0, i + 1));
        i = i + 1;
    }
    assert(t@.subrange(0, n as int) =~= t@);
}

/// The index of the first `c` in `s`, if any.
#[verifier::opaque]
pub open spec fn first_index(s: Seq<char>, c: char) -> Option<int> {
    if exists|i: int| 0 <= i < s.len() && s[i] == c {
        Some(choose|i: int| 0 <= i < s.len() && s[i] == c && forall|k: int| 0 <= k < i ==> s[k] != c)
    } else {
        None
    }
}

/// The index of the first `c` in `s[from..]`, if any.
pub fn find_first(s: &str, from: usize, c: char) -> (r: Option<usize>)
    requires
        from <= s@.len(),
    ensures
        r matches Some(k) ==> first_index(s@.subrange(from as int, s@.len() as int), c) == Some(k - from),
        r is None ==> first_index(s@.subrange(from as int, s@.len() as int), c) is None,
        r matches Some(k) ==> from <= k < s@.len(),
{
    let n = s.unicode_len();
    let ghost t = s@.subrange(from as int, n as int);
    let mut i: usize = from;
    while i < n
        invariant
            n == s@.len(),
            from <= i <= n,
            t == s@.subrange(from as int, n as int),
            forall|k: int| 0 <= k < i - from ==> t[k] != c,
        decreases n - i,
    {
        if s.get_char(i) == c {
            proof { reveal(first_index); }
            let ghost j = i - from;
            assert(t[j] == c);
            assert(exists|q: int| 0 <= q < t.len() && t[q] == c);
            let ghost w = choose|q: int| 0 <= q < t.len() && t[q] == c && forall|k: int| 0 <= k < q ==> t[k] != c;
            assert(0 <= j < t.len() && t[j] == c && forall|k: int| 0 <= k < j ==> t[k] != c);
            assert(w == j) by {
                if w < j {
                    assert(t[w] != c);
                } else if w > j {
                    assert(t[j] != c);
                }
            }
            return Some(i);
        }
        i = i + 1;
    }
    proof { reveal(first_index); }
    None
}

/// Compares a string with a literal, character by character.
pub fn str_eq(s: &str, lit: &str) -> (r: bool)
    ensures
        r == (s@ == lit@),
{
    let n = s.unicode_len();
    if n != lit.unicode_len() {
        return false;
    }
    let mut i: usize = 0;
    while i < n
        invariant
            n == s@.len(),
            n == lit@.len(),
            i <= n,
            s@.subrange(0, i as int) == lit@.subrange(0, i as int),
        decreases n - i,
    {
        if s.get_char(i) != lit.get_char(i) {
            assert(s@[i as int] != lit@[i as int]);
            return false;
        }
        assert(s@.subrange(0, i + 1) == s@.subrange(0, i as int).push(s@[i as int]));
        assert(lit@.subrange(0, i + 1) == lit@.subrange(0, i as int).push(lit@[i as int]));
        i = i + 1;
    }
    assert(s@ == s@.subrange(0, n as int));
    assert(lit@ == lit@.subrange(0, n as int));
    true
}

/// Whether `s` holds no `|`.
pub open spec fn no_bar(s: Seq<char>) -> bool {
    forall|i: int| 0 <= i < s.len() ==> s[i] != '|'
}

/// A number in decimal is a non-empty string of digits.
pub proof fn lemma_decimal_digits(n: nat)
    ensures
        decimal(n).len() >= 1,
        forall|i: int| 0 <= i < decimal(n).len() ==> is_digit(#[trigger] decimal(n)[i]),
    decreases n,
{
    if n >= 10 {
        lemma_decimal_digits(n / 10);
        let p = decimal(n / 10);
        assert forall|i: int| 0 <= i < decimal(n).len() implies is_digit(#[trigger] decimal(n)[i]) by {
            if i < p.len() {
                assert(decimal(n)[i] == p[i]);
            }
        }
    }
}

/// Different numbers are written differently.
pub proof fn lemma_decimal_injective(n: nat, m: nat)
    requires
        decimal(n) == decimal(m),
    ensures
        n == m,
    decreases n,
{
    lemma_decimal_digits(n / 10);
    lemma_decimal_digits(m / 10);
    if n < 10 && m < 10 {
        assert(decimal(n)[0] == digit_char(n));
    } else if n < 10 {
        assert(decimal(m).len() >= 2);
    } else if m < 10 {
        assert(decimal(n).len() >= 2);
    } else {
        assert(decimal(n).last() == digit_char(n % 10));
        assert(decimal(m).last() == digit_char(m % 10));
        assert(n % 10 == m % 10);
        assert(decimal(n).drop_last() =~= decimal(n / 10));
        assert(decimal(m).drop_last() =~= decimal(m / 10));
        lemma_decimal_injective(n / 10, m / 10);
    }
}

} // verus!
