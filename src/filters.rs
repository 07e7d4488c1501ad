//! Catalog filters: size ranges, the query that they make, and the fingerprint
//! under which the answer is cached.
use vstd::prelude::*;
use crate::rating::{KonachanRatingFilter, rating_filter_text};
use crate::text::{
    decimal, is_digit, lemma_decimal_digits, lemma_decimal_injective, no_bar, parse_u16, parse_u16_spec, push_char,
    push_decimal, ParseIntError,
};

verus! {

/// A bound on an image's width or height, as the catalog accepts it.
#[derive(Clone, Copy, Debug, PartialEq, Eq, Structural)]
pub enum Range {
    /// This size or more (`N..`).
    LeftBounded(u16),
    /// This size or less (`..N`).
    RightBounded(u16),
    /// Exactly this size (`N`).
    Exactly(u16),
}

/// Why a range given on the command line was refused.
#[derive(Clone, Copy, Debug, PartialEq, Eq, Structural)]
pub enum RangeParseError {
    FullRangeNotSupported,
    TwoWayRangeNotSupported,
    InvalidRange,
    ParseIntError(ParseIntError),
}

impl RangeParseError {
    /// The message shown to the operator.
    pub fn message(&self) -> &'static str {
        match self {
            RangeParseError::FullRangeNotSupported => "konachan.net does not support full ranges",
            RangeParseError::TwoWayRangeNotSupported => "konachan.net does not support two way ranges",
            RangeParseError::InvalidRange => "Invalid range",
            RangeParseError::ParseIntError(ParseIntError::Empty) => "cannot parse integer from empty string",
            RangeParseError::ParseIntError(ParseIntError::InvalidDigit) => "invalid digit found in string",
            RangeParseError::ParseIntError(ParseIntError::Overflow) => "number too large to fit in target type",
        }
    }
}

/// A range written as the catalog reads it.
pub open spec fn range_text(r: Range) -> Seq<char> {
    match r {
        Range::LeftBounded(n) => decimal(n as nat) + ".."@,
        Range::RightBounded(n) => ".."@ + decimal(n as nat),
        Range::Exactly(n) => decimal(n as nat),
    }
}

/// Whether `s` has `..` at index `i`.
pub open spec fn dots_at(s: Seq<char>, i: int) -> bool {
    0 <= i && i + 1 < s.len() && s[i] == '.' && s[i + 1] == '.'
}

/// How many times `..` occurs in `s`, counted left to right without overlap.
pub open spec fn count_dots(s: Seq<char>) -> nat
    decreases s.len(),
{
    if s.len() < 2 {
        0
    } else if dots_at(s, 0) {
        1 + count_dots(s.subrange(2, s.len() as int))
    } else {
        count_dots(s.drop_first())
    }
}

/// Whether `..` occurs in `s`.
pub open spec fn has_dots(s: Seq<char>) -> bool {
    exists|i: int| dots_at(s, i)
}

/// The range that a command-line word gives: `N..`, `..N` or `N`.
pub open spec fn parse_range(s: Seq<char>) -> Result<Range, RangeParseError> {
    if s == ".."@ {
        Err(RangeParseError::FullRangeNotSupported)
    } else if count_dots(s) >= 2 {
        Err(RangeParseError::InvalidRange)
    } else {
        let rest = if dots_at(s, 0) {
            s.subrange(2, s.len() as int)
        } else if dots_at(s, s.len() - 2) {
            s.subrange(0, s.len() - 2)
        } else {
            s
        };
        if has_dots(rest) {
            Err(RangeParseError::TwoWayRangeNotSupported)
        } else {
            match parse_u16_spec(rest) {
                Ok(n) => Ok(
                    if dots_at(s, 0) {
                        Range::RightBounded(n)
                    } else if dots_at(s, s.len() - 2) {
                        Range::LeftBounded(n)
                    } else {
                        Range::Exactly(n)
                    },
                ),
                Err(e) => Err(RangeParseError::ParseIntError(e)),
            }
        }
    }
}

/// Whether `..` occurs in `s[from..]`.
fn find_dots(s: &str, from: usize) -> (r: bool)
    requires
        from <= s@.len(),
    ensures
        r == has_dots(s@.subrange(from as int, s@.len() as int)),
{
    let n = s.unicode_len();
    let ghost t = s@.subrange(from as int, n as int);
    let mut i: usize = from;
    while i < n && i + 1 < n
        invariant
            n == s@.len(),
            from <= i,
            i <= n,
            t == s@.subrange(from as int, n as int),
            forall|k: int| from <= k < i ==> !dots_at(s@, k),
        decreases n - i,
    {
        if s.get_char(i) == '.' && s.get_char(i + 1) == '.' {
            assert(dots_at(t, i - from));
            return true;
        }
        i = i + 1;
    }
    assert forall|k: int| !dots_at(t, k) by {
        if dots_at(t, k) {
            assert(dots_at(s@, k + from));
        }
    }
    false
}

/// Counts `..` in `s`, left to right without overlap.
fn count_dots_exec(s: &str) -> (r: usize)
    ensures
        r == count_dots(s@),
{
    let n = s.unicode_len();
    let mut i: usize = 0;
    let mut count: usize = 0;
    assert(s@.subrange(0, n as int) =~= s@);
    while i < n
        invariant
            n == s@.len(),
            i <= n,
            count <= i,
            count + count_dots(s@.subrange(i as int, n as int)) == count_dots(s@),
        decreases n - i,
    {
        let ghost t = s@.subrange(i as int, n as int);
        if i + 1 < n && s.get_char(i) == '.' && s.get_char(i + 1) == '.' {
            assert(dots_at(t, 0));
            assert(t.subrange(2, t.len() as int) =~= s@.subrange(i + 2, n as int));
            count = count + 1;
            i = i + 2;
        } else {
            proof {
                if t.len() >= 2 {
                    assert(!dots_at(t, 0));
                    assert(t.drop_first() =~= s@.subrange(i + 1, n as int));
                } else {
                    assert(s@.subrange(i + 1, n as int).len() < 2);
                }
            }
            i = i + 1;
        }
    }
    count
}

impl Range {
    /// A range of exactly `input`.
    pub fn from(input: u16) -> (r: Range)
        ensures
            r == Range::Exactly(input),
    {
        Range::Exactly(input)
    }

    /// Reads `N..` (at least), `..N` (at most) or `N` (exactly); a full range, a
    /// range with two bounds and more than one `..` are refused.
    pub fn from_str(input: &str) -> (r: Result<Range, RangeParseError>)
        ensures
            r == parse_range(input@),
    {
        let n = input.unicode_len();
        if n == 2 && input.get_char(0) == '.' && input.get_char(1) == '.' {
            assert(input@ =~= ".."@) by {
                reveal_strlit("..");
            }
            return Err(RangeParseError::FullRangeNotSupported);
        }
        assert(input@ != ".."@) by {
            reveal_strlit("..");
            if input@ == ".."@ {
                assert(input@[0] == '.' && input@[1] == '.');
            }
        }
        if count_dots_exec(input) >= 2 {
            return Err(RangeParseError::InvalidRange);
        }
        let starts = n >= 2 && input.get_char(0) == '.' && input.get_char(1) == '.';
        let ends = n >= 2 && input.get_char(n - 2) == '.' && input.get_char(n - 1) == '.';
        assert(starts == dots_at(input@, 0));
        assert(ends == dots_at(input@, n - 2));
        let rest: &str = if starts {
            input.substring_char(2, n)
        } else if ends {
            input.substring_char(0, n - 2)
        } else {
            input.substring_char(0, n)
        };
        assert(input@.subrange(0, n as int) =~= input@);
        if find_dots(rest, 0) {
            assert(rest@.subrange(0, rest@.len() as int) =~= rest@);
            return Err(RangeParseError::TwoWayRangeNotSupported);
        }
        assert(rest@.subrange(0, rest@.len() as int) =~= rest@);
        match parse_u16(rest) {
            Ok(number) => {
                if starts {
                    Ok(Range::RightBounded(number))
                } else if ends {
                    Ok(Range::LeftBounded(number))
                } else {
                    Ok(Range::Exactly(number))
                }
            },
            Err(e) => Err(RangeParseError::ParseIntError(e)),
        }
    }

    /// Appends the range as the catalog reads it.
    pub fn push_text(&self, s: &mut String)
        ensures
            final(s)@ == old(s)@ + range_text(*self),
    {
        proof { reveal_strlit(".."); }
        match self {
            Range::LeftBounded(n) => {
                push_decimal(s, *n as u64);
                push_char(s, '.');
                push_char(s, '.');
                assert(final(s)@ =~= old(s)@ + range_text(*self)) by {
                    reveal_strlit("..");
                }
            },
            Range::RightBounded(n) => {
                push_char(s, '.');
                push_char(s, '.');
                push_decimal(s, *n as u64);
                assert(final(s)@ =~= old(s)@ + range_text(*self)) by {
                    reveal_strlit("..");
                }
            },
            Range::Exactly(n) => {
                push_decimal(s, *n as u64);
            },
        }
    }

    /// The range as the catalog reads it.
    pub fn to_text(&self) -> (r: String)
        ensures
            r@ == range_text(*self),
    {
        let mut s = String::new();
        self.push_text(&mut s);
        assert(s@ =~= range_text(*self));
        s
    }
}

/// A range's text holds no `|`, and different ranges have different texts.
pub proof fn lemma_range_text(r1: Range, r2: Range)
    ensures
        no_bar(range_text(r1)),
        range_text(r1) == range_text(r2) ==> r1 == r2,
{
    reveal_strlit("..");
    let dots = ".."@;
    assert(dots =~= seq!['.', '.']);
    let d1 = match r1 {
        Range::LeftBounded(n) => n,
        Range::RightBounded(n) => n,
        Range::Exactly(n) => n,
    };
    let d2 = match r2 {
        Range::LeftBounded(n) => n,
        Range::RightBounded(n) => n,
        Range::Exactly(n) => n,
    };
    let a = decimal(d1 as nat);
    let b = decimal(d2 as nat);
    lemma_decimal_digits(d1 as nat);
    lemma_decimal_digits(d2 as nat);
    let t1 = range_text(r1);
    let t2 = range_text(r2);
    assert forall|i: int| 0 <= i < t1.len() implies t1[i] != '|' by {
        match r1 {
            Range::LeftBounded(_) => {
                if i < a.len() {
                    assert(t1[i] == a[i]);
                }
            },
            Range::RightBounded(_) => {
                if i >= 2 {
                    assert(t1[i] == a[i - 2]);
                }
            },
            Range::Exactly(_) => {},
        }
    }
    if t1 == t2 {
        match (r1, r2) {
            (Range::LeftBounded(_), Range::LeftBounded(_)) => {
                assert(a =~= t1.subrange(0, t1.len() - 2));
                assert(b =~= t2.subrange(0, t2.len() - 2));
                lemma_decimal_injective(d1 as nat, d2 as nat);
            },
            (Range::RightBounded(_), Range::RightBounded(_)) => {
                assert(a =~= t1.subrange(2, t1.len() as int));
                assert(b =~= t2.subrange(2, t2.len() as int));
                lemma_decimal_injective(d1 as nat, d2 as nat);
            },
            (Range::Exactly(_), Range::Exactly(_)) => {
                lemma_decimal_injective(d1 as nat, d2 as nat);
            },
            (Range::LeftBounded(_), Range::RightBounded(_)) => {
                assert(t1[0] == a[0] && is_digit(a[0]));
            },
            (Range::RightBounded(_), Range::LeftBounded(_)) => {
                assert(t2[0] == b[0] && is_digit(b[0]));
            },
            (Range::LeftBounded(_), Range::Exactly(_)) => {
                assert(t1[t1.len() - 1] == '.');
                assert(is_digit(b[b.len() - 1]));
            },
            (Range::Exactly(_), Range::LeftBounded(_)) => {
                assert(t2[t2.len() - 1] == '.');
                assert(is_digit(a[a.len() - 1]));
            },
            (Range::RightBounded(_), Range::Exactly(_)) => {
                assert(is_digit(b[0]));
            },
            (Range::Exactly(_), Range::RightBounded(_)) => {
                assert(is_digit(a[0]));
            },
        }
    }
}

} // verus!
