//! Decimal text: formatting unsigned integers and parsing them back.

use vstd::prelude::*;
use vstd::string::StringExecFns;

verus! {

/// The character for a single decimal digit value.
pub open spec fn digit_char(d: u8) -> char {
    if d == 0 { '0' }
    else if d == 1 { '1' }
    else if d == 2 { '2' }
    else if d == 3 { '3' }
    else if d == 4 { '4' }
    else if d == 5 { '5' }
    else if d == 6 { '6' }
    else if d == 7 { '7' }
    else if d == 8 { '8' }
    else { '9' }
}

/// The decimal digit characters of `v`, most significant first.
pub open spec fn spec_digits(v: nat) -> Seq<char>
    decreases v,
{
    if v < 10 {
        seq![digit_char(v as u8)]
    } else {
        spec_digits(v / 10).push(digit_char((v % 10) as u8))
    }
}

fn digit_char_of(d: u8) -> (c: char)
    requires
        d <= 9,
    ensures
        c == digit_char(d),
{
    if d == 0 { '0' }
    else if d == 1 { '1' }
    else if d == 2 { '2' }
    else if d == 3 { '3' }
    else if d == 4 { '4' }
    else if d == 5 { '5' }
    else if d == 6 { '6' }
    else if d == 7 { '7' }
    else if d == 8 { '8' }
    else { '9' }
}

/// Relies on `String::push`: appends exactly the one character.
#[verifier::external_body]
pub fn push_char(s: &mut String, c: char)
    ensures
        final(s)@ == old(s)@.push(c),
{
    s.push(c);
}

/// Appends a string slice.
pub fn push_str(s: &mut String, t: &str)
    ensures
        final(s)@ == old(s)@ + t@,
{
    s.append(t);
}

/// Canonical decimal rendering of an unsigned integer.
pub fn u64_to_string(v: u64) -> (s: String)
    ensures
        s@ == spec_digits(v as nat),
    decreases v,
{
    if v < 10 {
        let mut s = String::new();
        push_char(&mut s, digit_char_of(v as u8));
        proof {
            assert(s@ =~= spec_digits(v as nat));
        }
        s
    } else {
        let mut s = u64_to_string(v / 10);
        push_char(&mut s, digit_char_of((v % 10) as u8));
        s
    }
}

/// Canonical decimal rendering of a `u32`.
pub fn u32_to_string(v: u32) -> (s: String)
    ensures
        s@ == spec_digits(v as nat),
{
    u64_to_string(v as u64)
}

/// Whether `c` is an ASCII decimal digit.
pub open spec fn is_ascii_digit(c: char) -> bool {
    48 <= c as u32 <= 57
}

/// The value of an ASCII decimal digit character.
pub open spec fn digit_val(c: char) -> nat {
    (c as u32 - 48) as nat
}

/// Whether every character of `s` is an ASCII decimal digit.
pub open spec fn all_digits(s: Seq<char>) -> bool {
    forall|i: int| 0 <= i < s.len() ==> is_ascii_digit(s[i])
}

/// The numeric value of a sequence of decimal digit characters.
pub open spec fn digits_val(s: Seq<char>) -> nat
    decreases s.len(),
{
    if s.len() == 0 {
        0
    } else {
        digits_val(s.drop_last()) * 10 + digit_val(s.last())
    }
}

/// What `str::parse::<u32>` accepts: an optional leading `+`, then one or
/// more ASCII decimal digits whose value fits in `u32`.
pub open spec fn spec_parse_u32(s: Seq<char>) -> Option<u32> {
    let t = if s.len() > 0 && s[0] == '+' { s.subrange(1, s.len() as int) } else { s };
    if t.len() > 0 && all_digits(t) && digits_val(t) <= u32::MAX {
        Some(digits_val(t) as u32)
    } else {
        None
    }
}

/// A digit sequence is worth at least as much as any of its prefixes.
proof fn lemma_digits_val_prefix(s: Seq<char>, k: int)
    requires
        0 <= k <= s.len(),
    ensures
        digits_val(s.subrange(0, k)) <= digits_val(s),
    decreases s.len() - k,
{
    if k == s.len() {
        assert(s.subrange(0, k) =~= s);
    } else {
        lemma_digits_val_prefix(s, k + 1);
        let a = s.subrange(0, k);
        let b = s.subrange(0, k + 1);
        assert(b.drop_last() =~= a);
        assert(digits_val(b) == digits_val(a) * 10 + digit_val(b.last()));
    }
}

/// Why `str::parse::<u32>` rejects a string, as its error text reports it:
/// an empty input, the first non-digit character, or the first digit at
/// which the accumulated value overflows — whichever the left-to-right
/// scan meets first.
#[derive(Clone, Copy, PartialEq, Eq, Structural, Debug)]
pub enum ParseFailure {
    EmptyInput,
    InvalidDigit,
    TooLarge,
}

/// The first failure a left-to-right scan of `t` meets, starting from the
/// accumulated value `acc`; `None` when every character is a digit and no
/// step overflows.
pub open spec fn digits_failure(t: Seq<char>, acc: nat) -> Option<ParseFailure>
    decreases t.len(),
{
    if t.len() == 0 {
        None
    } else if !is_ascii_digit(t[0]) {
        Some(ParseFailure::InvalidDigit)
    } else if acc * 10 + digit_val(t[0]) > u32::MAX {
        Some(ParseFailure::TooLarge)
    } else {
        digits_failure(t.subrange(1, t.len() as int), acc * 10 + digit_val(t[0]))
    }
}

/// How `str::parse::<u32>` fails on `s`: empty input is its own failure, a
/// lone sign counts as an invalid digit, and otherwise the scan decides.
pub open spec fn spec_parse_u32_failure(s: Seq<char>) -> Option<ParseFailure> {
    if s.len() == 0 {
        Some(ParseFailure::EmptyInput)
    } else {
        let t = if s[0] == '+' { s.subrange(1, s.len() as int) } else { s };
        if t.len() == 0 {
            Some(ParseFailure::InvalidDigit)
        } else {
            digits_failure(t, 0)
        }
    }
}

/// Parses an unsigned 32-bit integer, accepting exactly what
/// `str::parse::<u32>` accepts for this type, and failing with the kind
/// its error reports.
pub fn parse_u32(s: &str) -> (r: Result<u32, ParseFailure>)
    ensures
        r is Ok <==> spec_parse_u32(s@) is Some,
        r matches Ok(v) ==> Some(v) == spec_parse_u32(s@),
        r matches Err(k) ==> Some(k) == spec_parse_u32_failure(s@),
{
    let n = s.unicode_len();
    if n == 0 {
        return Err(ParseFailure::EmptyInput);
    }
    let start: usize = if s.get_char(0) == '+' { 1 } else { 0 };
    let ghost t = if s@[0] == '+' {
        s@.subrange(1, s@.len() as int)
    } else {
        s@
    };
    proof {
        assert(t =~= s@.subrange(start as int, s@.len() as int));
    }
    if start == n {
        return Err(ParseFailure::InvalidDigit);
    }
    let mut acc: u64 = 0;
    let mut i: usize = start;
    while i < n
        invariant
            start <= i <= n,
            n == s@.len(),
            n > 0,
            t == (if s@[0] == '+' {
                s@.subrange(1, s@.len() as int)
            } else {
                s@
            }),
            t == s@.subrange(start as int, s@.len() as int),
            t.len() > 0,
            all_digits(s@.subrange(start as int, i as int)),
            acc == digits_val(s@.subrange(start as int, i as int)),
            acc <= u32::MAX,
            digits_failure(t, 0) == digits_failure(
                s@.subrange(i as int, s@.len() as int),
                acc as nat,
            ),
        decreases n - i,
    {
        let ghost rem = s@.subrange(i as int, s@.len() as int);
        proof {
            assert(rem[0] == s@[i as int]);
            assert(rem.subrange(1, rem.len() as int) =~= s@.subrange(i + 1, s@.len() as int));
        }
        let c = s.get_char(i);
        let code = c as u32;
        if code < 48 || code > 57 {
            proof {
                assert(s@.subrange(start as int, s@.len() as int)[i - start] == s@[i as int]);
                assert(!all_digits(t));
                assert(digits_failure(rem, acc as nat) == Some(ParseFailure::InvalidDigit));
            }
            return Err(ParseFailure::InvalidDigit);
        }
        let d = (code - 48) as u64;
        let next = acc * 10 + d;
        proof {
            let a = s@.subrange(start as int, i as int);
            let b = s@.subrange(start as int, i + 1 as int);
            assert(b.drop_last() =~= a);
            assert(b.last() == s@[i as int]);
        }
        if next > u32::MAX as u64 {
            proof {
                lemma_digits_val_prefix(t, i + 1 - start);
                assert(t.subrange(0, i + 1 - start) =~= s@.subrange(start as int, i + 1 as int));
                assert(digits_failure(rem, acc as nat) == Some(ParseFailure::TooLarge));
            }
            return Err(ParseFailure::TooLarge);
        }
        acc = next;
        i = i + 1;
    }
    proof {
        assert(s@.subrange(start as int, i as int) =~= t);
    }
    Ok(acc as u32)
}

proof fn lemma_digits_props(v: nat)
    ensures
        spec_digits(v).len() >= 1,
        all_digits(spec_digits(v)),
        digits_val(spec_digits(v)) == v,
    decreases v,
{
    if v < 10 {
        let s = spec_digits(v);
        assert(s =~= seq![digit_char(v as u8)]);
        assert(s.len() == 1);
        assert(s.last() == digit_char(v as u8));
        assert(s.drop_last() =~= Seq::<char>::empty());
        assert(digits_val(Seq::<char>::empty()) == 0);
        assert(digits_val(s) == digits_val(s.drop_last()) * 10 + digit_val(s.last()));
        assert(digits_val(s) == digit_val(digit_char(v as u8)));
        assert(is_ascii_digit(digit_char(v as u8)));
        assert(digit_val(digit_char(v as u8)) == v);
    } else {
        lemma_digits_props(v / 10);
        let prev = spec_digits(v / 10);
        let d = digit_char((v % 10) as u8);
        let s = prev.push(d);
        assert(s.drop_last() =~= prev);
        assert(s.last() == d);
        assert(digit_val(d) == v % 10);
        assert(forall|i: int|
            0 <= i < s.len() ==> is_ascii_digit(#[trigger] s[i]) == if i < prev.len() {
                is_ascii_digit(prev[i])
            } else {
                is_ascii_digit(d)
            });
        assert(digits_val(s) == digits_val(prev) * 10 + digit_val(d));
        assert(digits_val(prev) * 10 + v % 10 == v) by {
            assert(digits_val(prev) == v / 10);
        };
    }
}

/// Formatting an unsigned 32-bit integer and parsing the result gives the
/// same value back.
pub proof fn lemma_digits_roundtrip(v: nat)
    requires
        v <= u32::MAX,
    ensures
        spec_parse_u32(spec_digits(v)) == Some(v as u32),
{
    lemma_digits_props(v);
    let s = spec_digits(v);
    assert(is_ascii_digit(s[0]));
    assert(s[0] != '+');
}

} // verus!
