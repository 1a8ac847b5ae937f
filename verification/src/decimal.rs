//! Exact decimal numbers for the threshold field: parsing from the
//! transport string, canonicalization, ordering and rendering.  A value is
//! kept as its sign and its decimal digits, so comparisons are exact and no
//! floating point is involved until the rendered program is compiled.

use vstd::prelude::*;
use crate::text::{all_digits, digit_char, is_ascii_digit, push_char};

verus! {

/// Mathematical model of a canonical decimal: sign, integer-part digits
/// (no leading zero unless the part is the single digit 0) and
/// fractional-part digits (no trailing zero); zero is never negative.
pub struct DecV {
    pub neg: bool,
    pub int_digits: Seq<u8>,
    pub frac_digits: Seq<u8>,
}

/// A canonical decimal number.
pub struct Dec {
    pub neg: bool,
    pub int_digits: Vec<u8>,
    pub frac_digits: Vec<u8>,
}

impl View for Dec {
    type V = DecV;

    open spec fn view(&self) -> DecV {
        DecV { neg: self.neg, int_digits: self.int_digits@, frac_digits: self.frac_digits@ }
    }
}

pub open spec fn dec_is_zero(d: DecV) -> bool {
    d.int_digits =~= seq![0u8] && d.frac_digits.len() == 0
}

/// Well-formedness of the canonical form.
pub open spec fn dec_wf(d: DecV) -> bool {
    &&& d.int_digits.len() >= 1
    &&& (forall|i: int| 0 <= i < d.int_digits.len() ==> d.int_digits[i] <= 9)
    &&& (forall|i: int| 0 <= i < d.frac_digits.len() ==> d.frac_digits[i] <= 9)
    &&& (d.int_digits.len() > 1 ==> d.int_digits[0] != 0)
    &&& (d.frac_digits.len() > 0 ==> d.frac_digits.last() != 0)
    &&& (d.neg ==> !dec_is_zero(d))
}

/// Index of the first `.` in `s`, or `s.len()` if there is none.
pub open spec fn find_dot(s: Seq<char>) -> int
    decreases s.len(),
{
    if s.len() == 0 {
        0
    } else if s[0] == '.' {
        0
    } else {
        1 + find_dot(s.subrange(1, s.len() as int))
    }
}

proof fn lemma_find_dot_at(s: Seq<char>, i: int)
    requires
        0 <= i <= s.len(),
        forall|j: int| 0 <= j < i ==> s[j] != '.',
        i < s.len() ==> s[i] == '.',
    ensures
        find_dot(s) == i,
    decreases s.len(),
{
    if s.len() == 0 {
    } else if s[0] == '.' {
        assert(i == 0);
    } else {
        let t = s.subrange(1, s.len() as int);
        assert(i >= 1);
        assert(forall|j: int| 0 <= j < i - 1 ==> t[j] != '.');
        lemma_find_dot_at(t, i - 1);
    }
}

/// The digit values of a sequence of ASCII digit characters.
pub open spec fn char_digits_to_vals(s: Seq<char>) -> Seq<u8> {
    s.map_values(|c: char| (c as u32 - 48) as u8)
}

/// The digit characters of a sequence of digit values.
pub open spec fn vals_to_chars(s: Seq<u8>) -> Seq<char> {
    s.map_values(|d: u8| digit_char(d))
}

proof fn lemma_strip_leading_props(s: Seq<u8>)
    requires
        s.len() >= 1,
        forall|i: int| 0 <= i < s.len() ==> s[i] <= 9,
    ensures
        strip_leading_zeros(s).len() >= 1,
        forall|i: int| 0 <= i < strip_leading_zeros(s).len() ==> strip_leading_zeros(s)[i] <= 9,
        strip_leading_zeros(s).len() > 1 ==> strip_leading_zeros(s)[0] != 0,
    decreases s.len(),
{
    if s.len() > 1 && s[0] == 0 {
        let t = s.subrange(1, s.len() as int);
        lemma_strip_leading_props(t);
    }
}

proof fn lemma_strip_trailing_props(s: Seq<u8>)
    requires
        forall|i: int| 0 <= i < s.len() ==> s[i] <= 9,
    ensures
        forall|i: int| 0 <= i < strip_trailing_zeros(s).len() ==> strip_trailing_zeros(s)[i] <= 9,
        strip_trailing_zeros(s).len() > 0 ==> strip_trailing_zeros(s).last() != 0,
    decreases s.len(),
{
    if s.len() > 0 && s.last() == 0 {
        lemma_strip_trailing_props(s.drop_last());
    }
}

/// A well-formed decimal comes out of canonicalizing any raw digit parts.
pub proof fn lemma_canon_dec_wf(neg: bool, ip: Seq<u8>, fp: Seq<u8>)
    requires
        ip.len() >= 1,
        forall|i: int| 0 <= i < ip.len() ==> ip[i] <= 9,
        forall|i: int| 0 <= i < fp.len() ==> fp[i] <= 9,
    ensures
        dec_wf(canon_dec(neg, ip, fp)),
{
    lemma_strip_leading_props(ip);
    lemma_strip_trailing_props(fp);
    let d = canon_dec(neg, ip, fp);
    if d.neg {
        assert(!(strip_leading_zeros(ip) =~= seq![0u8] && strip_trailing_zeros(fp).len() == 0));
    }
}

/// Drops leading zero digits, keeping at least one digit.
pub open spec fn strip_leading_zeros(s: Seq<u8>) -> Seq<u8>
    decreases s.len(),
{
    if s.len() <= 1 {
        s
    } else if s[0] == 0 {
        strip_leading_zeros(s.subrange(1, s.len() as int))
    } else {
        s
    }
}

/// Drops trailing zero digits.
pub open spec fn strip_trailing_zeros(s: Seq<u8>) -> Seq<u8>
    decreases s.len(),
{
    if s.len() == 0 {
        s
    } else if s.last() == 0 {
        strip_trailing_zeros(s.drop_last())
    } else {
        s
    }
}

/// The canonical decimal with the given sign and raw digit parts.
pub open spec fn canon_dec(neg: bool, ip: Seq<u8>, fp: Seq<u8>) -> DecV {
    let ci = strip_leading_zeros(ip);
    let cf = strip_trailing_zeros(fp);
    let zero = ci =~= seq![0u8] && cf.len() == 0;
    DecV { neg: neg && !zero, int_digits: ci, frac_digits: cf }
}

/// What the decimal grammar accepts: an optional `-`, one or more digits,
/// then optionally a `.` followed by one or more digits.  The result is in
/// canonical form.
pub open spec fn spec_parse_dec(s: Seq<char>) -> Option<DecV> {
    let neg = s.len() > 0 && s[0] == '-';
    let body = if neg { s.subrange(1, s.len() as int) } else { s };
    let d = find_dot(body);
    let ipart = body.subrange(0, d);
    let fpart = if d < body.len() { body.subrange(d + 1, body.len() as int) } else { Seq::empty() };
    if ipart.len() > 0 && all_digits(ipart) && (d == body.len() || (fpart.len() > 0
        && all_digits(fpart))) {
        Some(canon_dec(neg, char_digits_to_vals(ipart), char_digits_to_vals(fpart)))
    } else {
        None
    }
}

/// Lexicographic order on equal-length digit sequences.
pub open spec fn digits_lt(a: Seq<u8>, b: Seq<u8>) -> bool
    decreases a.len(),
{
    if a.len() == 0 || b.len() == 0 {
        false
    } else if a[0] < b[0] {
        true
    } else if a[0] > b[0] {
        false
    } else {
        digits_lt(a.subrange(1, a.len() as int), b.subrange(1, b.len() as int))
    }
}

/// Order on canonical fractional parts: lexicographic, with the shorter
/// part implicitly padded by zeros.  Sound because a canonical fractional
/// part never ends in a zero digit.
pub open spec fn frac_lt(a: Seq<u8>, b: Seq<u8>) -> bool
    decreases a.len() + b.len(),
{
    if b.len() == 0 {
        false
    } else if a.len() == 0 {
        true
    } else if a[0] < b[0] {
        true
    } else if a[0] > b[0] {
        false
    } else {
        frac_lt(a.subrange(1, a.len() as int), b.subrange(1, b.len() as int))
    }
}

/// `|a| < |b|` on canonical decimals: a longer integer part is larger;
/// equal-length integer parts compare lexicographically; equal integer
/// parts fall back to the fractional parts.
pub open spec fn mag_lt(a: DecV, b: DecV) -> bool {
    if a.int_digits.len() != b.int_digits.len() {
        a.int_digits.len() < b.int_digits.len()
    } else if !(a.int_digits =~= b.int_digits) {
        digits_lt(a.int_digits, b.int_digits)
    } else {
        frac_lt(a.frac_digits, b.frac_digits)
    }
}

/// Numeric order on canonical decimals.
pub open spec fn dec_lt(a: DecV, b: DecV) -> bool {
    if a.neg != b.neg {
        a.neg
    } else if a.neg {
        mag_lt(b, a)
    } else {
        mag_lt(a, b)
    }
}

/// Numeric equality on canonical decimals.
pub open spec fn dec_eq(a: DecV, b: DecV) -> bool {
    a.neg == b.neg && a.int_digits =~= b.int_digits && a.frac_digits =~= b.frac_digits
}

/// Canonical text of a decimal: sign, integer digits, a dot, and the
/// fractional digits (`0` when there are none), e.g. `-3.25` or `5.0`.
pub open spec fn dec_render(d: DecV) -> Seq<char> {
    let sign: Seq<char> = if d.neg { seq!['-'] } else { Seq::empty() };
    let fp: Seq<char> = if d.frac_digits.len() == 0 { seq!['0'] } else { vals_to_chars(d.frac_digits) };
    sign + vals_to_chars(d.int_digits) + seq!['.'] + fp
}

fn collect_digits(s: &str, from: usize, to: usize) -> (r: Option<Vec<u8>>)
    requires
        from <= to <= s@.len(),
    ensures
        r is Some <==> all_digits(s@.subrange(from as int, to as int)),
        r is Some ==> r->Some_0@ == char_digits_to_vals(s@.subrange(from as int, to as int)),
{
    let ghost part = s@.subrange(from as int, to as int);
    let mut out: Vec<u8> = Vec::new();
    let mut i: usize = from;
    while i < to
        invariant
            from <= i <= to <= s@.len(),
            part == s@.subrange(from as int, to as int),
            out@.len() == i - from,
            forall|k: int| 0 <= k < out@.len() ==> is_ascii_digit(#[trigger] part[k]) && out@[k]
                == (part[k] as u32 - 48) as u8,
        decreases to - i,
    {
        let c = s.get_char(i);
        let code = c as u32;
        proof {
            assert(part[i - from] == s@[i as int]);
        }
        if code < 48 || code > 57 {
            proof {
                assert(!all_digits(part));
            }
            return None;
        }
        out.push((code - 48) as u8);
        i = i + 1;
    }
    proof {
        assert(forall|k: int| 0 <= k < part.len() ==> is_ascii_digit(#[trigger] part[k]));
        assert(out@ =~= char_digits_to_vals(part));
    }
    Some(out)
}

fn strip_lead(v: Vec<u8>) -> (r: Vec<u8>)
    ensures
        r@ == strip_leading_zeros(v@),
{
    proof {
        assert(v@.subrange(0, v@.len() as int) =~= v@);
    }
    let mut i: usize = 0;
    while i + 1 < v.len() && *v.get(i).unwrap() == 0
        invariant
            i < v.len() || v.len() == 0,
            i <= v.len(),
            strip_leading_zeros(v@) == strip_leading_zeros(v@.subrange(i as int, v@.len() as int)),
        decreases v.len() - i,
    {
        proof {
            let cur = v@.subrange(i as int, v@.len() as int);
            assert(cur[0] == v@[i as int]);
            assert(cur.subrange(1, cur.len() as int) =~= v@.subrange(i + 1, v@.len() as int));
        }
        i = i + 1;
    }
    let mut out: Vec<u8> = Vec::new();
    let mut j: usize = i;
    while j < v.len()
        invariant
            i <= j <= v.len(),
            out@ =~= v@.subrange(i as int, j as int),
        decreases v.len() - j,
    {
        out.push(*v.get(j).unwrap());
        j = j + 1;
    }
    proof {
        let cur = v@.subrange(i as int, v@.len() as int);
        assert(out@ =~= cur);
        if v@.len() == 0 {
            assert(cur =~= v@);
        }
    }
    out
}

fn strip_trail(v: Vec<u8>) -> (r: Vec<u8>)
    ensures
        r@ == strip_trailing_zeros(v@),
{
    let mut out = v;
    while out.len() > 0 && *out.get(out.len() - 1).unwrap() == 0
        invariant
            strip_trailing_zeros(out@) == strip_trailing_zeros(v@),
        decreases out.len(),
    {
        proof {
            assert(out@.last() == out@[out@.len() - 1]);
        }
        out.pop();
        proof {
            assert(out@ =~= out@);
        }
    }
    out
}

/// Parses the decimal grammar: an optional `-`, one or more digits, then
/// optionally a `.` followed by one or more digits.  The result is the
/// canonical form of the value.
pub fn parse_dec(s: &str) -> (r: Option<Dec>)
    ensures
        r is Some <==> spec_parse_dec(s@) is Some,
        r is Some ==> r->Some_0@ == spec_parse_dec(s@)->Some_0,
        r is Some ==> dec_wf(r->Some_0@),
{
    let n = s.unicode_len();
    let start: usize = if n > 0 && s.get_char(0) == '-' { 1 } else { 0 };
    let ghost neg_spec = s@.len() > 0 && s@[0] == '-';
    let ghost body = if neg_spec { s@.subrange(1, s@.len() as int) } else { s@ };
    proof {
        assert(body =~= s@.subrange(start as int, s@.len() as int));
    }
    // find the first dot at or after `start`
    let mut dot: usize = start;
    while dot < n && s.get_char(dot) != '.'
        invariant
            start <= dot <= n,
            n == s@.len(),
            forall|j: int| start <= j < dot ==> s@[j] != '.',
        decreases n - dot,
    {
        dot = dot + 1;
    }
    proof {
        assert(forall|j: int| 0 <= j < dot - start ==> body[j] == s@[j + start] && body[j] != '.');
        if dot < n {
            assert(body[dot - start] == s@[dot as int]);
        }
        lemma_find_dot_at(body, dot - start);
    }
    let ipart_digits = match collect_digits(s, start, dot) {
        Some(d) => d,
        None => {
            proof {
                assert(body.subrange(0, dot - start) =~= s@.subrange(start as int, dot as int));
            }
            return None;
        },
    };
    proof {
        assert(body.subrange(0, dot - start) =~= s@.subrange(start as int, dot as int));
    }
    if ipart_digits.len() == 0 {
        return None;
    }
    let fpart_digits = if dot < n {
        if dot + 1 == n {
            // a trailing dot with no fractional digits is rejected
            proof {
                assert(body.subrange(dot - start + 1, body.len() as int) =~= s@.subrange(
                    dot + 1,
                    n as int,
                ));
            }
            return None;
        }
        match collect_digits(s, dot + 1, n) {
            Some(d) => {
                proof {
                    assert(body.subrange(dot - start + 1, body.len() as int) =~= s@.subrange(
                        dot + 1,
                        n as int,
                    ));
                }
                d
            },
            None => {
                proof {
                    assert(body.subrange(dot - start + 1, body.len() as int) =~= s@.subrange(
                        dot + 1,
                        n as int,
                    ));
                }
                return None;
            },
        }
    } else {
        proof {
            assert(Seq::<u8>::empty() =~= char_digits_to_vals(Seq::<char>::empty()));
        }
        Vec::new()
    };
    let ci = strip_lead(ipart_digits);
    let cf = strip_trail(fpart_digits);
    let zero = ci.len() == 1 && *ci.get(0).unwrap() == 0 && cf.len() == 0;
    proof {
        if ci@.len() == 1 && ci@[0] == 0 {
            assert(ci@ =~= seq![0u8]);
        }
    }
    let neg = if start == 1 && !zero { true } else { false };
    proof {
        let ipart = body.subrange(0, dot - start);
        let fpart = if dot - start < body.len() {
            body.subrange(dot - start + 1, body.len() as int)
        } else {
            Seq::<char>::empty()
        };
        assert(forall|i: int| 0 <= i < ipart.len() ==> is_ascii_digit(#[trigger] ipart[i]));
        assert(forall|i: int|
            0 <= i < char_digits_to_vals(ipart).len() ==> #[trigger] char_digits_to_vals(ipart)[i]
                <= 9);
        assert(forall|i: int|
            0 <= i < char_digits_to_vals(fpart).len() ==> #[trigger] char_digits_to_vals(fpart)[i]
                <= 9);
        lemma_canon_dec_wf(neg_spec, char_digits_to_vals(ipart), char_digits_to_vals(fpart));
    }
    Some(Dec { neg, int_digits: ci, frac_digits: cf })
}

fn digits_lt_exec(a: &Vec<u8>, b: &Vec<u8>) -> (r: bool)
    requires
        a@.len() == b@.len(),
    ensures
        r == digits_lt(a@, b@),
{
    let n = a.len();
    proof {
        assert(a@.subrange(0, a@.len() as int) =~= a@);
        assert(b@.subrange(0, b@.len() as int) =~= b@);
    }
    let mut k: usize = 0;
    while k < n
        invariant
            k <= n,
            n == a@.len() == b@.len(),
            digits_lt(a@, b@) == digits_lt(
                a@.subrange(k as int, n as int),
                b@.subrange(k as int, n as int),
            ),
            forall|j: int| 0 <= j < k ==> a@[j] == b@[j],
        decreases n - k,
    {
        let x = *a.get(k).unwrap();
        let y = *b.get(k).unwrap();
        proof {
            let sa = a@.subrange(k as int, n as int);
            let sb = b@.subrange(k as int, n as int);
            assert(sa[0] == a@[k as int] && sb[0] == b@[k as int]);
            assert(sa.subrange(1, sa.len() as int) =~= a@.subrange(k + 1, n as int));
            assert(sb.subrange(1, sb.len() as int) =~= b@.subrange(k + 1, n as int));
        }
        if x < y {
            return true;
        }
        if x > y {
            return false;
        }
        k = k + 1;
    }
    proof {
        assert(a@.subrange(k as int, n as int).len() == 0);
    }
    false
}

fn frac_lt_exec(a: &Vec<u8>, b: &Vec<u8>) -> (r: bool)
    ensures
        r == frac_lt(a@, b@),
{
    proof {
        assert(a@.subrange(0, a@.len() as int) =~= a@);
        assert(b@.subrange(0, b@.len() as int) =~= b@);
    }
    let mut k: usize = 0;
    loop
        invariant
            k <= a@.len() && k <= b@.len(),
            frac_lt(a@, b@) == frac_lt(
                a@.subrange(k as int, a@.len() as int),
                b@.subrange(k as int, b@.len() as int),
            ),
        decreases a@.len() + b@.len() - 2 * k,
    {
        proof {
            let sa = a@.subrange(k as int, a@.len() as int);
            let sb = b@.subrange(k as int, b@.len() as int);
            if sa.len() > 0 && sb.len() > 0 {
                assert(sa[0] == a@[k as int] && sb[0] == b@[k as int]);
                assert(sa.subrange(1, sa.len() as int) =~= a@.subrange(k + 1, a@.len() as int));
                assert(sb.subrange(1, sb.len() as int) =~= b@.subrange(k + 1, b@.len() as int));
            }
        }
        if k == b.len() {
            return false;
        }
        if k == a.len() {
            return true;
        }
        let x = *a.get(k).unwrap();
        let y = *b.get(k).unwrap();
        if x < y {
            return true;
        }
        if x > y {
            return false;
        }
        k = k + 1;
    }
}

fn digits_eq_exec(a: &Vec<u8>, b: &Vec<u8>) -> (r: bool)
    ensures
        r == (a@ =~= b@),
{
    if a.len() != b.len() {
        return false;
    }
    let n = a.len();
    let mut k: usize = 0;
    while k < n
        invariant
            k <= n,
            n == a@.len() == b@.len(),
            forall|j: int| 0 <= j < k ==> a@[j] == b@[j],
        decreases n - k,
    {
        if *a.get(k).unwrap() != *b.get(k).unwrap() {
            return false;
        }
        k = k + 1;
    }
    true
}

impl Dec {
    /// Exact numeric equality.
    pub fn eq_dec(&self, other: &Dec) -> (r: bool)
        ensures
            r == dec_eq(self@, other@),
    {
        self.neg == other.neg && digits_eq_exec(&self.int_digits, &other.int_digits)
            && digits_eq_exec(&self.frac_digits, &other.frac_digits)
    }

    /// Exact numeric strict order.
    pub fn lt_dec(&self, other: &Dec) -> (r: bool)
        ensures
            r == dec_lt(self@, other@),
    {
        if self.neg != other.neg {
            self.neg
        } else if self.neg {
            Dec::mag_lt_exec(other, self)
        } else {
            Dec::mag_lt_exec(self, other)
        }
    }

    fn mag_lt_exec(a: &Dec, b: &Dec) -> (r: bool)
        ensures
            r == mag_lt(a@, b@),
    {
        if a.int_digits.len() != b.int_digits.len() {
            a.int_digits.len() < b.int_digits.len()
        } else if !digits_eq_exec(&a.int_digits, &b.int_digits) {
            digits_lt_exec(&a.int_digits, &b.int_digits)
        } else {
            frac_lt_exec(&a.frac_digits, &b.frac_digits)
        }
    }

    /// Canonical text of the value, always with a fractional part, e.g.
    /// `-3.25` or `5.0`.
    pub fn render(&self) -> (r: String)
        requires
            dec_wf(self@),
        ensures
            r@ == dec_render(self@),
    {
        let mut out = String::new();
        if self.neg {
            push_char(&mut out, '-');
        }
        push_digits(&mut out, &self.int_digits);
        push_char(&mut out, '.');
        if self.frac_digits.len() == 0 {
            push_char(&mut out, '0');
        } else {
            push_digits(&mut out, &self.frac_digits);
        }
        proof {
            assert(out@ =~= dec_render(self@));
        }
        out
    }
}

fn push_digits(out: &mut String, digits: &Vec<u8>)
    requires
        forall|i: int| 0 <= i < digits@.len() ==> digits@[i] <= 9,
    ensures
        final(out)@ == old(out)@ + vals_to_chars(digits@),
{
    let n = digits.len();
    let mut k: usize = 0;
    while k < n
        invariant
            k <= n,
            n == digits@.len(),
            forall|i: int| 0 <= i < digits@.len() ==> digits@[i] <= 9,
            out@ =~= old(out)@ + vals_to_chars(digits@.subrange(0, k as int)),
        decreases n - k,
    {
        let d = *digits.get(k).unwrap();
        let c = if d == 0 { '0' }
        else if d == 1 { '1' }
        else if d == 2 { '2' }
        else if d == 3 { '3' }
        else if d == 4 { '4' }
        else if d == 5 { '5' }
        else if d == 6 { '6' }
        else if d == 7 { '7' }
        else if d == 8 { '8' }
        else { '9' };
        push_char(out, c);
        k = k + 1;
        proof {
            assert(vals_to_chars(digits@.subrange(0, k as int)) =~= vals_to_chars(
                digits@.subrange(0, k - 1),
            ).push(digit_char(digits@[k - 1])));
        }
    }
    proof {
        assert(digits@.subrange(0, n as int) =~= digits@);
    }
}

/// The configured lower bound of the threshold field; sending exactly this
/// value selects the negative-infinity sentinel.
pub open spec fn spec_fstop_min() -> DecV {
    DecV { neg: true, int_digits: seq![1u8, 0u8, 0u8, 0u8, 0u8, 0u8, 0u8], frac_digits: Seq::empty() }
}

/// The configured upper bound of the threshold field.
pub open spec fn spec_fstop_max() -> DecV {
    DecV { neg: false, int_digits: seq![1u8, 0u8, 0u8, 0u8, 0u8, 0u8, 0u8], frac_digits: Seq::empty() }
}

fn bound_digits() -> (v: Vec<u8>)
    ensures
        v@ =~= seq![1u8, 0u8, 0u8, 0u8, 0u8, 0u8, 0u8],
{
    let mut v: Vec<u8> = Vec::new();
    v.push(1);
    v.push(0);
    v.push(0);
    v.push(0);
    v.push(0);
    v.push(0);
    v.push(0);
    v
}

/// The threshold lower bound, `-1000000`.
pub fn fstop_min() -> (d: Dec)
    ensures
        d@ == spec_fstop_min(),
{
    let d = Dec { neg: true, int_digits: bound_digits(), frac_digits: Vec::new() };
    proof {
        assert(d@.int_digits =~= spec_fstop_min().int_digits);
        assert(d@.frac_digits =~= spec_fstop_min().frac_digits);
    }
    d
}

/// The threshold upper bound, `1000000`.
pub fn fstop_max() -> (d: Dec)
    ensures
        d@ == spec_fstop_max(),
{
    let d = Dec { neg: false, int_digits: bound_digits(), frac_digits: Vec::new() };
    proof {
        assert(d@.int_digits =~= spec_fstop_max().int_digits);
        assert(d@.frac_digits =~= spec_fstop_max().frac_digits);
    }
    d
}


/// The numeric value of a big-endian sequence of digit values.
pub open spec fn digits_value(s: Seq<u8>) -> nat
    decreases s.len(),
{
    if s.len() == 0 {
        0
    } else {
        digits_value(s.drop_last()) * 10 + s.last() as nat
    }
}

/// Powers of ten.
pub open spec fn pow10(n: nat) -> nat
    decreases n,
{
    if n == 0 {
        1
    } else {
        10 * pow10((n - 1) as nat)
    }
}

proof fn lemma_pow10_mono(a: nat, b: nat)
    requires
        a <= b,
    ensures
        pow10(a) <= pow10(b),
        pow10(a) >= 1,
    decreases b,
{
    if b > 0 {
        if a == 0 {
            lemma_pow10_mono(0, (b - 1) as nat);
        } else {
            lemma_pow10_mono((a - 1) as nat, (b - 1) as nat);
        }
    }
}

proof fn lemma_digits_value_bound(s: Seq<u8>)
    requires
        forall|i: int| 0 <= i < s.len() ==> s[i] <= 9,
    ensures
        digits_value(s) < pow10(s.len()),
    decreases s.len(),
{
    if s.len() > 0 {
        let t = s.drop_last();
        assert(forall|i: int| 0 <= i < t.len() ==> t[i] == s[i]);
        lemma_digits_value_bound(t);
        assert(s.last() <= 9);
        assert(digits_value(s) == digits_value(t) * 10 + s.last());
        assert(digits_value(t) * 10 + 9 < pow10(t.len()) * 10) by (nonlinear_arith)
            requires
                digits_value(t) < pow10(t.len()),
        ;
        assert(pow10(s.len()) == 10 * pow10(t.len()));
    }
}

proof fn lemma_digits_value_head(s: Seq<u8>)
    requires
        s.len() >= 1,
    ensures
        digits_value(s) == s[0] * pow10((s.len() - 1) as nat) + digits_value(
            s.subrange(1, s.len() as int),
        ),
    decreases s.len(),
{
    if s.len() == 1 {
        assert(s.drop_last() =~= Seq::<u8>::empty());
        assert(s.subrange(1, 1) =~= Seq::<u8>::empty());
        assert(s.last() == s[0]);
        assert(digits_value(Seq::<u8>::empty()) == 0);
        assert(digits_value(s) == digits_value(s.drop_last()) * 10 + s.last() as nat);
        assert(pow10(0) == 1);
    } else {
        let t = s.drop_last();
        lemma_digits_value_head(t);
        let tail = s.subrange(1, s.len() as int);
        assert(t[0] == s[0]);
        assert(tail.drop_last() =~= t.subrange(1, t.len() as int));
        assert(tail.last() == s.last());
        assert(digits_value(tail) == digits_value(t.subrange(1, t.len() as int)) * 10 + s.last());
        let p = pow10((t.len() - 1) as nat);
        assert(pow10((s.len() - 1) as nat) == 10 * p);
        assert(digits_value(s) == digits_value(t) * 10 + s.last());
        assert((s[0] * p + digits_value(t.subrange(1, t.len() as int))) * 10 + s.last() == s[0] * (
        10 * p) + (digits_value(t.subrange(1, t.len() as int)) * 10 + s.last()))
            by (nonlinear_arith);
    }
}

proof fn lemma_digits_lt_value(a: Seq<u8>, b: Seq<u8>)
    requires
        a.len() == b.len(),
        forall|i: int| 0 <= i < a.len() ==> a[i] <= 9,
        forall|i: int| 0 <= i < b.len() ==> b[i] <= 9,
        digits_lt(a, b),
    ensures
        digits_value(a) < digits_value(b),
    decreases a.len(),
{
    let ta = a.subrange(1, a.len() as int);
    let tb = b.subrange(1, b.len() as int);
    lemma_digits_value_head(a);
    lemma_digits_value_head(b);
    let p = pow10((a.len() - 1) as nat);
    assert(forall|i: int| 0 <= i < ta.len() ==> ta[i] <= 9);
    assert(forall|i: int| 0 <= i < tb.len() ==> tb[i] <= 9);
    if a[0] < b[0] {
        lemma_digits_value_bound(ta);
        assert(ta.len() == a.len() - 1);
        assert(digits_value(a) == a[0] * p + digits_value(ta));
        assert(digits_value(b) == b[0] * p + digits_value(tb));
        assert(a[0] * p + p <= b[0] * p) by (nonlinear_arith)
            requires
                a[0] < b[0],
                p >= 0,
        ;
        assert(digits_value(ta) < p);
    } else {
        assert(a[0] == b[0]);
        lemma_digits_lt_value(ta, tb);
    }
}

proof fn lemma_digits_lt_trichotomy(a: Seq<u8>, b: Seq<u8>)
    requires
        a.len() == b.len(),
    ensures
        a =~= b || digits_lt(a, b) || digits_lt(b, a),
    decreases a.len(),
{
    if a.len() > 0 && a[0] == b[0] {
        let ta = a.subrange(1, a.len() as int);
        let tb = b.subrange(1, b.len() as int);
        lemma_digits_lt_trichotomy(ta, tb);
        if ta =~= tb {
            assert(forall|i: int| 1 <= i < a.len() ==> a[i] == ta[i - 1] && b[i] == tb[i - 1]);
            assert(a =~= b);
        }
    }
}

/// On integer-valued canonical decimals the structural order is the
/// numeric order: the comparison the threshold check runs agrees with the
/// values of the digit strings.
pub proof fn law_integer_order_is_numeric(a: DecV, b: DecV)
    requires
        dec_wf(a),
        dec_wf(b),
        !a.neg,
        !b.neg,
        a.frac_digits.len() == 0,
        b.frac_digits.len() == 0,
    ensures
        mag_lt(a, b) <==> digits_value(a.int_digits) < digits_value(b.int_digits),
{
    let x = a.int_digits;
    let y = b.int_digits;
    if x.len() < y.len() {
        lemma_digits_value_bound(x);
        lemma_digits_value_head(y);
        lemma_pow10_mono(x.len(), (y.len() - 1) as nat);
        assert(y[0] >= 1);
        assert(y[0] * pow10((y.len() - 1) as nat) >= pow10((y.len() - 1) as nat))
            by (nonlinear_arith)
            requires
                y[0] >= 1,
                pow10((y.len() - 1) as nat) >= 0,
        ;
        assert(digits_value(x) < digits_value(y));
        assert(mag_lt(a, b));
    } else if y.len() < x.len() {
        lemma_digits_value_bound(y);
        lemma_digits_value_head(x);
        lemma_pow10_mono(y.len(), (x.len() - 1) as nat);
        assert(x[0] >= 1);
        assert(x[0] * pow10((x.len() - 1) as nat) >= pow10((x.len() - 1) as nat))
            by (nonlinear_arith)
            requires
                x[0] >= 1,
                pow10((x.len() - 1) as nat) >= 0,
        ;
        assert(digits_value(y) < digits_value(x));
        assert(!mag_lt(a, b));
    } else {
        lemma_digits_lt_trichotomy(x, y);
        if x =~= y {
            assert(!mag_lt(a, b));
            assert(digits_value(x) == digits_value(y));
        } else if digits_lt(x, y) {
            lemma_digits_lt_value(x, y);
            assert(mag_lt(a, b));
        } else {
            lemma_digits_lt_value(y, x);
            assert(!mag_lt(a, b));
        }
    }
}

} // verus!
