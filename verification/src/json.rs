//! Canonical JSON text: string escaping and string-literal rendering.
//! The same renderer produces the fingerprinted payload serialization and
//! the outward-facing result body, so equal values give byte-equal text.

use vstd::prelude::*;
use crate::text::{push_char, push_str};

verus! {

/// The character for a single hexadecimal digit value.
pub open spec fn hex_char(d: u8) -> char {
    if d == 0 { '0' }
    else if d == 1 { '1' }
    else if d == 2 { '2' }
    else if d == 3 { '3' }
    else if d == 4 { '4' }
    else if d == 5 { '5' }
    else if d == 6 { '6' }
    else if d == 7 { '7' }
    else if d == 8 { '8' }
    else if d == 9 { '9' }
    else if d == 10 { 'a' }
    else if d == 11 { 'b' }
    else if d == 12 { 'c' }
    else if d == 13 { 'd' }
    else if d == 14 { 'e' }
    else { 'f' }
}

pub fn hex_char_of(d: u8) -> (c: char)
    requires
        d <= 15,
    ensures
        c == hex_char(d),
{
    if d == 0 { '0' }
    else if d == 1 { '1' }
    else if d == 2 { '2' }
    else if d == 3 { '3' }
    else if d == 4 { '4' }
    else if d == 5 { '5' }
    else if d == 6 { '6' }
    else if d == 7 { '7' }
    else if d == 8 { '8' }
    else if d == 9 { '9' }
    else if d == 10 { 'a' }
    else if d == 11 { 'b' }
    else if d == 12 { 'c' }
    else if d == 13 { 'd' }
    else if d == 14 { 'e' }
    else { 'f' }
}

/// How one character appears inside a JSON string literal: quotes and
/// backslashes are escaped, control characters get their short escape or a
/// `\u00XX` escape, and everything else stands verbatim.
pub open spec fn esc_char(c: char) -> Seq<char> {
    if c == '"' {
        seq!['\\', '"']
    } else if c == '\\' {
        seq!['\\', '\\']
    } else if c == '\n' {
        seq!['\\', 'n']
    } else if c == '\r' {
        seq!['\\', 'r']
    } else if c == '\t' {
        seq!['\\', 't']
    } else if c as u32 == 8 {
        seq!['\\', 'b']
    } else if c as u32 == 12 {
        seq!['\\', 'f']
    } else if (c as u32) < 32 {
        seq!['\\', 'u', '0', '0', hex_char((c as u32 / 16) as u8), hex_char((c as u32 % 16) as u8)]
    } else {
        seq![c]
    }
}

/// The body of a JSON string literal for `s`.
pub open spec fn json_escaped(s: Seq<char>) -> Seq<char>
    decreases s.len(),
{
    if s.len() == 0 {
        Seq::empty()
    } else {
        esc_char(s[0]) + json_escaped(s.subrange(1, s.len() as int))
    }
}

/// A full JSON string literal for `s`: quoted and escaped.
pub open spec fn json_string(s: Seq<char>) -> Seq<char> {
    seq!['"'] + json_escaped(s) + seq!['"']
}

proof fn lemma_json_escaped_snoc(s: Seq<char>, c: char)
    ensures
        json_escaped(s.push(c)) == json_escaped(s) + esc_char(c),
    decreases s.len(),
{
    let sc = s.push(c);
    if s.len() == 0 {
        assert(sc[0] == c);
        assert(sc.subrange(1, sc.len() as int) =~= Seq::<char>::empty());
        assert(json_escaped(sc) == esc_char(c) + json_escaped(Seq::<char>::empty()));
        assert(esc_char(c) + Seq::<char>::empty() =~= esc_char(c));
        assert(json_escaped(s) + esc_char(c) =~= esc_char(c));
    } else {
        assert(sc.subrange(1, sc.len() as int) =~= s.subrange(1, s.len() as int).push(c));
        lemma_json_escaped_snoc(s.subrange(1, s.len() as int), c);
        assert(json_escaped(sc) =~= json_escaped(s) + esc_char(c));
    }
}

/// Appends the escaped body of `s` to `out`.
fn push_escaped(out: &mut String, s: &str)
    ensures
        final(out)@ == old(out)@ + json_escaped(s@),
{
    let n = s.unicode_len();
    let mut i: usize = 0;
    proof {
        assert(s@.subrange(0, 0) =~= Seq::<char>::empty());
        assert(out@ =~= out@ + json_escaped(s@.subrange(0, 0)));
    }
    while i < n
        invariant
            i <= n,
            n == s@.len(),
            out@ == old(out)@ + json_escaped(s@.subrange(0, i as int)),
        decreases n - i,
    {
        let c = s.get_char(i);
        let code = c as u32;
        if c == '"' {
            push_str(out, "\\\"");
            proof {
                reveal_strlit("\\\"");
                assert("\\\""@ =~= esc_char(c));
            }
        } else if c == '\\' {
            push_str(out, "\\\\");
            proof {
                reveal_strlit("\\\\");
                assert("\\\\"@ =~= esc_char(c));
            }
        } else if c == '\n' {
            push_str(out, "\\n");
            proof {
                reveal_strlit("\\n");
                assert("\\n"@ =~= esc_char(c));
            }
        } else if c == '\r' {
            push_str(out, "\\r");
            proof {
                reveal_strlit("\\r");
                assert("\\r"@ =~= esc_char(c));
            }
        } else if c == '\t' {
            push_str(out, "\\t");
            proof {
                reveal_strlit("\\t");
                assert("\\t"@ =~= esc_char(c));
            }
        } else if code == 8 {
            push_str(out, "\\b");
            proof {
                reveal_strlit("\\b");
                assert("\\b"@ =~= esc_char(c));
            }
        } else if code == 12 {
            push_str(out, "\\f");
            proof {
                reveal_strlit("\\f");
                assert("\\f"@ =~= esc_char(c));
            }
        } else if code < 32 {
            push_str(out, "\\u00");
            push_char(out, hex_char_of((code / 16) as u8));
            push_char(out, hex_char_of((code % 16) as u8));
            proof {
                reveal_strlit("\\u00");
                assert("\\u00"@.push(hex_char((code / 16) as u8)).push(
                    hex_char((code % 16) as u8),
                ) =~= esc_char(c));
            }
        } else {
            push_char(out, c);
            proof {
                assert(Seq::<char>::empty().push(c) =~= esc_char(c));
            }
        }
        proof {
            let pre = s@.subrange(0, i as int);
            assert(s@.subrange(0, i + 1) =~= pre.push(s@[i as int]));
            lemma_json_escaped_snoc(pre, s@[i as int]);
            assert(out@ =~= old(out)@ + json_escaped(s@.subrange(0, i + 1)));
        }
        i = i + 1;
    }
    proof {
        assert(s@.subrange(0, n as int) =~= s@);
    }
}

/// Appends a full JSON string literal for `s` to `out`.
pub fn push_json_string(out: &mut String, s: &str)
    ensures
        final(out)@ == old(out)@ + json_string(s@),
{
    push_char(out, '"');
    push_escaped(out, s);
    push_char(out, '"');
    proof {
        assert(out@ =~= old(out)@ + json_string(s@));
    }
}

} // verus!
