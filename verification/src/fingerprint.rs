//! The cache-key generator: a deterministic fingerprint of the raw inbound
//! payload.  The payload is serialized to canonical JSON with a fixed field
//! order, digested, and the digest rendered as lowercase hex.  The
//! fingerprint is computed over the raw payload, not the validated one, so
//! a fingerprint exists even for payloads that fail validation; two raw
//! payloads that differ only in formatting (say `20` and `020`) therefore
//! get different keys.

use vstd::prelude::*;
use crate::json::{hex_char, hex_char_of, json_string, push_json_string};
use crate::payload::{Payload, PayloadV};
use crate::text::{push_char, push_str};

verus! {

/// The canonical JSON serialization of a payload, field order fixed.
pub open spec fn payload_json(p: PayloadV) -> Seq<char> {
    "{\"nsweeps\":"@ + json_string(p.nsweeps) + ",\"nf\":"@ + json_string(p.nf) + ",\"smax\":"@
        + json_string(p.smax) + ",\"local\":"@ + json_string(p.local) + ",\"fstop\":"@
        + json_string(p.fstop) + ",\"code\":"@ + json_string(p.code) + "}"@
}

/// Renders the canonical JSON serialization of a payload.
pub fn canonical_payload_json(p: &Payload) -> (r: String)
    ensures
        r@ == payload_json(p@),
{
    let mut out = String::new();
    push_str(&mut out, "{\"nsweeps\":");
    push_json_string(&mut out, p.nsweeps.as_str());
    push_str(&mut out, ",\"nf\":");
    push_json_string(&mut out, p.nf.as_str());
    push_str(&mut out, ",\"smax\":");
    push_json_string(&mut out, p.smax.as_str());
    push_str(&mut out, ",\"local\":");
    push_json_string(&mut out, p.local.as_str());
    push_str(&mut out, ",\"fstop\":");
    push_json_string(&mut out, p.fstop.as_str());
    push_str(&mut out, ",\"code\":");
    push_json_string(&mut out, p.code.as_str());
    push_str(&mut out, "}");
    proof {
        assert(out@ =~= payload_json(p@));
    }
    out
}

/// The 16-byte digest that `md5::compute` assigns to this text.
pub uninterp spec fn md5_of(s: Seq<char>) -> Seq<u8>;

/// Relies on `md5::compute`: the digest is 16 bytes and is a function of
/// the input text alone.
#[verifier::external_body]
fn md5_of_str(s: &str) -> (r: Vec<u8>)
    ensures
        r@ == md5_of(s@),
        r@.len() == 16,
{
    md5::compute(s.as_bytes()).0.to_vec()
}

/// The lowercase hexadecimal rendering of a byte sequence, two digits per
/// byte.
pub open spec fn hex_of(b: Seq<u8>) -> Seq<char>
    decreases b.len(),
{
    if b.len() == 0 {
        Seq::empty()
    } else {
        seq![hex_char(b[0] / 16), hex_char(b[0] % 16)] + hex_of(b.subrange(1, b.len() as int))
    }
}

/// Hex rendering doubles the length.
pub proof fn lemma_hex_of_len(b: Seq<u8>)
    ensures
        hex_of(b).len() == 2 * b.len(),
    decreases b.len(),
{
    if b.len() > 0 {
        lemma_hex_of_len(b.subrange(1, b.len() as int));
    }
}

proof fn lemma_hex_of_snoc(b: Seq<u8>, x: u8)
    ensures
        hex_of(b.push(x)) == hex_of(b) + seq![hex_char(x / 16), hex_char(x % 16)],
    decreases b.len(),
{
    let bx = b.push(x);
    if b.len() == 0 {
        assert(bx[0] == x);
        assert(bx.subrange(1, bx.len() as int) =~= Seq::<u8>::empty());
        assert(hex_of(bx) == seq![hex_char(x / 16), hex_char(x % 16)] + hex_of(
            Seq::<u8>::empty(),
        ));
        assert(hex_of(bx) =~= hex_of(b) + seq![hex_char(x / 16), hex_char(x % 16)]);
    } else {
        assert(bx.subrange(1, bx.len() as int) =~= b.subrange(1, b.len() as int).push(x));
        lemma_hex_of_snoc(b.subrange(1, b.len() as int), x);
        assert(bx[0] == b[0]);
        assert(hex_of(bx) =~= hex_of(b) + seq![hex_char(x / 16), hex_char(x % 16)]);
    }
}

/// Renders bytes as lowercase hex.
pub fn bytes_to_hex(b: &Vec<u8>) -> (r: String)
    ensures
        r@ == hex_of(b@),
{
    let mut out = String::new();
    let n = b.len();
    let mut i: usize = 0;
    proof {
        assert(b@.subrange(0, 0) =~= Seq::<u8>::empty());
        assert(out@ =~= hex_of(b@.subrange(0, 0)));
    }
    while i < n
        invariant
            i <= n,
            n == b@.len(),
            out@ == hex_of(b@.subrange(0, i as int)),
        decreases n - i,
    {
        let x = *b.get(i).unwrap();
        push_char(&mut out, hex_char_of(x / 16));
        push_char(&mut out, hex_char_of(x % 16));
        proof {
            let pre = b@.subrange(0, i as int);
            assert(b@.subrange(0, i + 1) =~= pre.push(b@[i as int]));
            lemma_hex_of_snoc(pre, b@[i as int]);
            assert(out@ =~= hex_of(b@.subrange(0, i + 1)));
        }
        i = i + 1;
    }
    proof {
        assert(b@.subrange(0, n as int) =~= b@);
    }
    out
}

/// The fingerprint of a payload: the hex digest of its canonical JSON.
pub open spec fn spec_cache_key(p: PayloadV) -> Seq<char> {
    hex_of(md5_of(payload_json(p)))
}

/// Derives the cache key for a payload: 32 lowercase hex characters.
pub fn generate_cache_key(payload: &Payload) -> (r: String)
    ensures
        r@ == spec_cache_key(payload@),
        r@.len() == 32,
{
    let canonical = canonical_payload_json(payload);
    let digest = md5_of_str(canonical.as_str());
    let key = bytes_to_hex(&digest);
    proof {
        lemma_hex_of_len(digest@);
    }
    key
}

/// The fingerprint is deterministic: byte-identical payloads always map to
/// the same cache key, so a repeated submission addresses the entry its
/// first run stored.
pub proof fn lemma_fingerprint_deterministic(p1: PayloadV, p2: PayloadV)
    requires
        p1 == p2,
    ensures
        spec_cache_key(p1) == spec_cache_key(p2),
{
}

} // verus!
