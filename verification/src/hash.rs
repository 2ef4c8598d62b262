//! SHA-256 digests in lowercase hex, and stable identifiers derived from them.
use crate::text::string_push;
use vstd::prelude::*;
use vstd::string::*;
use vstd::utf8::encode_utf8;

verus! {

/// The SHA-256 digest of `data` (FIPS 180-4), as the `sha2` crate computes it.
pub uninterp spec fn sha256_spec(data: Seq<u8>) -> Seq<u8>;

/// `sha2::Sha256::digest`.
/// Trusted: the result is the digest of exactly `data`, named by
/// [`sha256_spec`], and is 32 bytes long (`Sha256`'s output size is `U32`).
#[verifier::external_body]
fn sha256_digest(data: &[u8]) -> (r: Vec<u8>)
    ensures
        r@ == sha256_spec(data@),
        r@.len() == 32,
{
    <sha2::Sha256 as sha2::Digest>::digest(data).to_vec()
}

/// The lowercase hex digit for `d < 16`.
pub open spec fn hex_digit(d: int) -> char {
    if d < 10 {
        crate::text::digit_char(d)
    } else if d == 10 {
        'a'
    } else if d == 11 {
        'b'
    } else if d == 12 {
        'c'
    } else if d == 13 {
        'd'
    } else if d == 14 {
        'e'
    } else {
        'f'
    }
}

/// Two lowercase hex digits per byte, high nibble first (`{byte:02x}`).
pub open spec fn hex_lower(bytes: Seq<u8>) -> Seq<char>
    decreases bytes.len(),
{
    if bytes.len() == 0 {
        seq![]
    } else {
        hex_lower(bytes.drop_last()) + seq![
            hex_digit(bytes.last() as int / 16),
            hex_digit(bytes.last() as int % 16),
        ]
    }
}

pub proof fn lemma_hex_lower_len(bytes: Seq<u8>)
    ensures
        hex_lower(bytes).len() == 2 * bytes.len(),
    decreases bytes.len(),
{
    if bytes.len() > 0 {
        lemma_hex_lower_len(bytes.drop_last());
    }
}

/// A lowercase hex digit: `0`-`9` or `a`-`f`.
pub open spec fn is_lower_hex_char(c: char) -> bool {
    ('0' <= c && c <= '9') || ('a' <= c && c <= 'f')
}

/// Every character of a lowercase hex rendering is a lowercase hex digit.
pub proof fn lemma_hex_lower_chars(bytes: Seq<u8>)
    ensures
        forall|i: int| 0 <= i < hex_lower(bytes).len() ==> is_lower_hex_char(#[trigger] hex_lower(bytes)[i]),
    decreases bytes.len(),
{
    if bytes.len() > 0 {
        let init = bytes.drop_last();
        lemma_hex_lower_chars(init);
        let h = hex_lower(init);
        let hi = bytes.last() as int / 16;
        let lo = bytes.last() as int % 16;
        assert(is_lower_hex_char(hex_digit(hi)));
        assert(is_lower_hex_char(hex_digit(lo)));
        let t = hex_lower(bytes);
        assert forall|i: int| 0 <= i < t.len() implies is_lower_hex_char(#[trigger] t[i]) by {
            if i < h.len() {
                assert(t[i] == h[i]);
            }
        }
    }
}

fn hex_char(d: u8) -> (c: char)
    requires
        d < 16,
    ensures
        c == hex_digit(d as int),
{
    if d == 0 {
        '0'
    } else if d == 1 {
        '1'
    } else if d == 2 {
        '2'
    } else if d == 3 {
        '3'
    } else if d == 4 {
        '4'
    } else if d == 5 {
        '5'
    } else if d == 6 {
        '6'
    } else if d == 7 {
        '7'
    } else if d == 8 {
        '8'
    } else if d == 9 {
        '9'
    } else if d == 10 {
        'a'
    } else if d == 11 {
        'b'
    } else if d == 12 {
        'c'
    } else if d == 13 {
        'd'
    } else if d == 14 {
        'e'
    } else {
        'f'
    }
}

/// Lowercase hex of the bytes.
pub fn hex_encode(bytes: &[u8]) -> (r: String)
    ensures
        r@ == hex_lower(bytes@),
{
    let mut r = String::new();
    let mut i: usize = 0;
    assert(bytes@.take(0) =~= seq![]);
    while i < bytes.len()
        invariant
            i <= bytes@.len(),
            r@ == hex_lower(bytes@.take(i as int)),
        decreases bytes@.len() - i,
    {
        let b = bytes[i];
        string_push(&mut r, hex_char(b / 16));
        string_push(&mut r, hex_char(b % 16));
        assert(bytes@.take(i + 1).drop_last() =~= bytes@.take(i as int));
        assert(r@ =~= hex_lower(bytes@.take(i + 1)));
        i = i + 1;
    }
    assert(bytes@.take(i as int) =~= bytes@);
    r
}

/// The SHA-256 digest of `bytes` in lowercase hex (64 characters).
pub fn sha256_hex(bytes: &[u8]) -> (r: String)
    ensures
        r@ == hex_lower(sha256_spec(bytes@)),
        r@.len() == 64,
        forall|i: int| 0 <= i < 64 ==> is_lower_hex_char(#[trigger] r@[i]),
{
    let digest = sha256_digest(bytes);
    let r = hex_encode(digest.as_slice());
    proof {
        lemma_hex_lower_len(digest@);
        lemma_hex_lower_chars(digest@);
    }
    r
}

pub open spec fn str_texts(parts: Seq<&str>) -> Seq<Seq<char>> {
    parts.map_values(|p: &str| p@)
}

/// The parts joined with `sep` between neighbours (`[T]::join`).
pub open spec fn join_with(parts: Seq<Seq<char>>, sep: Seq<char>) -> Seq<char>
    decreases parts.len(),
{
    if parts.len() == 0 {
        seq![]
    } else if parts.len() == 1 {
        parts[0]
    } else {
        join_with(parts.drop_last(), sep) + sep + parts.last()
    }
}

fn join_bar(parts: &[&str]) -> (r: String)
    ensures
        r@ == join_with(str_texts(parts@), "|"@),
{
    let ghost t = str_texts(parts@);
    let mut r = String::new();
    let mut i: usize = 0;
    assert(t.take(0) =~= seq![]);
    while i < parts.len()
        invariant
            t == str_texts(parts@),
            i <= t.len(),
            r@ == join_with(t.take(i as int), "|"@),
        decreases t.len() - i,
    {
        assert(t.take(i + 1).drop_last() =~= t.take(i as int));
        assert(t[i as int] == parts@[i as int]@);
        if i > 0 {
            r.append("|");
        }
        r.append(parts[i]);
        proof {
            if i == 0 {
                assert(t.take(1)[0] == t[0]);
            }
        }
        i = i + 1;
    }
    assert(t.take(i as int) =~= t);
    r
}

/// The identifier `stable_id` gives: `prefix`, `_`, and the first 24 hex
/// digits of the SHA-256 digest of the UTF-8 bytes of the parts joined by `|`.
pub open spec fn stable_id_spec(prefix: Seq<char>, parts: Seq<Seq<char>>) -> Seq<char> {
    prefix + "_"@ + hex_lower(sha256_spec(encode_utf8(join_with(parts, "|"@)))).take(24)
}

/// A deterministic identifier for the given parts: the same prefix and
/// parts always give the same identifier, made of the prefix, `_` and 24
/// lowercase hex digits.
pub fn stable_id(prefix: &str, parts: &[&str]) -> (r: String)
    ensures
        r@ == stable_id_spec(prefix@, str_texts(parts@)),
        r@.len() == prefix@.len() + 25,
        r@.subrange(0, prefix@.len() as int) == prefix@,
        r@[prefix@.len() as int] == '_',
        forall|i: int|
            prefix@.len() < i < r@.len() ==> is_lower_hex_char(#[trigger] r@[i]),
{
    let joined = join_bar(parts);
    let hex = sha256_hex(joined.as_str().as_bytes());
    let head = hex.as_str().substring_char(0, 24);
    let mut r = String::from_str(prefix);
    r.append("_");
    r.append(head);
    proof {
        reveal_strlit("_");
        assert(r@.subrange(0, prefix@.len() as int) =~= prefix@);
        assert forall|i: int| prefix@.len() < i < r@.len() implies is_lower_hex_char(
            #[trigger] r@[i],
        ) by {
            assert(r@[i] == hex@[i - prefix@.len() - 1]);
        }
    }
    r
}

} // verus!
