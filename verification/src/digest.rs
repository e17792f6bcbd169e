use sha2::{Digest, Sha256};
use vstd::prelude::*;

verus! {

/// The SHA-256 digest of a byte string, as computed by the `sha2` crate.
pub uninterp spec fn sha256_digest(data: Seq<u8>) -> Seq<u8>;

/// Calls `sha2::Sha256` (`Digest::new`, `update`, `finalize`) on `data`.
/// Trusted: the result is the SHA-256 digest of `data` (named
/// `sha256_digest`), and it is 32 bytes long (`Sha256`'s output size is `U32`).
#[verifier::external_body]
fn sha256_of(data: &[u8]) -> (digest: Vec<u8>)
    ensures
        digest@ == sha256_digest(data@),
        digest@.len() == 32,
{
    let mut hasher = Sha256::new();
    hasher.update(data);
    hasher.finalize().to_vec()
}

/// Calls `String::push`. Trusted: the string afterwards is the old one
/// followed by `c`.
#[verifier::external_body]
pub(crate) fn push_char(s: &mut String, c: char)
    ensures
        final(s)@ == old(s)@.push(c),
{
    s.push(c);
}

/// The lower-case hexadecimal digit for a value below 16.
pub open spec fn hex_digit(n: int) -> char {
    if n < 10 {
        (n + 48) as char
    } else {
        (n + 87) as char
    }
}

/// Lower-case hexadecimal text of a byte string, two digits per byte.
pub open spec fn hex_lower(bytes: Seq<u8>) -> Seq<char>
    decreases bytes.len(),
{
    if bytes.len() == 0 {
        Seq::empty()
    } else {
        let b = bytes.last();
        hex_lower(bytes.drop_last()) + seq![hex_digit((b / 16) as int), hex_digit((b % 16) as int)]
    }
}

/// The text the library uses for a content hash: `sha256:` and the
/// lower-case hex digest.
pub open spec fn sha256_text(data: Seq<u8>) -> Seq<char> {
    "sha256:"@ + hex_lower(sha256_digest(data))
}

fn hex_digit_exec(n: u8) -> (c: char)
    requires
        n < 16,
    ensures
        c == hex_digit(n as int),
{
    if n < 10 {
        (n + 48) as char
    } else {
        (n + 87) as char
    }
}

/// Appends the lower-case hex text of `bytes` to `out`.
fn push_hex(out: &mut String, bytes: &Vec<u8>)
    ensures
        final(out)@ == old(out)@ + hex_lower(bytes@),
{
    let ghost start = out@;
    let n = bytes.len();
    let mut i: usize = 0;
    while i < n
        invariant
            n == bytes@.len(),
            i <= n,
            out@ == start + hex_lower(bytes@.take(i as int)),
        decreases n - i,
    {
        let b = bytes[i];
        push_char(out, hex_digit_exec(b / 16));
        push_char(out, hex_digit_exec(b % 16));
        assert(bytes@.take(i + 1).drop_last() =~= bytes@.take(i as int));
        i = i + 1;
    }
    assert(bytes@.take(n as int) =~= bytes@);
}

/// A lower-case hexadecimal digit: `0`-`9` or `a`-`f`.
pub open spec fn is_lower_hex_digit(c: char) -> bool {
    (48 <= (c as int) <= 57) || (97 <= (c as int) <= 102)
}

/// The hex text of `bytes` has two lower-case hex digits per byte.
pub proof fn lemma_hex_lower_shape(bytes: Seq<u8>)
    ensures
        hex_lower(bytes).len() == 2 * bytes.len(),
        forall|i: int| 0 <= i < hex_lower(bytes).len() ==> is_lower_hex_digit(#[trigger] hex_lower(bytes)[i]),
    decreases bytes.len(),
{
    if bytes.len() > 0 {
        let b = bytes.last();
        lemma_hex_lower_shape(bytes.drop_last());
        lemma_hex_digit_is_lower_hex((b / 16) as int);
        lemma_hex_digit_is_lower_hex((b % 16) as int);
        let h = hex_lower(bytes);
        let front = hex_lower(bytes.drop_last());
        assert forall|i: int| 0 <= i < h.len() implies is_lower_hex_digit(#[trigger] h[i]) by {
            if i < front.len() {
                assert(h[i] == front[i]);
            }
        }
    }
}

proof fn lemma_hex_digit_is_lower_hex(n: int)
    requires
        0 <= n < 16,
    ensures
        is_lower_hex_digit(hex_digit(n)),
{
    if n < 10 {
        assert(((n + 48) as char) as int == n + 48);
    } else {
        assert(((n + 87) as char) as int == n + 87);
    }
}

/// `sha256:` followed by the lower-case hex SHA-256 digest of `bytes`: 71
/// characters, the last 64 of them lower-case hex digits.
pub fn sha256_bytes(bytes: &[u8]) -> (text: String)
    ensures
        text@ == sha256_text(bytes@),
        text@.len() == 71,
        forall|i: int| 7 <= i < 71 ==> is_lower_hex_digit(#[trigger] text@[i]),
{
    let digest = sha256_of(bytes);
    let mut text = "sha256:".to_owned();
    push_hex(&mut text, &digest);
    proof {
        reveal_strlit("sha256:");
        lemma_hex_lower_shape(digest@);
        let hex = hex_lower(digest@);
        assert forall|i: int| 7 <= i < 71 implies is_lower_hex_digit(#[trigger] text@[i]) by {
            assert(text@[i] == hex[i - 7]);
        }
    }
    text
}

} // verus!

verus! {

/// The content hash of a serialized JSON document: `sha256:` and the hex
/// SHA-256 digest of its UTF-8 bytes.
pub fn sha256_json(json: &str) -> (text: String)
    ensures
        text@ == sha256_text(vstd::utf8::encode_utf8(json@)),
        text@.len() == 71,
        forall|i: int| 7 <= i < 71 ==> is_lower_hex_digit(#[trigger] text@[i]),
{
    sha256_bytes(json.as_bytes())
}

} // verus!

verus! {

/// The short content hash of a JSON document: the first ten lower-case hex
/// digits (five bytes) of the SHA-256 digest of its UTF-8 bytes.
pub open spec fn short_hash(json: Seq<char>) -> Seq<char> {
    hex_lower(sha256_digest(vstd::utf8::encode_utf8(json)).take(5))
}

/// The short content hash of a serialized JSON document.
pub fn sha256_short(json: &str) -> (h: String)
    ensures
        h@ == short_hash(json@),
{
    let digest = sha256_of(json.as_bytes());
    let mut head: Vec<u8> = Vec::new();
    let mut i: usize = 0;
    while i < 5
        invariant
            digest@.len() == 32,
            i <= 5,
            head@ == digest@.take(i as int),
        decreases 5 - i,
    {
        head.push(digest[i]);
        assert(digest@.take(i + 1) =~= digest@.take(i as int).push(digest@[i as int]));
        i = i + 1;
    }
    let mut h = String::new();
    push_hex(&mut h, &head);
    assert(h@ =~= hex_lower(head@));
    h
}

} // verus!
