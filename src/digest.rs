use vstd::prelude::*;

verus! {

/// The SHA-256 digest of a byte sequence, as computed by the `sha2` crate.
pub uninterp spec fn sha256_of(data: Seq<u8>) -> Seq<u8>;

/// The lowercase hexadecimal digit for a value below sixteen.
pub open spec fn hex_digit(n: u8) -> char {
    if n < 10 {
        ((n as u32) + ('0' as u32)) as char
    } else {
        ((n as u32) - 10 + ('a' as u32)) as char
    }
}

/// Two lowercase hex digits per byte, high nibble first.
pub open spec fn hex_lower(b: Seq<u8>) -> Seq<char> {
    Seq::new(
        2 * b.len(),
        |i: int|
            if i % 2 == 0 {
                hex_digit(b[i / 2] / 16)
            } else {
                hex_digit(b[i / 2] % 16)
            },
    )
}

/// The hex digest that the installer reports for some content.
pub open spec fn digest_hex(data: Seq<u8>) -> Seq<char> {
    hex_lower(sha256_of(data))
}

/// ASCII case folding of one character, as a code point.
pub open spec fn fold(c: char) -> u32 {
    if 'A' <= c && c <= 'Z' {
        ((c as u32) + 32) as u32
    } else {
        c as u32
    }
}

/// Two strings are equal up to ASCII letter case.
pub open spec fn eq_ignore_case(a: Seq<char>, b: Seq<char>) -> bool {
    a.len() == b.len() && forall|i: int| 0 <= i < a.len() ==> #[trigger] fold(a[i]) == fold(b[i])
}

/// Relies on `sha2::Sha256::digest`: the digest is a function of the bytes
/// alone, and is always 32 bytes long.
#[verifier::external_body]
fn sha256(data: &[u8]) -> (r: Vec<u8>)
    ensures
        r@ == sha256_of(data@),
        r@.len() == 32,
{
    <sha2::Sha256 as sha2::Digest>::digest(data).to_vec()
}

/// Relies on `hex::encode`: two lowercase digits per byte, high nibble first.
#[verifier::external_body]
fn hex_encode(b: &[u8]) -> (r: String)
    ensures
        r@ == hex_lower(b@),
{
    hex::encode(b)
}

fn fold_exec(c: char) -> (r: u32)
    ensures
        r == fold(c),
{
    if 'A' <= c && c <= 'Z' {
        (c as u32) + 32
    } else {
        c as u32
    }
}

/// The lowercase hex SHA-256 digest of `data`.
pub fn compute_sha256(data: &[u8]) -> (r: String)
    ensures
        r@ == digest_hex(data@),
        r@.len() == 64,
{
    let d = sha256(data);
    hex_encode(d.as_slice())
}

/// Compares a computed digest with an expected one, ignoring ASCII case.
pub fn digests_match(computed: &str, expected: &str) -> (r: bool)
    ensures
        r == eq_ignore_case(computed@, expected@),
{
    let n = computed.unicode_len();
    let m = expected.unicode_len();
    if n != m {
        return false;
    }
    let mut i: usize = 0;
    while i < n
        invariant
            n == computed@.len(),
            m == expected@.len(),
            n == m,
            i <= n,
            forall|j: int| 0 <= j < i ==> #[trigger] fold(computed@[j]) == fold(expected@[j]),
        decreases n - i,
    {
        let a = computed.get_char(i);
        let b = expected.get_char(i);
        if fold_exec(a) != fold_exec(b) {
            return false;
        }
        i += 1;
    }
    true
}

/// Whether `data` hashes to `expected`, compared without regard to letter case.
pub fn verify_sha256(data: &[u8], expected: &str) -> (r: bool)
    ensures
        r == eq_ignore_case(digest_hex(data@), expected@),
{
    let computed = compute_sha256(data);
    digests_match(computed.as_str(), expected)
}

/// Hashing is deterministic: equal contents always give equal digests.
pub proof fn lemma_digest_deterministic(a: Seq<u8>, b: Seq<u8>)
    requires
        a == b,
    ensures
        digest_hex(a) == digest_hex(b),
{
}

proof fn lemma_hex_digit_injective(p: u8, q: u8)
    requires
        p < 16,
        q < 16,
        hex_digit(p) == hex_digit(q),
    ensures
        p == q,
{
    assert(hex_digit(p) as u32 == if p < 10 { p as u32 + 48 } else { p as u32 + 87 });
    assert(hex_digit(q) as u32 == if q < 10 { q as u32 + 48 } else { q as u32 + 87 });
}

/// Hex encoding loses nothing: different byte strings encode differently.
pub proof fn lemma_hex_injective(x: Seq<u8>, y: Seq<u8>)
    requires
        hex_lower(x) == hex_lower(y),
    ensures
        x == y,
{
    assert(x.len() == y.len()) by {
        assert(hex_lower(x).len() == 2 * x.len());
    }
    assert forall|i: int| 0 <= i < x.len() implies x[i] == y[i] by {
        let a = x[i];
        let b = y[i];
        assert(hex_lower(x)[2 * i] == hex_lower(y)[2 * i]);
        assert(hex_lower(x)[2 * i + 1] == hex_lower(y)[2 * i + 1]);
        assert((2 * i) / 2 == i && (2 * i) % 2 == 0);
        assert((2 * i + 1) / 2 == i && (2 * i + 1) % 2 == 1);
        assert(hex_lower(x)[2 * i] == hex_digit(a / 16));
        assert(hex_lower(y)[2 * i] == hex_digit(b / 16));
        assert(hex_lower(x)[2 * i + 1] == hex_digit(a % 16));
        assert(hex_lower(y)[2 * i + 1] == hex_digit(b % 16));
        lemma_hex_digit_injective(a / 16, b / 16);
        lemma_hex_digit_injective(a % 16, b % 16);
        assert(a == 16 * (a / 16) + a % 16);
        assert(b == 16 * (b / 16) + b % 16);
    }
    assert(x =~= y);
}

/// Contents with different SHA-256 digests are never reported with the
/// same hex digest, whatever their letter case.
pub proof fn lemma_distinct_digests_distinct_hex(a: Seq<u8>, b: Seq<u8>)
    requires
        sha256_of(a) != sha256_of(b),
    ensures
        digest_hex(a) != digest_hex(b),
{
    if digest_hex(a) == digest_hex(b) {
        lemma_hex_injective(sha256_of(a), sha256_of(b));
    }
}

} // verus!
