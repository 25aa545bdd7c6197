//! Content digests and their text form, `"<algorithm>:<lowercase hex>"`.

use vstd::prelude::*;
use crate::text::{append_str, chars_of, find_char, first_index, lemma_first_index, same_chars, slice_of, string_of};

verus! {

/// The digest algorithms a hash text may name.
#[derive(Debug, Clone, Copy, PartialEq, Eq, Structural)]
pub enum HashAlgorithm {
    Sha256,
    Sha512,
}

/// Why a hash text could not be read.
#[derive(Debug, Clone, Copy, PartialEq, Eq, Structural)]
pub enum HashError {
    /// The text holds no `:` between algorithm and digest.
    MissingSeparator,
    /// The part before the `:` names no known algorithm.
    UnsupportedAlgorithm,
}

/// The SHA-256 digest of the data, as the `sha2` crate computes it.
pub uninterp spec fn sha256(data: Seq<u8>) -> Seq<u8>;

/// The SHA-512 digest of the data, as the `sha2` crate computes it.
pub uninterp spec fn sha512(data: Seq<u8>) -> Seq<u8>;

/// The digest of the data under the given algorithm.
pub open spec fn digest_of(algorithm: HashAlgorithm, data: Seq<u8>) -> Seq<u8> {
    match algorithm {
        HashAlgorithm::Sha256 => sha256(data),
        HashAlgorithm::Sha512 => sha512(data),
    }
}

/// The number of bytes in a digest of the given algorithm.
pub open spec fn digest_len(algorithm: HashAlgorithm) -> nat {
    match algorithm {
        HashAlgorithm::Sha256 => 32,
        HashAlgorithm::Sha512 => 64,
    }
}

/// The lowercase hexadecimal digit for a value below sixteen.
pub open spec fn hex_digit(n: int) -> char {
    if n == 0 {
        '0'
    } else if n == 1 {
        '1'
    } else if n == 2 {
        '2'
    } else if n == 3 {
        '3'
    } else if n == 4 {
        '4'
    } else if n == 5 {
        '5'
    } else if n == 6 {
        '6'
    } else if n == 7 {
        '7'
    } else if n == 8 {
        '8'
    } else if n == 9 {
        '9'
    } else if n == 10 {
        'a'
    } else if n == 11 {
        'b'
    } else if n == 12 {
        'c'
    } else if n == 13 {
        'd'
    } else if n == 14 {
        'e'
    } else {
        'f'
    }
}

/// The lowercase hexadecimal text of the bytes: two digits for each, the
/// high half first.
pub open spec fn hex_of(bytes: Seq<u8>) -> Seq<char>
    decreases bytes.len(),
{
    if bytes.len() == 0 {
        Seq::empty()
    } else {
        hex_of(bytes.drop_last()).push(hex_digit(bytes.last() as int / 16)).push(
            hex_digit(bytes.last() as int % 16),
        )
    }
}

/// The hexadecimal text has two characters for each byte.
pub proof fn lemma_hex_len(bytes: Seq<u8>)
    ensures
        hex_of(bytes).len() == 2 * bytes.len(),
    decreases bytes.len(),
{
    if bytes.len() != 0 {
        lemma_hex_len(bytes.drop_last());
    }
}

/// The SHA-256 digest of the data. Wraps `Sha256::digest` of the `sha2`
/// crate: the contract names the result and states its length, 32 bytes.
#[verifier::external_body]
fn sha256_digest(data: &[u8]) -> (r: Vec<u8>)
    ensures
        r@ == sha256(data@),
        r@.len() == 32,
{
    <sha2::Sha256 as sha2::Digest>::digest(data).to_vec()
}

/// The SHA-512 digest of the data. Wraps `Sha512::digest` of the `sha2`
/// crate: the contract names the result and states its length, 64 bytes.
#[verifier::external_body]
fn sha512_digest(data: &[u8]) -> (r: Vec<u8>)
    ensures
        r@ == sha512(data@),
        r@.len() == 64,
{
    <sha2::Sha512 as sha2::Digest>::digest(data).to_vec()
}

/// The lowercase hexadecimal text of the bytes. Wraps `hex::encode`, which
/// writes each byte as two digits from `0123456789abcdef`, high half first.
#[verifier::external_body]
fn hex_encode(bytes: &Vec<u8>) -> (r: String)
    ensures
        r@ == hex_of(bytes@),
{
    hex::encode(bytes)
}

impl HashAlgorithm {
    /// The name of the algorithm as it stands before the `:`.
    pub open spec fn name(self) -> Seq<char> {
        match self {
            HashAlgorithm::Sha256 => "sha256"@,
            HashAlgorithm::Sha512 => "sha512"@,
        }
    }

    /// The name of the algorithm as it stands before the `:`.
    pub fn prefix(&self) -> (r: &'static str)
        ensures
            r@ == self.name(),
    {
        match self {
            HashAlgorithm::Sha256 => "sha256",
            HashAlgorithm::Sha512 => "sha512",
        }
    }

    /// The six characters of each name; no name holds a `:`.
    pub proof fn lemma_name(self)
        ensures
            self.name().len() == 6,
            self.name() == (match self {
                HashAlgorithm::Sha256 => seq!['s', 'h', 'a', '2', '5', '6'],
                HashAlgorithm::Sha512 => seq!['s', 'h', 'a', '5', '1', '2'],
            }),
            !self.name().contains(':'),
    {
        reveal_strlit("sha256");
        reveal_strlit("sha512");
        assert("sha256"@ =~= seq!['s', 'h', 'a', '2', '5', '6']);
        assert("sha512"@ =~= seq!['s', 'h', 'a', '5', '1', '2']);
    }
}

/// The text form of a digest given in hexadecimal.
pub open spec fn formatted(hex: Seq<char>, algorithm: HashAlgorithm) -> Seq<char> {
    algorithm.name().push(':') + hex
}

/// What a hash text says: the algorithm named before the first `:` and the
/// text after it.
pub open spec fn parsed(text: Seq<char>) -> Result<(HashAlgorithm, Seq<char>), HashError> {
    let i = first_index(text, ':');
    if !(0 <= i < text.len()) {
        Err(HashError::MissingSeparator)
    } else if text.take(i) == HashAlgorithm::Sha256.name() {
        Ok((HashAlgorithm::Sha256, text.skip(i + 1)))
    } else if text.take(i) == HashAlgorithm::Sha512.name() {
        Ok((HashAlgorithm::Sha512, text.skip(i + 1)))
    } else {
        Err(HashError::UnsupportedAlgorithm)
    }
}

/// Computes the digest of the data and returns its text form, such as
/// `sha256:ab12…`.
pub fn compute_hash(data: &[u8], algorithm: HashAlgorithm) -> (r: String)
    ensures
        r@ == formatted(hex_of(digest_of(algorithm, data@)), algorithm),
        r@.len() == 7 + 2 * digest_len(algorithm),
{
    let digest = match algorithm {
        HashAlgorithm::Sha256 => sha256_digest(data),
        HashAlgorithm::Sha512 => sha512_digest(data),
    };
    let hex = hex_encode(&digest);
    proof {
        lemma_hex_len(digest@);
        algorithm.lemma_name();
    }
    format_hash(hex.as_str(), algorithm)
}

/// Puts the name of the algorithm and a `:` before a digest given in
/// hexadecimal.
pub fn format_hash(hash: &str, algorithm: HashAlgorithm) -> (r: String)
    ensures
        r@ == formatted(hash@, algorithm),
{
    let mut out = chars_of(algorithm.prefix());
    out.push(':');
    append_str(&mut out, hash);
    string_of(&out)
}

/// Reads a hash text: the algorithm before the first `:` and the digest text
/// after it.
pub fn parse_hash(text: &str) -> (r: Result<(HashAlgorithm, String), HashError>)
    ensures
        match r {
            Ok((algorithm, hex)) => parsed(text@) == Ok::<_, HashError>((algorithm, hex@)),
            Err(e) => parsed(text@) == Err::<(HashAlgorithm, Seq<char>), _>(e),
        },
{
    let chars = chars_of(text);
    let i = find_char(&chars, ':');
    if i >= chars.len() {
        return Err(HashError::MissingSeparator);
    }
    let name = slice_of(&chars, 0, i);
    let rest = slice_of(&chars, i + 1, chars.len());
    assert(chars@.subrange(0, i as int) == chars@.take(i as int));
    assert(chars@.subrange(i + 1, chars@.len() as int) == chars@.skip(i + 1));
    let n256 = chars_of(HashAlgorithm::Sha256.prefix());
    let n512 = chars_of(HashAlgorithm::Sha512.prefix());
    if same_chars(&name, &n256) {
        Ok((HashAlgorithm::Sha256, string_of(&rest)))
    } else if same_chars(&name, &n512) {
        Ok((HashAlgorithm::Sha512, string_of(&rest)))
    } else {
        Err(HashError::UnsupportedAlgorithm)
    }
}

/// Reading a formatted hash gives back the algorithm and the digest text it
/// was formatted from, whatever that text is.
pub proof fn lemma_hash_round_trip(hex: Seq<char>, algorithm: HashAlgorithm)
    ensures
        parsed(formatted(hex, algorithm)) == Ok::<_, HashError>((algorithm, hex)),
{
    let text = formatted(hex, algorithm);
    algorithm.lemma_name();
    HashAlgorithm::Sha256.lemma_name();
    HashAlgorithm::Sha512.lemma_name();
    assert forall|k: int| 0 <= k < 6 implies text[k] != ':' by {
        assert(text[k] == algorithm.name()[k]);
        assert(algorithm.name().contains(algorithm.name()[k]));
    }
    assert(text[6] == ':');
    lemma_first_index(text, ':', 6);
    assert(text.take(6) =~= algorithm.name());
    assert(text.skip(7) =~= hex);
    assert(HashAlgorithm::Sha256.name()[3] != HashAlgorithm::Sha512.name()[3]);
}

/// Reading the text that `compute_hash` returns gives back the algorithm and
/// the hexadecimal text of the digest.
pub proof fn lemma_computed_hash_round_trip(data: Seq<u8>, algorithm: HashAlgorithm)
    ensures
        parsed(formatted(hex_of(digest_of(algorithm, data)), algorithm)) == Ok::<_, HashError>(
            (algorithm, hex_of(digest_of(algorithm, data))),
        ),
{
    lemma_hash_round_trip(hex_of(digest_of(algorithm, data)), algorithm);
}

/// How the bytes of a file stand to the hash that was locked for it.
#[derive(Debug, Clone, Copy, PartialEq, Eq, Structural)]
pub enum HashCheck {
    /// The digest of the bytes is the locked one.
    Match,
    /// The digest of the bytes differs from the locked one.
    Mismatch,
    /// The locked hash could not be read.
    Unreadable(HashError),
}

/// What `verify_bytes` finds.
pub open spec fn hash_check(data: Seq<u8>, locked: Seq<char>) -> HashCheck {
    match parsed(locked) {
        Ok((algorithm, _)) => if formatted(hex_of(digest_of(algorithm, data)), algorithm) == locked {
            HashCheck::Match
        } else {
            HashCheck::Mismatch
        },
        Err(e) => HashCheck::Unreadable(e),
    }
}

/// Computes the digest of the bytes with the algorithm that the locked hash
/// names and compares the two texts.
pub fn verify_bytes(data: &[u8], locked: &str) -> (r: HashCheck)
    ensures
        r == hash_check(data@, locked@),
{
    match parse_hash(locked) {
        Ok((algorithm, _)) => {
            let computed = compute_hash(data, algorithm);
            let a = chars_of(computed.as_str());
            let b = chars_of(locked);
            if same_chars(&a, &b) {
                HashCheck::Match
            } else {
                HashCheck::Mismatch
            }
        },
        Err(e) => HashCheck::Unreadable(e),
    }
}

/// The algorithm that a name stands for.
pub open spec fn algorithm_named(name: Seq<char>) -> Option<HashAlgorithm> {
    if name == HashAlgorithm::Sha256.name() {
        Some(HashAlgorithm::Sha256)
    } else if name == HashAlgorithm::Sha512.name() {
        Some(HashAlgorithm::Sha512)
    } else {
        None
    }
}

/// Computes the digest of the bytes of a plugin file with the algorithm of
/// the given name and returns its text form. An unknown name is an error.
pub fn verify_plugin_hash(data: &[u8], algorithm: &str) -> (r: Result<String, HashError>)
    ensures
        match r {
            Ok(text) => algorithm_named(algorithm@) is Some && text@ == formatted(
                hex_of(digest_of(algorithm_named(algorithm@)->0, data@)),
                algorithm_named(algorithm@)->0,
            ),
            Err(e) => algorithm_named(algorithm@) is None && e == HashError::UnsupportedAlgorithm,
        },
{
    let name = chars_of(algorithm);
    if same_chars(&name, &chars_of(HashAlgorithm::Sha256.prefix())) {
        Ok(compute_hash(data, HashAlgorithm::Sha256))
    } else if same_chars(&name, &chars_of(HashAlgorithm::Sha512.prefix())) {
        Ok(compute_hash(data, HashAlgorithm::Sha512))
    } else {
        Err(HashError::UnsupportedAlgorithm)
    }
}

/// A digest text that begins with the name of an algorithm and a `:` reads
/// well.
pub proof fn lemma_prefixed_hash_reads(hex: Seq<char>)
    ensures
        parsed("sha256:"@ + hex) == Ok::<_, HashError>((HashAlgorithm::Sha256, hex)),
        parsed("sha512:"@ + hex) == Ok::<_, HashError>((HashAlgorithm::Sha512, hex)),
{
    reveal_strlit("sha256:");
    reveal_strlit("sha512:");
    reveal_strlit("sha256");
    reveal_strlit("sha512");
    assert("sha256:"@ =~= "sha256"@.push(':'));
    assert("sha512:"@ =~= "sha512"@.push(':'));
    lemma_hash_round_trip(hex, HashAlgorithm::Sha256);
    lemma_hash_round_trip(hex, HashAlgorithm::Sha512);
}

} // verus!
