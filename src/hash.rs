use vstd::prelude::*;
use vstd::string::StringSliceAdditionalSpecFns;

verus! {

/// The digest algorithms that artifact hashes may use.
#[derive(Clone, Copy, Debug, PartialEq, Eq, Structural)]
pub enum HashAlgorithm {
    SHA256,
}

/// The SHA-256 digest of a byte sequence.
pub uninterp spec fn sha256_of(b: Seq<u8>) -> Seq<u8>;

/// Relies on easy_hasher::raw_sha256 (sha2's Sha256 underneath): the
/// 32-byte SHA-256 digest of the input.
#[verifier::external_body]
pub(crate) fn sha256_digest(content: &Vec<u8>) -> (r: Vec<u8>)
    ensures
        r@ == sha256_of(content@),
        r@.len() == 32,
{
    easy_hasher::easy_hasher::raw_sha256(content.clone()).to_vec()
}

pub open spec fn is_hex_digit(c: u8) -> bool {
    (48 <= c <= 57) || (65 <= c <= 70) || (97 <= c <= 102)
}

pub open spec fn hex_value(c: u8) -> int {
    if 48 <= c <= 57 {
        c - 48
    } else if 65 <= c <= 70 {
        c - 55
    } else {
        c - 87
    }
}

/// Whether `s` is an even number of hexadecimal digits.
pub open spec fn is_hex(s: Seq<u8>) -> bool {
    s.len() % 2 == 0 && forall|i: int| 0 <= i < s.len() ==> is_hex_digit(#[trigger] s[i])
}

/// The bytes that a valid hexadecimal text stands for, two digits per byte,
/// the high nibble first.
pub open spec fn hex_decoded(s: Seq<u8>) -> Seq<u8> {
    Seq::new(
        s.len() / 2,
        |i: int| (hex_value(s[2 * i]) * 16 + hex_value(s[2 * i + 1])) as u8,
    )
}

/// Relies on hex::decode: it fails on an odd length or a non-hex digit, and
/// otherwise turns each pair of digits into one byte, the first the high nibble.
#[verifier::external_body]
fn decode_hex(text: &Vec<u8>) -> (r: Option<Vec<u8>>)
    ensures
        r.is_some() == is_hex(text@),
        r.is_some() ==> r.unwrap()@ == hex_decoded(text@),
{
    hex::decode(text).ok()
}

/// The length of the algorithm prefix of a blob identifier (`sha256:`).
pub const BLOB_ID_PREFIX_LEN: usize = 7;

/// An artifact's identity: the algorithm and the raw digest.
#[derive(Clone, Debug)]
pub struct ArtifactHash {
    pub algorithm: HashAlgorithm,
    pub digest: Vec<u8>,
}

impl View for ArtifactHash {
    type V = Seq<u8>;

    open spec fn view(&self) -> Seq<u8> {
        self.digest@
    }
}

/// The digest that a blob identifier names: the bytes after the
/// seven-character algorithm prefix, hex-decoded.
pub open spec fn blob_id_digest(id: Seq<u8>) -> Option<Seq<u8>> {
    if id.len() >= BLOB_ID_PREFIX_LEN && is_hex(id.skip(BLOB_ID_PREFIX_LEN as int)) {
        Some(hex_decoded(id.skip(BLOB_ID_PREFIX_LEN as int)))
    } else {
        None
    }
}

/// Whether two byte sequences are equal.
pub fn bytes_equal(a: &Vec<u8>, b: &Vec<u8>) -> (r: bool)
    ensures
        r == (a@ == b@),
{
    if a.len() != b.len() {
        return false;
    }
    let mut i: usize = 0;
    while i < a.len()
        invariant
            a@.len() == b@.len(),
            0 <= i <= a@.len(),
            forall|j: int| 0 <= j < i ==> a@[j] == b@[j],
        decreases a@.len() - i,
    {
        if a[i] != b[i] {
            return false;
        }
        i = i + 1;
    }
    assert(a@ =~= b@);
    true
}

impl ArtifactHash {
    /// A copy of this hash.
    pub fn copied(&self) -> (r: ArtifactHash)
        ensures
            r@ == self@,
            r.algorithm == self.algorithm,
    {
        ArtifactHash { algorithm: self.algorithm, digest: self.digest.clone() }
    }

    /// The hash of `content`, computed with SHA-256.
    pub fn of_content(content: &Vec<u8>) -> (r: ArtifactHash)
        ensures
            r@ == sha256_of(content@),
            r.algorithm == HashAlgorithm::SHA256,
    {
        ArtifactHash { algorithm: HashAlgorithm::SHA256, digest: sha256_digest(content) }
    }

    /// Decodes a blob identifier such as `sha256:<hex digest>`: the first seven
    /// characters are the algorithm prefix, the rest is the hex-encoded digest.
    pub fn from_blob_id(id: &str) -> (r: Option<ArtifactHash>)
        ensures
            r.is_some() == blob_id_digest(id.spec_bytes()).is_some(),
            r.is_some() ==> r.unwrap()@ == blob_id_digest(id.spec_bytes()).unwrap()
                && r.unwrap().algorithm == HashAlgorithm::SHA256,
    {
        let bytes = id.as_bytes();
        if bytes.len() < BLOB_ID_PREFIX_LEN {
            return None;
        }
        let mut tail: Vec<u8> = Vec::new();
        let mut i: usize = BLOB_ID_PREFIX_LEN;
        while i < bytes.len()
            invariant
                BLOB_ID_PREFIX_LEN <= i <= bytes@.len(),
                tail@ == bytes@.subrange(BLOB_ID_PREFIX_LEN as int, i as int),
            decreases bytes@.len() - i,
        {
            tail.push(bytes[i]);
            i = i + 1;
        }
        assert(tail@ =~= id.spec_bytes().skip(BLOB_ID_PREFIX_LEN as int));
        match decode_hex(&tail) {
            Some(digest) => Some(ArtifactHash { algorithm: HashAlgorithm::SHA256, digest }),
            None => None,
        }
    }
}

} // verus!
