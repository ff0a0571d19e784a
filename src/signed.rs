use vstd::prelude::*;
use vstd::string::StringExecFns;

verus! {

/// The supported signature algorithms.
#[derive(Clone, Copy, Debug, PartialEq, Eq, Structural)]
pub enum SignatureAlgorithms {
    RsaPkcs1Sha512,
    RsaPkcs1Sha3_512,
}

/// A key pair, DER encoded, with the algorithm it signs with.
#[derive(Clone, Debug)]
pub struct SignatureKeyPair {
    pub signature_algorithm: SignatureAlgorithms,
    pub private_key: Vec<u8>,
    pub public_key: Vec<u8>,
}

/// The size of generated RSA keys, in bits.
pub const DEFAULT_RSA_KEY_SIZE: u32 = 4096;

/// Why a key pair could not be made.
#[derive(Clone, Copy, Debug, PartialEq, Eq, Structural)]
pub enum SigningError {
    KeyGenerationFailed,
}

#[verifier::external_type_specification]
#[verifier::external_body]
#[verifier::reject_recursive_types(T)]
pub struct ExRsa<T>(openssl::rsa::Rsa<T>);

#[verifier::external_type_specification]
#[verifier::external_body]
pub struct ExPrivate(openssl::pkey::Private);

/// Relies on openssl's Rsa::generate: a fresh RSA key of `bits` bits with
/// exponent 65537, or an error from the library.
#[verifier::external_body]
fn generate_rsa(bits: u32) -> (r: Option<openssl::rsa::Rsa<openssl::pkey::Private>>) {
    openssl::rsa::Rsa::generate(bits).ok()
}

/// Relies on openssl's private_key_to_der: the key's DER encoding, or an
/// error from the library.
#[verifier::external_body]
fn private_key_der(key: &openssl::rsa::Rsa<openssl::pkey::Private>) -> (r: Option<Vec<u8>>) {
    key.private_key_to_der().ok()
}

/// Relies on openssl's public_key_to_der: the DER encoding of the key's
/// public half, or an error from the library.
#[verifier::external_body]
fn public_key_der(key: &openssl::rsa::Rsa<openssl::pkey::Private>) -> (r: Option<Vec<u8>>) {
    key.public_key_to_der().ok()
}

/// Generates a key pair for `signature_algorithm`: an RSA key of
/// `DEFAULT_RSA_KEY_SIZE` bits, both halves DER encoded. Key generation is
/// random and may fail inside the crypto library; whatever it gives, a pair
/// that is returned carries the requested algorithm.
pub fn create_key_pair(signature_algorithm: SignatureAlgorithms) -> (r: Result<SignatureKeyPair, SigningError>)
    ensures
        r matches Ok(kp) ==> kp.signature_algorithm == signature_algorithm,
        r matches Err(e) ==> e == SigningError::KeyGenerationFailed,
{
    match signature_algorithm {
        SignatureAlgorithms::RsaPkcs1Sha3_512 | SignatureAlgorithms::RsaPkcs1Sha512 => {
            let rsa_private = match generate_rsa(DEFAULT_RSA_KEY_SIZE) {
                Some(k) => k,
                None => return Err(SigningError::KeyGenerationFailed),
            };
            let private_key = match private_key_der(&rsa_private) {
                Some(k) => k,
                None => return Err(SigningError::KeyGenerationFailed),
            };
            let public_key = match public_key_der(&rsa_private) {
                Some(k) => k,
                None => return Err(SigningError::KeyGenerationFailed),
            };
            Ok(SignatureKeyPair { signature_algorithm, private_key, public_key })
        },
    }
}

/// One step of a path into a JSON value: an object field or an array index.
#[derive(Clone, Copy, Debug)]
pub enum JsonPathElement<'a> {
    Field(&'a str),
    Index(usize),
}

/// Why a path could not be located.
#[derive(Clone, Debug)]
pub struct ParseError {
    pub message: String,
}

pub open spec fn digit_char(d: nat) -> char {
    if d == 0 { '0' }
    else if d == 1 { '1' }
    else if d == 2 { '2' }
    else if d == 3 { '3' }
    else if d == 4 { '4' }
    else if d == 5 { '5' }
    else if d == 6 { '6' }
    else if d == 7 { '7' }
    else if d == 8 { '8' }
    else { '9' }
}

/// The decimal numeral of `n`, without leading zeros.
pub open spec fn decimal(n: nat) -> Seq<char>
    decreases n,
{
    if n < 10 {
        seq![digit_char(n)]
    } else {
        decimal(n / 10) + seq![digit_char(n % 10)]
    }
}

fn digit_str(d: usize) -> (r: &'static str)
    requires
        d < 10,
    ensures
        r@ == seq![digit_char(d as nat)],
{
    proof {
        reveal_strlit("0");
        reveal_strlit("1");
        reveal_strlit("2");
        reveal_strlit("3");
        reveal_strlit("4");
        reveal_strlit("5");
        reveal_strlit("6");
        reveal_strlit("7");
        reveal_strlit("8");
        reveal_strlit("9");
    }
    if d == 0 { "0" }
    else if d == 1 { "1" }
    else if d == 2 { "2" }
    else if d == 3 { "3" }
    else if d == 4 { "4" }
    else if d == 5 { "5" }
    else if d == 6 { "6" }
    else if d == 7 { "7" }
    else if d == 8 { "8" }
    else { "9" }
}

/// Appends the decimal numeral of `n` to `s`.
pub fn push_decimal(s: &mut String, n: usize)
    ensures
        final(s)@ == old(s)@ + decimal(n as nat),
    decreases n,
{
    if n < 10 {
        s.append(digit_str(n));
    } else {
        push_decimal(s, n / 10);
        s.append(digit_str(n % 10));
        assert(final(s)@ =~= old(s)@ + decimal(n as nat));
    }
}

pub open spec fn field_prefix() -> Seq<char> {
    seq!['f', 'i', 'e', 'l', 'd', ':', '"']
}

pub open spec fn separator() -> Seq<char> {
    seq!['"', ',']
}

/// How one path element is written: `field:"name` or the index in decimal.
pub open spec fn element_text(e: JsonPathElement) -> Seq<char> {
    match e {
        JsonPathElement::Field(f) => field_prefix() + f@,
        JsonPathElement::Index(i) => decimal(i as nat),
    }
}

/// The elements written one after another, separated by `",`.
pub open spec fn elements_text(p: Seq<JsonPathElement>) -> Seq<char>
    decreases p.len(),
{
    if p.len() == 0 {
        Seq::empty()
    } else if p.len() == 1 {
        element_text(p[0])
    } else {
        elements_text(p.drop_last()) + separator() + element_text(p.last())
    }
}

/// How a path is written: `path[` the elements `]`.
pub open spec fn path_text(p: Seq<JsonPathElement>) -> Seq<char> {
    seq!['p', 'a', 't', 'h', '['] + elements_text(p) + seq![']']
}

pub open spec fn not_found_text(p: Seq<JsonPathElement>) -> Seq<char> {
    seq!['D', 'i', 'd', ' ', 'n', 'o', 't', ' ', 'f', 'i', 'n', 'd', ' '] + path_text(p)
}

/// Appends how `path_element` is written to `s`.
pub fn path_element_to_str(s: &mut String, path_element: &JsonPathElement)
    ensures
        final(s)@ == old(s)@ + element_text(*path_element),
{
    match path_element {
        JsonPathElement::Field(field_name) => {
            proof {
                reveal_strlit("field:\"");
            }
            s.append("field:\"");
            s.append(field_name);
            assert(final(s)@ =~= old(s)@ + element_text(*path_element));
        },
        JsonPathElement::Index(index) => {
            push_decimal(s, *index);
        },
    }
}

/// How `path` is written, as in error messages: `path[field:"a",4]`.
pub fn path_to_str(path: &Vec<JsonPathElement>) -> (r: String)
    ensures
        r@ == path_text(path@),
{
    proof {
        reveal_strlit("path[");
        reveal_strlit("\",");
        reveal_strlit("]");
    }
    let mut s = String::from_str("path[");
    if path.len() > 0 {
        path_element_to_str(&mut s, &path[0]);
        assert(path@.take(1) =~= seq![path@[0]]);
        let mut i: usize = 1;
        while i < path.len()
            invariant
                1 <= i <= path@.len(),
                s@ == seq!['p', 'a', 't', 'h', '['] + elements_text(path@.take(i as int)),
            decreases path@.len() - i,
        {
            proof {
                reveal_strlit("\",");
            }
            s.append("\",");
            path_element_to_str(&mut s, &path[i]);
            let ghost t = path@.take(i + 1);
            assert(t.drop_last() =~= path@.take(i as int));
            assert(t.last() == path@[i as int]);
            assert(elements_text(t) == elements_text(path@.take(i as int)) + separator() + element_text(path@[i as int]));
            assert(s@ =~= seq!['p', 'a', 't', 'h', '['] + elements_text(path@.take(i + 1)));
            i = i + 1;
        }
        assert(path@.take(path@.len() as int) =~= path@);
    } else {
        assert(path@.take(0) =~= path@);
    }
    s.append("]");
    assert(s@ =~= path_text(path@));
    s
}

/// Locates the value at `path` in `json`, as the text before it, the value's
/// text and the text after it. Locating values is not supported yet: every
/// path is reported as not found, with a message that names it.
pub fn parse<'a>(json: &'a str, path: &Vec<JsonPathElement>) -> (r: Result<(&'a str, &'a str, &'a str), ParseError>)
    ensures
        r is Err,
        r matches Err(e) ==> e.message@ == not_found_text(path@),
{
    proof {
        reveal_strlit("Did not find ");
    }
    let mut message = String::from_str("Did not find ");
    let p = path_to_str(path);
    message.append(p.as_str());
    assert(message@ =~= not_found_text(path@));
    Err(ParseError { message })
}

} // verus!
