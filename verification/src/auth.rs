//! HTTP Basic authentication against a list of SHA-256 digests of
//! `username:password` pairs, compared in constant time.
use vstd::prelude::*;
use vstd::string::*;
use vstd::utf8::encode_utf8;

use base64::Engine;
use sha2::Digest;
use subtle::ConstantTimeEq;

use crate::text::{is_first_occurrence, split_once_at, split_once_char};

verus! {

/// The SHA-256 digest of `data`.
pub uninterp spec fn spec_sha256(data: Seq<u8>) -> Seq<u8>;

/// The bytes that the standard, padded base64 alphabet decodes `input` to;
/// `None` when `input` is not valid standard base64.
pub uninterp spec fn spec_base64_decode(input: Seq<u8>) -> Option<Seq<u8>>;

/// Hashes `data` with `sha2::Sha256::digest`.
///
/// Trusted: the result is claimed to be the function of `data` named
/// [`spec_sha256`]; the SHA-256 algorithm itself is not stated.
#[verifier::external_body]
fn sha256_digest(data: &[u8]) -> (res: [u8; 32])
    ensures
        res@ == spec_sha256(data@),
{
    sha2::Sha256::digest(data).into()
}

/// Decodes `input` with `base64::engine::general_purpose::STANDARD`.
///
/// Trusted: success and the decoded bytes are claimed to be the function of
/// `input` named [`spec_base64_decode`]; the alphabet and padding rules are
/// not stated.
#[verifier::external_body]
fn base64_decode(input: &[u8]) -> (res: Option<Vec<u8>>)
    ensures
        res is Some <==> spec_base64_decode(input@) is Some,
        res matches Some(bytes) ==> spec_base64_decode(input@) == Some(bytes@),
{
    base64::engine::general_purpose::STANDARD.decode(input).ok()
}

/// Compares two digests with `subtle::ConstantTimeEq::ct_eq`, which yields a
/// true `Choice` exactly when both byte strings are equal.
#[verifier::external_body]
fn digests_equal(a: &[u8; 32], b: &[u8; 32]) -> (res: bool)
    ensures
        res == (a@ == b@),
{
    bool::from(a[..].ct_eq(&b[..]))
}

/// The digest a credential stores: SHA-256 of `username:password` as UTF-8.
pub open spec fn credential_digest(username: Seq<char>, password: Seq<char>) -> Seq<u8> {
    spec_sha256(encode_utf8(username + ":"@ + password))
}

/// A username/password pair accepted by HTTP Basic authentication, kept only
/// as the SHA-256 digest of `username:password`.
#[derive(Clone)]
pub struct BasicAuthCredential {
    digest: [u8; 32],
}

impl View for BasicAuthCredential {
    type V = Seq<u8>;

    /// The stored digest.
    closed spec fn view(&self) -> Seq<u8> {
        self.digest@
    }
}

impl BasicAuthCredential {
    /// Creates a credential from the exact username and password.
    ///
    /// HTTP Basic authentication uses the first colon as the
    /// username/password separator, so usernames should not contain `:`.
    pub fn new(username: &str, password: &str) -> (res: Self)
        ensures
            res@ == credential_digest(username@, password@),
    {
        let mut joined = String::from_str(username);
        joined.append(":");
        joined.append(password);
        let bytes = joined.as_str().as_bytes();
        BasicAuthCredential { digest: sha256_digest(bytes) }
    }

    /// A copy of this credential.
    pub fn duplicate(&self) -> (res: Self)
        ensures
            res@ == self@,
    {
        BasicAuthCredential { digest: self.digest }
    }

    /// Reports in constant time whether this credential's digest is `digest`.
    fn matches_digest(&self, digest: &[u8; 32]) -> (res: bool)
        ensures
            res == (self@ == digest@),
    {
        digests_equal(&self.digest, digest)
    }
}

/// The digests of a credential list.
pub open spec fn digests_of(credentials: Seq<BasicAuthCredential>) -> Seq<Seq<u8>> {
    credentials.map_values(|c: BasicAuthCredential| c@)
}

/// The code of `c` with ASCII upper-case letters mapped to lower case.
pub open spec fn ascii_lower_code(c: char) -> u32 {
    if 'A' <= c && c <= 'Z' {
        (c as u32 + 32) as u32
    } else {
        c as u32
    }
}

/// `a` and `b` are equal when ASCII letters are compared without case, as
/// `str::eq_ignore_ascii_case` compares them.
pub open spec fn ascii_case_insensitive_eq(a: Seq<char>, b: Seq<char>) -> bool {
    a.len() == b.len() && forall|i: int| 0 <= i < a.len() ==> ascii_lower_code(a[i]) == ascii_lower_code(b[i])
}

/// The bytes presented by an `Authorization` header value: the scheme before
/// the first space must be `basic` in any ASCII case, and the rest must be
/// standard base64.
pub open spec fn presented_basic_credentials(header: Seq<char>) -> Option<Seq<u8>> {
    match split_once_at(header, ' ') {
        Some((scheme, encoded)) => if ascii_case_insensitive_eq(scheme, "basic"@) {
            spec_base64_decode(encode_utf8(encoded))
        } else {
            None
        },
        None => None,
    }
}

/// A request with this `Authorization` header (its text, when it has one that
/// is visible ASCII) passes: no credential is configured, or the presented
/// bytes hash to one of the configured digests.
pub open spec fn credentials_accept(digests: Seq<Seq<u8>>, header: Option<Seq<char>>) -> bool {
    digests.len() == 0 || (header matches Some(h) && presented_basic_credentials(h) matches Some(
        bytes,
    ) && digests.contains(spec_sha256(bytes)))
}

fn ascii_lower_code_of(c: char) -> (res: u32)
    ensures
        res == ascii_lower_code(c),
{
    if 'A' <= c && c <= 'Z' {
        c as u32 + 32
    } else {
        c as u32
    }
}

/// Compares two strings, treating ASCII letters without case.
fn eq_ignore_ascii_case(a: &str, b: &str) -> (res: bool)
    ensures
        res == ascii_case_insensitive_eq(a@, b@),
{
    let n = a.unicode_len();
    if n != b.unicode_len() {
        return false;
    }
    let mut i: usize = 0;
    while i < n
        invariant
            n == a@.len(),
            n == b@.len(),
            i <= n,
            forall|j: int| 0 <= j < i ==> ascii_lower_code(a@[j]) == ascii_lower_code(b@[j]),
        decreases n - i,
    {
        if ascii_lower_code_of(a.get_char(i)) != ascii_lower_code_of(b.get_char(i)) {
            return false;
        }
        i = i + 1;
    }
    true
}

/// Decodes the credential bytes of an `Authorization` header value.
fn presented_bytes(header: &str) -> (res: Option<Vec<u8>>)
    ensures
        match res {
            Some(bytes) => presented_basic_credentials(header@) == Some(bytes@),
            None => presented_basic_credentials(header@) is None,
        },
{
    match split_once_char(header, ' ') {
        Some((scheme, encoded)) => {
            if eq_ignore_ascii_case(scheme, "basic") {
                base64_decode(encoded.as_bytes())
            } else {
                None
            }
        },
        None => None,
    }
}

/// Checks an `Authorization` header value against the configured credentials;
/// every credential is compared, whatever the earlier ones gave.
pub fn authenticate(credentials: &Vec<BasicAuthCredential>, authorization: Option<&str>) -> (res: bool)
    ensures
        res == credentials_accept(
            digests_of(credentials@),
            match authorization {
                Some(h) => Some(h@),
                None => None,
            },
        ),
{
    let n = credentials.len();
    if n == 0 {
        return true;
    }
    let header = match authorization {
        Some(h) => h,
        None => return false,
    };
    let presented = match presented_bytes(header) {
        Some(bytes) => bytes,
        None => return false,
    };
    let digest = sha256_digest(presented.as_slice());
    let ghost digests = digests_of(credentials@);
    let mut matched = false;
    let mut i: usize = 0;
    while i < n
        invariant
            n == credentials@.len(),
            i <= n,
            digests == digests_of(credentials@),
            matched == exists|j: int| 0 <= j < i && digests[j] == digest@,
        decreases n - i,
    {
        let hit = credentials[i].matches_digest(&digest);
        assert(digests[i as int] == credentials@[i as int]@);
        if hit {
            matched = true;
        }
        i = i + 1;
    }
    proof {
        if matched {
            let j = choose|j: int| 0 <= j < n && digests[j] == digest@;
            assert(digests.contains(digest@));
        } else {
            assert(!digests.contains(digest@));
        }
    }
    matched
}

/// Every configured credential is accepted when its pair is presented: a
/// header `Basic <b64>` whose base64 decodes to `username:password` passes
/// whenever the digest of that pair is configured.
pub proof fn lemma_presented_pair_accepted(
    digests: Seq<Seq<u8>>,
    username: Seq<char>,
    password: Seq<char>,
    encoded: Seq<char>,
)
    requires
        digests.contains(credential_digest(username, password)),
        spec_base64_decode(encode_utf8(encoded)) == Some(encode_utf8(username + ":"@ + password)),
    ensures
        credentials_accept(digests, Some("Basic "@ + encoded)),
{
    let h = "Basic "@ + encoded;
    reveal_strlit("Basic ");
    reveal_strlit("basic");
    assert(is_first_occurrence(h, ' ', 5));
    assert forall|k: int| is_first_occurrence(h, ' ', k) implies k == 5 by {
        if k < 5 {
            assert(h[k] != ' ');
        } else if k > 5 {
            assert(h[5] == ' ');
        }
    }
    assert(h.subrange(0, 5) =~= "Basic"@) by {
        reveal_strlit("Basic");
    }
    assert(h.subrange(6, h.len() as int) =~= encoded);
    assert(ascii_case_insensitive_eq(h.subrange(0, 5), "basic"@)) by {
        reveal_strlit("Basic");
    }
}

/// An empty credential list disables authentication: every request passes,
/// with or without an `Authorization` header.
pub proof fn lemma_no_credentials_accepts_all(header: Option<Seq<char>>)
    ensures
        credentials_accept(Seq::<Seq<u8>>::empty(), header),
{
}

} // verus!
