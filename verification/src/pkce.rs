//! Proof keys for the authorization of a public client, and the text that they travel as.
use base64::Engine;
use rand::RngCore;
use sha2::Digest;
use vstd::prelude::*;
use vstd::utf8::encode_utf8;
use crate::text::{chars_of, string_of};

verus! {

// ── Bytes as text ─────────────────────────────────────────────────────────────

/// The character for six bits.
pub open spec fn b64_char(n: nat) -> char {
    if n < 26 {
        ((65 + n) as u8) as char
    } else if n < 52 {
        ((71 + n) as u8) as char
    } else if n < 62 {
        ((n - 4) as u8) as char
    } else if n == 62 {
        '-'
    } else {
        '_'
    }
}

/// Bytes as text, six bits in each character, without padding.
pub open spec fn b64url(bytes: Seq<u8>) -> Seq<char>
    decreases bytes.len(),
{
    if bytes.len() == 0 {
        seq![]
    } else if bytes.len() == 1 {
        seq![
            b64_char((bytes[0] / 4) as nat),
            b64_char(((bytes[0] % 4) * 16) as nat),
        ]
    } else if bytes.len() == 2 {
        seq![
            b64_char((bytes[0] / 4) as nat),
            b64_char(((bytes[0] % 4) * 16 + bytes[1] / 16) as nat),
            b64_char(((bytes[1] % 16) * 4) as nat),
        ]
    } else {
        seq![
            b64_char((bytes[0] / 4) as nat),
            b64_char(((bytes[0] % 4) * 16 + bytes[1] / 16) as nat),
            b64_char(((bytes[1] % 16) * 4 + bytes[2] / 64) as nat),
            b64_char((bytes[2] % 64) as nat),
        ] + b64url(bytes.skip(3))
    }
}

/// The padding that makes the length of a text a multiple of four.
pub open spec fn b64_padding(len: nat) -> Seq<char> {
    Seq::new(((4 - len % 4) % 4) as nat, |i: int| '=')
}

/// Why a text does not decode, as the `base64` crate says it.
#[verifier::external_type_specification]
#[verifier::external_body]
pub struct ExDecodeError(base64::DecodeError);

/// `URL_SAFE_NO_PAD.encode` of the `base64` crate: the bytes as text, six bits in each character
/// of the alphabet that is safe in addresses, without padding.
#[verifier::external_body]
fn encode_no_pad(bytes: &Vec<u8>) -> (r: String)
    ensures
        r@ == b64url(bytes@),
{
    base64::engine::general_purpose::URL_SAFE_NO_PAD.encode(bytes)
}

/// `URL_SAFE_NO_PAD.decode` of the `base64` crate: the bytes of which `s` is the text. It takes no
/// padding, no other character and no bits that the bytes do not need, so it takes nothing but
/// such texts.
#[verifier::external_body]
fn decode_no_pad(s: &str) -> (r: Result<Vec<u8>, base64::DecodeError>)
    ensures
        r matches Ok(b) ==> b64url(b@) == s@,
        r is Err ==> forall|b: Seq<u8>| #[trigger] b64url(b) != s@,
{
    base64::engine::general_purpose::URL_SAFE_NO_PAD.decode(s)
}

/// `URL_SAFE.decode` of the `base64` crate: the bytes of which `s` is the text with its full
/// padding. It takes nothing else.
#[verifier::external_body]
fn decode_padded(s: &str) -> (r: Result<Vec<u8>, base64::DecodeError>)
    ensures
        r matches Ok(b) ==> b64url(b@) + b64_padding(b64url(b@).len()) == s@,
        r is Err ==> forall|b: Seq<u8>|
            #[trigger] b64url(b) + b64_padding(b64url(b).len()) != s@,
{
    base64::engine::general_purpose::URL_SAFE.decode(s)
}

/// The text is not the text of any bytes.
#[derive(Debug, Clone, Copy, PartialEq, Eq, Structural)]
pub struct InvalidBase64;

/// `s` without equals signs at its end.
pub open spec fn without_padding(s: Seq<char>) -> Seq<char>
    decreases s.len(),
{
    if s.len() > 0 && s.last() == '=' {
        without_padding(s.drop_last())
    } else {
        s
    }
}

/// Whether `s`, with or without padding, is the text of some bytes.
pub open spec fn is_b64(s: Seq<char>) -> bool {
    exists|b: Seq<u8>| #[trigger] b64url(b) == without_padding(s)
}

/// Bytes as text.
pub fn base64_url_encode(bytes: &Vec<u8>) -> (r: String)
    ensures
        r@ == b64url(bytes@),
{
    encode_no_pad(bytes)
}

proof fn b64_char_injective(m: nat, n: nat)
    requires
        m < 64,
        n < 64,
        b64_char(m) == b64_char(n),
    ensures
        m == n,
{
}

/// No padding stands in the text of bytes.
proof fn b64url_has_no_padding(bytes: Seq<u8>)
    ensures
        forall|i: int| 0 <= i < b64url(bytes).len() ==> #[trigger] b64url(bytes)[i] != '=',
    decreases bytes.len(),
{
    if bytes.len() >= 3 {
        b64url_has_no_padding(bytes.skip(3));
        let t = b64url(bytes);
        assert forall|i: int| 0 <= i < t.len() implies #[trigger] t[i] != '=' by {
            if i >= 4 {
                assert(t[i] == b64url(bytes.skip(3))[i - 4]);
            }
        }
    }
}

/// A text with padding behind it, without that padding.
proof fn padding_comes_off(s: Seq<char>, n: nat)
    requires
        forall|i: int| 0 <= i < s.len() ==> #[trigger] s[i] != '=',
    ensures
        without_padding(s + Seq::new(n, |i: int| '=')) == s,
    decreases n,
{
    let t = s + Seq::new(n, |i: int| '=');
    if n == 0 {
        assert(t =~= s);
        if s.len() > 0 {
            assert(s[s.len() - 1] != '=');
        }
    } else {
        padding_comes_off(s, (n - 1) as nat);
        assert(t.drop_last() =~= s + Seq::new((n - 1) as nat, |i: int| '='));
    }
}

/// The bytes of which `s` is the text, with or without padding.
pub fn base64_url_decode(s: &str) -> (r: Result<Vec<u8>, InvalidBase64>)
    ensures
        r is Ok <==> is_b64(s@),
        r matches Ok(b) ==> b64url(b@) == without_padding(s@),
{
    let chars = chars_of(s);
    let mut n: usize = chars.len();
    assert(s@.take(n as int) =~= s@);
    while n > 0 && chars[n - 1] == '='
        invariant
            n <= chars.len(),
            chars@ == s@,
            without_padding(s@) == without_padding(s@.take(n as int)),
        decreases n,
    {
        assert(s@.take(n as int).drop_last() =~= s@.take(n - 1));
        n = n - 1;
    }
    let bare = string_of(&chars, 0, n);
    assert(bare@ =~= s@.take(n as int));
    assert(bare@ == without_padding(s@));
    match decode_no_pad(bare.as_str()) {
        Ok(b) => Ok(b),
        Err(_) => match decode_padded(s) {
            Ok(b) => {
                proof {
                    b64url_has_no_padding(b@);
                    padding_comes_off(b64url(b@), ((4 - b64url(b@).len() % 4) % 4) as nat);
                }
                Ok(b)
            },
            Err(_) => Err(InvalidBase64),
        },
    }
}

/// Different bytes have different texts.
pub proof fn b64url_injective(a: Seq<u8>, b: Seq<u8>)
    requires
        b64url(a) == b64url(b),
    ensures
        a == b,
    decreases a.len(),
{
    b64url_len(a);
    b64url_len(b);
    let t = b64url(a);
    let u = b64url(b);
    if a.len() == 0 {
        assert(b.len() == 0);
        assert(a =~= b);
    } else {
        assert(t[0] == u[0]);
        assert(t[1] == u[1]);
        if a.len() == 1 {
            assert(b.len() == 1);
            b64_char_injective((a[0] / 4) as nat, (b[0] / 4) as nat);
            b64_char_injective(((a[0] % 4) * 16) as nat, ((b[0] % 4) * 16) as nat);
            assert(a =~= b);
        } else if a.len() == 2 {
            assert(b.len() == 2);
            assert(t[2] == u[2]);
            b64_char_injective((a[0] / 4) as nat, (b[0] / 4) as nat);
            b64_char_injective(
                ((a[0] % 4) * 16 + a[1] / 16) as nat,
                ((b[0] % 4) * 16 + b[1] / 16) as nat,
            );
            b64_char_injective(((a[1] % 16) * 4) as nat, ((b[1] % 16) * 4) as nat);
            assert(a =~= b);
        } else {
            assert(b.len() >= 3);
            assert(t[2] == u[2]);
            assert(t[3] == u[3]);
            b64_char_injective((a[0] / 4) as nat, (b[0] / 4) as nat);
            b64_char_injective(
                ((a[0] % 4) * 16 + a[1] / 16) as nat,
                ((b[0] % 4) * 16 + b[1] / 16) as nat,
            );
            b64_char_injective(
                ((a[1] % 16) * 4 + a[2] / 64) as nat,
                ((b[1] % 16) * 4 + b[2] / 64) as nat,
            );
            b64_char_injective((a[2] % 64) as nat, (b[2] % 64) as nat);
            assert(t.skip(4) =~= b64url(a.skip(3)));
            assert(u.skip(4) =~= b64url(b.skip(3)));
            b64url_injective(a.skip(3), b.skip(3));
            assert(a =~= seq![a[0], a[1], a[2]] + a.skip(3));
            assert(b =~= seq![b[0], b[1], b[2]] + b.skip(3));
        }
    }
}

/// The length of the text of bytes.
proof fn b64url_len(bytes: Seq<u8>)
    ensures
        b64url(bytes).len() == (bytes.len() / 3) * 4 + (if bytes.len() % 3 == 0 {
            0
        } else {
            bytes.len() % 3 + 1
        }),
    decreases bytes.len(),
{
    if bytes.len() >= 3 {
        b64url_len(bytes.skip(3));
    }
}

/// What is written as text is read back as the same bytes, and every text of bytes is read.
pub proof fn base64_round_trip(bytes: Seq<u8>)
    ensures
        is_b64(b64url(bytes)),
        forall|b: Seq<u8>| #[trigger] b64url(b) == without_padding(b64url(bytes)) ==> b == bytes,
{
    b64url_has_no_padding(bytes);
    padding_comes_off(b64url(bytes), 0);
    assert(b64url(bytes) + Seq::new(0, |i: int| '=') =~= b64url(bytes));
    assert forall|b: Seq<u8>| #[trigger] b64url(b) == without_padding(b64url(bytes)) implies b
        == bytes by {
        b64url_injective(b, bytes);
    }
}

// ── Proof keys ────────────────────────────────────────────────────────────────

/// The SHA-256 digest of bytes.
pub uninterp spec fn sha256(bytes: Seq<u8>) -> Seq<u8>;

/// `sha2::Sha256::digest`: the digest of the bytes, which has 32 bytes. What that digest is, is
/// left to it.
#[verifier::external_body]
fn digest(bytes: &[u8]) -> (r: Vec<u8>)
    ensures
        r@ == sha256(bytes@),
        r@.len() == 32,
{
    sha2::Sha256::digest(bytes).to_vec()
}

/// `fill_bytes` of `rand::thread_rng`: as many bytes as are asked for. Which bytes they are is up
/// to chance.
#[verifier::external_body]
fn random_bytes(len: usize) -> (r: Vec<u8>)
    ensures
        r@.len() == len,
{
    let mut bytes = vec![0u8; len];
    rand::thread_rng().fill_bytes(&mut bytes);
    bytes
}

/// The fewest characters of a verifier.
pub const VERIFIER_MIN: usize = 43;

/// The most characters of a verifier.
pub const VERIFIER_MAX: usize = 128;

/// The characters of a challenge.
pub const CHALLENGE_LEN: usize = 43;

/// The character of a verifier for a byte: a letter, a digit, a hyphen or an underscore.
pub open spec fn verifier_char(b: u8) -> char {
    b64_char((b % 64) as nat)
}

/// The verifier for a list of bytes.
pub open spec fn verifier_text(bytes: Seq<u8>) -> Seq<char> {
    bytes.map_values(|b: u8| verifier_char(b))
}

/// The length of a verifier: `len`, within the bounds.
pub open spec fn verifier_len(len: nat) -> nat {
    if len < VERIFIER_MIN {
        VERIFIER_MIN as nat
    } else if len > VERIFIER_MAX {
        VERIFIER_MAX as nat
    } else {
        len
    }
}

/// A verifier and the challenge that is made of it: the text of its digest.
#[derive(Debug)]
pub struct Pkce {
    pub verifier: String,
    pub challenge: String,
}

/// What a [`Pkce`] holds.
pub struct PkceView {
    pub verifier: Seq<char>,
    pub challenge: Seq<char>,
}

impl View for Pkce {
    type V = PkceView;

    open spec fn view(&self) -> PkceView {
        PkceView { verifier: self.verifier@, challenge: self.challenge@ }
    }
}

impl Clone for Pkce {
    fn clone(&self) -> (r: Self)
        ensures
            r == *self,
    {
        Pkce { verifier: self.verifier.clone(), challenge: self.challenge.clone() }
    }
}

/// The character of a verifier for a byte.
fn alphabet_char(b: u8) -> (r: char)
    ensures
        r == verifier_char(b),
{
    let n = b % 64;
    if n < 26 {
        let c: u8 = 65 + n;
        c as char
    } else if n < 52 {
        let c: u8 = 71 + n;
        c as char
    } else if n < 62 {
        let c: u8 = n - 4;
        c as char
    } else if n == 62 {
        '-'
    } else {
        '_'
    }
}

impl Pkce {
    /// The pair for a verifier with the digest `digest`.
    pub fn with_digest(verifier: String, digest: &Vec<u8>) -> (r: Self)
        ensures
            r@ == (PkceView { verifier: verifier@, challenge: b64url(digest@) }),
    {
        Pkce { verifier, challenge: base64_url_encode(digest) }
    }

    /// The pair whose verifier is made of `bytes`.
    pub fn from_bytes(bytes: &Vec<u8>) -> (r: Self)
        ensures
            r@.verifier == verifier_text(bytes@),
            r@.challenge == b64url(sha256(encode_utf8(verifier_text(bytes@)))),
            r@.challenge.len() == CHALLENGE_LEN,
    {
        let mut verifier = String::new();
        let mut i: usize = 0;
        while i < bytes.len()
            invariant
                i <= bytes.len(),
                verifier@ == verifier_text(bytes@.take(i as int)),
            decreases bytes.len() - i,
        {
            verifier.push(alphabet_char(bytes[i]));
            assert(verifier@ =~= verifier_text(bytes@.take(i + 1)));
            i = i + 1;
        }
        assert(bytes@.take(i as int) =~= bytes@);
        let d = digest(verifier.as_str().as_bytes());
        proof {
            b64url_len(d@);
        }
        Pkce::with_digest(verifier, &d)
    }

    /// A new pair with a verifier of `len` characters, within the bounds.
    pub fn with_len(len: usize) -> (r: Self)
        ensures
            r@.verifier.len() == verifier_len(len as nat),
            exists|bytes: Seq<u8>| r@.verifier == #[trigger] verifier_text(bytes),
            r@.challenge == b64url(sha256(encode_utf8(r@.verifier))),
            r@.challenge.len() == CHALLENGE_LEN,
    {
        let n: usize = if len < VERIFIER_MIN {
            VERIFIER_MIN
        } else if len > VERIFIER_MAX {
            VERIFIER_MAX
        } else {
            len
        };
        let bytes = random_bytes(n);
        Pkce::from_bytes(&bytes)
    }

    /// A new pair.
    pub fn generate() -> (r: Self)
        ensures
            r@.verifier.len() == 64,
            exists|bytes: Seq<u8>| r@.verifier == #[trigger] verifier_text(bytes),
            r@.challenge == b64url(sha256(encode_utf8(r@.verifier))),
            r@.challenge.len() == CHALLENGE_LEN,
    {
        Pkce::with_len(64)
    }
}

/// A new text that nobody can guess, made of `len_bytes` bytes.
pub fn random_state(len_bytes: usize) -> (r: String)
    ensures
        exists|bytes: Seq<u8>| bytes.len() == len_bytes && r@ == #[trigger] b64url(bytes),
{
    let bytes = random_bytes(len_bytes);
    base64_url_encode(&bytes)
}

/// Whether `c` may stand in a verifier: the characters that an address takes as they are, but for
/// the dot and the tilde.
pub open spec fn is_verifier_char(c: char) -> bool {
    ||| 'A' <= c <= 'Z'
    ||| 'a' <= c <= 'z'
    ||| '0' <= c <= '9'
    ||| c == '-'
    ||| c == '_'
}

/// A verifier is made of letters, digits, hyphens and underscores.
pub proof fn verifier_is_plain(bytes: Seq<u8>, i: int)
    requires
        0 <= i < bytes.len(),
    ensures
        is_verifier_char(verifier_text(bytes)[i]),
{
    let n = bytes[i] % 64;
    assert(n < 64);
}

} // verus!
