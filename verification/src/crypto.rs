//! Command-envelope signing and verification: Ed25519 keys, their base64
//! encodings and key ids, and the signature/expiry check. The curve arithmetic
//! and the base64 codec are the `ed25519-dalek` and `base64` crates'.

use base64::engine::general_purpose::STANDARD as B64;
use base64::Engine;
use ed25519_dalek::{Signature, Signer, SigningKey, Verifier, VerifyingKey};
use vstd::prelude::*;

use crate::command::CommandEnvelope;
use crate::text::{chars_of, opt_chars, slice_range, string_of, trim, trim_chars};

verus! {

/// The standard-alphabet, padded base64 text of `bytes`.
pub uninterp spec fn base64_standard(bytes: Seq<u8>) -> Seq<char>;

/// The bytes that standard padded base64 `text` decodes to, if it decodes.
pub uninterp spec fn base64_standard_decoded(text: Seq<char>) -> Option<Seq<u8>>;

/// Whether Ed25519 verification of `sig` over `msg` succeeds under the public key `key`.
pub uninterp spec fn ed25519_accepts(key: Seq<u8>, msg: Seq<u8>, sig: Seq<u8>) -> bool;

/// Whether `key` is the compressed encoding of a curve point (a usable public key).
pub uninterp spec fn ed25519_point_valid(key: Seq<u8>) -> bool;

/// The public key belonging to the secret key `secret`.
pub uninterp spec fn ed25519_public(secret: Seq<u8>) -> Seq<u8>;

/// The (deterministic) Ed25519 signature of `msg` under the secret key `secret`.
pub uninterp spec fn ed25519_signature(secret: Seq<u8>, msg: Seq<u8>) -> Seq<u8>;

/// A character of the standard base64 alphabet or its `=` padding.
pub open spec fn is_base64_char(c: char) -> bool {
    ('A' <= c && c <= 'Z') || ('a' <= c && c <= 'z') || ('0' <= c && c <= '9') || c == '+' || c
        == '/' || c == '='
}

/// `base64::engine::general_purpose::STANDARD.encode`: the output is padded
/// standard-alphabet base64 (four characters per started three bytes) and
/// decodes back to the input.
#[verifier::external_body]
fn b64_encode(bytes: &[u8]) -> (s: String)
    ensures
        s@ == base64_standard(bytes@),
        s@.len() == 4 * ((bytes@.len() + 2) / 3),
        forall|i: int| 0 <= i < s@.len() ==> is_base64_char(#[trigger] s@[i]),
        base64_standard_decoded(s@) == Some(bytes@),
{
    B64.encode(bytes)
}

/// `base64::engine::general_purpose::STANDARD.decode`, with the error dropped.
#[verifier::external_body]
fn b64_decode(text: &str) -> (r: Option<Vec<u8>>)
    ensures
        match r {
            Some(v) => base64_standard_decoded(text@) == Some(v@),
            None => base64_standard_decoded(text@) is None,
        },
{
    B64.decode(text).ok()
}

/// `VerifyingKey::from_bytes` succeeds exactly for valid curve points.
#[verifier::external_body]
fn ed25519_key_decodes(bytes: &[u8; 32]) -> (b: bool)
    ensures
        b == ed25519_point_valid(bytes@),
{
    VerifyingKey::from_bytes(bytes).is_ok()
}

/// `VerifyingKey::verify` of `Signature::from_bytes(sig)` over `msg`.
#[verifier::external_body]
fn ed25519_verify(key: &[u8; 32], msg: &[u8], sig: &[u8; 64]) -> (ok: bool)
    requires
        ed25519_point_valid(key@),
    ensures
        ok == ed25519_accepts(key@, msg@, sig@),
{
    let k = VerifyingKey::from_bytes(key).expect("a valid point decodes");
    k.verify(msg, &Signature::from_bytes(sig)).is_ok()
}

/// `SigningKey::sign`: deterministic, and accepted under the signer's own public key.
#[verifier::external_body]
fn ed25519_sign(secret: &[u8; 32], msg: &[u8]) -> (sig: [u8; 64])
    ensures
        sig@ == ed25519_signature(secret@, msg@),
        ed25519_accepts(ed25519_public(secret@), msg@, sig@),
{
    SigningKey::from_bytes(secret).sign(msg).to_bytes()
}

/// `SigningKey::verifying_key`: always a valid point.
#[verifier::external_body]
fn ed25519_public_of(secret: &[u8; 32]) -> (key: [u8; 32])
    ensures
        key@ == ed25519_public(secret@),
        ed25519_point_valid(key@),
{
    SigningKey::from_bytes(secret).verifying_key().to_bytes()
}

/// An Ed25519 public key: 32 bytes that decode to a curve point.
#[derive(Debug, Clone, Copy, PartialEq, Eq)]
pub struct PublicKey {
    bytes: [u8; 32],
}

impl PublicKey {
    #[verifier::type_invariant]
    spec fn valid(self) -> bool {
        ed25519_point_valid(self.bytes@)
    }

    /// The key's 32 bytes.
    pub closed spec fn spec_bytes(self) -> Seq<u8> {
        self.bytes@
    }

    /// A public key from its 32 bytes, if they are a valid curve point.
    pub fn from_bytes(bytes: [u8; 32]) -> (r: Result<PublicKey, KeyError>)
        ensures
            match r {
                Ok(k) => k.spec_bytes() == bytes@ && ed25519_point_valid(bytes@),
                Err(e) => e == KeyError::BadKey && !ed25519_point_valid(bytes@),
            },
    {
        if ed25519_key_decodes(&bytes) {
            Ok(PublicKey { bytes })
        } else {
            Err(KeyError::BadKey)
        }
    }

    /// The key's 32 bytes.
    pub fn to_bytes(&self) -> (b: [u8; 32])
        ensures
            b@ == self.spec_bytes(),
    {
        self.bytes
    }
}

/// An Ed25519 secret key (its 32-byte seed).
#[derive(Debug, Clone, Copy, PartialEq, Eq)]
pub struct SecretKey {
    pub bytes: [u8; 32],
}

/// `SigningKey::generate` from the operating system's random source: a fresh
/// secret key. Nothing is known of its bytes.
#[verifier::external_body]
pub fn generate_signing_key() -> (k: SecretKey) {
    let mut rng = rand::rngs::OsRng;
    SecretKey { bytes: SigningKey::generate(&mut rng).to_bytes() }
}

impl SecretKey {
    /// The public key belonging to this secret key.
    pub fn public_key(&self) -> (k: PublicKey)
        ensures
            k.spec_bytes() == ed25519_public(self.bytes@),
    {
        PublicKey { bytes: ed25519_public_of(&self.bytes) }
    }
}

/// Failure decoding or constructing a key.
#[derive(Debug, Clone, Copy, PartialEq, Eq, Structural, Hash)]
pub enum KeyError {
    BadEncoding,
    BadLength,
    BadKey,
}

impl KeyError {
    /// The human-readable message.
    pub fn message(&self) -> (s: &'static str)
        ensures
            s@ == match self {
                KeyError::BadEncoding => "key is not valid base64"@,
                KeyError::BadLength => "key has the wrong length"@,
                KeyError::BadKey => "key bytes are not a valid Ed25519 key"@,
            },
    {
        match self {
            KeyError::BadEncoding => "key is not valid base64",
            KeyError::BadLength => "key has the wrong length",
            KeyError::BadKey => "key bytes are not a valid Ed25519 key",
        }
    }
}

/// Why an envelope failed verification.
#[derive(Debug, Clone, Copy, PartialEq, Eq, Structural, Hash)]
pub enum VerifyError {
    /// No signature on the envelope.
    MissingSignature,
    /// The signature was not valid base64 / wrong length.
    BadEncoding,
    /// The signature did not validate against the key and payload.
    BadSignature,
    /// The envelope's `expires_at` is in the past.
    Expired,
    /// The envelope's `kid` is not in the verifier's keyring.
    UnknownKey,
}

/// The human-readable text of a verification failure.
pub open spec fn verify_error_text(e: VerifyError) -> Seq<char> {
    match e {
        VerifyError::MissingSignature => "command envelope has no signature"@,
        VerifyError::BadEncoding => "command signature is malformed"@,
        VerifyError::BadSignature => "command signature does not verify"@,
        VerifyError::Expired => "command envelope has expired"@,
        VerifyError::UnknownKey => "command signed by an untrusted or retired key"@,
    }
}

impl VerifyError {
    /// The human-readable message.
    pub fn message(&self) -> (s: &'static str)
        ensures
            s@ == verify_error_text(*self),
    {
        match self {
            VerifyError::MissingSignature => "command envelope has no signature",
            VerifyError::BadEncoding => "command signature is malformed",
            VerifyError::BadSignature => "command signature does not verify",
            VerifyError::Expired => "command envelope has expired",
            VerifyError::UnknownKey => "command signed by an untrusted or retired key",
        }
    }
}

/// A 32-byte array holding `v`.
fn array32(v: &Vec<u8>) -> (a: [u8; 32])
    requires
        v@.len() == 32,
    ensures
        a@ == v@,
{
    let mut a = [0u8; 32];
    let mut i: usize = 0;
    while i < 32
        invariant
            v@.len() == 32,
            i <= 32,
            a@.len() == 32,
            forall|k: int| 0 <= k < i ==> a@[k] == v@[k],
        decreases 32 - i,
    {
        a.set(i, v[i]);
        i = i + 1;
    }
    assert(a@ =~= v@);
    a
}

/// A 64-byte array holding `v`.
fn array64(v: &Vec<u8>) -> (a: [u8; 64])
    requires
        v@.len() == 64,
    ensures
        a@ == v@,
{
    let mut a = [0u8; 64];
    let mut i: usize = 0;
    while i < 64
        invariant
            v@.len() == 64,
            i <= 64,
            a@.len() == 64,
            forall|k: int| 0 <= k < i ==> a@[k] == v@[k],
        decreases 64 - i,
    {
        a.set(i, v[i]);
        i = i + 1;
    }
    assert(a@ =~= v@);
    a
}

/// `text` with surrounding whitespace removed, as a string.
fn trimmed(text: &str) -> (s: String)
    ensures
        s@ == trim(text@),
{
    let v = chars_of(text);
    let t = trim_chars(&v);
    string_of(&t)
}

/// The result of decoding a base64 public key.
pub open spec fn public_key_decoding(text: Seq<char>) -> Result<Seq<u8>, KeyError> {
    match base64_standard_decoded(trim(text)) {
        None => Err(KeyError::BadEncoding),
        Some(b) => if b.len() != 32 {
            Err(KeyError::BadLength)
        } else if !ed25519_point_valid(b) {
            Err(KeyError::BadKey)
        } else {
            Ok(b)
        },
    }
}

/// The result of decoding a base64 secret key.
pub open spec fn secret_key_decoding(text: Seq<char>) -> Result<Seq<u8>, KeyError> {
    match base64_standard_decoded(trim(text)) {
        None => Err(KeyError::BadEncoding),
        Some(b) => if b.len() != 32 {
            Err(KeyError::BadLength)
        } else {
            Ok(b)
        },
    }
}

/// Decode a base64 public key (surrounding whitespace ignored).
pub fn verifying_key_from_b64(s: &str) -> (r: Result<PublicKey, KeyError>)
    ensures
        match r {
            Ok(k) => public_key_decoding(s@) == Ok::<Seq<u8>, KeyError>(k.spec_bytes()),
            Err(e) => public_key_decoding(s@) == Err::<Seq<u8>, KeyError>(e),
        },
{
    let t = trimmed(s);
    let bytes = match b64_decode(t.as_str()) {
        Some(b) => b,
        None => return Err(KeyError::BadEncoding),
    };
    if bytes.len() != 32 {
        return Err(KeyError::BadLength);
    }
    PublicKey::from_bytes(array32(&bytes))
}

/// Base64-encode a public key.
pub fn verifying_key_to_b64(key: &PublicKey) -> (s: String)
    ensures
        s@ == base64_standard(key.spec_bytes()),
        public_key_decoding(s@) == Ok::<Seq<u8>, KeyError>(key.spec_bytes()),
{
    proof {
        use_type_invariant(key);
    }
    let b = key.to_bytes();
    let s = b64_encode(&b);
    proof {
        lemma_trim_identity(s@);
    }
    s
}

/// Decode a base64 secret key (surrounding whitespace ignored).
pub fn signing_key_from_b64(s: &str) -> (r: Result<SecretKey, KeyError>)
    ensures
        match r {
            Ok(k) => secret_key_decoding(s@) == Ok::<Seq<u8>, KeyError>(k.bytes@),
            Err(e) => secret_key_decoding(s@) == Err::<Seq<u8>, KeyError>(e),
        },
{
    let t = trimmed(s);
    let bytes = match b64_decode(t.as_str()) {
        Some(b) => b,
        None => return Err(KeyError::BadEncoding),
    };
    if bytes.len() != 32 {
        return Err(KeyError::BadLength);
    }
    Ok(SecretKey { bytes: array32(&bytes) })
}

/// Base64-encode a secret key for at-rest storage.
pub fn signing_key_to_b64(key: &SecretKey) -> (s: String)
    ensures
        s@ == base64_standard(key.bytes@),
        secret_key_decoding(s@) == Ok::<Seq<u8>, KeyError>(key.bytes@),
{
    let s = b64_encode(&key.bytes);
    proof {
        lemma_trim_identity(s@);
    }
    s
}

/// Trimming base64 text changes nothing: the alphabet holds no whitespace.
proof fn lemma_trim_identity(s: Seq<char>)
    requires
        forall|i: int| 0 <= i < s.len() ==> is_base64_char(#[trigger] s[i]),
    ensures
        trim(s) == s,
{
    if s.len() > 0 {
        assert(is_base64_char(s[0]));
        assert(is_base64_char(s.last()));
    }
}

/// The key id of a public key: the first 16 characters of its base64 text.
pub open spec fn key_id_spec(key: Seq<u8>) -> Seq<char> {
    base64_standard(key).take(16)
}

/// Stable identifier for a key: the first 16 base64 characters of the public
/// key. The same key always gets the same id.
pub fn key_id(key: &PublicKey) -> (id: String)
    ensures
        id@ == key_id_spec(key.spec_bytes()),
{
    let b = key.to_bytes();
    let s = b64_encode(&b);
    let v = chars_of(s.as_str());
    let t = slice_range(&v, 0, 16);
    string_of(&t)
}

/// The outcome of checking a signature (no expiry): a missing signature, one
/// that is not 64 bytes of base64, or one the key does not accept is refused.
pub open spec fn signature_check(key: Seq<u8>, sig: Option<Seq<char>>, payload: Seq<u8>) -> Result<
    (),
    VerifyError,
> {
    match sig {
        None => Err(VerifyError::MissingSignature),
        Some(s) => match base64_standard_decoded(trim(s)) {
            None => Err(VerifyError::BadEncoding),
            Some(b) => if b.len() != 64 {
                Err(VerifyError::BadEncoding)
            } else if ed25519_accepts(key, payload, b) {
                Ok(())
            } else {
                Err(VerifyError::BadSignature)
            },
        },
    }
}

/// The outcome of verifying an envelope under one key at time `now`: the
/// signature check first, then expiry (`now` after `expires_at`).
pub open spec fn envelope_check(
    key: Seq<u8>,
    env: CommandEnvelope,
    payload: Seq<u8>,
    now: i64,
) -> Result<(), VerifyError> {
    match signature_check(key, opt_chars(env.sig), payload) {
        Err(e) => Err(e),
        Ok(_) => if now > env.expires_at {
            Err(VerifyError::Expired)
        } else {
            Ok(())
        },
    }
}

/// Validate just the Ed25519 signature of `sig` over `payload`.
pub fn verify_signature(key: &PublicKey, sig: &Option<String>, payload: &[u8]) -> (r: Result<
    (),
    VerifyError,
>)
    ensures
        r == signature_check(key.spec_bytes(), opt_chars(*sig), payload@),
{
    proof {
        use_type_invariant(key);
    }
    let s = match sig {
        Some(s) => s,
        None => return Err(VerifyError::MissingSignature),
    };
    let t = trimmed(s.as_str());
    let bytes = match b64_decode(t.as_str()) {
        Some(b) => b,
        None => return Err(VerifyError::BadEncoding),
    };
    if bytes.len() != 64 {
        return Err(VerifyError::BadEncoding);
    }
    let arr = array64(&bytes);
    let k = key.to_bytes();
    if ed25519_verify(&k, payload, &arr) {
        Ok(())
    } else {
        Err(VerifyError::BadSignature)
    }
}

/// Verify an envelope's signature over its canonical `payload` and that it
/// has not expired as of `now`.
pub fn verify_envelope(key: &PublicKey, env: &CommandEnvelope, payload: &[u8], now: i64) -> (r:
    Result<(), VerifyError>)
    ensures
        r == envelope_check(key.spec_bytes(), *env, payload@, now),
{
    verify_signature(key, &env.sig, payload)?;
    if now > env.expires_at {
        return Err(VerifyError::Expired);
    }
    Ok(())
}

/// Sign `payload`, returning the base64 signature. What it returns always
/// passes the signature check under the key's own public key.
pub fn sign_payload(key: &SecretKey, payload: &[u8]) -> (sig: String)
    ensures
        sig@ == base64_standard(ed25519_signature(key.bytes@, payload@)),
        signature_check(ed25519_public(key.bytes@), Some(sig@), payload@) == Ok::<(), VerifyError>(
            (),
        ),
{
    let raw = ed25519_sign(&key.bytes, payload);
    let s = b64_encode(&raw);
    proof {
        lemma_trim_identity(s@);
    }
    s
}

/// Stamp the envelope with the id of the key that is about to sign it; the
/// id is part of the signed payload. Nothing else changes.
pub fn stamp_key_id(key: &SecretKey, env: &mut CommandEnvelope)
    ensures
        *final(env) == (CommandEnvelope { kid: final(env).kid, ..*old(env) }),
        opt_chars(final(env).kid) == Some(key_id_spec(ed25519_public(key.bytes@))),
{
    let pk = key.public_key();
    env.kid = Some(key_id(&pk));
}

/// Set the envelope's signature to the signature of `payload` (the envelope's
/// canonical bytes, taken after its key id was stamped). Nothing else changes,
/// and the envelope then passes the signature check under the key's public key.
pub fn attach_signature(key: &SecretKey, env: &mut CommandEnvelope, payload: &[u8])
    ensures
        opt_chars(final(env).sig) == Some(base64_standard(ed25519_signature(key.bytes@, payload@))),
        *final(env) == (CommandEnvelope { sig: final(env).sig, ..*old(env) }),
        signature_check(ed25519_public(key.bytes@), opt_chars(final(env).sig), payload@) == Ok::<
            (),
            VerifyError,
        >(()),
{
    env.sig = Some(sign_payload(key, payload));
}

} // verus!
