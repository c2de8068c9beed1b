//! The cryptographic primitives of the state archive, and memory that is wiped when it is dropped.

use chacha20poly1305::aead::{Aead, KeyInit, Payload};
use chacha20poly1305::{Key, XChaCha20Poly1305, XNonce};
use hkdf::Hkdf;
use sha2::{Digest, Sha256};
use vstd::prelude::*;
use vstd::string::*;
use zeroize::Zeroize;

verus! {

/// The most bytes that XChaCha20-Poly1305 takes in one message: the block counter has 32 bits,
/// and one block goes to the authenticator.
pub const MAX_MESSAGE: u64 = 274_877_906_816;

/// The length of the authenticator that encryption appends.
pub const TAG_LEN: usize = 16;

/// The 32 bytes that HKDF-SHA256 expands from a salt, input key material and a context.
pub uninterp spec fn hkdf_sha256(salt: Seq<u8>, material: Seq<u8>, info: Seq<u8>) -> Seq<u8>;

/// The ciphertext, with the authenticator behind it, that XChaCha20-Poly1305 makes of a message.
pub uninterp spec fn aead_sealed(
    key: Seq<u8>,
    nonce: Seq<u8>,
    aad: Seq<u8>,
    message: Seq<u8>,
) -> Seq<u8>;

/// The message that XChaCha20-Poly1305 finds in a ciphertext, where its authenticator is right.
pub uninterp spec fn aead_opened(
    key: Seq<u8>,
    nonce: Seq<u8>,
    aad: Seq<u8>,
    ciphertext: Seq<u8>,
) -> Option<Seq<u8>>;

/// The SHA-256 digest of bytes.
pub uninterp spec fn sha256_digest(bytes: Seq<u8>) -> Seq<u8>;

/// `Hkdf::<Sha256>::new` and `expand` to 32 bytes, a length that `expand` accepts. The bytes are
/// named, not described.
#[verifier::external_body]
pub(crate) fn hkdf_expand(salt: &[u8], material: &[u8], info: &[u8]) -> (okm: [u8; 32])
    ensures
        okm@ == hkdf_sha256(salt@, material@, info@),
{
    let mut okm = [0u8; 32];
    Hkdf::<Sha256>::new(Some(salt), material).expand(info, &mut okm).expect("32 bytes");
    okm
}

/// `XChaCha20Poly1305::encrypt`: on a message that is not too long it succeeds, appends an
/// authenticator, and `decrypt` gives the message back. The bytes are named, not described.
#[verifier::external_body]
pub(crate) fn aead_encrypt(key: &[u8], nonce: &[u8], aad: &[u8], message: &[u8]) -> (sealed: Option<
    Vec<u8>,
>)
    requires
        key@.len() == 32,
        nonce@.len() == 24,
        message@.len() <= MAX_MESSAGE,
    ensures
        match sealed {
            Some(s) => {
                &&& s@ == aead_sealed(key@, nonce@, aad@, message@)
                &&& s@.len() == message@.len() + TAG_LEN
                &&& aead_opened(key@, nonce@, aad@, s@) == Some(message@)
            },
            None => false,
        },
{
    let cipher = XChaCha20Poly1305::new(Key::from_slice(key));
    cipher.encrypt(XNonce::from_slice(nonce), Payload { msg: message, aad }).ok()
}

/// `XChaCha20Poly1305::decrypt`: the message, which is shorter than the ciphertext by its
/// authenticator, or nothing where that is wrong. Which it is, is named, not described.
#[verifier::external_body]
pub(crate) fn aead_decrypt(
    key: &[u8],
    nonce: &[u8],
    aad: &[u8],
    ciphertext: &[u8],
) -> (message: Option<Vec<u8>>)
    requires
        key@.len() == 32,
        nonce@.len() == 24,
        ciphertext@.len() <= MAX_MESSAGE + TAG_LEN,
    ensures
        match message {
            Some(m) => {
                &&& aead_opened(key@, nonce@, aad@, ciphertext@) == Some(m@)
                &&& m@.len() + TAG_LEN == ciphertext@.len()
            },
            None => aead_opened(key@, nonce@, aad@, ciphertext@) is None,
        },
{
    let cipher = XChaCha20Poly1305::new(Key::from_slice(key));
    cipher.decrypt(XNonce::from_slice(nonce), Payload { msg: ciphertext, aad }).ok()
}

/// `Sha256::digest`: 32 bytes that the input decides. They are named, not described.
#[verifier::external_body]
pub(crate) fn sha256(bytes: &[u8]) -> (digest: Vec<u8>)
    ensures
        digest@ == sha256_digest(bytes@),
        digest@.len() == 32,
{
    Sha256::digest(bytes).to_vec()
}

/// Why the operating system gave no random bytes.
#[verifier::external_type_specification]
#[verifier::external_body]
pub struct ExRandomError(getrandom::Error);

/// An input or output error of the standard library.
#[verifier::external_type_specification]
#[verifier::external_body]
pub struct ExIoError(std::io::Error);

/// `getrandom::getrandom`: as many bytes as asked for, or an error of the operating system.
/// Nothing is said of the bytes: they are random.
#[verifier::external_body]
pub(crate) fn random_bytes(len: usize) -> (bytes: Result<Vec<u8>, getrandom::Error>)
    ensures
        bytes matches Ok(b) ==> b@.len() == len,
{
    let mut bytes = vec![0u8; len];
    getrandom::getrandom(&mut bytes).map(|_| bytes)
}

/// `std::io::Error::other`: the error that tells what the operating system's random number
/// generator said. Nothing is said of it: the text is the machine's.
#[verifier::external_body]
pub(crate) fn random_fault(e: getrandom::Error) -> (fault: std::io::Error) {
    std::io::Error::other(e.to_string())
}

/// `Zeroize::zeroize` on an array of bytes: every byte is zero afterwards.
#[verifier::external_body]
pub(crate) fn wipe_array(bytes: &mut [u8; 32])
    ensures
        final(bytes)@ == Seq::new(32, |i: int| 0u8),
    opens_invariants none
    no_unwind
{
    bytes.zeroize();
}

/// `Zeroize::zeroize` on a vector of bytes: it is overwritten with zeros and then cleared.
#[verifier::external_body]
pub(crate) fn wipe_vec(bytes: &mut Vec<u8>)
    ensures
        final(bytes)@ == Seq::<u8>::empty(),
    opens_invariants none
    no_unwind
{
    bytes.zeroize();
}

/// `Zeroize::zeroize` on a string: it is overwritten with zeros and then cleared.
#[verifier::external_body]
pub(crate) fn wipe_string(text: &mut String)
    ensures
        final(text)@ == Seq::<char>::empty(),
    opens_invariants none
    no_unwind
{
    text.zeroize();
}

/// Bytes that are wiped when they are dropped.
pub struct SecretBytes(Vec<u8>);

impl View for SecretBytes {
    type V = Seq<u8>;

    closed spec fn view(&self) -> Seq<u8> {
        self.0@
    }
}

impl SecretBytes {
    /// Takes charge of `bytes`.
    pub fn new(bytes: Vec<u8>) -> (secret: Self)
        ensures
            secret@ == bytes@,
    {
        Self(bytes)
    }

    /// The bytes.
    pub fn as_slice(&self) -> (bytes: &[u8])
        ensures
            bytes@ == self@,
    {
        self.0.as_slice()
    }
}

impl Drop for SecretBytes {
    fn drop(&mut self)
        ensures
            final(self)@ == Seq::<u8>::empty(),
        opens_invariants none
        no_unwind
    {
        wipe_vec(&mut self.0);
    }
}

/// Text that is wiped when it is dropped.
pub struct SecretText(String);

impl View for SecretText {
    type V = Seq<char>;

    closed spec fn view(&self) -> Seq<char> {
        self.0@
    }
}

impl SecretText {
    /// Takes charge of `text`.
    pub fn new(text: String) -> (secret: Self)
        ensures
            secret@ == text@,
    {
        Self(text)
    }

    /// The text.
    pub fn as_str(&self) -> (text: &str)
        ensures
            text@ == self@,
    {
        self.0.as_str()
    }
}

impl Drop for SecretText {
    fn drop(&mut self)
        ensures
            final(self)@ == Seq::<char>::empty(),
        opens_invariants none
        no_unwind
    {
        wipe_string(&mut self.0);
    }
}

/// What is kept secret is kept whole.
pub proof fn law_secrets_are_kept_whole(
    bytes: Vec<u8>,
    text: String,
    kept: &SecretBytes,
    kept_text: &SecretText,
    back: &[u8],
    back_text: &str,
)
    requires
        call_ensures(SecretBytes::new, (bytes,), *kept),
        call_ensures(SecretText::new, (text,), *kept_text),
        call_ensures(SecretBytes::as_slice, (kept,), back),
        call_ensures(SecretText::as_str, (kept_text,), back_text),
    ensures
        back@ == bytes@,
        back_text@ == text@,
{
}

/// The longest message of the cipher is as long as its counter allows, and its authenticator is as long
/// as it is.
pub proof fn law_cipher_has_its_limits()
    ensures
        MAX_MESSAGE == 274_877_906_816,
        TAG_LEN == 16,
{
}

} // verus!
