//! Encrypted state archive: the bot's device identity as a single blob that fits in a CI secret.
//!
//! Layout (no padding):
//!
//! ```text
//! +--------+---------+---------+-------------------+-----------------------+
//! | "MNS1" | salt 32 | nonce 24| ciphertext (n)    | Poly1305 tag (16)     |
//! +--------+---------+---------+-------------------+-----------------------+
//! ```
//!
//! * key material: the caller's 32-byte key, run through HKDF-SHA256(salt, info = `INFO`) so the
//!   same key can protect many archives without nonce reuse concerns;
//! * cipher: XChaCha20-Poly1305, 24-byte random nonce;
//! * AAD: the 60-byte header (magic + salt + nonce), so a tampered header fails authentication
//!   like a tampered body;
//! * plaintext: gzip-compressed POSIX tar of the store files listed by
//!   [`crate::store::EXPORTED_FILES`], with fixed metadata so the same store contents produce the
//!   same tar.
//!
//! Anything that fails authentication is rejected before any byte reaches the tar reader.

use vstd::prelude::*;
use vstd::slice::*;
use vstd::string::*;
use vstd::utf8::*;

use crate::archive::{
    as_listed, built_entries, built_level, has_tar_names, is_tar_name, listed, lists, read_tar_gz,
    tar_gz, tar_gz_listing, tar_len, ArchiveEntry, EntryView, TarGzBuilder,
};
use crate::codec::{
    base64_bytes, base64_decode, base64_digit, base64_encode, base64_fault, base64_text, hex_bytes,
    hex_decode_32, hex_encode, hex_text, hex_value, is_ascii_space, law_base64_injective,
    law_base64_is_printable, law_hex_round_trip, law_spaces_are_all_that_is_removed,
    lemma_base64_is_ascii, lemma_no_spaces, remove_spaces, without_spaces,
};
use crate::crypto::{
    aead_decrypt, aead_encrypt, aead_opened, aead_sealed, hkdf_expand, hkdf_sha256, random_bytes,
    random_fault, wipe_array, wipe_vec, SecretBytes, SecretText, MAX_MESSAGE, TAG_LEN,
};
use crate::store::{CRYPTO_DB, EXPORTED_FILES, SESSION_FILE, STATE_DB};
use crate::text::{
    decimal, decimal_text, lemma_trimmed_is_fixed, lossy_text, same_bytes, trim, trimmed, utf8_lossy,
};

verus! {

/// The bytes that every archive starts with: `MNS1`.
pub const MAGIC: [u8; 4] = [0x4d, 0x4e, 0x53, 0x31];

/// The length of the salt that the key is derived with.
pub const SALT_LEN: usize = 32;

/// The length of the nonce.
pub const NONCE_LEN: usize = 24;

/// The length of everything before the ciphertext.
pub const HEADER_LEN: usize = 60;

/// What the derived key is for.
pub const INFO: &'static str = "matrix-notify/state/v1";

/// Hard cap on the decompressed archive, well above any real store (a fresh store is well under a
/// megabyte) and low enough that a hostile blob cannot exhaust memory.
pub const MAX_PLAINTEXT: u64 = 268_435_456;

/// The compression level of an archive: the best there is.
pub const COMPRESSION_LEVEL: u32 = 9;

/// The permission bits of every file in an archive.
pub const FILE_MODE: u32 = 0o600;

/// Why a state archive could not be written or read.
#[derive(Debug)]
pub enum StateError {
    /// The key has not 64 characters but this many bytes.
    KeyLength(usize),
    /// The key is not hexadecimal.
    KeyHex,
    /// The input does not start as an archive does.
    BadMagic,
    /// The input is too short for an archive.
    Truncated,
    /// Wrong key or tampered data.
    Authentication,
    /// The input is neither an archive nor Base64 text.
    Base64(base64::DecodeError),
    /// The entry with this name would be written outside the store directory.
    UnsafePath(Vec<u8>),
    /// The entry with this name is not a regular file.
    NotAFile(Vec<u8>),
    /// The decompressed archive reaches the limit.
    TooLarge,
    /// Reading or writing failed.
    Io(std::io::Error),
}

impl StateError {
    /// The text of the error, where the value in it is shown as given.
    pub open spec fn text(self, shown: Seq<char>) -> Seq<char> {
        match self {
            StateError::KeyLength(n) => "state key must be 64 hex characters (32 bytes); got "@
                + decimal(n as nat) + " characters"@,
            StateError::KeyHex => "state key is not valid hex"@,
            StateError::BadMagic => "input is not a matrix-notify state archive (bad magic)"@,
            StateError::Truncated => "state archive is truncated"@,
            StateError::Authentication =>
                "state archive failed authentication: wrong key or tampered data"@,
            StateError::Base64(_) => "state archive is not valid base64: "@ + shown,
            StateError::UnsafePath(_) => "archive entry "@ + shown + " escapes the store directory"@,
            StateError::NotAFile(_) => "archive entry "@ + shown + " is not a regular file"@,
            StateError::TooLarge => "archive is larger than the "@ + decimal(MAX_PLAINTEXT as nat)
                + "-byte limit"@,
            StateError::Io(_) => shown,
        }
    }

    /// What to tell the user. `shown` is how a Base64 error, a path or an input or output error in
    /// this one is shown; the other errors need none.
    pub fn message(&self, shown: &str) -> (text: String)
        ensures
            text@ == self.text(shown@),
    {
        match self {
            StateError::KeyLength(n) => {
                let mut text = "state key must be 64 hex characters (32 bytes); got ".to_owned();
                text.append(decimal_text(*n as u64).as_str());
                text.append(" characters");
                text
            },
            StateError::KeyHex => "state key is not valid hex".to_owned(),
            StateError::BadMagic => {
                "input is not a matrix-notify state archive (bad magic)".to_owned()
            },
            StateError::Truncated => "state archive is truncated".to_owned(),
            StateError::Authentication => {
                "state archive failed authentication: wrong key or tampered data".to_owned()
            },
            StateError::Base64(_) => {
                let mut text = "state archive is not valid base64: ".to_owned();
                text.append(shown);
                text
            },
            StateError::UnsafePath(_) => {
                let mut text = "archive entry ".to_owned();
                text.append(shown);
                text.append(" escapes the store directory");
                text
            },
            StateError::NotAFile(_) => {
                let mut text = "archive entry ".to_owned();
                text.append(shown);
                text.append(" is not a regular file");
                text
            },
            StateError::TooLarge => {
                let mut text = "archive is larger than the ".to_owned();
                text.append(decimal_text(MAX_PLAINTEXT).as_str());
                text.append("-byte limit");
                text
            },
            StateError::Io(_) => shown.to_owned(),
        }
    }
}

/// A 32-byte symmetric key, zeroised on drop.
#[derive(Clone)]
pub struct StateKey([u8; 32]);

impl View for StateKey {
    type V = Seq<u8>;

    closed spec fn view(&self) -> Seq<u8> {
        self.0@
    }
}

impl Drop for StateKey {
    fn drop(&mut self)
        ensures
            final(self)@ == Seq::new(32, |i: int| 0u8),
        opens_invariants none
        no_unwind
    {
        wipe_array(&mut self.0);
    }
}

/// The outcome of parsing a key.
pub enum KeyParse {
    /// Not 64 bytes but this many.
    WrongLength(nat),
    /// Not hexadecimal.
    NotHex,
    /// The bytes of the key.
    Key(Seq<u8>),
}

/// What a text is as a key: 64 hexadecimal digits, with white space around them.
pub open spec fn key_named(text: Seq<char>) -> KeyParse {
    let digits = encode_utf8(trimmed(text));
    if digits.len() != 64 {
        KeyParse::WrongLength(digits.len())
    } else {
        match hex_bytes(digits) {
            Some(bytes) => KeyParse::Key(bytes),
            None => KeyParse::NotHex,
        }
    }
}

/// The key that an archive with the given salt is encrypted with.
pub open spec fn derived_key(key: Seq<u8>, salt: Seq<u8>) -> Seq<u8> {
    hkdf_sha256(salt, key, encode_utf8(INFO@))
}

impl StateKey {
    /// Parse a key from its 64-character hex form (surrounding whitespace is tolerated because
    /// secrets are often pasted with a trailing newline).
    pub fn from_hex(s: &str) -> (key: Result<Self, StateError>)
        ensures
            match key {
                Ok(k) => key_named(s@) == KeyParse::Key(k@),
                Err(StateError::KeyLength(n)) => key_named(s@) == KeyParse::WrongLength(n as nat),
                Err(StateError::KeyHex) => key_named(s@) == KeyParse::NotHex,
                Err(_) => false,
            },
    {
        let digits = trim(s);
        let len = digits.as_bytes().len();
        if len != 64 {
            return Err(StateError::KeyLength(len));
        }
        match hex_decode_32(digits) {
            Some(bytes) => Ok(Self(bytes)),
            None => Err(StateError::KeyHex),
        }
    }

    /// Generate a fresh random key from the OS CSPRNG. Nothing is said of its bytes: they are
    /// random.
    pub fn generate() -> (key: Result<Self, StateError>)
        ensures
            match key {
                Ok(k) => k@.len() == 32,
                Err(StateError::Io(_)) => true,
                Err(_) => false,
            },
    {
        match random_bytes(32) {
            Ok(mut bytes) => {
                let key = Self::from_bytes(bytes.as_slice());
                wipe_vec(&mut bytes);
                Ok(key)
            },
            Err(e) => Err(StateError::Io(random_fault(e))),
        }
    }

    /// The key with the given 32 bytes.
    pub fn from_bytes(bytes: &[u8]) -> (key: Self)
        requires
            bytes@.len() == 32,
        ensures
            key@ == bytes@,
    {
        let mut out = [0u8; 32];
        let mut i: usize = 0;
        while i < 32
            invariant
                i <= 32,
                bytes@.len() == 32,
                out@.len() == 32,
                forall|k: int| 0 <= k < i ==> out@[k] == bytes@[k],
            decreases 32 - i,
        {
            out[i] = bytes[i];
            i = i + 1;
        }
        assert(out@ =~= bytes@);
        Self(out)
    }

    /// The key in hexadecimal notation.
    pub fn to_hex(&self) -> (text: SecretText)
        ensures
            text@ == hex_text(self@),
    {
        SecretText::new(hex_encode(self.0.as_slice()))
    }

    /// What a log shows of a key.
    pub fn debug_text(&self) -> (text: &'static str)
        ensures
            text@ == "StateKey(..)"@,
    {
        "StateKey(..)"
    }

    fn derive(&self, salt: &[u8]) -> (derived: [u8; 32])
        ensures
            derived@ == derived_key(self@, salt@),
    {
        hkdf_expand(salt, self.0.as_slice(), INFO.as_bytes())
    }
}

/// Parsing the hexadecimal form of a key gives the key back, with or without white space
/// around it.
pub proof fn law_key_text_round_trip(key: Seq<u8>, text: Seq<char>)
    requires
        key.len() == 32,
        trimmed(text) == hex_text(key),
    ensures
        key_named(text) == KeyParse::Key(key),
        key_named(hex_text(key)) == KeyParse::Key(key),
{
    law_hex_round_trip(key);
    lemma_trimmed_is_fixed(hex_text(key));
}

/// The header of an archive.
pub open spec fn header_of(salt: Seq<u8>, nonce: Seq<u8>) -> Seq<u8> {
    MAGIC@ + salt + nonce
}

/// The archive that holds a plaintext.
pub open spec fn sealed_archive(
    key: Seq<u8>,
    salt: Seq<u8>,
    nonce: Seq<u8>,
    plaintext: Seq<u8>,
) -> Seq<u8> {
    let header = header_of(salt, nonce);
    header + aead_sealed(derived_key(key, salt), nonce, header, plaintext)
}

/// The outcome of opening an archive.
pub enum Opening {
    /// Too short.
    Truncated,
    /// Not an archive.
    BadMagic,
    /// Wrong key or tampered data.
    Unauthentic,
    /// What the archive holds.
    Plain(Seq<u8>),
}

/// What opening a blob with a key gives. The whole header goes into the authentication.
pub open spec fn opening_of(key: Seq<u8>, blob: Seq<u8>) -> Opening {
    if blob.len() < MAGIC@.len() {
        Opening::Truncated
    } else if blob.take(4) != MAGIC@ {
        Opening::BadMagic
    } else if blob.len() < HEADER_LEN + TAG_LEN {
        Opening::Truncated
    } else if blob.len() - HEADER_LEN - TAG_LEN > MAX_MESSAGE {
        Opening::Unauthentic
    } else {
        let header = blob.take(HEADER_LEN as int);
        let salt = blob.subrange(4, 36);
        let nonce = blob.subrange(36, 60);
        match aead_opened(derived_key(key, salt), nonce, header, blob.skip(HEADER_LEN as int)) {
            Some(plaintext) => Opening::Plain(plaintext),
            None => Opening::Unauthentic,
        }
    }
}

/// Encrypt `plaintext` into the archive format. Callers normally use [`export`].
///
/// The salt and the nonce are random. Success is owed where the operating system gives random
/// bytes and the plaintext is not too long for the cipher.
pub fn seal(key: &StateKey, plaintext: &[u8]) -> (blob: Result<Vec<u8>, StateError>)
    ensures
        match blob {
            Ok(b) => {
                &&& plaintext@.len() <= MAX_MESSAGE
                &&& exists|salt: Seq<u8>, nonce: Seq<u8>|
                    salt.len() == SALT_LEN && nonce.len() == NONCE_LEN && b@
                        == #[trigger] sealed_archive(key@, salt, nonce, plaintext@)
                &&& b@.len() == HEADER_LEN + plaintext@.len() + TAG_LEN
                &&& opening_of(key@, b@) == Opening::Plain(plaintext@)
            },
            Err(StateError::Authentication) => plaintext@.len() > MAX_MESSAGE,
            Err(StateError::Io(_)) => true,
            Err(_) => false,
        },
{
    let salt = match random_bytes(SALT_LEN) {
        Ok(bytes) => bytes,
        Err(e) => return Err(StateError::Io(random_fault(e))),
    };
    let nonce = match random_bytes(NONCE_LEN) {
        Ok(bytes) => bytes,
        Err(e) => return Err(StateError::Io(random_fault(e))),
    };
    seal_with(key, salt.as_slice(), nonce.as_slice(), plaintext)
}

/// Encrypt `plaintext` into the archive format with the given salt and nonce.
pub fn seal_with(key: &StateKey, salt: &[u8], nonce: &[u8], plaintext: &[u8]) -> (blob: Result<
    Vec<u8>,
    StateError,
>)
    requires
        salt@.len() == SALT_LEN,
        nonce@.len() == NONCE_LEN,
    ensures
        match blob {
            Ok(b) => {
                &&& plaintext@.len() <= MAX_MESSAGE
                &&& b@ == sealed_archive(key@, salt@, nonce@, plaintext@)
                &&& b@.len() == HEADER_LEN + plaintext@.len() + TAG_LEN
                &&& opening_of(key@, b@) == Opening::Plain(plaintext@)
            },
            Err(StateError::Authentication) => plaintext@.len() > MAX_MESSAGE,
            Err(_) => false,
        },
{
    if plaintext.len() as u64 > MAX_MESSAGE {
        return Err(StateError::Authentication);
    }
    let mut out: Vec<u8> = Vec::new();
    out.extend_from_slice(MAGIC.as_slice());
    out.extend_from_slice(salt);
    out.extend_from_slice(nonce);
    let ghost header = header_of(salt@, nonce@);
    assert(out@ =~= header);

    let mut derived = key.derive(salt);
    let sealed = aead_encrypt(derived.as_slice(), nonce, out.as_slice(), plaintext);
    wipe_array(&mut derived);
    match sealed {
        Some(ct) => {
            out.extend_from_slice(ct.as_slice());
            proof {
                let b = out@;
                assert(b =~= header + ct@);
                assert(b.take(4) =~= MAGIC@);
                assert(b.take(HEADER_LEN as int) =~= header);
                assert(b.subrange(4, 36) =~= salt@);
                assert(b.subrange(36, 60) =~= nonce@);
                assert(b.skip(HEADER_LEN as int) =~= ct@);
            }
            Ok(out)
        },
        None => Err(StateError::Authentication),
    }
}

/// Authenticate and decrypt an archive produced by [`seal`].
pub fn open(key: &StateKey, blob: &[u8]) -> (plaintext: Result<SecretBytes, StateError>)
    ensures
        match plaintext {
            Ok(p) => {
                &&& opening_of(key@, blob@) == Opening::Plain(p@)
                &&& p@.len() == blob@.len() - HEADER_LEN - TAG_LEN
            },
            Err(StateError::Truncated) => opening_of(key@, blob@) == Opening::Truncated,
            Err(StateError::BadMagic) => opening_of(key@, blob@) == Opening::BadMagic,
            Err(StateError::Authentication) => opening_of(key@, blob@) == Opening::Unauthentic,
            Err(_) => false,
        },
{
    if blob.len() < 4 {
        return Err(StateError::Truncated);
    }
    assert(blob@.take(4) =~= blob@.subrange(0, 4));
    if !same_bytes(slice_subrange(blob, 0, 4), MAGIC.as_slice()) {
        return Err(StateError::BadMagic);
    }
    if blob.len() < HEADER_LEN + TAG_LEN {
        return Err(StateError::Truncated);
    }
    if (blob.len() - HEADER_LEN - TAG_LEN) as u64 > MAX_MESSAGE {
        return Err(StateError::Authentication);
    }
    let header = slice_subrange(blob, 0, HEADER_LEN);
    let ct = slice_subrange(blob, HEADER_LEN, blob.len());
    let salt = slice_subrange(blob, 4, 36);
    let nonce = slice_subrange(blob, 36, 60);
    assert(header@ =~= blob@.take(HEADER_LEN as int));
    assert(ct@ =~= blob@.skip(HEADER_LEN as int));

    let mut derived = key.derive(salt);
    let opened = aead_decrypt(derived.as_slice(), nonce, header, ct);
    wipe_array(&mut derived);
    match opened {
        Some(plaintext) => Ok(SecretBytes::new(plaintext)),
        None => Err(StateError::Authentication),
    }
}

/// A file of the store, by its name relative to the store directory. There are no contents where
/// the file is missing, cannot be opened or is not a regular file.
pub struct StoreFile {
    pub name: String,
    pub contents: Option<Vec<u8>>,
}

/// The entries of the archive that holds the given files: those that have contents, in order, with
/// fixed metadata.
pub open spec fn entries_of(files: Seq<StoreFile>) -> Seq<EntryView>
    decreases files.len(),
{
    if files.len() == 0 {
        Seq::empty()
    } else {
        let before = entries_of(files.drop_last());
        match files.last().contents {
            Some(c) => before.push((encode_utf8(files.last().name@), c@, FILE_MODE, 0, 0, 0)),
            None => before,
        }
    }
}

/// Build the deterministic gzip'd tar of `files`. Missing files are skipped: a store that never
/// had an event cache still exports.
pub fn pack(files: &Vec<StoreFile>) -> (tgz: Result<Vec<u8>, StateError>)
    ensures
        match tgz {
            Ok(t) => {
                &&& t@ == tar_gz(entries_of(files@), COMPRESSION_LEVEL)
                &&& has_tar_names(entries_of(files@)) && tar_len(entries_of(files@)) < MAX_PLAINTEXT
                    ==> unpacked_of(t@) == (entry_files(entries_of(files@)), UnpackEnd::Done)
            },
            Err(StateError::Io(_)) => !has_tar_names(entries_of(files@)),
            Err(_) => false,
        },
{
    let mut tar = TarGzBuilder::new(COMPRESSION_LEVEL);
    let mut i: usize = 0;
    assert(files@.take(0) =~= Seq::empty());
    while i < files.len()
        invariant
            i <= files.len(),
            built_level(tar) == COMPRESSION_LEVEL,
            built_entries(tar) == entries_of(files@.take(i as int)),
        decreases files.len() - i,
    {
        assert(files@.take(i as int + 1).drop_last() =~= files@.take(i as int));
        if let Some(contents) = &files[i].contents {
            let done = tar.append(
                files[i].name.as_str(),
                contents.as_slice(),
                FILE_MODE,
                0,
                0,
                0,
            );
            if let Err(e) = done {
                proof {
                    lemma_entries_contain(files@, i as int);
                }
                return Err(StateError::Io(e));
            }
        }
        i = i + 1;
    }
    assert(files@.take(files@.len() as int) =~= files@);
    match tar.finish() {
        Ok(t) => {
            proof {
                let entries = entries_of(files@);
                if has_tar_names(entries) && tar_len(entries) < MAX_PLAINTEXT {
                    assert(lists(t@, MAX_PLAINTEXT, entries));
                    law_unpack_inverts_pack(t@, entries);
                }
            }
            Ok(t)
        },
        Err(e) => Err(StateError::Io(e)),
    }
}

/// A file with contents is among the entries.
proof fn lemma_entries_contain(files: Seq<StoreFile>, k: int)
    requires
        0 <= k < files.len(),
        files[k].contents is Some,
    ensures
        exists|j: int|
            0 <= j < entries_of(files).len() && (#[trigger] entries_of(files)[j]).0 == encode_utf8(
                files[k].name@,
            ),
    decreases files.len(),
{
    let before = entries_of(files.drop_last());
    if k == files.len() - 1 {
        assert(entries_of(files)[before.len() as int].0 == encode_utf8(files[k].name@));
    } else {
        lemma_entries_contain(files.drop_last(), k);
        let j = choose|j: int|
            0 <= j < before.len() && (#[trigger] before[j]).0 == encode_utf8(files[k].name@);
        assert(entries_of(files)[j] == before[j]);
    }
}

/// The position of the first `/` in a path, or its length where there is none.
pub open spec fn first_slash(path: Seq<u8>) -> int
    decreases path.len(),
{
    if path.len() == 0 || path[0] == 0x2f {
        0
    } else {
        1 + first_slash(path.drop_first())
    }
}

/// What may follow a file name without naming anything else: slashes, and single dots between
/// them.
pub open spec fn adds_nothing(tail: Seq<u8>) -> bool {
    &&& forall|i: int| 0 <= i < tail.len() ==> #[trigger] tail[i] == 0x2f || tail[i] == 0x2e
    &&& forall|i: int, j: int|
        0 <= i < tail.len() && j == i + 1 && j < tail.len() ==> !(#[trigger] tail[i] == 0x2e
            && #[trigger] tail[j] == 0x2e)
}

/// The file name that a path consists of, where it is nothing but one.
pub open spec fn plain_name(path: Seq<u8>) -> Option<Seq<u8>> {
    let name = path.take(first_slash(path));
    if name.len() == 0 || name == seq![0x2eu8] || name == seq![0x2eu8, 0x2eu8] || !adds_nothing(
        path.skip(first_slash(path)),
    ) {
        None
    } else {
        Some(name)
    }
}

proof fn lemma_first_slash(path: Seq<u8>)
    ensures
        0 <= first_slash(path) <= path.len(),
        first_slash(path) < path.len() ==> path[first_slash(path)] == 0x2f,
        forall|i: int| 0 <= i < first_slash(path) ==> #[trigger] path[i] != 0x2f,
    decreases path.len(),
{
    if path.len() > 0 && path[0] != 0x2f {
        lemma_first_slash(path.drop_first());
        assert forall|i: int| 0 <= i < first_slash(path) implies #[trigger] path[i] != 0x2f by {
            if i > 0 {
                assert(path.drop_first()[i - 1] == path[i]);
            }
        }
    }
}

proof fn lemma_first_slash_is(path: Seq<u8>, k: int)
    requires
        0 <= k <= path.len(),
        k < path.len() ==> path[k] == 0x2f,
        forall|i: int| 0 <= i < k ==> #[trigger] path[i] != 0x2f,
    ensures
        first_slash(path) == k,
{
    lemma_first_slash(path);
    let j = first_slash(path);
    if j < k {
        assert(path[j] != 0x2f);
    } else if k < j {
        assert(path[k] != 0x2f);
    }
}

/// A name that stays inside the directory it is joined to.
pub open spec fn is_inside(name: Seq<u8>) -> bool {
    &&& name.len() > 0
    &&& !name.contains(0x2f)
    &&& name != seq![0x2eu8]
    &&& name != seq![0x2eu8, 0x2eu8]
}

/// A path is accepted only for a name that stays inside the directory it is joined to: the name is
/// not empty, holds no `/`, and is neither `.` nor `..`.
pub proof fn law_plain_names_stay_inside(path: Seq<u8>)
    ensures
        match plain_name(path) {
            Some(name) => is_inside(name),
            None => true,
        },
{
    lemma_first_slash(path);
    let name = path.take(first_slash(path));
    if name.contains(0x2f) {
        let k = choose|k: int| 0 <= k < name.len() && name[k] == 0x2f;
        assert(path[k] == 0x2f);
    }
}

/// A name that the tar format holds as it stands is a plain file name.
pub proof fn lemma_tar_names_are_plain(name: Seq<u8>)
    requires
        is_tar_name(name),
    ensures
        plain_name(name) == Some(name),
{
    assert forall|i: int| 0 <= i < name.len() implies #[trigger] name[i] != 0x2f by {
        if name[i] == 0x2f {
            assert(name.contains(0x2f));
        }
    }
    lemma_first_slash_is(name, name.len() as int);
    assert(name.take(name.len() as int) =~= name);
}

/// The file name that `path` consists of, where it is nothing but one.
pub fn file_name(path: &[u8]) -> (name: Option<Vec<u8>>)
    ensures
        match name {
            Some(n) => plain_name(path@) == Some(n@),
            None => plain_name(path@) is None,
        },
{
    let mut k: usize = 0;
    while k < path.len() && path[k] != 0x2f
        invariant
            k <= path.len(),
            forall|i: int| 0 <= i < k ==> #[trigger] path@[i] != 0x2f,
        decreases path.len() - k,
    {
        k = k + 1;
    }
    proof {
        lemma_first_slash_is(path@, k as int);
    }
    let name = slice_subrange(path, 0, k);
    assert(name@ =~= path@.take(k as int));
    if k == 0 {
        return None;
    }
    if k == 1 && path[0] == 0x2e {
        assert(name@ =~= seq![0x2eu8]);
        return None;
    }
    if k == 2 && path[0] == 0x2e && path[1] == 0x2e {
        assert(name@ =~= seq![0x2eu8, 0x2eu8]);
        return None;
    }
    let ghost tail = path@.skip(k as int);
    let mut i: usize = k;
    while i < path.len()
        invariant
            k <= i <= path.len(),
            k == first_slash(path@),
            tail == path@.skip(k as int),
            adds_nothing(tail.take(i - k)),
        decreases path.len() - i,
    {
        assert(tail[i - k] == path@[i as int]);
        if path[i] != 0x2f && path[i] != 0x2e {
            assert(!adds_nothing(tail));
            return None;
        }
        if i > k && path[i] == 0x2e && path[i - 1] == 0x2e {
            assert(tail[i - k - 1] == path@[i - 1]);
            assert(!adds_nothing(tail));
            return None;
        }
        proof {
            let seen = tail.take(i - k);
            let next = tail.take(i - k + 1);
            assert forall|m: int| 0 <= m < next.len() implies #[trigger] next[m] == 0x2f || next[m]
                == 0x2e by {
                if m < seen.len() {
                    assert(seen[m] == next[m]);
                }
            }
            assert forall|m: int, n: int|
                0 <= m < next.len() && n == m + 1 && n < next.len() implies !(#[trigger] next[m]
                == 0x2e && #[trigger] next[n] == 0x2e) by {
                if n < seen.len() {
                    assert(seen[m] == next[m] && seen[n] == next[n]);
                } else {
                    assert(next[m] == path@[i - 1]);
                }
            }
        }
        i = i + 1;
    }
    assert(tail.take(path@.len() - k) =~= tail);
    proof {
        if name@ == seq![0x2eu8] {
            assert(name@[0] == path@[0] && name@.len() == 1);
        }
        if name@ == seq![0x2eu8, 0x2eu8] {
            assert(name@[0] == path@[0] && name@[1] == path@[1] && name@.len() == 2);
        }
    }
    Some(slice_to_vec(name))
}

/// A file that an archive holds, by its plain name.
pub struct UnpackedFile {
    pub name: Vec<u8>,
    pub contents: Vec<u8>,
}

impl UnpackedFile {
    /// The name as it is reported.
    pub fn display_name(&self) -> (text: String)
        ensures
            text@ == utf8_lossy(self.name@),
    {
        lossy_text(self.name.as_slice())
    }

    /// The name of the file that the contents are written to before it is renamed.
    pub fn temporary_name(&self) -> (text: String)
        ensures
            text@ == "."@ + utf8_lossy(self.name@) + ".tmp"@,
    {
        let mut text = ".".to_owned();
        text.append(self.display_name().as_str());
        text.append(".tmp");
        text
    }
}

/// The files to write, in order, and whether the archive was sound to its end. Where it was not,
/// the files before the fault are still to be written.
pub struct Unpacked {
    pub files: Vec<UnpackedFile>,
    pub outcome: Result<(), StateError>,
}

/// How unpacking ends.
pub enum UnpackEnd {
    /// With the last entry.
    Done,
    /// With the last entry, but the limit is used up.
    TooLarge,
    /// With an entry, or the contents of one, that cannot be read.
    Unreadable,
    /// With an entry that is not a regular file.
    NotAFile(Seq<u8>),
    /// With an entry whose path is not a plain file name.
    UnsafePath(Seq<u8>),
}

/// What is wrong with an entry. Its type counts before its name, and its name before its contents.
pub open spec fn entry_fault(entry: Option<(Seq<u8>, Option<Option<Seq<u8>>>)>) -> Option<
    UnpackEnd,
> {
    match entry {
        Some((path, Some(contents))) => if plain_name(path) is None {
            Some(UnpackEnd::UnsafePath(path))
        } else if contents is None {
            Some(UnpackEnd::Unreadable)
        } else {
            None
        },
        Some((path, None)) => Some(UnpackEnd::NotAFile(path)),
        None => Some(UnpackEnd::Unreadable),
    }
}

/// The name and the contents of an entry that nothing is wrong with.
pub open spec fn entry_file(entry: Option<(Seq<u8>, Option<Option<Seq<u8>>>)>) -> (
    Seq<u8>,
    Seq<u8>,
) {
    match entry {
        Some((path, Some(Some(contents)))) => (plain_name(path)->0, contents),
        _ => (Seq::empty(), Seq::empty()),
    }
}

/// The files before the first entry that something is wrong with.
pub open spec fn sound_files(
    entries: Seq<Option<(Seq<u8>, Option<Option<Seq<u8>>>)>>,
) -> Seq<(Seq<u8>, Seq<u8>)>
    decreases entries.len(),
{
    if entries.len() == 0 || entry_fault(entries[0]) is Some {
        Seq::empty()
    } else {
        seq![entry_file(entries[0])] + sound_files(entries.drop_first())
    }
}

/// How unpacking the entries ends: with the first fault, or by how much of the limit is left.
pub open spec fn unpack_end(
    entries: Seq<Option<(Seq<u8>, Option<Option<Seq<u8>>>)>>,
    left: u64,
) -> UnpackEnd
    decreases entries.len(),
{
    if entries.len() == 0 {
        if left == 0 {
            UnpackEnd::TooLarge
        } else {
            UnpackEnd::Done
        }
    } else {
        match entry_fault(entries[0]) {
            Some(end) => end,
            None => unpack_end(entries.drop_first(), left),
        }
    }
}

/// The files and the end of unpacking a compressed archive.
pub open spec fn unpacked_of(tgz: Seq<u8>) -> (Seq<(Seq<u8>, Seq<u8>)>, UnpackEnd) {
    match tar_gz_listing(tgz, MAX_PLAINTEXT) {
        Some((entries, left)) => (sound_files(entries), unpack_end(entries, left)),
        None => (Seq::empty(), UnpackEnd::Unreadable),
    }
}

/// The names and contents of unpacked files.
pub open spec fn files_view(files: Seq<UnpackedFile>) -> Seq<(Seq<u8>, Seq<u8>)> {
    files.map_values(|f: UnpackedFile| (f.name@, f.contents@))
}

/// The result of unpacking says how it ended.
pub open spec fn ends_with(outcome: Result<(), StateError>, end: UnpackEnd) -> bool {
    match outcome {
        Ok(()) => end == UnpackEnd::Done,
        Err(StateError::TooLarge) => end == UnpackEnd::TooLarge,
        Err(StateError::Io(_)) => end == UnpackEnd::Unreadable,
        Err(StateError::NotAFile(path)) => end == UnpackEnd::NotAFile(path@),
        Err(StateError::UnsafePath(path)) => end == UnpackEnd::UnsafePath(path@),
        Err(_) => false,
    }
}

/// Inverse of [`pack`]: the archive's regular files. Rejects anything that is not a plain relative
/// file name so a hostile archive cannot write outside the store directory.
pub fn unpack(tgz: &[u8]) -> (unpacked: Unpacked)
    ensures
        files_view(unpacked.files@) == unpacked_of(tgz@).0,
        ends_with(unpacked.outcome, unpacked_of(tgz@).1),
{
    match read_tar_gz(tgz, MAX_PLAINTEXT) {
        Ok((entries, left)) => unpack_entries(entries, left),
        Err(e) => {
            let files: Vec<UnpackedFile> = Vec::new();
            assert(files_view(files@) =~= Seq::empty());
            Unpacked { files, outcome: Err(StateError::Io(e)) }
        },
    }
}

/// The files of an archive whose entries were read, with `left` bytes of the limit left.
pub fn unpack_entries(entries: Vec<Result<ArchiveEntry, std::io::Error>>, left: u64) -> (unpacked:
    Unpacked)
    ensures
        files_view(unpacked.files@) == sound_files(
            entries@.map_values(|e: Result<ArchiveEntry, std::io::Error>| listed(e)),
        ),
        ends_with(
            unpacked.outcome,
            unpack_end(
                entries@.map_values(|e: Result<ArchiveEntry, std::io::Error>| listed(e)),
                left,
            ),
        ),
{
    let ghost all = entries@.map_values(|e: Result<ArchiveEntry, std::io::Error>| listed(e));
    let mut files: Vec<UnpackedFile> = Vec::new();
    assert(all.skip(0) =~= all);
    assert(files_view(files@) + sound_files(all) =~= sound_files(all));
    for entry in it: entries
        invariant
            all == it.seq().map_values(|e: Result<ArchiveEntry, std::io::Error>| listed(e)),
            files_view(files@) + sound_files(all.skip(it.index())) == sound_files(all),
            unpack_end(all.skip(it.index()), left) == unpack_end(all, left),
    {
        let ghost k = it.index();
        let ghost before = files@;
        assert(all.skip(k)[0] == listed(entry));
        assert(all.skip(k).drop_first() =~= all.skip(k + 1));
        assert(files_view(files@) + Seq::empty() =~= files_view(files@));
        match entry {
            Ok(ArchiveEntry::File { path, contents }) => {
                match file_name(path.as_slice()) {
                    Some(name) => match contents {
                        Ok(contents) => {
                            files.push(UnpackedFile { name, contents });
                            assert(files_view(files@) =~= files_view(before).push(
                                (name@, contents@),
                            ));
                            assert(files_view(files@) + sound_files(all.skip(k + 1)) =~= files_view(
                                before,
                            ) + (seq![entry_file(all.skip(k)[0])] + sound_files(all.skip(k + 1))));
                        },
                        Err(e) => {
                            return Unpacked { files, outcome: Err(StateError::Io(e)) };
                        },
                    },
                    None => {
                        return Unpacked { files, outcome: Err(StateError::UnsafePath(path)) };
                    },
                }
            },
            Ok(ArchiveEntry::Other { path }) => {
                return Unpacked { files, outcome: Err(StateError::NotAFile(path)) };
            },
            Err(e) => {
                return Unpacked { files, outcome: Err(StateError::Io(e)) };
            },
        }
    }
    assert(all.skip(all.len() as int) =~= Seq::empty());
    assert(files_view(files@) + Seq::empty() =~= files_view(files@));
    let outcome = if left == 0 {
        Err(StateError::TooLarge)
    } else {
        Ok(())
    };
    Unpacked { files, outcome }
}

/// The names and contents of entries.
pub open spec fn entry_files(entries: Seq<EntryView>) -> Seq<(Seq<u8>, Seq<u8>)> {
    entries.map_values(|e: EntryView| (e.0, e.1))
}

/// Unpacking entries that were appended under plain names gives each of them back.
pub proof fn law_unpack_inverts_pack(tgz: Seq<u8>, entries: Seq<EntryView>)
    requires
        has_tar_names(entries),
        lists(tgz, MAX_PLAINTEXT, entries),
    ensures
        unpacked_of(tgz) == (entry_files(entries), UnpackEnd::Done),
{
    let left = match tar_gz_listing(tgz, MAX_PLAINTEXT) {
        Some((_, left)) => left,
        None => 0,
    };
    lemma_listed_entries_unpack(entries, left);
}

proof fn lemma_listed_entries_unpack(entries: Seq<EntryView>, left: u64)
    requires
        has_tar_names(entries),
        left > 0,
    ensures
        sound_files(as_listed(entries)) == entry_files(entries),
        unpack_end(as_listed(entries), left) == UnpackEnd::Done,
    decreases entries.len(),
{
    if entries.len() == 0 {
        assert(sound_files(as_listed(entries)) =~= entry_files(entries));
    } else {
        let rest = entries.drop_first();
        assert forall|i: int| 0 <= i < rest.len() implies is_tar_name((#[trigger] rest[i]).0) by {
            assert(rest[i] == entries[i + 1]);
        }
        lemma_listed_entries_unpack(rest, left);
        lemma_tar_names_are_plain(entries[0].0);
        assert(as_listed(entries).drop_first() =~= as_listed(rest));
        assert(as_listed(entries)[0] == Some((entries[0].0, Some(Some(entries[0].1)))));
        assert(entry_files(entries) =~= seq![(entries[0].0, entries[0].1)] + entry_files(rest));
    }
}

/// The archive in an input: the input itself, where it starts as an archive does, and otherwise
/// what it is the Base64 text of, white space aside.
pub open spec fn blob_of(input: Seq<u8>) -> Option<Seq<u8>> {
    if MAGIC@.is_prefix_of(input) {
        Some(input)
    } else if exists|b: Seq<u8>| #[trigger] base64_bytes(b) == without_spaces(input) {
        Some(choose|b: Seq<u8>| #[trigger] base64_bytes(b) == without_spaces(input))
    } else {
        None
    }
}

/// An archive is found in its Base64 text, however white space is spread in it, and in its raw
/// bytes.
pub proof fn law_archive_is_found(blob: Seq<u8>, input: Seq<u8>)
    requires
        MAGIC@.is_prefix_of(blob),
        input == blob || without_spaces(input) == base64_bytes(blob),
    ensures
        blob_of(input) == Some(blob),
{
    if input != blob {
        lemma_base64_is_ascii(blob);
        assert(blob[0] == MAGIC@[0]);
        assert(blob.len() >= 3) by {
            assert(MAGIC@.len() == 4);
        }
        assert(base64_bytes(blob)[0] == 0x54);
        assert(!MAGIC@.is_prefix_of(input)) by {
            if MAGIC@.is_prefix_of(input) {
                assert(input[0] == MAGIC@[0]);
                lemma_first_of_compact(input);
            }
        }
        let b = choose|b: Seq<u8>| #[trigger] base64_bytes(b) == without_spaces(input);
        assert(base64_bytes(blob) == without_spaces(input));
        law_base64_injective(b, blob);
    }
}

proof fn lemma_first_of_compact(input: Seq<u8>)
    requires
        input.len() > 0,
        !is_ascii_space(input[0]),
    ensures
        without_spaces(input).len() > 0,
        without_spaces(input)[0] == input[0],
    decreases input.len(),
{
    if input.len() > 1 {
        assert(input.drop_last()[0] == input[0]);
        lemma_first_of_compact(input.drop_last());
    } else {
        assert(without_spaces(input.drop_last()) =~= Seq::empty());
    }
}

/// The outcome of importing.
pub enum Import {
    /// The input is neither an archive nor Base64 text.
    NotBase64,
    /// The archive does not open.
    Closed(Opening),
    /// The files to write, and how unpacking ended.
    Unpacked(Seq<(Seq<u8>, Seq<u8>)>, UnpackEnd),
}

/// What importing an input with a key gives. Only what is authentic reaches the tar reader.
pub open spec fn import_of(key: Seq<u8>, input: Seq<u8>) -> Import {
    match blob_of(input) {
        Some(blob) => match opening_of(key, blob) {
            Opening::Plain(tgz) => Import::Unpacked(unpacked_of(tgz).0, unpacked_of(tgz).1),
            other => Import::Closed(other),
        },
        None => Import::NotBase64,
    }
}

/// The text is the Base64 text of an archive that opens with the key and holds the plaintext.
pub open spec fn holds_archive(key: Seq<u8>, text: Seq<char>, plaintext: Seq<u8>) -> bool {
    exists|blob: Seq<u8>|
        text == #[trigger] base64_text(blob) && opening_of(key, blob) == Opening::Plain(plaintext)
}

/// The text of an archive holds one plaintext, and importing the text unpacks that, whatever it is.
pub proof fn law_import_unpacks_what_the_text_holds(
    key: Seq<u8>,
    text: Seq<char>,
    plaintext: Seq<u8>,
    other: Seq<u8>,
)
    requires
        holds_archive(key, text, plaintext),
        holds_archive(key, text, other),
    ensures
        plaintext == other,
        import_of(key, encode_utf8(text)) == Import::Unpacked(
            unpacked_of(plaintext).0,
            unpacked_of(plaintext).1,
        ),
{
    let blob = choose|blob: Seq<u8>|
        text == #[trigger] base64_text(blob) && opening_of(key, blob) == Opening::Plain(plaintext);
    let again = choose|blob: Seq<u8>|
        text == #[trigger] base64_text(blob) && opening_of(key, blob) == Opening::Plain(other);
    lemma_base64_is_ascii(blob);
    lemma_base64_is_ascii(again);
    law_base64_injective(blob, again);
    lemma_starts_with_magic(key, blob);
    lemma_no_spaces(encode_utf8(text));
    law_archive_is_found(blob, encode_utf8(text));
}

/// What opens starts as an archive does.
proof fn lemma_starts_with_magic(key: Seq<u8>, blob: Seq<u8>)
    requires
        opening_of(key, blob) is Plain,
    ensures
        MAGIC@.is_prefix_of(blob),
{
    assert forall|i: int| 0 <= i < 4 implies MAGIC@[i] == blob[i] by {
        assert(blob.take(4)[i] == blob[i]);
    }
}

/// An archive as Base64 text, in which it is found again.
pub fn archive_text(blob: &[u8]) -> (text: String)
    ensures
        text@ == base64_text(blob@),
        MAGIC@.is_prefix_of(blob@) ==> {
            &&& blob_of(encode_utf8(text@)) == Some(blob@)
            &&& "TU5TM"@.is_prefix_of(text@)
        },
{
    let text = base64_encode(blob);
    proof {
        lemma_base64_is_ascii(blob@);
        lemma_no_spaces(encode_utf8(text@));
        if MAGIC@.is_prefix_of(blob@) {
            law_archive_is_found(blob@, encode_utf8(text@));
            lemma_text_of_magic(blob@);
        }
    }
    text
}

/// The Base64 text of an archive starts with the digits that its first four bytes decide.
proof fn lemma_text_of_magic(blob: Seq<u8>)
    requires
        MAGIC@.is_prefix_of(blob),
    ensures
        "TU5TM"@.is_prefix_of(base64_text(blob)),
{
    reveal_strlit("TU5TM");
    assert(MAGIC@.len() == 4);
    assert(forall|i: int| 0 <= i < 4 ==> #[trigger] blob[i] == MAGIC@[i]);
    let bytes = base64_bytes(blob);
    let rest = blob.skip(3);
    assert(rest[0] == 0x31);
    assert(base64_bytes(rest)[0] == base64_digit(12));
    assert(bytes[0] == 0x54 && bytes[1] == 0x55 && bytes[2] == 0x35 && bytes[3] == 0x54);
    assert(bytes[4] == 0x4d);
    let text = base64_text(blob);
    assert(text[0] == 'T' && text[1] == 'U' && text[2] == '5' && text[3] == 'T' && text[4] == 'M');
}

/// The store packed, encrypted and written as a Base64 string ready to paste into a secret.
///
/// Success is owed where every name is plain, the operating system gives random bytes and the
/// compressed archive is not too long for the cipher. The text opens with the key to what [`pack`]
/// gives, whatever its size. Where there is less to read of the uncompressed archive than the limit,
/// importing the text with the same key gives the files back.
pub fn export(files: &Vec<StoreFile>, key: &StateKey) -> (text: Result<String, StateError>)
    ensures
        match text {
            Ok(t) => {
                &&& exists|salt: Seq<u8>, nonce: Seq<u8>|
                    salt.len() == SALT_LEN && nonce.len() == NONCE_LEN && t@ == base64_text(
                        #[trigger] sealed_archive(
                            key@,
                            salt,
                            nonce,
                            tar_gz(entries_of(files@), COMPRESSION_LEVEL),
                        ),
                    )
                &&& holds_archive(key@, t@, tar_gz(entries_of(files@), COMPRESSION_LEVEL))
                &&& "TU5TM"@.is_prefix_of(t@)
                &&& has_tar_names(entries_of(files@)) && tar_len(entries_of(files@)) < MAX_PLAINTEXT
                    ==> import_of(key@, encode_utf8(t@)) == Import::Unpacked(
                    entry_files(entries_of(files@)),
                    UnpackEnd::Done,
                )
            },
            Err(StateError::Authentication) => tar_gz(
                entries_of(files@),
                COMPRESSION_LEVEL,
            ).len() > MAX_MESSAGE,
            Err(StateError::Io(_)) => true,
            Err(_) => false,
        },
{
    let tgz = match pack(files) {
        Ok(t) => SecretBytes::new(t),
        Err(e) => return Err(e),
    };
    let blob = match seal(key, tgz.as_slice()) {
        Ok(b) => b,
        Err(e) => return Err(e),
    };
    let text = archive_text(blob.as_slice());
    proof {
        lemma_starts_with_magic(key@, blob@);
        assert(text@ == base64_text(blob@));
    }
    Ok(text)
}

/// The files in an archive that is given as Base64 text (whitespace tolerated) or as the raw
/// binary archive.
pub fn import(key: &StateKey, input: &[u8]) -> (unpacked: Result<Unpacked, StateError>)
    ensures
        match unpacked {
            Ok(u) => import_of(key@, input@) matches Import::Unpacked(files, end) && files_view(
                u.files@,
            ) == files && ends_with(u.outcome, end),
            Err(StateError::Base64(e)) => import_of(key@, input@) == Import::NotBase64 && e
                == base64_fault(without_spaces(input@)),
            Err(StateError::Truncated) => import_of(key@, input@) == Import::Closed(
                Opening::Truncated,
            ),
            Err(StateError::BadMagic) => import_of(key@, input@) == Import::Closed(
                Opening::BadMagic,
            ),
            Err(StateError::Authentication) => import_of(key@, input@) == Import::Closed(
                Opening::Unauthentic,
            ),
            Err(_) => false,
        },
{
    let raw = input.len() >= 4 && same_bytes(slice_subrange(input, 0, 4), MAGIC.as_slice());
    proof {
        if input@.len() >= 4 {
            let head = input@.subrange(0, 4);
            if raw {
                assert forall|i: int| 0 <= i < 4 implies MAGIC@[i] == input@[i] by {
                    assert(head[i] == input@[i]);
                }
            } else if MAGIC@.is_prefix_of(input@) {
                assert(head =~= MAGIC@);
            }
        }
        assert(raw == MAGIC@.is_prefix_of(input@));
    }
    let blob = if raw {
        slice_to_vec(input)
    } else {
        let compact = remove_spaces(input);
        match base64_decode(compact.as_slice()) {
            Ok(b) => {
                proof {
                    let c = choose|c: Seq<u8>| #[trigger] base64_bytes(c) == without_spaces(input@);
                    assert(base64_bytes(b@) == without_spaces(input@));
                    law_base64_injective(c, b@);
                }
                b
            },
            Err(e) => return Err(StateError::Base64(e)),
        }
    };
    match open(key, blob.as_slice()) {
        Ok(tgz) => Ok(unpack(tgz.as_slice())),
        Err(e) => Err(e),
    }
}

/// Only what is authentic is unpacked: files come out of an input only where the archive in it opens
/// with the key, and they are those of what the cipher found in it.
pub proof fn law_only_authentic_archives_are_unpacked(key: Seq<u8>, input: Seq<u8>)
    requires
        import_of(key, input) is Unpacked,
    ensures
        match blob_of(input) {
            Some(blob) => {
                &&& blob.len() >= HEADER_LEN + TAG_LEN
                &&& match aead_opened(
                    derived_key(key, blob.subrange(4, 36)),
                    blob.subrange(36, 60),
                    blob.take(HEADER_LEN as int),
                    blob.skip(HEADER_LEN as int),
                ) {
                    Some(tgz) => import_of(key, input) == Import::Unpacked(
                        unpacked_of(tgz).0,
                        unpacked_of(tgz).1,
                    ),
                    None => false,
                }
            },
            None => false,
        },
{
}

/// Every file that comes out of an archive, whatever the archive holds, has a name that stays
/// inside the directory it is joined to.
pub proof fn law_unpacked_files_stay_inside(tgz: Seq<u8>)
    ensures
        forall|i: int|
            0 <= i < unpacked_of(tgz).0.len() ==> is_inside((#[trigger] unpacked_of(tgz).0[i]).0),
{
    if let Some((entries, _)) = tar_gz_listing(tgz, MAX_PLAINTEXT) {
        lemma_sound_files_inside(entries);
    }
}

proof fn lemma_sound_files_inside(entries: Seq<Option<(Seq<u8>, Option<Option<Seq<u8>>>)>>)
    ensures
        forall|i: int|
            0 <= i < sound_files(entries).len() ==> is_inside(
                (#[trigger] sound_files(entries)[i]).0,
            ),
    decreases entries.len(),
{
    if entries.len() > 0 && entry_fault(entries[0]) is None {
        let rest = sound_files(entries.drop_first());
        lemma_sound_files_inside(entries.drop_first());
        if let Some((path, _)) = entries[0] {
            law_plain_names_stay_inside(path);
        }
        assert forall|i: int| 0 <= i < sound_files(entries).len() implies is_inside(
            (#[trigger] sound_files(entries)[i]).0,
        ) by {
            if i > 0 {
                assert(sound_files(entries)[i] == rest[i - 1]);
            }
        }
    }
}

/// Every character of a name is neither a NUL nor a `/`, and ASCII.
spec fn is_simple(name: Seq<char>) -> bool
    decreases name.len(),
{
    name.len() == 0 || {
        &&& '\0' < name.last() <= '\u{7f}'
        &&& name.last() != '/'
        &&& is_simple(name.drop_last())
    }
}

proof fn lemma_simple_names(name: Seq<char>)
    requires
        is_simple(name),
    ensures
        forall|i: int|
            0 <= i < name.len() ==> '\0' < #[trigger] name[i] <= '\u{7f}' && name[i] != '/',
    decreases name.len(),
{
    if name.len() > 0 {
        let rest = name.drop_last();
        lemma_simple_names(rest);
        assert forall|i: int| 0 <= i < name.len() implies '\0' < #[trigger] name[i] <= '\u{7f}'
            && name[i] != '/' by {
            if i < rest.len() {
                assert(rest[i] == name[i]);
            }
        }
    }
}

proof fn lemma_simple_name_is_tar_name(name: Seq<char>)
    requires
        is_simple(name),
        name.len() > 2,
    ensures
        is_tar_name(encode_utf8(name)),
{
    lemma_simple_names(name);
    assert(is_ascii_chars(name));
    is_ascii_chars_encode_utf8(name);
    let bytes = encode_utf8(name);
    assert(bytes =~= Seq::new(name.len(), |i: int| name[i] as u8));
    if bytes.contains(0) {
        let k = choose|k: int| 0 <= k < bytes.len() && bytes[k] == 0;
        assert(name[k] as u8 == 0);
    }
    if bytes.contains(0x2f) {
        let k = choose|k: int| 0 <= k < bytes.len() && bytes[k] == 0x2f;
        assert(name[k] as u8 == 0x2f);
    }
}

/// The files are among those that make up the portable identity.
pub open spec fn are_exported(files: Seq<StoreFile>) -> bool {
    forall|i: int|
        0 <= i < files.len() ==> {
            let name = (#[trigger] files[i]).name@;
            name == SESSION_FILE@ || name == STATE_DB@ || name == CRYPTO_DB@
        }
}

/// The files that are exported have names that the tar format holds as they stand, so that a store
/// that is not too large comes back as it was exported.
pub proof fn law_exported_files_can_be_packed(files: Seq<StoreFile>)
    requires
        are_exported(files),
    ensures
        has_tar_names(entries_of(files)),
    decreases files.len(),
{
    if files.len() > 0 {
        let rest = files.drop_last();
        assert(are_exported(rest)) by {
            assert forall|i: int| 0 <= i < rest.len() implies {
                let name = (#[trigger] rest[i]).name@;
                name == SESSION_FILE@ || name == STATE_DB@ || name == CRYPTO_DB@
            } by {
                assert(rest[i] == files[i]);
            }
        }
        law_exported_files_can_be_packed(rest);
        let last = files[files.len() - 1];
        assert(is_tar_name(encode_utf8(last.name@))) by {
            reveal_strlit("session.json");
            reveal_strlit("matrix-sdk-state.sqlite3");
            reveal_strlit("matrix-sdk-crypto.sqlite3");
            reveal_with_fuel(is_simple, 26);
            lemma_simple_name_is_tar_name(last.name@);
        }
        let before = entries_of(rest);
        assert forall|i: int| 0 <= i < entries_of(files).len() implies is_tar_name(
            (#[trigger] entries_of(files)[i]).0,
        ) by {
            if i < before.len() {
                assert(entries_of(files)[i] == before[i]);
            }
        }
    }
}

/// The files of a store that are exported, in order, each as `read` finds it.
pub fn store_files<F: Fn(&str) -> Option<Vec<u8>>>(read: F) -> (files: Vec<StoreFile>)
    requires
        forall|name: &str| call_requires(read, (name,)),
    ensures
        files@.len() == EXPORTED_FILES@.len(),
        forall|i: int|
            0 <= i < files@.len() ==> (#[trigger] files@[i]).name@ == EXPORTED_FILES@[i]@
                && call_ensures(read, (EXPORTED_FILES@[i],), files@[i].contents),
        are_exported(files@),
{
    let mut files: Vec<StoreFile> = Vec::new();
    let mut i: usize = 0;
    while i < 3
        invariant
            i <= 3,
            files@.len() == i,
            forall|name: &str| call_requires(read, (name,)),
            forall|k: int|
                0 <= k < i ==> (#[trigger] files@[k]).name@ == EXPORTED_FILES@[k]@ && call_ensures(
                    read,
                    (EXPORTED_FILES@[k],),
                    files@[k].contents,
                ),
        decreases 3 - i,
    {
        let name = EXPORTED_FILES[i];
        files.push(StoreFile { name: name.to_owned(), contents: read(name) });
        i = i + 1;
    }
    files
}

/// A name that an archive holds as it stands: it is not empty, holds neither a NUL nor a `/`, and is
/// neither `.` nor `..`.
pub open spec fn is_plain(name: Seq<u8>) -> bool {
    &&& name.len() > 0
    &&& forall|i: int| 0 <= i < name.len() ==> #[trigger] name[i] != 0 && name[i] != 0x2f
    &&& name != seq![0x2eu8]
    &&& name != seq![0x2eu8, 0x2eu8]
}

/// Every file that has contents has a plain name.
pub open spec fn have_plain_names(files: Seq<StoreFile>) -> bool {
    forall|i: int|
        0 <= i < files.len() && (#[trigger] files[i]).contents is Some ==> is_plain(
            encode_utf8(files[i].name@),
        )
}

/// The files that have contents, in order.
pub open spec fn with_contents(files: Seq<StoreFile>) -> Seq<StoreFile> {
    files.filter(|f: StoreFile| f.contents is Some)
}

/// What there is to read of an archive of the given files, before compression: for each file with
/// contents its header and its contents in whole blocks, and its name before it where that is
/// longer than a header holds, and a last block.
pub open spec fn packed_len(files: Seq<StoreFile>) -> nat
    decreases files.len(),
{
    if files.len() == 0 {
        512
    } else {
        packed_len(files.drop_last()) + match files.last().contents {
            Some(c) => {
                let name = encode_utf8(files.last().name@).len();
                512 + (c@.len() + 511) / 512 * 512 + (if name > 100 {
                    512 + (name + 1 + 511) / 512 * 512
                } else {
                    0
                })
            },
            None => 0,
        }
    }
}

/// The files that came out are the files that went in: those that have contents, in order, each under
/// its own name and with every byte of its contents.
pub open spec fn are_restored(back: Seq<UnpackedFile>, files: Seq<StoreFile>) -> bool {
    let present = with_contents(files);
    &&& back.len() == present.len()
    &&& forall|i: int|
        0 <= i < back.len() ==> (#[trigger] back[i]).name@ == encode_utf8(present[i].name@)
            && present[i].contents is Some && back[i].contents@ == present[i].contents->0@
}

proof fn lemma_entries_are_the_files(files: Seq<StoreFile>)
    ensures
        entries_of(files).len() == with_contents(files).len(),
        forall|i: int|
            #![trigger entries_of(files)[i]]
            #![trigger with_contents(files)[i]]
            0 <= i < entries_of(files).len() ==> {
                &&& with_contents(files)[i].contents is Some
                &&& entries_of(files)[i].0 == encode_utf8(with_contents(files)[i].name@)
                &&& entries_of(files)[i].1 == with_contents(files)[i].contents->0@
            },
        tar_len(entries_of(files)) == packed_len(files),
        have_plain_names(files) ==> has_tar_names(entries_of(files)),
    decreases files.len(),
{
    reveal(Seq::filter);
    if files.len() > 0 {
        let rest = files.drop_last();
        lemma_entries_are_the_files(rest);
        let before = entries_of(rest);
        let kept = with_contents(rest);
        if files.last().contents is Some {
            assert(entries_of(files).drop_last() =~= before);
            assert(with_contents(files) =~= kept.push(files.last()));
        }
        assert forall|i: int| 0 <= i < entries_of(files).len() implies {
            &&& with_contents(files)[i].contents is Some
            &&& #[trigger] entries_of(files)[i].0 == encode_utf8(with_contents(files)[i].name@)
            &&& entries_of(files)[i].1 == with_contents(files)[i].contents->0@
        } by {
            if i < before.len() {
                assert(entries_of(files)[i] == before[i]);
                assert(with_contents(files)[i] == kept[i]);
            }
        }
        if have_plain_names(files) {
            assert(have_plain_names(rest)) by {
                assert forall|i: int|
                    0 <= i < rest.len() && (#[trigger] rest[i]).contents is Some implies is_plain(
                    encode_utf8(rest[i].name@),
                ) by {
                    assert(rest[i] == files[i]);
                }
            }
            assert forall|i: int| 0 <= i < entries_of(files).len() implies is_tar_name(
                (#[trigger] entries_of(files)[i]).0,
            ) by {
                if i < before.len() {
                    assert(entries_of(files)[i] == before[i]);
                } else {
                    assert(files[files.len() - 1].contents is Some);
                    lemma_plain_is_tar_name(encode_utf8(files.last().name@));
                }
            }
        }
    }
}

proof fn lemma_plain_is_tar_name(name: Seq<u8>)
    requires
        is_plain(name),
    ensures
        is_tar_name(name),
{
    if name.contains(0) {
        let k = choose|k: int| 0 <= k < name.len() && name[k] == 0;
        assert(name[k] == 0);
    }
    if name.contains(0x2f) {
        let k = choose|k: int| 0 <= k < name.len() && name[k] == 0x2f;
        assert(name[k] == 0x2f);
    }
}

proof fn lemma_restored(back: Seq<UnpackedFile>, files: Seq<StoreFile>)
    requires
        files_view(back) == entry_files(entries_of(files)),
    ensures
        are_restored(back, files),
{
    lemma_entries_are_the_files(files);
    assert(files_view(back).len() == back.len());
    assert forall|i: int| 0 <= i < back.len() implies (#[trigger] back[i]).name@ == encode_utf8(
        with_contents(files)[i].name@,
    ) && with_contents(files)[i].contents is Some && back[i].contents@ == with_contents(
        files,
    )[i].contents->0@ by {
        assert(files_view(back)[i] == (back[i].name@, back[i].contents@));
        assert(entry_files(entries_of(files))[i] == (entries_of(files)[i].0, entries_of(files)[i].1));
    }
}

/// A store that was exported is imported as it was: for every list of files with plain names of which
/// there is less to read than the limit, importing the text with the same key succeeds and gives back,
/// in order, every file that has contents, under its own name and with every byte of its contents.
/// White space that was spread in the text does not matter.
pub proof fn law_import_restores_what_was_exported(
    files: &Vec<StoreFile>,
    key: &StateKey,
    text: String,
    input: &[u8],
    back: Result<Unpacked, StateError>,
)
    requires
        call_ensures(export, (files, key), Ok::<String, StateError>(text)),
        call_ensures(import, (key, input), back),
        input@.filter(
            |b: u8| !(b == 0x20 || b == 0x09 || b == 0x0a || b == 0x0c || b == 0x0d),
        ) == encode_utf8(text@),
        have_plain_names(files@),
        packed_len(files@) < 268_435_456,
    ensures
        match back {
            Ok(u) => u.outcome is Ok && are_restored(u.files@, files@),
            Err(_) => false,
        },
{
    lemma_entries_are_the_files(files@);
    law_spaces_are_all_that_is_removed(input@);
    let tgz = tar_gz(entries_of(files@), COMPRESSION_LEVEL);
    assert(holds_archive(key@, text@, tgz));
    let blob = choose|blob: Seq<u8>|
        text@ == #[trigger] base64_text(blob) && opening_of(key@, blob) == Opening::Plain(tgz);
    lemma_base64_is_ascii(blob);
    lemma_starts_with_magic(key@, blob);
    law_archive_is_found(blob, input@);
    lemma_no_spaces(encode_utf8(text@));
    law_archive_is_found(blob, encode_utf8(text@));
    if let Ok(u) = back {
        lemma_restored(u.files@, files@);
    }
}

/// Packing takes every list of files with plain names, and unpacking gives all of it back, in order,
/// under the same names and with every byte, where there is less to read than the limit.
pub proof fn law_unpack_restores_what_was_packed(
    files: &Vec<StoreFile>,
    tgz: Result<Vec<u8>, StateError>,
    input: &[u8],
    back: Unpacked,
)
    requires
        call_ensures(pack, (files,), tgz),
        tgz matches Ok(t) ==> input@ == t@,
        call_ensures(unpack, (input,), back),
        have_plain_names(files@),
        packed_len(files@) < 268_435_456,
    ensures
        tgz is Ok,
        back.outcome is Ok,
        are_restored(back.files@, files@),
{
    lemma_entries_are_the_files(files@);
    assert(tgz is Ok);
    lemma_restored(back.files@, files@);
}

/// The same files are packed to the same bytes, whatever else is in the lists: files without contents
/// do not count, and nothing but names and contents does.
pub proof fn law_packing_depends_on_the_files_only(
    a: &Vec<StoreFile>,
    b: &Vec<StoreFile>,
    x: Vec<u8>,
    y: Vec<u8>,
)
    requires
        call_ensures(pack, (a,), Ok::<Vec<u8>, StateError>(x)),
        call_ensures(pack, (b,), Ok::<Vec<u8>, StateError>(y)),
        with_contents(a@).len() == with_contents(b@).len(),
        forall|i: int|
            0 <= i < with_contents(a@).len() ==> {
                &&& (#[trigger] with_contents(a@)[i]).name@ == with_contents(b@)[i].name@
                &&& with_contents(a@)[i].contents->0@ == with_contents(b@)[i].contents->0@
            },
    ensures
        x@ == y@,
{
    lemma_entries_are_the_files(a@);
    lemma_entries_are_the_files(b@);
    lemma_entries_have_fixed_metadata(a@);
    lemma_entries_have_fixed_metadata(b@);
    assert forall|i: int| 0 <= i < entries_of(a@).len() implies entries_of(a@)[i] == entries_of(
        b@,
    )[i] by {
        assert(with_contents(a@)[i].name@ == with_contents(b@)[i].name@);
    }
    assert(entries_of(a@) =~= entries_of(b@));
}

proof fn lemma_entries_have_fixed_metadata(files: Seq<StoreFile>)
    ensures
        forall|i: int|
            0 <= i < entries_of(files).len() ==> {
                let e = #[trigger] entries_of(files)[i];
                e.2 == 0o600 && e.3 == 0 && e.4 == 0 && e.5 == 0
            },
    decreases files.len(),
{
    if files.len() > 0 {
        let before = entries_of(files.drop_last());
        lemma_entries_have_fixed_metadata(files.drop_last());
        assert forall|i: int| 0 <= i < entries_of(files).len() implies {
            let e = #[trigger] entries_of(files)[i];
            e.2 == 0o600 && e.3 == 0 && e.4 == 0 && e.5 == 0
        } by {
            if i < before.len() {
                assert(entries_of(files)[i] == before[i]);
            }
        }
    }
}

/// An archive holds every file readable by its owner alone, and with nothing else that would tell one
/// machine or one moment from another.
pub proof fn law_packed_files_are_private(files: &Vec<StoreFile>, tgz: Vec<u8>)
    requires
        call_ensures(pack, (files,), Ok::<Vec<u8>, StateError>(tgz)),
    ensures
        exists|entries: Seq<EntryView>|
            tgz@ == #[trigger] tar_gz(entries, 9) && entries.len() == with_contents(files@).len()
                && forall|i: int|
                0 <= i < entries.len() ==> #[trigger] entries[i] == (
                    encode_utf8(with_contents(files@)[i].name@),
                    with_contents(files@)[i].contents->0@,
                    0o600u32,
                    0u64,
                    0u64,
                    0u64,
                ),
{
    let entries = entries_of(files@);
    lemma_entries_are_the_files(files@);
    lemma_entries_have_fixed_metadata(files@);
    assert(tgz@ == tar_gz(entries, 9));
    assert forall|i: int| 0 <= i < entries.len() implies #[trigger] entries[i] == (
        encode_utf8(with_contents(files@)[i].name@),
        with_contents(files@)[i].contents->0@,
        0o600u32,
        0u64,
        0u64,
        0u64,
    ) by {
        let e = entries_of(files@)[i];
        assert(e.0 == encode_utf8(with_contents(files@)[i].name@));
    }
}

/// What was sealed is opened with the same key, whole. An archive is longer than what it holds by a
/// header and an authenticator, and starts with its magic.
pub proof fn law_open_gives_back_what_was_sealed(
    key: &StateKey,
    plaintext: &[u8],
    blob: Vec<u8>,
    input: &[u8],
    opened: Result<SecretBytes, StateError>,
)
    requires
        call_ensures(seal, (key, plaintext), Ok::<Vec<u8>, StateError>(blob)),
        input@ == blob@,
        call_ensures(open, (key, input), opened),
    ensures
        opened matches Ok(p) && p@ == plaintext@,
        blob@.len() == plaintext@.len() + 76,
        blob@[0] == 0x4d && blob@[1] == 0x4e && blob@[2] == 0x53 && blob@[3] == 0x31,
{
    lemma_starts_with_magic(key@, blob@);
    assert(MAGIC@.len() == 4);
    assert(blob@[0] == MAGIC@[0] && blob@[1] == MAGIC@[1]);
    assert(blob@[2] == MAGIC@[2] && blob@[3] == MAGIC@[3]);
}

/// An archive is laid out as documented: the magic, the salt, the nonce, and what the cipher makes of
/// the whole plaintext under the key derived from the salt, with everything before it authenticated.
pub proof fn law_archive_is_laid_out(
    key: &StateKey,
    salt: &[u8],
    nonce: &[u8],
    plaintext: &[u8],
    sealed: Result<Vec<u8>, StateError>,
)
    requires
        salt@.len() == 32,
        nonce@.len() == 24,
        call_ensures(seal_with, (key, salt, nonce, plaintext), sealed),
    ensures
        sealed is Ok <==> plaintext@.len() <= 274_877_906_816,
        sealed matches Ok(b) ==> {
            let header = seq![0x4du8, 0x4e, 0x53, 0x31] + salt@ + nonce@;
            b@ == header + aead_sealed(
                hkdf_sha256(salt@, key@, encode_utf8("matrix-notify/state/v1"@)),
                nonce@,
                header,
                plaintext@,
            )
        },
        sealed matches Err(e) ==> e is Authentication,
{
    assert(MAGIC@ =~= seq![0x4du8, 0x4e, 0x53, 0x31]);
}

/// Nothing is opened but what the cipher finds authentic, with the key derived from the salt in the
/// archive, its nonce and all of its header; and whatever it finds authentic is opened, whole. What is
/// too short, or does not start as an archive does, is refused for that.
pub proof fn law_open_goes_by_the_cipher(
    key: &StateKey,
    blob: &[u8],
    opened: Result<SecretBytes, StateError>,
)
    requires
        call_ensures(open, (key, blob), opened),
        blob@.len() <= 274_877_906_892,
    ensures
        ({
            let b = blob@;
            let magic = b.len() >= 4 && b[0] == 0x4d && b[1] == 0x4e && b[2] == 0x53 && b[3] == 0x31;
            if b.len() < 4 || (magic && b.len() < 76) {
                opened matches Err(e) && e is Truncated
            } else if !magic {
                opened matches Err(e) && e is BadMagic
            } else {
                match aead_opened(
                    hkdf_sha256(b.subrange(4, 36), key@, encode_utf8("matrix-notify/state/v1"@)),
                    b.subrange(36, 60),
                    b.subrange(0, 60),
                    b.subrange(60, b.len() as int),
                ) {
                    Some(p) => opened matches Ok(q) && q@ == p,
                    None => opened matches Err(e) && e is Authentication,
                }
            }
        }),
{
    let b = blob@;
    if b.len() >= 4 {
        assert(MAGIC@ =~= seq![0x4du8, 0x4e, 0x53, 0x31]);
        let head = b.take(4);
        assert(head[0] == b[0] && head[1] == b[1] && head[2] == b[2] && head[3] == b[3]);
        if b[0] == 0x4d && b[1] == 0x4e && b[2] == 0x53 && b[3] == 0x31 {
            assert(head =~= MAGIC@);
        }
        if b.len() >= 76 {
            assert(b.take(HEADER_LEN as int) =~= b.subrange(0, 60));
            assert(b.skip(HEADER_LEN as int) =~= b.subrange(60, b.len() as int));
        }
    }
}

/// The raw archive and its Base64 text are imported alike.
pub proof fn law_raw_and_text_are_imported_alike(
    key: &StateKey,
    blob: &[u8],
    text: String,
    input: &[u8],
    raw: Result<Unpacked, StateError>,
    decoded: Result<Unpacked, StateError>,
)
    requires
        blob@.len() >= 4,
        blob@[0] == 0x4d && blob@[1] == 0x4e && blob@[2] == 0x53 && blob@[3] == 0x31,
        call_ensures(archive_text, (blob,), text),
        input@ == encode_utf8(text@),
        call_ensures(import, (key, blob), raw),
        call_ensures(import, (key, input), decoded),
    ensures
        raw is Ok <==> decoded is Ok,
        raw matches Ok(a) ==> (decoded matches Ok(b) && files_view(a.files@) == files_view(b.files@)
            && (a.outcome is Ok <==> b.outcome is Ok)),
{
    assert(MAGIC@ =~= seq![0x4du8, 0x4e, 0x53, 0x31]);
    assert(MAGIC@.is_prefix_of(blob@));
    law_archive_is_found(blob@, blob@);
}

/// A key is parsed exactly from 64 hexadecimal digits, in either case, with white space around them;
/// its bytes are those that the digits stand for. Anything else is refused for its length first.
pub proof fn law_key_is_parsed_from_its_digits(
    text: &str,
    digits: &str,
    key: Result<StateKey, StateError>,
)
    requires
        call_ensures(trim, (text,), digits),
        call_ensures(StateKey::from_hex, (text,), key),
    ensures
        ({
            let d = encode_utf8(digits@);
            &&& d.len() != 64 <==> (key matches Err(e) && e is KeyLength)
            &&& key matches Err(StateError::KeyLength(n)) ==> n == d.len()
            &&& key is Ok <==> d.len() == 64 && forall|i: int|
                0 <= i < 64 ==> hex_value(#[trigger] d[i]) is Some
            &&& key matches Ok(k) ==> k@.len() == 32 && forall|i: int|
                0 <= i < 32 ==> #[trigger] k@[i] == 16 * hex_value(d[2 * i])->0 + hex_value(
                    d[2 * i + 1],
                )->0
        }),
{
    let d = encode_utf8(digits@);
    if let Ok(k) = key {
        assert forall|i: int| 0 <= i < 32 implies #[trigger] k@[i] == 16 * hex_value(d[2 * i])->0
            + hex_value(d[2 * i + 1])->0 by {
            assert(hex_value(d[2 * i]) is Some && hex_value(d[2 * i + 1]) is Some);
        }
    }
}

/// A key is printed so that it is parsed again as it was.
pub proof fn law_printed_key_is_parsed_again(
    key: &StateKey,
    text: SecretText,
    printed: &str,
    again: Result<StateKey, StateError>,
)
    requires
        key@.len() == 32,
        call_ensures(StateKey::to_hex, (key,), text),
        printed@ == text@,
        call_ensures(StateKey::from_hex, (printed,), again),
    ensures
        printed@.len() == 64,
        again matches Ok(k) && k@ == key@,
{
    law_hex_round_trip(key@);
    lemma_trimmed_is_fixed(hex_text(key@));
    law_key_text_round_trip(key@, hex_text(key@));
}

/// Unpacking takes the entries in order, each one whole, until one is at fault, and tells the first
/// fault: an entry that is no file, a name that is not plain, or something that cannot be read. Where
/// there is none, all entries are taken, and it is well unless the limit is used up.
pub proof fn law_unpack_takes_entries_in_order(
    entries: Vec<Result<ArchiveEntry, std::io::Error>>,
    left: u64,
    unpacked: Unpacked,
)
    requires
        call_ensures(unpack_entries, (entries, left), unpacked),
    ensures
        ({
            let n = unpacked.files@.len() as int;
            &&& n <= entries@.len()
            &&& forall|i: int|
                0 <= i < n ==> (#[trigger] entries@[i] matches Ok(
                    ArchiveEntry::File { path, contents },
                ) && contents matches Ok(c) && unpacked.files@[i].contents@ == c@ && plain_name(
                    path@,
                ) == Some(unpacked.files@[i].name@))
            &&& n == entries@.len() ==> match unpacked.outcome {
                Ok(()) => left > 0,
                Err(e) => left == 0 && e is TooLarge,
            }
            &&& n < entries@.len() ==> match entries@[n] {
                Ok(ArchiveEntry::Other { path }) => {
                    unpacked.outcome matches Err(StateError::NotAFile(p)) && p@ == path@
                },
                Ok(ArchiveEntry::File { path, contents }) => if plain_name(path@) is None {
                    unpacked.outcome matches Err(StateError::UnsafePath(p)) && p@ == path@
                } else {
                    contents is Err && (unpacked.outcome matches Err(e) && e is Io)
                },
                Err(_) => unpacked.outcome matches Err(e) && e is Io,
            }
        }),
{
    let all = entries@.map_values(|e: Result<ArchiveEntry, std::io::Error>| listed(e));
    lemma_sound_prefix(all, left);
    let n = unpacked.files@.len() as int;
    assert(files_view(unpacked.files@).len() == n);
    assert forall|i: int| 0 <= i < n implies (#[trigger] entries@[i] matches Ok(
        ArchiveEntry::File { path, contents },
    ) && contents matches Ok(c) && unpacked.files@[i].contents@ == c@ && plain_name(path@) == Some(
        unpacked.files@[i].name@,
    )) by {
        assert(all[i] == listed(entries@[i]));
        assert(files_view(unpacked.files@)[i] == (
            unpacked.files@[i].name@,
            unpacked.files@[i].contents@,
        ));
        assert(sound_files(all)[i] == entry_file(all[i]));
    }
    if n < entries@.len() {
        assert(all[n] == listed(entries@[n]));
    }
}

proof fn lemma_sound_prefix(entries: Seq<Option<(Seq<u8>, Option<Option<Seq<u8>>>)>>, left: u64)
    ensures
        ({
            let n = sound_files(entries).len() as int;
            &&& n <= entries.len()
            &&& forall|i: int|
                0 <= i < n ==> entry_fault(#[trigger] entries[i]) is None && sound_files(
                    entries,
                )[i] == entry_file(entries[i])
            &&& n < entries.len() ==> entry_fault(entries[n]) == Some(unpack_end(entries, left))
            &&& n == entries.len() ==> unpack_end(entries, left) == if left == 0 {
                UnpackEnd::TooLarge
            } else {
                UnpackEnd::Done
            }
        }),
    decreases entries.len(),
{
    if entries.len() > 0 && entry_fault(entries[0]) is None {
        let rest = entries.drop_first();
        lemma_sound_prefix(rest, left);
        let n = sound_files(entries).len() as int;
        assert forall|i: int| 0 <= i < n implies entry_fault(#[trigger] entries[i]) is None
            && sound_files(entries)[i] == entry_file(entries[i]) by {
            if i > 0 {
                assert(rest[i - 1] == entries[i]);
                assert(sound_files(entries)[i] == sound_files(rest)[i - 1]);
            }
        }
        if n < entries.len() {
            assert(rest[n - 1] == entries[n]);
        }
    }
}

/// A plain name is a path of its own, and so it is with a `/` behind it. No path is taken for a name
/// that starts with a `/` or goes on behind one with anything but slashes and single dots: it names
/// something in another place.
pub proof fn law_only_plain_paths_are_names(
    path: &[u8],
    name: Option<Vec<u8>>,
)
    requires
        call_ensures(file_name, (path,), name),
    ensures
        is_plain(path@) ==> (name matches Some(n) && n@ == path@),
        path@.len() > 0 && path@.last() == 0x2f && is_plain(path@.drop_last()) ==> (
        name matches Some(n) && n@ == path@.drop_last()),
        name matches Some(n) ==> {
            &&& n@.len() > 0
            &&& n@.is_prefix_of(path@)
            &&& forall|i: int| 0 <= i < n@.len() ==> #[trigger] n@[i] != 0x2f
            &&& n@ != seq![0x2eu8] && n@ != seq![0x2eu8, 0x2eu8]
            &&& path@.len() > n@.len() ==> path@[n@.len() as int] == 0x2f
            &&& forall|i: int|
                n@.len() <= i < path@.len() ==> #[trigger] path@[i] == 0x2f || path@[i] == 0x2e
            &&& forall|i: int, j: int|
                n@.len() <= i < path@.len() && j == i + 1 && j < path@.len() ==> !(
                #[trigger] path@[i] == 0x2e && #[trigger] path@[j] == 0x2e)
        },
{
    let p = path@;
    lemma_first_slash(p);
    if is_plain(p) {
        lemma_first_slash_is(p, p.len() as int);
        assert(p.take(p.len() as int) =~= p);
        assert(adds_nothing(p.skip(p.len() as int)));
    }
    if p.len() > 0 && p.last() == 0x2f && is_plain(p.drop_last()) {
        let q = p.drop_last();
        assert forall|i: int| 0 <= i < p.len() - 1 implies #[trigger] p[i] != 0x2f by {
            assert(q[i] == p[i]);
        }
        lemma_first_slash_is(p, p.len() - 1);
        assert(p.take(p.len() - 1) =~= q);
        assert(adds_nothing(p.skip(p.len() - 1)));
    }
    if let Some(n) = name {
        let k = first_slash(p);
        let tail = p.skip(k);
        assert(n@ =~= p.take(k));
        assert forall|i: int| k <= i < p.len() implies #[trigger] p[i] == 0x2f || p[i] == 0x2e by {
            assert(tail[i - k] == p[i]);
        }
        assert forall|i: int, j: int|
            k <= i < p.len() && j == i + 1 && j < p.len() implies !(#[trigger] p[i] == 0x2e
            && #[trigger] p[j] == 0x2e) by {
            assert(tail[i - k] == p[i] && tail[j - k] == p[j]);
        }
    }
}

/// The files that make up the portable identity are these three, in this order.
pub proof fn law_identity_is_in_three_files()
    ensures
        EXPORTED_FILES@.len() == 3,
        EXPORTED_FILES@[0]@ == "session.json"@,
        EXPORTED_FILES@[1]@ == "matrix-sdk-state.sqlite3"@,
        EXPORTED_FILES@[2]@ == "matrix-sdk-crypto.sqlite3"@,
{
}

/// An exported store is one line of text that tells how it starts, and two exports of a store hold the
/// same archive: that of its files.
pub proof fn law_exports_hold_the_store(
    files: &Vec<StoreFile>,
    key: &StateKey,
    tgz: Vec<u8>,
    text: String,
    blob: Seq<u8>,
    input: &[u8],
    opened: Result<SecretBytes, StateError>,
)
    requires
        call_ensures(pack, (files,), Ok::<Vec<u8>, StateError>(tgz)),
        call_ensures(export, (files, key), Ok::<String, StateError>(text)),
        text@ == base64_text(blob),
        input@ == blob,
        call_ensures(open, (key, input), opened),
    ensures
        opened matches Ok(p) && p@ == tgz@,
        "TU5TM"@.is_prefix_of(text@),
        forall|i: int| 0 <= i < text@.len() ==> ' ' < #[trigger] text@[i] <= '~',
{
    let sealed = choose|b: Seq<u8>|
        text@ == #[trigger] base64_text(b) && opening_of(key@, b) == Opening::Plain(
            tar_gz(entries_of(files@), COMPRESSION_LEVEL),
        );
    lemma_base64_is_ascii(blob);
    lemma_base64_is_ascii(sealed);
    law_base64_injective(sealed, blob);
    law_base64_is_printable(blob);
}

/// An error tells what is wrong, with the number, the limit or the value in it.
pub proof fn law_state_error_tells_why(
    error: &StateError,
    shown: &str,
    number: String,
    text: String,
)
    requires
        *error matches StateError::KeyLength(n) ==> call_ensures(decimal_text, (n as u64,), number),
        call_ensures(StateError::message, (error, shown), text),
    ensures
        match *error {
            StateError::KeyLength(_) => text@
                == "state key must be 64 hex characters (32 bytes); got "@ + number@
                + " characters"@,
            StateError::KeyHex => text@ == "state key is not valid hex"@,
            StateError::BadMagic => text@
                == "input is not a matrix-notify state archive (bad magic)"@,
            StateError::Truncated => text@ == "state archive is truncated"@,
            StateError::Authentication => text@
                == "state archive failed authentication: wrong key or tampered data"@,
            StateError::Base64(_) => text@ == "state archive is not valid base64: "@ + shown@,
            StateError::UnsafePath(_) => text@ == "archive entry "@ + shown@
                + " escapes the store directory"@,
            StateError::NotAFile(_) => text@ == "archive entry "@ + shown@
                + " is not a regular file"@,
            StateError::TooLarge => text@ == "archive is larger than the "@ + decimal(268_435_456)
                + "-byte limit"@,
            StateError::Io(_) => text@ == shown@,
        },
{
}

/// A key is made of the bytes that it is given, all 32 of them.
pub proof fn law_key_is_its_bytes(bytes: &[u8], key: StateKey)
    requires
        bytes@.len() == 32,
        call_ensures(StateKey::from_bytes, (bytes,), key),
    ensures
        key@ == bytes@,
{
}

/// A file that comes out of an archive is told by its name, and written under another first, which is
/// hidden and starts with it.
pub proof fn law_unpacked_file_is_told_by_its_name(
    file: &UnpackedFile,
    shown: String,
    temporary: String,
)
    requires
        call_ensures(UnpackedFile::display_name, (file,), shown),
        call_ensures(UnpackedFile::temporary_name, (file,), temporary),
    ensures
        valid_utf8(file.name@) ==> shown@ == decode_utf8(file.name@),
        temporary@ == "."@ + shown@ + ".tmp"@,
{
}

/// An input is refused as what it is: one that starts as an archive does, for what opening it says; and
/// any other, white space aside, as Base64 exactly where it is not the Base64 text of anything.
pub proof fn law_import_refuses_for_a_reason(
    key: &StateKey,
    input: &[u8],
    imported: Result<Unpacked, StateError>,
    opened: Result<SecretBytes, StateError>,
)
    requires
        call_ensures(import, (key, input), imported),
        call_ensures(open, (key, input), opened),
    ensures
        ({
            let b = input@;
            let magic = b.len() >= 4 && b[0] == 0x4d && b[1] == 0x4e && b[2] == 0x53 && b[3] == 0x31;
            &&& magic ==> {
                &&& imported is Ok <==> opened is Ok
                &&& (imported matches Err(e) && e is Truncated) <==> (opened matches Err(o) && o
                    is Truncated)
                &&& (imported matches Err(e) && e is Authentication) <==> (opened matches Err(o)
                    && o is Authentication)
            }
            &&& (imported matches Err(e) && e is Base64) <==> !magic && forall|a: Seq<u8>| #[trigger]
                base64_bytes(a) != b.filter(
                    |c: u8| !(c == 0x20 || c == 0x09 || c == 0x0a || c == 0x0c || c == 0x0d),
                )
        }),
{
    let b = input@;
    law_spaces_are_all_that_is_removed(b);
    assert(MAGIC@ =~= seq![0x4du8, 0x4e, 0x53, 0x31]);
    let magic = b.len() >= 4 && b[0] == 0x4d && b[1] == 0x4e && b[2] == 0x53 && b[3] == 0x31;
    if magic {
        assert(MAGIC@.is_prefix_of(b));
        assert(b.take(4) =~= MAGIC@);
    } else if MAGIC@.is_prefix_of(b) {
        assert(b[0] == MAGIC@[0] && b[1] == MAGIC@[1] && b[2] == MAGIC@[2] && b[3] == MAGIC@[3]);
    }
    assert(without_spaces(b) == b.filter(
        |c: u8| !(c == 0x20 || c == 0x09 || c == 0x0a || c == 0x0c || c == 0x0d),
    ));
}

/// The files of a store are read one by one under their names, in order, and taken as they were found.
pub proof fn law_store_is_read_as_found<F: Fn(&str) -> Option<Vec<u8>>>(
    read: F,
    found: spec_fn(Seq<char>) -> Option<Vec<u8>>,
    files: Vec<StoreFile>,
)
    requires
        call_ensures(store_files::<F>, (read,), files),
        forall|name: &str, v: Option<Vec<u8>>| #[trigger]
            call_ensures(read, (name,), v) ==> v == found(name@),
    ensures
        files@.len() == 3,
        files@[0].name@ == "session.json"@ && files@[0].contents == found("session.json"@),
        files@[1].name@ == "matrix-sdk-state.sqlite3"@ && files@[1].contents == found(
            "matrix-sdk-state.sqlite3"@,
        ),
        files@[2].name@ == "matrix-sdk-crypto.sqlite3"@ && files@[2].contents == found(
            "matrix-sdk-crypto.sqlite3"@,
        ),
{
    assert(files@[0].name@ == EXPORTED_FILES@[0]@);
    assert(files@[1].name@ == EXPORTED_FILES@[1]@);
    assert(files@[2].name@ == EXPORTED_FILES@[2]@);
}

/// A path is a name exactly where it consists of one: something without a `/` that is neither `.` nor
/// `..`, with nothing behind it, or with slashes and single dots behind it, a slash first. The name is
/// that something, whole.
pub proof fn law_name_is_what_precedes_the_slash(path: &[u8], k: int, name: Option<Vec<u8>>)
    requires
        call_ensures(file_name, (path,), name),
        0 < k <= path@.len(),
        forall|i: int| 0 <= i < k ==> #[trigger] path@[i] != 0x2f,
        k < path@.len() ==> path@[k] == 0x2f,
    ensures
        name is Some <==> {
            &&& path@.take(k) != seq![0x2eu8]
            &&& path@.take(k) != seq![0x2eu8, 0x2eu8]
            &&& forall|i: int| k <= i < path@.len() ==> #[trigger] path@[i] == 0x2f || path@[i]
                == 0x2e
            &&& forall|i: int, j: int|
                k <= i < path@.len() && j == i + 1 && j < path@.len() ==> !(#[trigger] path@[i]
                    == 0x2e && #[trigger] path@[j] == 0x2e)
        },
        name matches Some(n) ==> n@ == path@.take(k),
{
    let p = path@;
    lemma_first_slash_is(p, k);
    let tail = p.skip(k);
    if name is Some {
        assert forall|i: int| k <= i < p.len() implies #[trigger] p[i] == 0x2f || p[i] == 0x2e by {
            assert(tail[i - k] == p[i]);
        }
        assert forall|i: int, j: int|
            k <= i < p.len() && j == i + 1 && j < p.len() implies !(#[trigger] p[i] == 0x2e
            && #[trigger] p[j] == 0x2e) by {
            assert(tail[i - k] == p[i] && tail[j - k] == p[j]);
        }
    } else if (forall|i: int| k <= i < p.len() ==> #[trigger] p[i] == 0x2f || p[i] == 0x2e) && (
    forall|i: int, j: int|
        k <= i < p.len() && j == i + 1 && j < p.len() ==> !(#[trigger] p[i] == 0x2e
            && #[trigger] p[j] == 0x2e)) {
        assert forall|i: int| 0 <= i < tail.len() implies #[trigger] tail[i] == 0x2f || tail[i]
            == 0x2e by {
            assert(tail[i] == p[i + k]);
        }
        assert forall|i: int, j: int|
            0 <= i < tail.len() && j == i + 1 && j < tail.len() implies !(#[trigger] tail[i] == 0x2e
            && #[trigger] tail[j] == 0x2e) by {
            assert(tail[i] == p[i + k] && tail[j] == p[j + k]);
        }
        assert(adds_nothing(tail));
    }
}

/// Nothing is a name that is empty or starts with a `/`.
pub proof fn law_rooted_paths_are_no_names(path: &[u8], name: Option<Vec<u8>>)
    requires
        call_ensures(file_name, (path,), name),
        path@.len() == 0 || path@[0] == 0x2f,
    ensures
        name is None,
{
    lemma_first_slash_is(path@, 0);
    assert(path@.take(0) =~= Seq::empty());
}

/// Unpacking an archive takes what a reader finds in it, up to the limit, in order and whole, until an
/// entry is at fault, and tells the first fault.
pub proof fn law_unpack_takes_what_is_listed(tgz: &[u8], unpacked: Unpacked)
    requires
        call_ensures(unpack, (tgz,), unpacked),
    ensures
        match tar_gz_listing(tgz@, 268_435_456) {
            None => unpacked.files@.len() == 0 && (unpacked.outcome matches Err(e) && e is Io),
            Some((entries, left)) => {
                let n = unpacked.files@.len() as int;
                &&& n <= entries.len()
                &&& forall|i: int|
                    0 <= i < n ==> (#[trigger] entries[i] matches Some((path, Some(Some(c))))
                        && unpacked.files@[i].contents@ == c && plain_name(path) == Some(
                        unpacked.files@[i].name@,
                    ))
                &&& n == entries.len() ==> match unpacked.outcome {
                    Ok(()) => left > 0,
                    Err(e) => left == 0 && e is TooLarge,
                }
                &&& n < entries.len() ==> match entries[n] {
                    Some((path, None)) => {
                        unpacked.outcome matches Err(StateError::NotAFile(p)) && p@ == path
                    },
                    Some((path, Some(contents))) => if plain_name(path) is None {
                        unpacked.outcome matches Err(StateError::UnsafePath(p)) && p@ == path
                    } else {
                        contents is None && (unpacked.outcome matches Err(e) && e is Io)
                    },
                    None => unpacked.outcome matches Err(e) && e is Io,
                }
            },
        },
{
    assert(files_view(unpacked.files@).len() == unpacked.files@.len());
    if let Some((entries, left)) = tar_gz_listing(tgz@, MAX_PLAINTEXT) {
        lemma_sound_prefix(entries, left);
        let n = unpacked.files@.len() as int;
        assert forall|i: int| 0 <= i < n implies (#[trigger] entries[i] matches Some(
            (path, Some(Some(c))),
        ) && unpacked.files@[i].contents@ == c && plain_name(path) == Some(
            unpacked.files@[i].name@,
        )) by {
            assert(entry_fault(entries[i]) is None);
            assert(files_view(unpacked.files@)[i] == (
                unpacked.files@[i].name@,
                unpacked.files@[i].contents@,
            ));
            assert(sound_files(entries)[i] == entry_file(entries[i]));
        }
    }
}

/// Importing an archive is opening it and unpacking what it holds.
pub proof fn law_import_unpacks_what_opens(
    key: &StateKey,
    blob: &[u8],
    plain: SecretBytes,
    tgz: &[u8],
    unpacked: Unpacked,
    imported: Result<Unpacked, StateError>,
)
    requires
        call_ensures(open, (key, blob), Ok::<SecretBytes, StateError>(plain)),
        tgz@ == plain@,
        call_ensures(unpack, (tgz,), unpacked),
        call_ensures(import, (key, blob), imported),
    ensures
        imported matches Ok(u) && files_view(u.files@) == files_view(unpacked.files@) && (
        u.outcome is Ok <==> unpacked.outcome is Ok),
{
    lemma_starts_with_magic(key@, blob@);
    law_archive_is_found(blob@, blob@);
}

} // verus!
