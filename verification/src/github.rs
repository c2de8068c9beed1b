//! Update a GitHub Actions repository secret.
//!
//! GitHub expects the value sealed with libsodium `crypto_box_seal` against the repository's public
//! key (`GET .../actions/secrets/public-key`), then `PUT .../actions/secrets/{name}` with the
//! ciphertext and the key id. Requires a token with `secrets: write` (a fine-grained PAT with
//! "Secrets: read and write", or a GitHub App token); the default `GITHUB_TOKEN` cannot write
//! secrets.

use crypto_box::aead::OsRng;
use crypto_box::PublicKey;
use vstd::prelude::*;
use vstd::string::*;
use vstd::utf8::*;

use crate::codec::{
    base64_bytes, base64_decode, base64_encode, base64_text, law_base64_injective,
};
use crate::json::{field_views, json_object_text, json_text, Field, JsonValue, JsonView};
use crate::text::{
    contains_char, cut, decimal, decimal_text, first_chars, lemma_first_index,
    lemma_first_index_unique, quote, quoted, split_once, take_chars, trim, trim_end_class, trimmed,
    without_trailing, CharClass,
};

verus! {

/// The media type that the API answers with.
pub const ACCEPT: &'static str = "application/vnd.github+json";

/// The version of the API.
pub const API_VERSION: &'static str = "2022-11-28";

/// The length of a repository's public key.
pub const PUBLIC_KEY_LEN: usize = 32;

/// By how much a sealed box is longer than what it holds: the ephemeral public key and the
/// authenticator.
pub const SEAL_LEN: usize = 48;

/// How much of the answer to a failed request is kept, in characters.
pub const BODY_CHARS: usize = 300;

/// Why a secret could not be updated.
#[derive(Debug)]
pub enum GitHubError {
    /// The API answered with a status that is not a success.
    Status { method: &'static str, path: String, status: u16, body: String },
    /// The repository's public key is not a 32-byte Base64 value.
    PublicKey,
    /// The repository is not `owner/name`.
    Repository(String),
}

impl GitHubError {
    /// The text of the error.
    pub open spec fn text(self) -> Seq<char> {
        match self {
            GitHubError::Status { method, path, status, body } => "GitHub API "@ + method@ + " "@
                + path@ + " returned "@ + decimal(status as nat) + ": "@ + body@,
            GitHubError::PublicKey => "repository public key is not a 32-byte base64 value"@,
            GitHubError::Repository(repository) => "repository must be `owner/name`, got "@
                + quoted(repository@),
        }
    }

    /// What to tell the user.
    pub fn message(&self) -> (text: String)
        ensures
            text@ == self.text(),
    {
        match self {
            GitHubError::Status { method, path, status, body } => {
                let mut text = "GitHub API ".to_owned();
                text.append(method);
                text.append(" ");
                text.append(path.as_str());
                text.append(" returned ");
                text.append(decimal_text(*status as u64).as_str());
                text.append(": ");
                text.append(body.as_str());
                text
            },
            GitHubError::PublicKey => {
                "repository public key is not a 32-byte base64 value".to_owned()
            },
            GitHubError::Repository(repository) => {
                let mut text = "repository must be `owner/name`, got ".to_owned();
                text.append(quote(repository.as_str()).as_str());
                text
            },
        }
    }
}

/// What `crypto_box::SecretKey::unseal` finds in a sealed box, where the secret key belongs to the
/// given public key.
pub uninterp spec fn unsealed(public_key: Seq<u8>, sealed: Seq<u8>) -> Option<Seq<u8>>;

/// `crypto_box::PublicKey::seal` with the operating system's random numbers: a sealed box, 48 bytes
/// longer than the plaintext, in which the owner of the key finds the plaintext. Nothing more is
/// said of its bytes: the ephemeral key is random.
#[verifier::external_body]
fn seal_box(public_key: &[u8], plaintext: &[u8]) -> (sealed: Option<Vec<u8>>)
    requires
        public_key@.len() == PUBLIC_KEY_LEN,
    ensures
        match sealed {
            Some(s) => s@.len() == plaintext@.len() + SEAL_LEN && unsealed(public_key@, s@)
                == Some(plaintext@),
            None => false,
        },
{
    let public_key = PublicKey::from_slice(public_key).ok()?;
    public_key.seal(&mut OsRng, plaintext).ok()
}

/// A text is the Base64 form of a sealed box in which the owner of the key finds the plaintext.
pub open spec fn is_sealed_for(text: Seq<char>, public_key: Seq<u8>, plaintext: Seq<u8>) -> bool {
    exists|sealed: Seq<u8>|
        text == #[trigger] base64_text(sealed) && sealed.len() == plaintext.len() + SEAL_LEN
            && unsealed(public_key, sealed) == Some(plaintext)
}

/// Seal `plaintext` for `repo_public_key` (raw 32 bytes). Returns base64 of the 48 + n byte sealed
/// box, as the API wants it.
pub fn seal_for_github(repo_public_key: &[u8], plaintext: &[u8]) -> (text: Result<
    String,
    GitHubError,
>)
    ensures
        match text {
            Ok(t) => repo_public_key@.len() == PUBLIC_KEY_LEN && is_sealed_for(
                t@,
                repo_public_key@,
                plaintext@,
            ),
            Err(GitHubError::PublicKey) => repo_public_key@.len() != PUBLIC_KEY_LEN,
            Err(_) => false,
        },
{
    if repo_public_key.len() != PUBLIC_KEY_LEN {
        return Err(GitHubError::PublicKey);
    }
    match seal_box(repo_public_key, plaintext) {
        Some(sealed) => Ok(base64_encode(sealed.as_slice())),
        None => Err(GitHubError::PublicKey),
    }
}

/// The owner and the name in `owner/name`, neither of which is empty; the name holds no `/`.
pub open spec fn repository_parts(repository: Seq<char>) -> Option<(Seq<char>, Seq<char>)> {
    match cut(repository, '/') {
        Some((owner, name)) => if owner.len() > 0 && name.len() > 0 && !name.contains('/') {
            Some((owner, name))
        } else {
            None
        },
        None => None,
    }
}

/// The public key that a Base64 text stands for.
pub open spec fn public_key_named(text: Seq<char>, key: Seq<u8>) -> bool {
    base64_bytes(key) == encode_utf8(trimmed(text)) && key.len() == PUBLIC_KEY_LEN
}

/// A status that the API gives for success.
pub open spec fn is_success(status: u16) -> bool {
    200 <= status < 300
}

/// The secrets of one repository.
pub struct SecretsClient {
    api_url: String,
    token: String,
    owner: String,
    repo: String,
}

impl SecretsClient {
    /// The base URL of the API, without a `/` at its end.
    pub closed spec fn api(self) -> Seq<char> {
        self.api_url@
    }

    /// The token that requests are authorised with.
    pub closed spec fn bearer(self) -> Seq<char> {
        self.token@
    }

    /// The owner and the name of the repository.
    pub closed spec fn repository(self) -> (Seq<char>, Seq<char>) {
        (self.owner@, self.repo@)
    }

    /// `api_url` is normally `https://api.github.com` (`$GITHUB_API_URL` on a runner);
    /// `repository` is `owner/name`.
    pub fn new(api_url: &str, repository: &str, token: &str) -> (client: Result<Self, GitHubError>)
        ensures
            match client {
                Ok(c) => {
                    &&& repository_parts(repository@) == Some(c.repository())
                    &&& c.api() == without_trailing(api_url@, CharClass::Slash)
                    &&& c.bearer() == token@
                },
                Err(GitHubError::Repository(r)) => repository_parts(repository@) is None && r@
                    == repository@,
                Err(_) => false,
            },
    {
        match split_once(repository, '/') {
            Some((owner, repo)) if !owner.is_empty() && !repo.is_empty() && !contains_char(
                repo,
                '/',
            ) => Ok(
                Self {
                    api_url: trim_end_class(api_url, CharClass::Slash).to_owned(),
                    token: token.to_owned(),
                    owner: owner.to_owned(),
                    repo: repo.to_owned(),
                },
            ),
            _ => Err(GitHubError::Repository(repository.to_owned())),
        }
    }

    /// The token that requests are authorised with.
    pub fn token(&self) -> (token: &str)
        ensures
            token@ == self.bearer(),
    {
        self.token.as_str()
    }

    /// The URL of something below the repository's secrets.
    pub open spec fn secrets_url(self, tail: Seq<char>) -> Seq<char> {
        self.api() + "/repos/"@ + self.repository().0 + "/"@ + self.repository().1
            + "/actions/secrets/"@ + tail
    }

    /// The URL of something below the repository's secrets: `public-key`, or the name of a secret.
    pub fn url(&self, tail: &str) -> (url: String)
        ensures
            url@ == self.secrets_url(tail@),
    {
        let mut url = self.api_url.clone();
        url.append("/repos/");
        url.append(self.owner.as_str());
        url.append("/");
        url.append(self.repo.as_str());
        url.append("/actions/secrets/");
        url.append(tail);
        url
    }

    /// What the status of an answer means: an error, with the start of the answer, where it is not
    /// a success.
    pub fn check(method: &'static str, path: String, status: u16, body: &str) -> (done: Result<
        (),
        GitHubError,
    >)
        ensures
            match done {
                Ok(()) => is_success(status),
                Err(GitHubError::Status { method: m, path: p, status: s, body: b }) => {
                    &&& !is_success(status)
                    &&& m@ == method@
                    &&& p == path
                    &&& s == status
                    &&& b@ == first_chars(body@, BODY_CHARS as nat)
                },
                Err(_) => false,
            },
    {
        if 200 <= status && status < 300 {
            return Ok(());
        }
        Err(GitHubError::Status { method, path, status, body: take_chars(body, BODY_CHARS) })
    }

    /// The repository's public key, from the Base64 text in the API's answer.
    pub fn public_key(text: &str) -> (key: Result<Vec<u8>, GitHubError>)
        ensures
            match key {
                Ok(k) => public_key_named(text@, k@),
                Err(GitHubError::PublicKey) => forall|k: Seq<u8>| !public_key_named(text@, k),
                Err(_) => false,
            },
    {
        match base64_decode(trim(text).as_bytes()) {
            Ok(key) => {
                if key.len() != PUBLIC_KEY_LEN {
                    assert forall|k: Seq<u8>| !public_key_named(text@, k) by {
                        if public_key_named(text@, k) {
                            law_base64_injective(k, key@);
                        }
                    }
                    return Err(GitHubError::PublicKey);
                }
                Ok(key)
            },
            Err(_) => {
                assert forall|k: Seq<u8>| !public_key_named(text@, k) by {
                    assert(base64_bytes(k) != encode_utf8(trimmed(text@)));
                }
                Err(GitHubError::PublicKey)
            },
        }
    }

    /// The body of the request that updates a secret: the sealed value, and the id of the key that it
    /// is sealed for.
    pub fn update_body(encrypted_value: &str, key_id: &str) -> (text: String)
        ensures
            text@ == json_text(
                seq![
                    ("encrypted_value"@, JsonView::Text(encrypted_value@)),
                    ("key_id"@, JsonView::Text(key_id@)),
                ],
            ),
    {
        let mut fields: Vec<Field> = Vec::new();
        fields.push(("encrypted_value", JsonValue::text(encrypted_value)));
        fields.push(("key_id", JsonValue::text(key_id)));
        assert(field_views(fields@) =~= seq![
            ("encrypted_value"@, JsonView::Text(encrypted_value@)),
            ("key_id"@, JsonView::Text(key_id@)),
        ]);
        json_object_text(&fields)
    }

    /// The value that goes to the API for a secret: `value`, sealed for the public key in the API's
    /// answer.
    pub fn sealed_value(key_text: &str, value: &str) -> (text: Result<String, GitHubError>)
        ensures
            match text {
                Ok(t) => exists|key: Seq<u8>| #[trigger]
                    public_key_named(key_text@, key) && is_sealed_for(
                        t@,
                        key,
                        encode_utf8(value@),
                    ),
                Err(GitHubError::PublicKey) => forall|key: Seq<u8>|
                    !public_key_named(key_text@, key),
                Err(_) => false,
            },
            text is Err ==> forall|key: Seq<u8>|
                key.len() == PUBLIC_KEY_LEN ==> #[trigger] base64_bytes(key) != encode_utf8(
                    trimmed(key_text@),
                ),
    {
        let key = match Self::public_key(key_text) {
            Ok(k) => k,
            Err(e) => {
                assert forall|key: Seq<u8>| key.len() == PUBLIC_KEY_LEN implies #[trigger]
                base64_bytes(key) != encode_utf8(trimmed(key_text@)) by {
                    assert(!public_key_named(key_text@, key));
                }
                return Err(e);
            },
        };
        let sealed = seal_for_github(key.as_slice(), value.as_bytes());
        assert(public_key_named(key_text@, key@));
        sealed
    }
}

/// A client is made exactly for a repository of the form `owner/name`: two parts that are not empty and
/// hold no `/`. Its addresses lie below that repository, under the given base without the slashes at
/// its end, and its requests carry the given token.
pub proof fn law_client_talks_about_its_repository(
    api_url: &str,
    base: &str,
    repository: &str,
    token: &str,
    client: &SecretsClient,
    made: Result<SecretsClient, GitHubError>,
    tail: &str,
    url: String,
    bearer: &str,
)
    requires
        call_ensures(SecretsClient::new, (api_url, repository, token), made),
        made matches Ok(c) ==> c == *client,
        call_ensures(trim_end_class, (api_url, CharClass::Slash), base),
        call_ensures(SecretsClient::url, (client, tail), url),
        call_ensures(SecretsClient::token, (client,), bearer),
    ensures
        made is Ok <==> exists|owner: Seq<char>, name: Seq<char>|
            repository@ == #[trigger] (owner + seq!['/'] + name) && owner.len() > 0 && name.len()
                > 0 && !owner.contains('/') && !name.contains('/'),
        made is Ok ==> {
            &&& url@ == base@ + "/repos/"@ + repository@ + "/actions/secrets/"@ + tail@
            &&& bearer@ == token@
        },
        made matches Err(e) ==> (e matches GitHubError::Repository(r) && r@ == repository@),
{
    let r = repository@;
    lemma_first_index(r, '/');
    let k = crate::text::first_index(r, '/');
    if made is Ok {
        let (owner, name) = client.repository();
        assert(r =~= owner + seq!['/'] + name);
        if owner.contains('/') {
            let i = choose|i: int| 0 <= i < owner.len() && owner[i] == '/';
            assert(r[i] == '/');
        }
        reveal_strlit("/");
        assert("/"@ =~= seq!['/']);
        assert(url@ =~= base@ + "/repos/"@ + r + "/actions/secrets/"@ + tail@);
    }
    assert forall|owner: Seq<char>, name: Seq<char>|
        r == #[trigger] (owner + seq!['/'] + name) && owner.len() > 0 && name.len() > 0
            && !owner.contains('/') && !name.contains('/') implies made is Ok by {
        assert forall|i: int| 0 <= i < owner.len() implies r[i] != '/' by {
            if r[i] == '/' {
                assert(owner[i] == '/');
            }
        }
        assert(r[owner.len() as int] == '/');
        lemma_first_index_unique(r, '/', owner.len() as int);
        assert(r.take(owner.len() as int) =~= owner);
        assert(r.skip(owner.len() as int + 1) =~= name);
    }
}

/// Every status from 200 to 299 is a success, and no other is. A failure is told with the request, the
/// status, and the beginning of the answer: all of it, or three hundred characters of a longer one.
pub proof fn law_failure_is_told_as_answered(
    method: &'static str,
    path: String,
    status: u16,
    body: &str,
    done: Result<(), GitHubError>,
)
    requires
        call_ensures(SecretsClient::check, (method, path, status, body), done),
    ensures
        done is Ok <==> 200 <= status <= 299,
        done matches Err(e) ==> (e matches GitHubError::Status {
            method: m,
            path: p,
            status: s,
            body: b,
        } && m@ == method@ && p@ == path@ && s == status && b@.is_prefix_of(body@) && b@.len()
            == if body@.len() < 300 {
            body@.len()
        } else {
            300
        }),
{
}

/// A public key is the 32 bytes that the trimmed text is the Base64 text of, and any text that is not
/// one is refused.
pub proof fn law_public_key_is_read_from_base64(
    text: &str,
    inner: &str,
    key: Result<Vec<u8>, GitHubError>,
)
    requires
        call_ensures(trim, (text,), inner),
        call_ensures(SecretsClient::public_key, (text,), key),
    ensures
        key is Ok <==> exists|k: Seq<u8>|
            k.len() == 32 && #[trigger] base64_bytes(k) == encode_utf8(inner@),
        key matches Ok(k) ==> k@.len() == 32 && base64_bytes(k@) == encode_utf8(inner@),
        key matches Err(e) ==> e is PublicKey,
{
    if key is Err {
        assert forall|k: Seq<u8>| k.len() == 32 && #[trigger] base64_bytes(k) == encode_utf8(
            inner@,
        ) implies false by {
            assert(public_key_named(text@, k));
        }
    }
}

/// What goes to the API is the whole value, sealed for the very key that the API named: whoever holds
/// that key finds every byte of the value in it.
pub proof fn law_secret_is_sealed_whole(
    key_text: &str,
    inner: &str,
    value: &str,
    key: Vec<u8>,
    sealed: Result<String, GitHubError>,
)
    requires
        call_ensures(trim, (key_text,), inner),
        call_ensures(SecretsClient::public_key, (key_text,), Ok::<Vec<u8>, GitHubError>(key)),
        call_ensures(SecretsClient::sealed_value, (key_text, value), sealed),
    ensures
        base64_bytes(key@) == encode_utf8(inner@),
        sealed matches Ok(t) && exists|sealed_box: Seq<u8>|
            t@ == #[trigger] base64_text(sealed_box) && unsealed(key@, sealed_box) == Some(
                encode_utf8(value@),
            ) && sealed_box.len() == encode_utf8(value@).len() + 48,
{
    assert(public_key_named(key_text@, key@));
    assert(sealed is Ok) by {
        if sealed is Err {
            assert(base64_bytes(key@) != encode_utf8(trimmed(key_text@)));
        }
    }
    if let Ok(t) = sealed {
        let k = choose|k: Seq<u8>| #[trigger]
            public_key_named(key_text@, k) && is_sealed_for(t@, k, encode_utf8(value@));
        law_base64_injective(k, key@);
        assert(is_sealed_for(t@, key@, encode_utf8(value@)));
    }
}

/// Sealing works for every key of 32 bytes and every plaintext, and for no other key.
pub proof fn law_sealing_takes_every_plaintext(
    key: &[u8],
    plaintext: &[u8],
    sealed: Result<String, GitHubError>,
)
    requires
        call_ensures(seal_for_github, (key, plaintext), sealed),
    ensures
        sealed is Ok <==> key@.len() == 32,
        sealed matches Ok(t) ==> exists|sealed_box: Seq<u8>|
            t@ == #[trigger] base64_text(sealed_box) && unsealed(key@, sealed_box) == Some(
                plaintext@,
            ) && sealed_box.len() == plaintext@.len() + 48,
        sealed matches Err(e) ==> e is PublicKey,
{
}

/// An error tells what is wrong: the request that failed, with its status and the answer, or the
/// repository as it was given.
pub proof fn law_github_error_tells_why(error: &GitHubError, code: String, text: String)
    requires
        *error matches GitHubError::Status { status, .. } ==> call_ensures(
            decimal_text,
            (status as u64,),
            code,
        ),
        call_ensures(GitHubError::message, (error,), text),
    ensures
        match *error {
            GitHubError::Status { method, path, body, .. } => text@ == "GitHub API "@ + method@
                + " "@ + path@ + " returned "@ + code@ + ": "@ + body@,
            GitHubError::PublicKey => text@
                == "repository public key is not a 32-byte base64 value"@,
            GitHubError::Repository(r) => text@ == "repository must be `owner/name`, got "@
                + quoted(r@),
        },
{
}

/// The request that updates a secret names the sealed value and the key it is sealed for, and nothing
/// else; and the API is asked in the version that it is known in.
pub proof fn law_update_names_value_and_key(encrypted_value: &str, key_id: &str, text: String)
    requires
        call_ensures(SecretsClient::update_body, (encrypted_value, key_id), text),
    ensures
        text@ == json_text(
            seq![
                ("encrypted_value"@, JsonView::Text(encrypted_value@)),
                ("key_id"@, JsonView::Text(key_id@)),
            ],
        ),
        ACCEPT@ == "application/vnd.github+json"@,
        API_VERSION@ == "2022-11-28"@,
{
}

} // verus!
