//! What the commands decide and print.

use vstd::prelude::*;
use vstd::string::*;

use crate::codec::{base64_fault, hex_text, is_ascii_space, law_hex_round_trip, without_spaces};
use crate::json::{
    field_views, flag_or_null, json_object_text, json_text, text_or_null, Field, JsonValue, JsonView,
};
use crate::matrix::{Credentials, CrossSigningReport, LoginReport, SendReport, WhoAmI};
use crate::message::{
    can_shorten, html_of, note_html, note_of, status_named, worthwhile_html, Message, RunInfo,
    Status,
};
use crate::state::{
    ends_with, files_view, import, import_of, key_named, law_key_text_round_trip, Import, KeyParse,
    Opening, StateError, StateKey, Unpacked,
};
use crate::target::{target_named, RoomTarget, TargetError};
use crate::text::{
    all_in, decimal, decimal_text, join_texts, joined, lemma_trailing_split, lemma_trimmed_is_fixed,
    lemma_without_trailing_is_prefix, opt_view, quote, quoted, same_text, trim, trim_end_class,
    trimmed, views, without_trailing, CharClass,
};

verus! {

/// The argument that stands for a standard stream.
pub fn is_standard_stream(argument: &str) -> (is: bool)
    ensures
        is == (argument@ == "-"@),
{
    same_text(argument, "-")
}

/// What is read from a standard stream or a file, without the line ends behind it.
pub fn without_line_ends(text: &str) -> (r: String)
    ensures
        r@ == without_trailing(text@, CharClass::LineEnd),
{
    trim_end_class(text, CharClass::LineEnd).to_owned()
}

/// What goes to an output: the text and a line feed.
pub fn output_line(text: &str) -> (line: String)
    ensures
        line@ == text@ + "\n"@,
{
    let mut line = text.to_owned();
    line.append("\n");
    line
}

/// What `send` is asked to say.
pub struct SendRequest {
    /// The text, where there is one.
    pub text: Option<String>,
    /// Treat the text as Markdown.
    pub markdown: bool,
    /// The format, where one is asked for.
    pub format: Option<String>,
    /// The job status, for the format.
    pub status: Option<String>,
    /// Send a notice.
    pub notice: bool,
    /// Send no notice after all.
    pub no_notice: bool,
}

/// Why there is no message.
#[derive(Debug)]
pub enum ComposeError {
    /// The format needs a status.
    StatusMissing,
    /// The status is none.
    StatusUnknown(String),
    /// The environment does not tell the run.
    RunUnknown,
    /// The format is none.
    FormatUnknown(String),
    /// There is no text.
    TextMissing,
    /// The text is empty.
    TextEmpty,
}

impl ComposeError {
    /// The text of the error.
    pub open spec fn text(self) -> Seq<char> {
        match self {
            ComposeError::StatusMissing =>
            "--format github-run needs --status success|failure|cancelled"@,
            ComposeError::StatusUnknown(s) => "unknown --status "@ + quoted(s@)
                + " (expected success|failure|cancelled)"@,
            ComposeError::RunUnknown =>
            "--format github-run needs GITHUB_REPOSITORY and GITHUB_RUN_ID in the environment"@,
            ComposeError::FormatUnknown(f) => "unknown --format "@ + quoted(f@),
            ComposeError::TextMissing => "--message is required"@,
            ComposeError::TextEmpty => "refusing to send an empty message"@,
        }
    }

    /// What to tell the user.
    pub fn message(&self) -> (text: String)
        ensures
            text@ == self.text(),
    {
        match self {
            ComposeError::StatusMissing =>
            "--format github-run needs --status success|failure|cancelled".to_owned(),
            ComposeError::StatusUnknown(s) => {
                let mut text = "unknown --status ".to_owned();
                text.append(quote(s.as_str()).as_str());
                text.append(" (expected success|failure|cancelled)");
                text
            },
            ComposeError::RunUnknown =>
            "--format github-run needs GITHUB_REPOSITORY and GITHUB_RUN_ID in the environment".to_owned(),
            ComposeError::FormatUnknown(f) => {
                let mut text = "unknown --format ".to_owned();
                text.append(quote(f.as_str()).as_str());
                text
            },
            ComposeError::TextMissing => "--message is required".to_owned(),
            ComposeError::TextEmpty => "refusing to send an empty message".to_owned(),
        }
    }
}

/// Why a request makes no message.
pub enum ComposeFault {
    StatusMissing,
    StatusUnknown(Seq<char>),
    RunUnknown,
    FormatUnknown(Seq<char>),
    TextMissing,
    TextEmpty,
}

impl SendRequest {
    /// A run card is asked for.
    pub open spec fn wants_card(self) -> bool {
        opt_view(self.format) == Some("github-run"@)
    }

    /// Whether the message is a notice.
    pub open spec fn is_notice(self) -> bool {
        self.notice && !self.no_notice
    }

    /// Why the request makes no message, where it makes none.
    pub open spec fn fault(self, info: RunInfo) -> Option<ComposeFault> {
        match self.format {
            Some(format) => if format@ != "github-run"@ {
                Some(ComposeFault::FormatUnknown(format@))
            } else {
                match self.status {
                    None => Some(ComposeFault::StatusMissing),
                    Some(s) => if status_named(s@) is None {
                        Some(ComposeFault::StatusUnknown(s@))
                    } else if info.repository@.len() == 0 || info.run_id@.len() == 0 {
                        Some(ComposeFault::RunUnknown)
                    } else {
                        None
                    },
                }
            },
            None => match self.text {
                None => Some(ComposeFault::TextMissing),
                Some(t) => if trimmed(t@).len() == 0 {
                    Some(ComposeFault::TextEmpty)
                } else {
                    None
                },
            },
        }
    }

    /// The message says what the request asks for.
    pub open spec fn asks_for(self, info: RunInfo, message: Message) -> bool {
        &&& message.notice == self.is_notice()
        &&& if self.wants_card() {
            let status = status_named(self.status->0@)->0;
            match note_of(opt_view(self.text)) {
                Some(note) => {
                    &&& message.body@ == info.card_body(status) + "\n"@ + note
                    &&& opt_view(message.html) == Some(
                        info.card_html(status) + "<br>"@ + note_html(note, self.markdown),
                    )
                },
                None => {
                    &&& message.body@ == info.card_body(status)
                    &&& opt_view(message.html) == Some(info.card_html(status))
                },
            }
        } else {
            let text = self.text->0@;
            &&& message.body@ == text
            &&& opt_view(message.html) == if self.markdown {
                worthwhile_html(text, html_of(text))
            } else {
                None
            }
        }
    }
}

/// The message that a request asks for. `info` is what the environment tells of the run.
pub fn compose(request: SendRequest, info: &RunInfo) -> (message: Result<Message, ComposeError>)
    requires
        request.wants_card() && request.fault(*info) is None ==> can_shorten(info.sha@),
    ensures
        match message {
            Ok(m) => request.fault(*info) is None && request.asks_for(*info, m),
            Err(ComposeError::StatusMissing) => request.fault(*info) == Some(
                ComposeFault::StatusMissing,
            ),
            Err(ComposeError::StatusUnknown(s)) => request.fault(*info) == Some(
                ComposeFault::StatusUnknown(s@),
            ),
            Err(ComposeError::RunUnknown) => request.fault(*info) == Some(ComposeFault::RunUnknown),
            Err(ComposeError::FormatUnknown(f)) => request.fault(*info) == Some(
                ComposeFault::FormatUnknown(f@),
            ),
            Err(ComposeError::TextMissing) => request.fault(*info) == Some(
                ComposeFault::TextMissing,
            ),
            Err(ComposeError::TextEmpty) => request.fault(*info) == Some(ComposeFault::TextEmpty),
        },
{
    let notice = request.notice && !request.no_notice;
    match request.format {
        Some(format) => {
            if !same_text(format.as_str(), "github-run") {
                return Err(ComposeError::FormatUnknown(format));
            }
            let status_text = match request.status {
                Some(s) => s,
                None => return Err(ComposeError::StatusMissing),
            };
            let status = match Status::parse(status_text.as_str()) {
                Some(s) => s,
                None => return Err(ComposeError::StatusUnknown(status_text)),
            };
            if info.repository.as_str().is_empty() || info.run_id.as_str().is_empty() {
                return Err(ComposeError::RunUnknown);
            }
            let extra = match &request.text {
                Some(t) => Some(t.as_str()),
                None => None,
            };
            let mut m = info.render(status, extra, request.markdown);
            m.notice = notice;
            Ok(m)
        },
        None => {
            let text = match request.text {
                Some(t) => t,
                None => return Err(ComposeError::TextMissing),
            };
            if trim(text.as_str()).is_empty() {
                return Err(ComposeError::TextEmpty);
            }
            if request.markdown {
                Ok(Message::markdown(text.as_str(), notice))
            } else {
                Ok(Message::plain(text, notice))
            }
        },
    }
}

/// An empty message is never made: the body of a message that is not a run card has something
/// besides white space in it.
pub proof fn law_no_empty_message(request: SendRequest, info: RunInfo, message: Message)
    requires
        request.fault(info) is None,
        request.asks_for(info, message),
        !request.wants_card(),
    ensures
        trimmed(message.body@).len() > 0,
{
}

/// What a sent message is reported with.
pub fn sent_text(report: &SendReport) -> (text: String)
    ensures
        text@ == "sent "@ + report.event_id@ + " to "@ + report.room_id@ + " ("@ + (
        if report.encrypted {
            "encrypted"@
        } else {
            "PLAINTEXT"@
        }) + ", "@ + decimal(report.members as nat) + " members, "@ + decimal(
            report.recipients as nat,
        ) + " devices)"@,
{
    let mut text = "sent ".to_owned();
    text.append(report.event_id.as_str());
    text.append(" to ");
    text.append(report.room_id.as_str());
    text.append(" (");
    if report.encrypted {
        text.append("encrypted");
    } else {
        text.append("PLAINTEXT");
    }
    text.append(", ");
    text.append(decimal_text(report.members as u64).as_str());
    text.append(" members, ");
    text.append(decimal_text(report.recipients as u64).as_str());
    text.append(" devices)");
    text
}

/// The members of the JSON object that a sent message is reported with.
pub open spec fn sent_members(report: SendReport, fingerprint: Seq<char>) -> Seq<
    (Seq<char>, JsonView),
> {
    seq![
        ("room_id"@, JsonView::Text(report.room_id@)),
        ("event_id"@, JsonView::Text(report.event_id@)),
        ("encrypted"@, JsonView::Flag(report.encrypted)),
        ("members"@, JsonView::Number(report.members as u64)),
        ("recipients"@, JsonView::Number(report.recipients as u64)),
        ("members_without_devices"@, JsonView::Texts(views(report.members_without_devices@))),
        ("identity_fingerprint"@, JsonView::Text(fingerprint)),
    ]
}

/// The members of the JSON object that a sent message is reported with.
pub fn sent_fields(report: &SendReport, fingerprint: &str) -> (fields: Vec<Field>)
    ensures
        field_views(fields@) == sent_members(*report, fingerprint@),
{
    let mut fields: Vec<Field> = Vec::new();
    fields.push(("room_id", JsonValue::text(report.room_id.as_str())));
    fields.push(("event_id", JsonValue::text(report.event_id.as_str())));
    fields.push(("encrypted", JsonValue::Flag(report.encrypted)));
    fields.push(("members", JsonValue::Number(report.members as u64)));
    fields.push(("recipients", JsonValue::Number(report.recipients as u64)));
    fields.push(
        ("members_without_devices", JsonValue::texts(&report.members_without_devices)),
    );
    fields.push(("identity_fingerprint", JsonValue::text(fingerprint)));
    assert(field_views(fields@) =~= sent_members(*report, fingerprint@));
    fields
}

/// The JSON object that a sent message is reported with.
pub fn sent_json(report: &SendReport, fingerprint: &str) -> (text: String)
    ensures
        text@ == json_text(sent_members(*report, fingerprint@)),
{
    json_object_text(&sent_fields(report, fingerprint))
}

/// What a send that took too long is reported with.
pub fn send_timed_out(seconds: u64) -> (text: String)
    ensures
        text@ == "send did not complete within "@ + decimal(seconds as nat) + "s"@,
{
    let mut text = "send did not complete within ".to_owned();
    text.append(decimal_text(seconds).as_str());
    text.append("s");
    text
}

/// Which credential `login` reads from standard input.
#[derive(Debug)]
pub enum CredentialSource {
    Token,
    Password { user: String },
}

/// Why there is no credential.
#[derive(Debug, Clone, Copy, PartialEq, Eq, Structural)]
pub enum CredentialError {
    UserMissing,
    NoSource,
    EmptyToken,
    EmptyPassword,
}

impl CredentialError {
    /// The text of the error.
    pub open spec fn text(self) -> Seq<char> {
        match self {
            CredentialError::UserMissing => "--user is required"@,
            CredentialError::NoSource =>
            "provide the password with --password-stdin (or use --token-stdin)"@,
            CredentialError::EmptyToken => "empty token on stdin"@,
            CredentialError::EmptyPassword => "empty password on stdin"@,
        }
    }

    /// What to tell the user.
    pub fn message(&self) -> (text: &'static str)
        ensures
            text@ == self.text(),
    {
        match self {
            CredentialError::UserMissing => "--user is required",
            CredentialError::NoSource =>
            "provide the password with --password-stdin (or use --token-stdin)",
            CredentialError::EmptyToken => "empty token on stdin",
            CredentialError::EmptyPassword => "empty password on stdin",
        }
    }
}

/// Which credential to read: the token where one is announced, and otherwise the password of the
/// given user.
pub fn credential_source(token_stdin: bool, user: Option<String>, password_stdin: bool) -> (source:
    Result<CredentialSource, CredentialError>)
    ensures
        match source {
            Ok(CredentialSource::Token) => token_stdin,
            Ok(CredentialSource::Password { user: u }) => !token_stdin && password_stdin && user
                == Some(u),
            Err(CredentialError::UserMissing) => !token_stdin && user is None,
            Err(CredentialError::NoSource) => !token_stdin && user is Some && !password_stdin,
            Err(_) => false,
        },
{
    if token_stdin {
        return Ok(CredentialSource::Token);
    }
    match user {
        Some(user) => {
            if !password_stdin {
                return Err(CredentialError::NoSource);
            }
            Ok(CredentialSource::Password { user })
        },
        None => Err(CredentialError::UserMissing),
    }
}

/// The credential in the line that was read, without its line end.
pub fn credentials(source: CredentialSource, line: &str) -> (credentials: Result<
    Credentials,
    CredentialError,
>)
    ensures
        match credentials {
            Ok(Credentials::Token(t)) => source is Token && t@.len() > 0 && t@ == without_trailing(
                line@,
                CharClass::LineEnd,
            ),
            Ok(Credentials::Password { user, password }) => {
                &&& source == (CredentialSource::Password { user })
                &&& password@.len() > 0
                &&& password@ == without_trailing(line@, CharClass::LineEnd)
            },
            Err(CredentialError::EmptyToken) => source is Token && without_trailing(
                line@,
                CharClass::LineEnd,
            ).len() == 0,
            Err(CredentialError::EmptyPassword) => source is Password && without_trailing(
                line@,
                CharClass::LineEnd,
            ).len() == 0,
            Err(_) => false,
        },
{
    let secret = without_line_ends(line);
    match source {
        CredentialSource::Token => {
            if secret.as_str().is_empty() {
                return Err(CredentialError::EmptyToken);
            }
            Ok(Credentials::Token(secret))
        },
        CredentialSource::Password { user } => {
            if secret.as_str().is_empty() {
                return Err(CredentialError::EmptyPassword);
            }
            Ok(Credentials::Password { user, password: secret })
        },
    }
}

/// The password in the line that was read, without its line end.
pub fn password_line(line: &str) -> (password: Result<String, CredentialError>)
    ensures
        match password {
            Ok(p) => p@.len() > 0 && p@ == without_trailing(line@, CharClass::LineEnd),
            Err(e) => e == CredentialError::EmptyPassword && without_trailing(
                line@,
                CharClass::LineEnd,
            ).len() == 0,
        },
{
    let password = without_line_ends(line);
    if password.as_str().is_empty() {
        return Err(CredentialError::EmptyPassword);
    }
    Ok(password)
}

/// The key that `login` encrypts with: the given one, or a fresh one where none is given.
pub fn login_key(given: Option<&str>) -> (key: Result<StateKey, StateError>)
    ensures
        match given {
            Some(text) => match key {
                Ok(k) => key_named(text@) == KeyParse::Key(k@),
                Err(StateError::KeyLength(n)) => key_named(text@) == KeyParse::WrongLength(
                    n as nat,
                ),
                Err(StateError::KeyHex) => key_named(text@) == KeyParse::NotHex,
                Err(_) => false,
            },
            None => match key {
                Ok(k) => k@.len() == 32,
                Err(StateError::Io(_)) => true,
                Err(_) => false,
            },
        },
{
    match given {
        Some(text) => StateKey::from_hex(text),
        None => StateKey::generate(),
    }
}

/// The targets that the given texts name, or the first text that names none.
pub fn parse_targets(texts: &Vec<String>) -> (targets: Result<Vec<RoomTarget>, TargetError>)
    ensures
        match targets {
            Ok(t) => {
                &&& t@.len() == texts@.len()
                &&& forall|i: int|
                    0 <= i < t@.len() ==> target_named(#[trigger] texts@[i]@) == Some(t@[i]@)
            },
            Err(e) => exists|i: int|
                0 <= i < texts@.len() && target_named(#[trigger] texts@[i]@) is None && e.0@
                    == texts@[i]@ && forall|j: int|
                    0 <= j < i ==> target_named(#[trigger] texts@[j]@) is Some,
        },
{
    let mut targets: Vec<RoomTarget> = Vec::new();
    let mut i: usize = 0;
    while i < texts.len()
        invariant
            i <= texts.len(),
            targets@.len() == i,
            forall|k: int|
                0 <= k < i ==> target_named(#[trigger] texts@[k]@) == Some(targets@[k]@),
        decreases texts.len() - i,
    {
        match RoomTarget::parse(texts[i].as_str()) {
            Ok(t) => targets.push(t),
            Err(e) => {
                assert(target_named(texts@[i as int]@) is None);
                return Err(e);
            },
        }
        i = i + 1;
    }
    Ok(targets)
}

/// The display name of the device: it tells the repository where that is known.
pub fn default_device_name(repository: Option<&str>) -> (name: String)
    ensures
        name@ == match repository {
            Some(r) => if r@.len() > 0 {
                "matrix-notify ("@ + r@ + ")"@
            } else {
                "matrix-notify"@
            },
            None => "matrix-notify"@,
        },
{
    match repository {
        Some(r) => {
            if r.is_empty() {
                return "matrix-notify".to_owned();
            }
            let mut name = "matrix-notify (".to_owned();
            name.append(r);
            name.append(")");
            name
        },
        None => "matrix-notify".to_owned(),
    }
}

/// What a user is told of how cross-signing stands.
pub open spec fn cross_signing_said(report: CrossSigningReport) -> Seq<char> {
    match report {
        CrossSigningReport::Bootstrapped => "cross-signing: bootstrapped, device is self-signed"@,
        CrossSigningReport::Present => "cross-signing: already present, device is self-signed"@,
        CrossSigningReport::NotSignedByExistingIdentity =>
        "cross-signing: WARNING an identity created by another session exists; this device is not signed by it.\n  Either verify this device from that session, or run `matrix-notify cross-sign --reset --password-stdin` on this store and re-export."@,
        CrossSigningReport::NeedsInteractiveAuth(why) =>
        "cross-signing: WARNING not bootstrapped: "@ + why@
            + "\n  Finish it with `matrix-notify cross-sign --password-stdin` on this store and re-export."@,
        CrossSigningReport::Incomplete(why) => "cross-signing: WARNING "@ + why@,
    }
}

/// What a user is told of how cross-signing stands.
pub fn cross_signing_text(report: &CrossSigningReport) -> (text: String)
    ensures
        text@ == cross_signing_said(*report),
{
    match report {
        CrossSigningReport::Bootstrapped =>
        "cross-signing: bootstrapped, device is self-signed".to_owned(),
        CrossSigningReport::Present =>
        "cross-signing: already present, device is self-signed".to_owned(),
        CrossSigningReport::NotSignedByExistingIdentity =>
        "cross-signing: WARNING an identity created by another session exists; this device is not signed by it.\n  Either verify this device from that session, or run `matrix-notify cross-sign --reset --password-stdin` on this store and re-export.".to_owned(),
        CrossSigningReport::NeedsInteractiveAuth(why) => {
            let mut text = "cross-signing: WARNING not bootstrapped: ".to_owned();
            text.append(why.as_str());
            text.append(
                "\n  Finish it with `matrix-notify cross-sign --password-stdin` on this store and re-export.",
            );
            text
        },
        CrossSigningReport::Incomplete(why) => {
            let mut text = "cross-signing: WARNING ".to_owned();
            text.append(why.as_str());
            text
        },
    }
}

/// How `cross-sign` ends: well where the device is signed, and otherwise with a text.
pub fn cross_sign_outcome(report: &CrossSigningReport) -> (outcome: Result<(), String>)
    ensures
        match *report {
            CrossSigningReport::Bootstrapped => outcome is Ok,
            CrossSigningReport::Present => outcome is Ok,
            CrossSigningReport::NotSignedByExistingIdentity => outcome matches Err(t) && t@
                == "device is not signed; use --reset to take over"@,
            CrossSigningReport::NeedsInteractiveAuth(why) => outcome matches Err(t) && t@
                == "not bootstrapped: "@ + why@,
            CrossSigningReport::Incomplete(why) => outcome matches Err(t) && t@ == why@,
        },
{
    match report {
        CrossSigningReport::Bootstrapped => Ok(()),
        CrossSigningReport::Present => Ok(()),
        CrossSigningReport::NotSignedByExistingIdentity => Err(
            "device is not signed; use --reset to take over".to_owned(),
        ),
        CrossSigningReport::NeedsInteractiveAuth(why) => {
            let mut text = "not bootstrapped: ".to_owned();
            text.append(why.as_str());
            Err(text)
        },
        CrossSigningReport::Incomplete(why) => Err(why.clone()),
    }
}

/// The lines that tell of a login: who logged in, how cross-signing stands, and which rooms were
/// joined.
pub open spec fn login_said(report: LoginReport) -> Seq<Seq<char>> {
    seq![
        "logged in as "@ + report.user_id@ + " device "@ + report.device_id@ + " via "@
            + report.homeserver@,
        cross_signing_said(report.cross_signing),
    ] + views(report.joined@).map_values(|room: Seq<char>| "joined "@ + room)
}

/// The lines that tell of a login.
pub fn login_lines(report: &LoginReport) -> (lines: Vec<String>)
    ensures
        views(lines@) == login_said(*report),
{
    let mut lines: Vec<String> = Vec::new();
    let mut first = "logged in as ".to_owned();
    first.append(report.user_id.as_str());
    first.append(" device ");
    first.append(report.device_id.as_str());
    first.append(" via ");
    first.append(report.homeserver.as_str());
    lines.push(first);
    lines.push(cross_signing_text(&report.cross_signing));
    let mut i: usize = 0;
    while i < report.joined.len()
        invariant
            i <= report.joined.len(),
            lines@.len() == i + 2,
            views(lines@) =~= login_said(*report).take(i + 2),
        decreases report.joined.len() - i,
    {
        let ghost before = lines@;
        let mut line = "joined ".to_owned();
        line.append(report.joined[i].as_str());
        lines.push(line);
        assert(views(lines@) =~= views(before).push(line@));
        assert(login_said(*report)[i + 2] == "joined "@ + views(report.joined@)[i as int]);
        i = i + 1;
    }
    assert(login_said(*report).take(login_said(*report).len() as int) =~= login_said(*report));
    lines
}

/// The lines that introduce the two secrets after a login.
pub fn secrets_lines(generated_key: bool, blob_len: usize) -> (lines: Vec<String>)
    ensures
        views(lines@) == seq![
            Seq::empty(),
            "Add these two repository secrets (Settings > Secrets and variables > Actions):"@,
            Seq::empty(),
            if generated_key {
                "  MATRIX_STATE_KEY   (new key, keep it safe)"@
            } else {
                "  MATRIX_STATE_KEY   (the key you provided)"@
            },
            "  MATRIX_STATE       ("@ + decimal(blob_len as nat) + " bytes of base64)"@,
            Seq::empty(),
        ],
{
    let mut lines: Vec<String> = Vec::new();
    lines.push(String::new());
    lines.push(
        "Add these two repository secrets (Settings > Secrets and variables > Actions):".to_owned(),
    );
    lines.push(String::new());
    if generated_key {
        lines.push("  MATRIX_STATE_KEY   (new key, keep it safe)".to_owned());
    } else {
        lines.push("  MATRIX_STATE_KEY   (the key you provided)".to_owned());
    }
    let mut line = "  MATRIX_STATE       (".to_owned();
    line.append(decimal_text(blob_len as u64).as_str());
    line.append(" bytes of base64)");
    lines.push(line);
    lines.push(String::new());
    assert(views(lines@) =~= seq![
        Seq::empty(),
        "Add these two repository secrets (Settings > Secrets and variables > Actions):"@,
        Seq::empty(),
        if generated_key {
            "  MATRIX_STATE_KEY   (new key, keep it safe)"@
        } else {
            "  MATRIX_STATE_KEY   (the key you provided)"@
        },
        "  MATRIX_STATE       ("@ + decimal(blob_len as nat) + " bytes of base64)"@,
        Seq::empty(),
    ]);
    lines
}

/// The two secrets after a login, each as a line that assigns it.
pub fn secret_output(key: &StateKey, blob: &str) -> (lines: Vec<String>)
    ensures
        views(lines@) == seq!["MATRIX_STATE_KEY="@ + hex_text(key@), "MATRIX_STATE="@ + blob@],
{
    let hex = key.to_hex();
    let mut key_line = "MATRIX_STATE_KEY=".to_owned();
    key_line.append(hex.as_str());
    let mut state_line = "MATRIX_STATE=".to_owned();
    state_line.append(blob);
    let mut lines: Vec<String> = Vec::new();
    lines.push(key_line);
    lines.push(state_line);
    assert(views(lines@) =~= seq![
        "MATRIX_STATE_KEY="@ + hex_text(key@),
        "MATRIX_STATE="@ + blob@,
    ]);
    lines
}

/// The input holds nothing but white space.
pub open spec fn is_blank(input: Seq<u8>) -> bool {
    forall|i: int| 0 <= i < input.len() ==> is_ascii_space(#[trigger] input[i])
}

/// Whether the input of an import holds nothing but white space, as where a secret is not set.
pub fn is_blank_input(input: &[u8]) -> (blank: bool)
    ensures
        blank == is_blank(input@),
{
    let mut i: usize = 0;
    while i < input.len()
        invariant
            i <= input.len(),
            forall|k: int| 0 <= k < i ==> is_ascii_space(#[trigger] input@[k]),
        decreases input.len() - i,
    {
        let b = input[i];
        if !(b == 0x20 || b == 0x09 || b == 0x0a || b == 0x0c || b == 0x0d) {
            assert(!is_ascii_space(input@[i as int]));
            return false;
        }
        i = i + 1;
    }
    true
}

/// Blank input is exactly the input of which nothing is left without its white space.
pub proof fn law_blank_input_is_empty_text(input: Seq<u8>)
    ensures
        is_blank(input) <==> without_spaces(input).len() == 0,
    decreases input.len(),
{
    if input.len() > 0 {
        let rest = input.drop_last();
        law_blank_input_is_empty_text(rest);
        if is_blank(input) {
            assert forall|i: int| 0 <= i < rest.len() implies is_ascii_space(#[trigger] rest[i]) by {
                assert(rest[i] == input[i]);
            }
            assert(is_ascii_space(input[input.len() - 1]));
        } else if is_blank(rest) {
            assert(!is_ascii_space(input.last())) by {
                let k = choose|k: int| 0 <= k < input.len() && !is_ascii_space(#[trigger] input[k]);
                if k < rest.len() {
                    assert(rest[k] == input[k]);
                }
            }
        }
    }
}

/// Why there is nothing to import.
#[derive(Debug)]
pub enum ImportError {
    /// The input holds nothing but white space.
    Empty,
    /// The archive could not be read.
    State(StateError),
}

/// What to tell the user of an empty input.
pub const EMPTY_STATE_INPUT: &'static str = "empty state input (is the MATRIX_STATE secret set?)";

/// The files in an input, which must hold something.
pub fn import_state(key: &StateKey, input: &[u8]) -> (unpacked: Result<Unpacked, ImportError>)
    ensures
        match unpacked {
            Ok(u) => !is_blank(input@) && (import_of(key@, input@) matches Import::Unpacked(
                files,
                end,
            ) && files_view(u.files@) == files && ends_with(u.outcome, end)),
            Err(ImportError::Empty) => is_blank(input@),
            Err(ImportError::State(StateError::Base64(e))) => !is_blank(input@) && import_of(
                key@,
                input@,
            ) == Import::NotBase64 && e == base64_fault(without_spaces(input@)),
            Err(ImportError::State(StateError::Truncated)) => !is_blank(input@) && import_of(
                key@,
                input@,
            ) == Import::Closed(Opening::Truncated),
            Err(ImportError::State(StateError::BadMagic)) => !is_blank(input@) && import_of(
                key@,
                input@,
            ) == Import::Closed(Opening::BadMagic),
            Err(ImportError::State(StateError::Authentication)) => !is_blank(input@) && import_of(
                key@,
                input@,
            ) == Import::Closed(Opening::Unauthentic),
            Err(ImportError::State(_)) => false,
        },
{
    if is_blank_input(input) {
        return Err(ImportError::Empty);
    }
    match import(key, input) {
        Ok(u) => Ok(u),
        Err(e) => Err(ImportError::State(e)),
    }
}

/// What to tell the user of a store that cannot be exported.
pub fn nothing_to_export(store: &str) -> (text: String)
    ensures
        text@ == "nothing to export: "@ + store@ + " has no session"@,
{
    let mut text = "nothing to export: ".to_owned();
    text.append(store);
    text.append(" has no session");
    text
}

/// What an export is reported with.
pub fn exported_text(blob_len: usize) -> (text: String)
    ensures
        text@ == "exported "@ + decimal(blob_len as nat) + " bytes of base64"@,
{
    let mut text = "exported ".to_owned();
    text.append(decimal_text(blob_len as u64).as_str());
    text.append(" bytes of base64");
    text
}

/// What an import is reported with.
pub fn imported_text(files: usize, store: &str) -> (text: String)
    ensures
        text@ == "imported "@ + decimal(files as nat) + " file(s) into "@ + store@,
{
    let mut text = "imported ".to_owned();
    text.append(decimal_text(files as u64).as_str());
    text.append(" file(s) into ");
    text.append(store);
    text
}

/// The lines that tell who we are.
pub open spec fn whoami_said(w: WhoAmI) -> Seq<Seq<char>> {
    seq![
        "homeserver:    "@ + w.homeserver@,
        "user:          "@ + w.user_id@,
        "device:        "@ + w.device_id@ + " ("@ + (match w.device_name {
            Some(n) => n@,
            None => "no display name"@,
        }) + ")"@,
        "cross-signed:  "@ + (match w.cross_signed {
            Some(true) => "yes"@,
            Some(false) => "no"@,
            None => "unknown"@,
        }),
        "signing keys:  "@ + (if w.has_cross_signing_keys {
            "present"@
        } else {
            "absent"@
        }),
        "server check:  "@ + (if w.server_ok {
            "ok"@
        } else {
            "FAILED (token rejected?)"@
        }),
        "rooms:         "@ + (if w.joined_rooms@.len() == 0 {
            "-"@
        } else {
            joined(views(w.joined_rooms@), ", "@)
        }),
    ]
}

fn labelled(label: &str, value: &str) -> (line: String)
    ensures
        line@ == label@ + value@,
{
    let mut line = label.to_owned();
    line.append(value);
    line
}

/// The lines that tell who we are.
pub fn whoami_lines(w: &WhoAmI) -> (lines: Vec<String>)
    ensures
        views(lines@) == whoami_said(*w),
{
    let mut lines: Vec<String> = Vec::new();
    lines.push(labelled("homeserver:    ", w.homeserver.as_str()));
    lines.push(labelled("user:          ", w.user_id.as_str()));
    let mut device = labelled("device:        ", w.device_id.as_str());
    device.append(" (");
    match &w.device_name {
        Some(n) => device.append(n.as_str()),
        None => device.append("no display name"),
    }
    device.append(")");
    lines.push(device);
    let signed = match w.cross_signed {
        Some(true) => "yes",
        Some(false) => "no",
        None => "unknown",
    };
    lines.push(labelled("cross-signed:  ", signed));
    let keys = if w.has_cross_signing_keys {
        "present"
    } else {
        "absent"
    };
    lines.push(labelled("signing keys:  ", keys));
    let check = if w.server_ok {
        "ok"
    } else {
        "FAILED (token rejected?)"
    };
    lines.push(labelled("server check:  ", check));
    if w.joined_rooms.len() == 0 {
        lines.push(labelled("rooms:         ", "-"));
    } else {
        lines.push(labelled("rooms:         ", join_texts(&w.joined_rooms, ", ").as_str()));
    }
    assert(views(lines@) =~= whoami_said(*w));
    lines
}

/// The members of the JSON object that says who we are.
pub open spec fn whoami_members(w: WhoAmI, fingerprint: Seq<char>) -> Seq<(Seq<char>, JsonView)> {
    seq![
        ("homeserver"@, JsonView::Text(w.homeserver@)),
        ("user_id"@, JsonView::Text(w.user_id@)),
        ("device_id"@, JsonView::Text(w.device_id@)),
        ("device_name"@, text_or_null(opt_view(w.device_name))),
        ("cross_signed"@, flag_or_null(w.cross_signed)),
        ("has_cross_signing_keys"@, JsonView::Flag(w.has_cross_signing_keys)),
        ("joined_rooms"@, JsonView::Texts(views(w.joined_rooms@))),
        ("server_ok"@, JsonView::Flag(w.server_ok)),
        ("identity_fingerprint"@, JsonView::Text(fingerprint)),
    ]
}

/// The members of the JSON object that says who we are.
pub fn whoami_fields(w: &WhoAmI, fingerprint: &str) -> (fields: Vec<Field>)
    ensures
        field_views(fields@) == whoami_members(*w, fingerprint@),
{
    let mut fields: Vec<Field> = Vec::new();
    fields.push(("homeserver", JsonValue::text(w.homeserver.as_str())));
    fields.push(("user_id", JsonValue::text(w.user_id.as_str())));
    fields.push(("device_id", JsonValue::text(w.device_id.as_str())));
    fields.push(("device_name", JsonValue::optional_text(&w.device_name)));
    fields.push(("cross_signed", JsonValue::optional_flag(w.cross_signed)));
    fields.push(("has_cross_signing_keys", JsonValue::Flag(w.has_cross_signing_keys)));
    fields.push(("joined_rooms", JsonValue::texts(&w.joined_rooms)));
    fields.push(("server_ok", JsonValue::Flag(w.server_ok)));
    fields.push(("identity_fingerprint", JsonValue::text(fingerprint)));
    assert(field_views(fields@) =~= whoami_members(*w, fingerprint@));
    fields
}

/// The JSON object that says who we are.
pub fn whoami_json(w: &WhoAmI, fingerprint: &str) -> (text: String)
    ensures
        text@ == json_text(whoami_members(*w, fingerprint@)),
{
    json_object_text(&whoami_fields(w, fingerprint))
}

/// How `whoami` ends: with a text where the server did not accept the token.
pub fn whoami_outcome(server_ok: bool) -> (outcome: Result<(), &'static str>)
    ensures
        match outcome {
            Ok(()) => server_ok,
            Err(t) => !server_ok && t@ == "homeserver rejected the session token"@,
        },
{
    if server_ok {
        Ok(())
    } else {
        Err("homeserver rejected the session token")
    }
}

/// Why a secret is not stored.
#[derive(Debug)]
pub enum SecretError {
    /// The variable that should hold the token, whose name follows, does not.
    TokenMissing { variable: String },
    /// The value is empty.
    ValueEmpty,
}

impl SecretError {
    /// What to tell the user.
    pub fn message(&self) -> (text: String)
        ensures
            text@ == match *self {
                SecretError::TokenMissing { variable } => "environment variable "@ + variable@
                    + " is not set"@,
                SecretError::ValueEmpty => "refusing to store an empty secret"@,
            },
    {
        match self {
            SecretError::TokenMissing { variable } => {
                let mut text = "environment variable ".to_owned();
                text.append(variable.as_str());
                text.append(" is not set");
                text
            },
            SecretError::ValueEmpty => "refusing to store an empty secret".to_owned(),
        }
    }
}

/// The token in an environment variable, without white space around it.
pub fn github_token(variable: &str, value: Option<&str>) -> (token: Result<String, SecretError>)
    ensures
        match token {
            Ok(t) => value matches Some(v) && t@ == trimmed(v@) && t@.len() > 0,
            Err(SecretError::TokenMissing { variable: name }) => {
                &&& name@ == variable@
                &&& match value {
                    Some(v) => trimmed(v@).len() == 0,
                    None => true,
                }
            },
            Err(_) => false,
        },
{
    if let Some(v) = value {
        let t = trim(v);
        if !t.is_empty() {
            return Ok(t.to_owned());
        }
    }
    Err(SecretError::TokenMissing { variable: variable.to_owned() })
}

/// The value of a secret, from what was read, without the line ends behind it.
pub fn secret_value(read: &str) -> (value: Result<String, SecretError>)
    ensures
        match value {
            Ok(v) => v@ == without_trailing(read@, CharClass::LineEnd) && v@.len() > 0,
            Err(SecretError::ValueEmpty) => without_trailing(read@, CharClass::LineEnd).len() == 0,
            Err(_) => false,
        },
{
    let value = without_line_ends(read);
    if value.as_str().is_empty() {
        return Err(SecretError::ValueEmpty);
    }
    Ok(value)
}

/// Without a format, the message is the text that was given, whole. It is refused only where there is
/// no text, or nothing but white space.
pub proof fn law_text_is_sent_as_given(
    request: SendRequest,
    info: &RunInfo,
    message: Result<Message, ComposeError>,
)
    requires
        request.format is None,
        call_ensures(compose, (request, info), message),
    ensures
        message is Ok <==> (request.text matches Some(t) && trimmed(t@).len() > 0),
        message matches Ok(m) ==> {
            &&& request.text matches Some(t) && m.body@ == t@
            &&& m.notice <==> request.notice && !request.no_notice
            &&& !request.markdown ==> m.html is None
        },
        message matches Err(e) ==> if request.text is None {
            e is TextMissing
        } else {
            e is TextEmpty
        },
{
}

/// Asked for Markdown, the text becomes the Markdown message that it is by itself.
pub proof fn law_markdown_text_is_rendered(
    request: SendRequest,
    info: &RunInfo,
    text: &str,
    message: Message,
    rendered: Message,
)
    requires
        request.format is None,
        request.markdown,
        request.text matches Some(t) && t@ == text@,
        call_ensures(compose, (request, info), Ok::<Message, ComposeError>(message)),
        call_ensures(Message::markdown, (text, message.notice), rendered),
    ensures
        message.body@ == rendered.body@,
        opt_view(message.html) == opt_view(rendered.html),
{
}

/// A run card is made exactly where it was asked for with a status that is one, and the environment
/// tells the run; it is the card of that run and that status, with the text as its note. What stands
/// in its way is told: the format, the status, or the environment.
pub proof fn law_card_is_made_as_asked(
    request: SendRequest,
    format: String,
    info: &RunInfo,
    message: Result<Message, ComposeError>,
)
    requires
        request.format == Some(format),
        format@ == "github-run"@ ==> can_shorten(info.sha@),
        call_ensures(compose, (request, info), message),
    ensures
        message is Ok <==> {
            &&& format@ == "github-run"@
            &&& request.status matches Some(s) && status_named(s@) is Some
            &&& info.repository@.len() > 0
            &&& info.run_id@.len() > 0
        },
        message matches Err(e) ==> match e {
            ComposeError::FormatUnknown(f) => format@ != "github-run"@ && f@ == format@,
            ComposeError::StatusMissing => format@ == "github-run"@ && request.status is None,
            ComposeError::StatusUnknown(u) => {
                &&& format@ == "github-run"@
                &&& request.status matches Some(s) && status_named(s@) is None && u@ == s@
            },
            ComposeError::RunUnknown => {
                &&& format@ == "github-run"@
                &&& request.status is Some
                &&& info.repository@.len() == 0 || info.run_id@.len() == 0
            },
            _ => false,
        },
{
}

/// The text of a run card is what rendering gives for the named status, with the text of the request as
/// its note; whether it is a notice is for the request to say.
pub proof fn law_card_is_rendered(
    request: SendRequest,
    info: &RunInfo,
    status_text: &str,
    status: Status,
    text: &str,
    message: Message,
    rendered: Message,
)
    requires
        request.format is Some,
        can_shorten(info.sha@),
        request.status matches Some(s) && s@ == status_text@,
        request.text matches Some(t) && t@ == text@,
        call_ensures(Status::parse, (status_text,), Some(status)),
        call_ensures(compose, (request, info), Ok::<Message, ComposeError>(message)),
        call_ensures(RunInfo::render, (info, status, Some(text), request.markdown), rendered),
    ensures
        message.body@ == rendered.body@,
        opt_view(message.html) == opt_view(rendered.html),
        message.notice <==> request.notice && !request.no_notice,
{
}

/// Without a text, the card is rendered without a note.
pub proof fn law_card_without_text_is_rendered(
    request: SendRequest,
    info: &RunInfo,
    status_text: &str,
    status: Status,
    message: Message,
    rendered: Message,
)
    requires
        request.format is Some,
        can_shorten(info.sha@),
        request.status matches Some(s) && s@ == status_text@,
        request.text is None,
        call_ensures(Status::parse, (status_text,), Some(status)),
        call_ensures(compose, (request, info), Ok::<Message, ComposeError>(message)),
        call_ensures(RunInfo::render, (info, status, None::<&str>, request.markdown), rendered),
    ensures
        message.body@ == rendered.body@,
        opt_view(message.html) == opt_view(rendered.html),
        message.notice <==> request.notice && !request.no_notice,
{
}

/// A password or a token is read whole, with every character of the line but the line ends behind it,
/// and only an empty one is refused. The credential is of the kind that was announced, for the user
/// that was named.
pub proof fn law_credential_is_the_whole_line(
    source: CredentialSource,
    line: &str,
    secret: String,
    read: Result<Credentials, CredentialError>,
)
    requires
        call_ensures(without_line_ends, (line,), secret),
        call_ensures(credentials, (source, line), read),
    ensures
        exists|ends: Seq<char>|
            line@ == secret@ + ends && #[trigger] all_in(ends, CharClass::LineEnd),
        secret@.len() > 0 ==> secret@.last() != '\n' && secret@.last() != '\r',
        read is Ok <==> secret@.len() > 0,
        match (source, read) {
            (CredentialSource::Token, Ok(c)) => c matches Credentials::Token(t) && t@ == secret@,
            (CredentialSource::Password { user }, Ok(c)) => {
                c matches Credentials::Password { user: u, password } && u@ == user@ && password@
                    == secret@
            },
            (CredentialSource::Token, Err(e)) => e is EmptyToken,
            (CredentialSource::Password { .. }, Err(e)) => e is EmptyPassword,
        },
{
    lemma_trailing_split(line@, CharClass::LineEnd);
    lemma_without_trailing_is_prefix(line@, CharClass::LineEnd);
    assert(all_in(line@.skip(secret@.len() as int), CharClass::LineEnd));
}

/// A password for interactive auth, and the value of a secret, are read in the same way.
pub proof fn law_passwords_and_secrets_are_read_whole(
    line: &str,
    whole: String,
    password: Result<String, CredentialError>,
    secret: Result<String, SecretError>,
)
    requires
        call_ensures(without_line_ends, (line,), whole),
        call_ensures(password_line, (line,), password),
        call_ensures(secret_value, (line,), secret),
    ensures
        password is Ok <==> whole@.len() > 0,
        secret is Ok <==> whole@.len() > 0,
        password matches Ok(p) ==> p@ == whole@,
        secret matches Ok(s) ==> s@ == whole@,
        password matches Err(e) ==> e is EmptyPassword,
        secret matches Err(e) ==> e is ValueEmpty,
{
}

/// A token is announced or a password is, and the password is that of the named user; what is missing is
/// told.
pub proof fn law_source_is_as_announced(
    token_stdin: bool,
    user: Option<String>,
    password_stdin: bool,
    source: Result<CredentialSource, CredentialError>,
)
    requires
        call_ensures(credential_source, (token_stdin, user, password_stdin), source),
    ensures
        (source matches Ok(s) && s is Token) <==> token_stdin,
        (source matches Ok(s) && s is Password) <==> !token_stdin && user is Some && password_stdin,
        source matches Ok(CredentialSource::Password { user: u }) ==> user == Some(u),
        source matches Err(e) ==> if user is None {
            e is UserMissing
        } else {
            e is NoSource
        },
{
}

/// Every text that names a target gives its target, in order, and the first that names none stops it
/// and is told.
pub proof fn law_targets_are_parsed_one_by_one(
    texts: &Vec<String>,
    parsed: Result<Vec<RoomTarget>, TargetError>,
    i: int,
    text: &str,
    one: Result<RoomTarget, TargetError>,
)
    requires
        0 <= i < texts@.len(),
        text@ == texts@[i]@,
        call_ensures(parse_targets, (texts,), parsed),
        call_ensures(RoomTarget::parse, (text,), one),
    ensures
        parsed matches Ok(all) ==> all@.len() == texts@.len() && (one matches Ok(t) && all@[i]@
            == t@),
        one is Err ==> parsed is Err,
        parsed matches Err(e) ==> exists|k: int|
            0 <= k < texts@.len() && (#[trigger] texts@[k])@ == e.0@ && target_named(texts@[k]@)
                is None,
{
    if let Err(e) = parsed {
        let k = choose|i: int|
            0 <= i < texts@.len() && target_named(#[trigger] texts@[i]@) is None && e.0@
                == texts@[i]@ && forall|j: int|
                0 <= j < i ==> target_named(#[trigger] texts@[j]@) is Some;
        assert(texts@[k]@ == e.0@);
    }
}

/// The key that was given is used, and no other.
pub proof fn law_given_key_is_used(
    text: &str,
    key: Result<StateKey, StateError>,
    parsed: Result<StateKey, StateError>,
)
    requires
        call_ensures(login_key, (Some(text),), key),
        call_ensures(StateKey::from_hex, (text,), parsed),
    ensures
        key is Ok <==> parsed is Ok,
        key matches Ok(k) ==> (parsed matches Ok(p) && k@ == p@),
{
}

/// The report of a sent message tells, under its name, each thing that is known of it, and nothing else.
pub proof fn law_sent_report_is_complete(report: &SendReport, fingerprint: &str, fields: Vec<Field>)
    requires
        call_ensures(sent_fields, (report, fingerprint), fields),
    ensures
        ({
            let told = field_views(fields@);
            &&& told.len() == 7
            &&& told.contains(("room_id"@, JsonView::Text(report.room_id@)))
            &&& told.contains(("event_id"@, JsonView::Text(report.event_id@)))
            &&& told.contains(("encrypted"@, JsonView::Flag(report.encrypted)))
            &&& told.contains(("members"@, JsonView::Number(report.members as u64)))
            &&& told.contains(("recipients"@, JsonView::Number(report.recipients as u64)))
            &&& told.contains(
                (
                    "members_without_devices"@,
                    JsonView::Texts(views(report.members_without_devices@)),
                ),
            )
            &&& told.contains(("identity_fingerprint"@, JsonView::Text(fingerprint@)))
        }),
{
    let told = field_views(fields@);
    assert(told[0] == ("room_id"@, JsonView::Text(report.room_id@)));
    assert(told[1] == ("event_id"@, JsonView::Text(report.event_id@)));
    assert(told[2] == ("encrypted"@, JsonView::Flag(report.encrypted)));
    assert(told[3] == ("members"@, JsonView::Number(report.members as u64)));
    assert(told[4] == ("recipients"@, JsonView::Number(report.recipients as u64)));
    assert(told[5] == (
        "members_without_devices"@,
        JsonView::Texts(views(report.members_without_devices@)),
    ));
    assert(told[6] == ("identity_fingerprint"@, JsonView::Text(fingerprint@)));
}

/// The report of who we are tells, under its name, each thing that is known, and nothing else; what is
/// not known is `null`.
pub proof fn law_whoami_report_is_complete(w: &WhoAmI, fingerprint: &str, fields: Vec<Field>)
    requires
        call_ensures(whoami_fields, (w, fingerprint), fields),
    ensures
        ({
            let told = field_views(fields@);
            &&& told.len() == 9
            &&& told.contains(("homeserver"@, JsonView::Text(w.homeserver@)))
            &&& told.contains(("user_id"@, JsonView::Text(w.user_id@)))
            &&& told.contains(("device_id"@, JsonView::Text(w.device_id@)))
            &&& told.contains(
                (
                    "device_name"@,
                    match w.device_name {
                        Some(n) => JsonView::Text(n@),
                        None => JsonView::Null,
                    },
                ),
            )
            &&& told.contains(
                (
                    "cross_signed"@,
                    match w.cross_signed {
                        Some(b) => JsonView::Flag(b),
                        None => JsonView::Null,
                    },
                ),
            )
            &&& told.contains(
                ("has_cross_signing_keys"@, JsonView::Flag(w.has_cross_signing_keys)),
            )
            &&& told.contains(("joined_rooms"@, JsonView::Texts(views(w.joined_rooms@))))
            &&& told.contains(("server_ok"@, JsonView::Flag(w.server_ok)))
            &&& told.contains(("identity_fingerprint"@, JsonView::Text(fingerprint@)))
        }),
{
    let told = field_views(fields@);
    assert(told[0] == ("homeserver"@, JsonView::Text(w.homeserver@)));
    assert(told[1] == ("user_id"@, JsonView::Text(w.user_id@)));
    assert(told[2] == ("device_id"@, JsonView::Text(w.device_id@)));
    assert(told[3].0 == "device_name"@);
    assert(told[4].0 == "cross_signed"@);
    assert(told[5] == (
        "has_cross_signing_keys"@,
        JsonView::Flag(w.has_cross_signing_keys),
    ));
    assert(told[6] == ("joined_rooms"@, JsonView::Texts(views(w.joined_rooms@))));
    assert(told[7] == ("server_ok"@, JsonView::Flag(w.server_ok)));
    assert(told[8] == ("identity_fingerprint"@, JsonView::Text(fingerprint@)));
}

/// What is printed as JSON are exactly the members that were put together.
pub proof fn law_reports_are_printed_as_put_together(
    report: &SendReport,
    w: &WhoAmI,
    fingerprint: &str,
    sent: Vec<Field>,
    who: Vec<Field>,
    sent_line: String,
    who_line: String,
)
    requires
        call_ensures(sent_fields, (report, fingerprint), sent),
        call_ensures(whoami_fields, (w, fingerprint), who),
        call_ensures(sent_json, (report, fingerprint), sent_line),
        call_ensures(whoami_json, (w, fingerprint), who_line),
    ensures
        sent_line@ == json_text(field_views(sent@)),
        who_line@ == json_text(field_views(who@)),
{
}

/// A login is told in full: who logged in where, how cross-signing stands, and every joined room, in
/// order.
pub proof fn law_login_is_told_in_full(
    report: &LoginReport,
    signing: String,
    lines: Vec<String>,
)
    requires
        call_ensures(login_lines, (report,), lines),
        call_ensures(cross_signing_text, (&report.cross_signing,), signing),
    ensures
        lines@.len() == 2 + report.joined@.len(),
        lines@[0]@ == "logged in as "@ + report.user_id@ + " device "@ + report.device_id@ + " via "@
            + report.homeserver@,
        lines@[1]@ == signing@,
        forall|i: int|
            0 <= i < report.joined@.len() ==> (#[trigger] lines@[i + 2])@ == "joined "@
                + report.joined@[i]@,
{
    let said = views(lines@);
    assert(said.len() == lines@.len());
    assert(said[0] == lines@[0]@ && said[1] == lines@[1]@);
    assert forall|i: int| 0 <= i < report.joined@.len() implies (#[trigger] lines@[i + 2])@
        == "joined "@ + report.joined@[i]@ by {
        assert(said[i + 2] == lines@[i + 2]@);
        assert(views(report.joined@)[i] == report.joined@[i]@);
    }
}

/// A device counts as signed in what `cross-sign` ends with exactly where it is: where we made the
/// identity or hold its keys; and the reason is told where it is not.
pub proof fn law_cross_sign_ends_well_only_when_signed(
    report: &CrossSigningReport,
    text: String,
    outcome: Result<(), String>,
)
    requires
        call_ensures(cross_sign_outcome, (report,), outcome),
        call_ensures(cross_signing_text, (report,), text),
    ensures
        outcome is Ok <==> *report is Bootstrapped || *report is Present,
        *report matches CrossSigningReport::NeedsInteractiveAuth(why) ==> (outcome matches Err(t)
            && why@.is_suffix_of(t@)),
        *report matches CrossSigningReport::Incomplete(why) ==> {
            &&& outcome matches Err(t) && t@ == why@
            &&& why@.is_suffix_of(text@)
        },
{
    if let CrossSigningReport::NeedsInteractiveAuth(why) = *report {
        if let Err(t) = outcome {
            assert(t@.skip(t@.len() - why@.len()) =~= why@);
        }
    }
    if let CrossSigningReport::Incomplete(why) = *report {
        assert(text@.skip(text@.len() - why@.len()) =~= why@);
    }
}

/// An input that is not blank is imported as it is; a blank one, of white space alone, is not looked at.
pub proof fn law_import_command_imports(
    key: &StateKey,
    input: &[u8],
    asked: Result<Unpacked, ImportError>,
    imported: Result<Unpacked, StateError>,
)
    requires
        call_ensures(import_state, (key, input), asked),
        call_ensures(import, (key, input), imported),
    ensures
        (asked matches Err(e) && e is Empty) <==> forall|i: int|
            0 <= i < input@.len() ==> {
                let b = #[trigger] input@[i];
                b == 0x20 || b == 0x09 || b == 0x0a || b == 0x0c || b == 0x0d
            },
        asked matches Ok(u) ==> (imported matches Ok(v) && files_view(u.files@) == files_view(
            v.files@,
        ) && (u.outcome is Ok <==> v.outcome is Ok)),
        asked matches Err(ImportError::State(e)) ==> imported is Err,
{
}

/// A token is taken from its variable whole, but for white space around it; where the variable is not
/// set, or holds nothing else, it is named.
pub proof fn law_token_is_taken_from_its_variable(
    variable: &str,
    value: &str,
    inner: &str,
    token: Result<String, SecretError>,
    unset: Result<String, SecretError>,
)
    requires
        call_ensures(trim, (value,), inner),
        call_ensures(github_token, (variable, Some(value)), token),
        call_ensures(github_token, (variable, None::<&str>), unset),
    ensures
        token is Ok <==> inner@.len() > 0,
        token matches Ok(t) ==> t@ == inner@,
        token matches Err(e) ==> (e matches SecretError::TokenMissing { variable: v } && v@
            == variable@),
        unset matches Err(SecretError::TokenMissing { variable: v }) && v@ == variable@,
{
}

/// The two secrets are printed so that each line assigns one of them, whole: the key in the form that
/// it is parsed from again, and the archive as it was exported.
pub proof fn law_secrets_are_printed_whole(key: &StateKey, blob: &str, lines: Vec<String>)
    requires
        key@.len() == 32,
        call_ensures(secret_output, (key, blob), lines),
    ensures
        lines@.len() == 2,
        lines@[1]@ == "MATRIX_STATE="@ + blob@,
        exists|text: Seq<char>|
            lines@[0]@ == "MATRIX_STATE_KEY="@ + text && #[trigger] key_named(text) == KeyParse::Key(
                key@,
            ),
{
    let said = views(lines@);
    assert(said.len() == lines@.len());
    assert(said[0] == lines@[0]@ && said[1] == lines@[1]@);
    law_hex_round_trip(key@);
    lemma_trimmed_is_fixed(hex_text(key@));
    law_key_text_round_trip(key@, hex_text(key@));
    assert(key_named(hex_text(key@)) == KeyParse::Key(key@));
}

/// What `whoami` prints tells each thing that is known, whole: the address, the user, the device and
/// its name, whether it is signed and can sign, whether the server took the token, and every room.
pub proof fn law_whoami_is_told_in_full(w: &WhoAmI, rooms: String, lines: Vec<String>)
    requires
        call_ensures(whoami_lines, (w,), lines),
        call_ensures(join_texts, (&w.joined_rooms, ", "), rooms),
    ensures
        lines@.len() == 7,
        lines@[0]@ == "homeserver:    "@ + w.homeserver@,
        lines@[1]@ == "user:          "@ + w.user_id@,
        w.device_name matches Some(n) ==> lines@[2]@ == "device:        "@ + w.device_id@ + " ("@ + n@
            + ")"@,
        w.device_name is None ==> lines@[2]@ == "device:        "@ + w.device_id@ + " ("@
            + "no display name"@ + ")"@,
        w.cross_signed == Some(true) ==> lines@[3]@ == "cross-signed:  "@ + "yes"@,
        w.cross_signed == Some(false) ==> lines@[3]@ == "cross-signed:  "@ + "no"@,
        w.cross_signed is None ==> lines@[3]@ == "cross-signed:  "@ + "unknown"@,
        w.has_cross_signing_keys ==> lines@[4]@ == "signing keys:  "@ + "present"@,
        !w.has_cross_signing_keys ==> lines@[4]@ == "signing keys:  "@ + "absent"@,
        w.server_ok ==> lines@[5]@ == "server check:  "@ + "ok"@,
        !w.server_ok ==> lines@[5]@ == "server check:  "@ + "FAILED (token rejected?)"@,
        w.joined_rooms@.len() == 0 ==> lines@[6]@ == "rooms:         "@ + "-"@,
        w.joined_rooms@.len() > 0 ==> lines@[6]@ == "rooms:         "@ + rooms@,
{
    let said = views(lines@);
    assert(said.len() == lines@.len());
    assert(forall|i: int| 0 <= i < 7 ==> #[trigger] said[i] == lines@[i]@);
    assert(said[0] == lines@[0]@ && said[1] == lines@[1]@ && said[2] == lines@[2]@);
    assert(said[3] == lines@[3]@ && said[4] == lines@[4]@ && said[5] == lines@[5]@);
    assert(said[6] == lines@[6]@);
}

/// `whoami` ends well exactly where the server took the token.
pub proof fn law_whoami_ends_by_the_server(server_ok: bool, outcome: Result<(), &'static str>)
    requires
        call_ensures(whoami_outcome, (server_ok,), outcome),
    ensures
        outcome is Ok <==> server_ok,
{
}

/// A sent message is told with its event, its room, whether it is encrypted, and how many members and
/// devices it went to, each number in decimal digits.
pub proof fn law_sent_is_told_in_full(
    report: &SendReport,
    members: String,
    devices: String,
    text: String,
)
    requires
        call_ensures(decimal_text, (report.members as u64,), members),
        call_ensures(decimal_text, (report.recipients as u64,), devices),
        call_ensures(sent_text, (report,), text),
    ensures
        report.encrypted ==> text@ == "sent "@ + report.event_id@ + " to "@ + report.room_id@ + " ("@
            + "encrypted"@ + ", "@ + members@ + " members, "@ + devices@ + " devices)"@,
        !report.encrypted ==> text@ == "sent "@ + report.event_id@ + " to "@ + report.room_id@
            + " ("@ + "PLAINTEXT"@ + ", "@ + members@ + " members, "@ + devices@ + " devices)"@,
{
}

/// Every device is named after the repository it notifies for, where that is known.
pub proof fn law_device_is_named_after_its_repository(
    repository: &str,
    named: String,
    unnamed: String,
)
    requires
        call_ensures(default_device_name, (Some(repository),), named),
        call_ensures(default_device_name, (None::<&str>,), unnamed),
    ensures
        unnamed@ == "matrix-notify"@,
        repository@.len() == 0 ==> named@ == unnamed@,
        repository@.len() > 0 ==> named@ == unnamed@ + " ("@ + repository@ + ")"@,
{
    if repository@.len() > 0 {
        reveal_strlit("matrix-notify (");
        reveal_strlit("matrix-notify");
        reveal_strlit(" (");
        assert("matrix-notify ("@ =~= "matrix-notify"@ + " ("@);
    }
}

/// An error tells what is wrong with a request, and quotes the status or the format that is none.
pub proof fn law_compose_error_tells_why(error: &ComposeError, text: String)
    requires
        call_ensures(ComposeError::message, (error,), text),
    ensures
        match *error {
            ComposeError::StatusMissing => text@
                == "--format github-run needs --status success|failure|cancelled"@,
            ComposeError::StatusUnknown(s) => text@ == "unknown --status "@ + quoted(s@)
                + " (expected success|failure|cancelled)"@,
            ComposeError::RunUnknown => text@
                == "--format github-run needs GITHUB_REPOSITORY and GITHUB_RUN_ID in the environment"@,
            ComposeError::FormatUnknown(f) => text@ == "unknown --format "@ + quoted(f@),
            ComposeError::TextMissing => text@ == "--message is required"@,
            ComposeError::TextEmpty => text@ == "refusing to send an empty message"@,
        },
{
}

/// An error tells which credential is missing or empty, and which variable or value of a secret is.
pub proof fn law_credential_errors_tell_why(
    error: &CredentialError,
    secret: &SecretError,
    text: &'static str,
    told: String,
)
    requires
        call_ensures(CredentialError::message, (error,), text),
        call_ensures(SecretError::message, (secret,), told),
    ensures
        *error is UserMissing ==> text@ == "--user is required"@,
        *error is NoSource ==> text@
            == "provide the password with --password-stdin (or use --token-stdin)"@,
        *error is EmptyToken ==> text@ == "empty token on stdin"@,
        *error is EmptyPassword ==> text@ == "empty password on stdin"@,
        *secret matches SecretError::TokenMissing { variable } ==> told@ == "environment variable "@
            + variable@ + " is not set"@,
        *secret is ValueEmpty ==> told@ == "refusing to store an empty secret"@,
{
}

/// What is done is told with its numbers, in decimal digits, and the store it was done to.
pub proof fn law_outcomes_are_told_with_their_numbers(
    n: usize,
    seconds: u64,
    store: &str,
    number: String,
    time: String,
    exported: String,
    imported: String,
    late: String,
    nothing: String,
)
    requires
        call_ensures(decimal_text, (n as u64,), number),
        call_ensures(decimal_text, (seconds,), time),
        call_ensures(exported_text, (n,), exported),
        call_ensures(imported_text, (n, store), imported),
        call_ensures(send_timed_out, (seconds,), late),
        call_ensures(nothing_to_export, (store,), nothing),
    ensures
        exported@ == "exported "@ + number@ + " bytes of base64"@,
        imported@ == "imported "@ + number@ + " file(s) into "@ + store@,
        late@ == "send did not complete within "@ + time@ + "s"@,
        nothing@ == "nothing to export: "@ + store@ + " has no session"@,
{
}

/// How cross-signing stands is told with the reason and what to do about it.
pub proof fn law_cross_signing_is_told(report: &CrossSigningReport, text: String)
    requires
        call_ensures(cross_signing_text, (report,), text),
    ensures
        *report is Bootstrapped ==> text@ == "cross-signing: bootstrapped, device is self-signed"@,
        *report is Present ==> text@ == "cross-signing: already present, device is self-signed"@,
        *report matches CrossSigningReport::NeedsInteractiveAuth(why) ==> text@
            == "cross-signing: WARNING not bootstrapped: "@ + why@
            + "\n  Finish it with `matrix-notify cross-sign --password-stdin` on this store and re-export."@,
        *report matches CrossSigningReport::Incomplete(why) ==> text@ == "cross-signing: WARNING "@
            + why@,
{
}

/// The two secrets are introduced by whether the key is new, and by how long the archive is.
pub proof fn law_secrets_are_introduced(
    generated_key: bool,
    blob_len: usize,
    number: String,
    lines: Vec<String>,
)
    requires
        call_ensures(decimal_text, (blob_len as u64,), number),
        call_ensures(secrets_lines, (generated_key, blob_len), lines),
    ensures
        lines@.len() == 6,
        generated_key ==> lines@[3]@ == "  MATRIX_STATE_KEY   (new key, keep it safe)"@,
        !generated_key ==> lines@[3]@ == "  MATRIX_STATE_KEY   (the key you provided)"@,
        lines@[4]@ == "  MATRIX_STATE       ("@ + number@ + " bytes of base64)"@,
{
    let said = views(lines@);
    assert(said.len() == lines@.len());
    assert(said[3] == lines@[3]@ && said[4] == lines@[4]@);
}

/// One argument stands for a standard stream, and what goes to an output is the text and a line feed.
pub proof fn law_outputs_end_in_a_line_feed(argument: &str, is: bool, text: &str, line: String)
    requires
        call_ensures(is_standard_stream, (argument,), is),
        call_ensures(output_line, (text,), line),
    ensures
        is <==> argument@ == "-"@,
        line@ == text@ + seq!['\n'],
{
    reveal_strlit("\n");
    assert("\n"@ =~= seq!['\n']);
}

} // verus!
