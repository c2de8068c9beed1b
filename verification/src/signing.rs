//! Cross-signing: whether the account's published identity is ours, and the way to one that is.

use vstd::prelude::*;
use vstd::string::*;

use crate::matrix::CrossSigningReport;
use crate::text::{opt_view, same_option, same_text, str_views};

verus! {

/// How long the upload of an identity may take, in seconds: the SDK polls for up to two minutes
/// when a stage of interactive auth other than the password is outstanding.
pub const UPLOAD_LIMIT_SECS: u64 = 90;

/// What the server currently publishes for our own account.
#[derive(Debug)]
pub struct ServerKeys {
    /// Base64 of the master key, if the account has a cross-signing identity.
    pub master_key: Option<String>,
    /// Whether this device's keys carry a signature by the self-signing key.
    pub device_signed: bool,
}

/// Why a text is no JSON.
#[verifier::external_type_specification]
#[verifier::external_body]
pub struct ExJsonError(serde_json::Error);

/// What a JSON text holds at a path: nothing where the text is no JSON, and otherwise the members of
/// the object there, where there is one, each with its text, where it is one.
pub uninterp spec fn json_object(text: Seq<char>, path: Seq<Seq<char>>) -> Option<
    Option<Seq<(Seq<char>, Option<Seq<char>>)>>,
>;

/// A member of a JSON object: its name, and its text, where it is one.
pub type Member = (String, Option<String>);

/// The names and the texts of members.
pub open spec fn member_views(members: Seq<Member>) -> Seq<(Seq<char>, Option<Seq<char>>)> {
    members.map_values(|m: Member| (m.0@, opt_view(m.1)))
}

/// The members of an object, where there is one.
pub open spec fn opt_members(members: Option<Vec<Member>>) -> Option<
    Seq<(Seq<char>, Option<Seq<char>>)>,
> {
    match members {
        Some(m) => Some(member_views(m@)),
        None => None,
    }
}

/// `serde_json::from_str` to a `Value`, indexed by each step of the path in turn: the members of the
/// object that is found. They are named, not described. Nothing is said of what is inside an error.
#[verifier::external_body]
fn read_json_object(text: &str, path: &[&str]) -> (object: Result<
    Option<Vec<Member>>,
    serde_json::Error,
>)
    ensures
        match object {
            Ok(members) => json_object(text@, str_views(path@)) == Some(opt_members(members)),
            Err(_) => json_object(text@, str_views(path@)) is None,
        },
{
    let value: serde_json::Value = serde_json::from_str(text)?;
    let found = path.iter().fold(&value, |v, step| &v[*step]).as_object();
    let plain = |(k, v): (&String, &serde_json::Value)| (k.clone(), v.as_str().map(str::to_owned));
    Ok(found.map(|object| object.iter().map(plain).collect()))
}

/// The first of the keys in a published cross-signing key: the first member of its `keys` object,
/// where that is a text.
pub open spec fn first_of(members: Option<Seq<(Seq<char>, Option<Seq<char>>)>>) -> Option<
    Seq<char>,
> {
    match members {
        Some(m) => if m.len() > 0 {
            m[0].1
        } else {
            None
        },
        None => None,
    }
}

/// The first of the keys in a published cross-signing key.
pub fn first_member(members: &Option<Vec<Member>>) -> (key: Option<String>)
    ensures
        opt_view(key) == first_of(opt_members(*members)),
{
    match members {
        Some(m) => {
            if m.len() > 0 {
                assert(member_views(m@)[0] == (m@[0].0@, opt_view(m@[0].1)));
                match &m[0].1 {
                    Some(text) => Some(text.clone()),
                    None => None,
                }
            } else {
                None
            }
        },
        None => None,
    }
}

/// One of the members has the given name.
pub open spec fn is_among(members: Seq<(Seq<char>, Option<Seq<char>>)>, name: Seq<char>) -> bool {
    exists|i: int| 0 <= i < members.len() && (#[trigger] members[i]).0 == name
}

/// A member with the given name is there.
pub open spec fn has_member(
    members: Option<Seq<(Seq<char>, Option<Seq<char>>)>>,
    name: Seq<char>,
) -> bool {
    match members {
        Some(m) => is_among(m, name),
        None => false,
    }
}

/// Whether a member with the given name is there.
pub fn contains_member(members: &Option<Vec<Member>>, name: &str) -> (found: bool)
    ensures
        found == has_member(opt_members(*members), name@),
{
    match members {
        Some(m) => {
            let ghost all = member_views(m@);
            let mut i: usize = 0;
            while i < m.len()
                invariant
                    i <= m.len(),
                    opt_members(*members) == Some(all),
                    all == member_views(m@),
                    forall|k: int| 0 <= k < i ==> (#[trigger] all[k]).0 != name@,
                decreases m.len() - i,
            {
                assert(all[i as int].0 == m@[i as int].0@);
                if same_text(m[i].0.as_str(), name) {
                    assert(is_among(all, name@));
                    return true;
                }
                i = i + 1;
            }
            false
        },
        None => false,
    }
}

/// What the server answered for our own user, as JSON texts.
pub struct KeysAnswer {
    /// The master key, where there is one.
    pub master: Option<String>,
    /// The self-signing key, where there is one.
    pub self_signing: Option<String>,
    /// This device's keys, where the server knows it.
    pub device: Option<String>,
}

/// The first key in an optional JSON text of a cross-signing key; nothing where the text is no JSON.
pub open spec fn published_key(text: Option<String>) -> Option<Option<Seq<char>>> {
    match text {
        Some(t) => match json_object(t@, seq!["keys"@]) {
            Some(members) => Some(first_of(members)),
            None => None,
        },
        None => Some(None),
    }
}

/// What the answer says of this device; nothing where it holds a text that is no JSON. The device's
/// keys are read only where there is a self-signing key.
pub open spec fn signed_in_answer(answer: KeysAnswer, user_id: Seq<char>) -> Option<bool> {
    match (published_key(answer.self_signing), answer.device) {
        (None, _) => None,
        (Some(Some(key)), Some(device)) => match json_object(
            device@,
            seq!["signatures"@, user_id],
        ) {
            Some(members) => Some(has_member(members, "ed25519:"@ + key)),
            None => None,
        },
        _ => Some(false),
    }
}

fn read_key(text: &Option<String>) -> (key: Result<Option<String>, serde_json::Error>)
    ensures
        match key {
            Ok(k) => published_key(*text) == Some(opt_view(k)),
            Err(_) => published_key(*text) is None,
        },
{
    match text {
        Some(t) => {
            let path = ["keys"];
            assert(str_views(path@) =~= seq!["keys"@]);
            match read_json_object(t.as_str(), path.as_slice()) {
                Ok(members) => Ok(first_member(&members)),
                Err(e) => Err(e),
            }
        },
        None => Ok(None),
    }
}

impl ServerKeys {
    /// Reads what the server answered for our own user. The SDK's identity cache is not
    /// authoritative here: it persists a freshly generated identity before uploading it, and it
    /// silently drops an identity it could not validate, so "nothing in the cache" can mean either.
    pub fn read(answer: &KeysAnswer, user_id: &str) -> (keys: Result<Self, serde_json::Error>)
        ensures
            match keys {
                Ok(k) => {
                    &&& published_key(answer.master) == Some(opt_view(k.master_key))
                    &&& signed_in_answer(*answer, user_id@) == Some(k.device_signed)
                },
                Err(_) => published_key(answer.master) is None || signed_in_answer(
                    *answer,
                    user_id@,
                ) is None,
            },
    {
        let master_key = match read_key(&answer.master) {
            Ok(k) => k,
            Err(e) => return Err(e),
        };
        let self_signing = match read_key(&answer.self_signing) {
            Ok(k) => k,
            Err(e) => return Err(e),
        };
        let device_signed = match (&self_signing, &answer.device) {
            (Some(key), Some(device)) => {
                let path = ["signatures", user_id];
                assert(str_views(path@) =~= seq!["signatures"@, user_id@]);
                match read_json_object(device.as_str(), path.as_slice()) {
                    Ok(members) => {
                        let mut id = "ed25519:".to_owned();
                        id.append(key.as_str());
                        contains_member(&members, id.as_str())
                    },
                    Err(e) => return Err(e),
                }
            },
            _ => false,
        };
        Ok(ServerKeys { master_key, device_signed })
    }
}

/// A user and their password, for interactive auth.
#[derive(Clone)]
pub struct Login {
    pub user: String,
    pub password: String,
}

/// How the server wants a replacement of the identity approved.
#[derive(Debug)]
pub enum ResetAuth {
    /// By interactive auth, in the given session.
    Interactive { session: Option<String> },
    /// Through its OAuth provider.
    OAuth,
}

/// What is to be done next to upload (or replace) the cross-signing identity and sign this device.
pub enum UploadStep {
    /// Start replacing the identity.
    Reset,
    /// Replace the identity, answering interactive auth with the password.
    ResetWithPassword { login: Login, session: Option<String> },
    /// Upload an identity.
    Bootstrap,
    /// Upload an identity, answering interactive auth with the password.
    BootstrapWithPassword { login: Login, session: Option<String> },
    /// Done, or why we could not satisfy the server.
    Finished { why_not: Option<String> },
}

/// What happened when a step was carried out.
#[derive(Debug)]
pub enum UploadEvent {
    /// It went through.
    Accepted,
    /// The server wants the replacement approved.
    ApprovalWanted(ResetAuth),
    /// The server wants interactive auth for the upload, in the given session.
    AuthWanted { session: Option<String> },
    /// It was refused.
    Failed { error: String },
}

/// Why an identity was not replaced where there is no password.
pub open spec fn no_password_to_replace() -> Seq<char> {
    "server requires interactive auth to replace cross-signing keys; a password is needed"@
}

/// Why an identity was not uploaded where there is no password.
pub open spec fn no_password_to_upload() -> Seq<char> {
    "server requires interactive auth to upload cross-signing keys; a password is needed"@
}

/// Why an identity was not replaced where the server has it approved elsewhere.
pub open spec fn approval_elsewhere() -> Seq<char> {
    "server requires approval through its OAuth provider; do that from a browser session"@
}

/// The step is the end, with the given text.
pub open spec fn finished_with(step: UploadStep, why_not: Seq<char>) -> bool {
    step matches UploadStep::Finished { why_not: Some(w) } && w@ == why_not
}

/// The step that follows a step when an event answers it. An event that does not answer the step
/// changes nothing.
pub open spec fn upload_leads_to(
    step: UploadStep,
    login: Option<Login>,
    event: UploadEvent,
    next: UploadStep,
) -> bool {
    match (step, event) {
        (UploadStep::Finished { .. }, _) => next == step,
        (_, UploadEvent::Accepted) => next == (UploadStep::Finished { why_not: None }),
        (UploadStep::Reset, UploadEvent::ApprovalWanted(auth)) => match (login, auth) {
            (None, _) => finished_with(next, no_password_to_replace()),
            (Some(l), ResetAuth::Interactive { session }) => next == (
            UploadStep::ResetWithPassword { login: l, session }),
            (Some(_), ResetAuth::OAuth) => finished_with(next, approval_elsewhere()),
        },
        (UploadStep::Bootstrap, UploadEvent::AuthWanted { session }) => match login {
            None => finished_with(next, no_password_to_upload()),
            Some(l) => next == (UploadStep::BootstrapWithPassword { login: l, session }),
        },
        (UploadStep::ResetWithPassword { .. }, UploadEvent::Failed { error }) => next == (
        UploadStep::Finished { why_not: Some(error) }),
        (UploadStep::BootstrapWithPassword { .. }, UploadEvent::Failed { error }) => next == (
        UploadStep::Finished { why_not: Some(error) }),
        _ => next == step,
    }
}

impl UploadStep {
    /// The first step.
    pub fn first(reset: bool) -> (step: Self)
        ensures
            step == if reset {
                UploadStep::Reset
            } else {
                UploadStep::Bootstrap
            },
    {
        if reset {
            UploadStep::Reset
        } else {
            UploadStep::Bootstrap
        }
    }

    /// The step that follows this one when `event` answers it. `login` is what interactive auth can
    /// be answered with.
    pub fn next(self, login: Option<Login>, event: UploadEvent) -> (step: Self)
        ensures
            upload_leads_to(self, login, event, step),
    {
        match (self, event) {
            (UploadStep::Finished { why_not }, _) => UploadStep::Finished { why_not },
            (_, UploadEvent::Accepted) => UploadStep::Finished { why_not: None },
            (UploadStep::Reset, UploadEvent::ApprovalWanted(auth)) => match (login, auth) {
                (None, _) => UploadStep::Finished {
                    why_not: Some(
                        "server requires interactive auth to replace cross-signing keys; a password is needed".to_owned(),
                    ),
                },
                (Some(l), ResetAuth::Interactive { session }) => UploadStep::ResetWithPassword {
                    login: l,
                    session,
                },
                (Some(_), ResetAuth::OAuth) => UploadStep::Finished {
                    why_not: Some(
                        "server requires approval through its OAuth provider; do that from a browser session".to_owned(),
                    ),
                },
            },
            (UploadStep::Bootstrap, UploadEvent::AuthWanted { session }) => match login {
                None => UploadStep::Finished {
                    why_not: Some(
                        "server requires interactive auth to upload cross-signing keys; a password is needed".to_owned(),
                    ),
                },
                Some(l) => UploadStep::BootstrapWithPassword { login: l, session },
            },
            (
                UploadStep::ResetWithPassword { .. },
                UploadEvent::Failed { error },
            ) => UploadStep::Finished { why_not: Some(error) },
            (
                UploadStep::BootstrapWithPassword { .. },
                UploadEvent::Failed { error },
            ) => UploadStep::Finished { why_not: Some(error) },
            (step, _) => step,
        }
    }
}

/// The password goes to the server only where the server asked for interactive auth: no other event
/// leads to a step that holds it.
pub proof fn law_password_only_when_asked(
    step: UploadStep,
    login: Option<Login>,
    event: UploadEvent,
    next: UploadStep,
)
    requires
        upload_leads_to(step, login, event, next),
        step is Reset || step is Bootstrap,
        next is ResetWithPassword || next is BootstrapWithPassword,
    ensures
        login is Some,
        event is AuthWanted || (event matches UploadEvent::ApprovalWanted(auth)
            && auth is Interactive),
{
}

/// What this store holds of our identity.
#[derive(Debug)]
pub struct LocalKeys {
    /// Whether the private master and self-signing keys are here.
    pub have_private: bool,
    /// Base64 of the master key.
    pub master_key: Option<String>,
}

/// What is to be done next to set up cross-signing.
#[derive(Debug)]
pub enum SigningStep {
    /// Ask the server what it publishes. Fail closed: no server answer, no decision.
    QueryServer,
    /// Read what this store holds.
    ReadLocal { server: ServerKeys },
    /// Upload the identity and sign this device.
    Upload,
    /// Ask the server what it publishes now: the postcondition is on the server, not on what we
    /// sent.
    QueryServerAgain,
    /// Read what this store holds now.
    ReadLocalAgain { server: ServerKeys },
    /// Done.
    Report(CrossSigningReport),
}

/// What happened when a step was carried out.
#[derive(Debug)]
pub enum SigningEvent {
    Server(ServerKeys),
    Local(LocalKeys),
    /// The upload went through, or why it did not.
    Uploaded { why_not: Option<String> },
}

/// The published identity is ours: we hold the private keys for exactly that master key.
pub open spec fn is_ours(server: ServerKeys, local: LocalKeys) -> bool {
    &&& server.master_key is Some
    &&& local.have_private
    &&& opt_view(local.master_key) == opt_view(server.master_key)
}

/// What to do about an identity before anything is uploaded: nothing where it is not ours, or where
/// it is and has signed this device; an upload where there is none, where it is to be replaced, or
/// where it is ours but the signature never reached the server.
pub open spec fn before_upload(server: ServerKeys, local: LocalKeys, reset: bool) -> SigningStep {
    if server.master_key is None || reset {
        SigningStep::Upload
    } else if !is_ours(server, local) {
        SigningStep::Report(CrossSigningReport::NotSignedByExistingIdentity)
    } else if server.device_signed {
        SigningStep::Report(CrossSigningReport::Present)
    } else {
        SigningStep::Upload
    }
}

/// How cross-signing stands after an upload.
pub open spec fn after_upload(
    server: ServerKeys,
    local: LocalKeys,
    report: CrossSigningReport,
) -> bool {
    match server.master_key {
        Some(key) => if !server.device_signed {
            report matches CrossSigningReport::Incomplete(w) && w@
                == "keys uploaded but the server shows no signature on this device"@
        } else if opt_view(local.master_key) == Some(key@) {
            report == CrossSigningReport::Bootstrapped
        } else {
            report matches CrossSigningReport::Incomplete(w) && w@
                == "server publishes master key "@ + key@
                + " but this store holds different private keys"@
        },
        None => report matches CrossSigningReport::Incomplete(w) && w@
            == "server shows no cross-signing identity after upload"@,
    }
}

/// The step that follows a step when an event answers it. An event that does not answer the step
/// changes nothing.
pub open spec fn signing_leads_to(
    step: SigningStep,
    reset: bool,
    event: SigningEvent,
    next: SigningStep,
) -> bool {
    match (step, event) {
        (SigningStep::QueryServer, SigningEvent::Server(server)) => next == (
        SigningStep::ReadLocal { server }),
        (SigningStep::ReadLocal { server }, SigningEvent::Local(local)) => next == before_upload(
            server,
            local,
            reset,
        ),
        (SigningStep::Upload, SigningEvent::Uploaded { why_not }) => next == match why_not {
            Some(why) => SigningStep::Report(CrossSigningReport::NeedsInteractiveAuth(why)),
            None => SigningStep::QueryServerAgain,
        },
        (SigningStep::QueryServerAgain, SigningEvent::Server(server)) => next == (
        SigningStep::ReadLocalAgain { server }),
        (SigningStep::ReadLocalAgain { server }, SigningEvent::Local(local)) => {
            next matches SigningStep::Report(report) && after_upload(server, local, report)
        },
        _ => next == step,
    }
}

impl SigningStep {
    /// The first step.
    pub fn first() -> (step: Self)
        ensures
            step == SigningStep::QueryServer,
    {
        SigningStep::QueryServer
    }

    /// The step that follows this one when `event` answers it. With `reset`, a published identity is
    /// replaced.
    pub fn next(self, reset: bool, event: SigningEvent) -> (step: Self)
        ensures
            signing_leads_to(self, reset, event, step),
    {
        match (self, event) {
            (SigningStep::QueryServer, SigningEvent::Server(server)) => SigningStep::ReadLocal {
                server,
            },
            (SigningStep::ReadLocal { server }, SigningEvent::Local(local)) => {
                if server.master_key.is_none() || reset {
                    SigningStep::Upload
                } else if !(local.have_private && same_option(
                    &local.master_key,
                    &server.master_key,
                )) {
                    SigningStep::Report(CrossSigningReport::NotSignedByExistingIdentity)
                } else if server.device_signed {
                    SigningStep::Report(CrossSigningReport::Present)
                } else {
                    SigningStep::Upload
                }
            },
            (SigningStep::Upload, SigningEvent::Uploaded { why_not }) => match why_not {
                Some(why) => SigningStep::Report(CrossSigningReport::NeedsInteractiveAuth(why)),
                None => SigningStep::QueryServerAgain,
            },
            (
                SigningStep::QueryServerAgain,
                SigningEvent::Server(server),
            ) => SigningStep::ReadLocalAgain { server },
            (SigningStep::ReadLocalAgain { server }, SigningEvent::Local(local)) => {
                let ours = same_option(&local.master_key, &server.master_key);
                let report = match server.master_key {
                    Some(key) => {
                        if !server.device_signed {
                            CrossSigningReport::Incomplete(
                                "keys uploaded but the server shows no signature on this device".to_owned(),
                            )
                        } else if ours {
                            CrossSigningReport::Bootstrapped
                        } else {
                            let mut why = "server publishes master key ".to_owned();
                            why.append(key.as_str());
                            why.append(" but this store holds different private keys");
                            CrossSigningReport::Incomplete(why)
                        }
                    },
                    None => CrossSigningReport::Incomplete(
                        "server shows no cross-signing identity after upload".to_owned(),
                    ),
                };
                SigningStep::Report(report)
            },
            (step, _) => step,
        }
    }
}

/// An identity that was created elsewhere is reported, not replaced: unless a reset was asked for,
/// nothing is uploaded for an account whose published identity is not ours.
pub proof fn law_foreign_identity_is_kept(
    server: ServerKeys,
    local: LocalKeys,
    next: SigningStep,
)
    requires
        server.master_key is Some,
        !is_ours(server, local),
        signing_leads_to(
            SigningStep::ReadLocal { server },
            false,
            SigningEvent::Local(local),
            next,
        ),
    ensures
        next == SigningStep::Report(CrossSigningReport::NotSignedByExistingIdentity),
{
}

/// A device is reported as signed only where the server shows its signature and publishes the
/// master key that this store holds.
pub proof fn law_signed_is_seen_on_the_server(
    step: SigningStep,
    reset: bool,
    event: SigningEvent,
    next: SigningStep,
)
    requires
        signing_leads_to(step, reset, event, next),
        !(step is Report),
        next == SigningStep::Report(CrossSigningReport::Bootstrapped) || next
            == SigningStep::Report(CrossSigningReport::Present),
    ensures
        match (step, event) {
            (SigningStep::ReadLocal { server }, SigningEvent::Local(local)) => {
                server.device_signed && is_ours(server, local)
            },
            (SigningStep::ReadLocalAgain { server }, SigningEvent::Local(local)) => {
                server.device_signed && server.master_key is Some && opt_view(local.master_key)
                    == opt_view(server.master_key)
            },
            _ => false,
        },
{
}

/// Interactive auth is answered in the session that the server opened for it, with the login that was
/// given, for a replacement as for a first upload: no other way leads to a step with the password, and
/// with a login every demand that a password can satisfy leads to one.
pub proof fn law_password_answers_the_servers_session(
    step: UploadStep,
    login: Option<Login>,
    event: UploadEvent,
    next: UploadStep,
)
    requires
        call_ensures(UploadStep::next, (step, login, event), next),
    ensures
        next matches UploadStep::ResetWithPassword { login: l, session } ==> step == next || (step
            is Reset && login == Some(l) && (event matches UploadEvent::ApprovalWanted(auth)
            && auth == (ResetAuth::Interactive { session }))),
        next matches UploadStep::BootstrapWithPassword { login: l, session } ==> step == next || (
        step is Bootstrap && login == Some(l) && event == (UploadEvent::AuthWanted { session })),
        step is Reset && login is Some && (event matches UploadEvent::ApprovalWanted(auth) && auth
            is Interactive) ==> next is ResetWithPassword,
        step is Bootstrap && login is Some && event is AuthWanted ==> next
            is BootstrapWithPassword,
{
}

/// An upload ends well exactly where the server accepted it, and otherwise says why it did not: with
/// the server's own words where it refused the password, and by what is missing where it could not be
/// asked for. Once it has ended, nothing changes that.
pub proof fn law_upload_ends_as_the_server_says(
    step: UploadStep,
    login: Option<Login>,
    event: UploadEvent,
    next: UploadStep,
)
    requires
        call_ensures(UploadStep::next, (step, login, event), next),
    ensures
        step is Finished ==> next == step,
        !(step is Finished) ==> (next == (UploadStep::Finished { why_not: None }) <==> event
            is Accepted),
        step is ResetWithPassword || step is BootstrapWithPassword ==> (
        event matches UploadEvent::Failed { error } ==> next == (UploadStep::Finished {
            why_not: Some(error),
        })),
        step is Reset && login is None && event is ApprovalWanted ==> finishes_for_want_of_password(
            next,
        ),
        step is Bootstrap && login is None && event is AuthWanted ==> finishes_for_want_of_password(
            next,
        ),
        step is Reset && login is Some && (event matches UploadEvent::ApprovalWanted(auth) && auth
            is OAuth) ==> (next matches UploadStep::Finished { why_not: Some(w) } && w@
            == "server requires approval through its OAuth provider; do that from a browser session"@),
        !(step is Finished) && !(event is Accepted) && next is Finished ==> {
            ||| event is Failed && (step is ResetWithPassword || step is BootstrapWithPassword)
            ||| event is ApprovalWanted && step is Reset
            ||| event is AuthWanted && step is Bootstrap
        },
{
}

/// The step is the end, and tells that a password is needed.
pub open spec fn finishes_for_want_of_password(step: UploadStep) -> bool {
    step matches UploadStep::Finished { why_not: Some(w) } && (w@
        == "server requires interactive auth to replace cross-signing keys; a password is needed"@
        || w@
        == "server requires interactive auth to upload cross-signing keys; a password is needed"@)
}

/// An identity is replaced exactly where that was asked for.
pub proof fn law_upload_replaces_only_on_demand(reset: bool, step: UploadStep)
    requires
        call_ensures(UploadStep::first, (reset,), step),
    ensures
        step is Reset <==> reset,
        step is Bootstrap <==> !reset,
{
}

/// Before anything is uploaded, the server and the store decide: nothing is uploaded where the account
/// has an identity, no reset was asked for, and the identity is another's or has signed this device
/// already; and otherwise the upload takes place. An identity is another's unless the store holds the
/// private keys of the very master key that the server publishes.
pub proof fn law_upload_takes_place_where_it_must(
    server: ServerKeys,
    local: LocalKeys,
    reset: bool,
    next: SigningStep,
)
    requires
        call_ensures(
            SigningStep::next,
            (SigningStep::ReadLocal { server }, reset, SigningEvent::Local(local)),
            next,
        ),
    ensures
        reset || server.master_key is None ==> next == SigningStep::Upload,
        !reset ==> match (server.master_key, local.master_key) {
            (Some(published), Some(held)) => if local.have_private && held@ == published@ {
                if server.device_signed {
                    next == SigningStep::Report(CrossSigningReport::Present)
                } else {
                    next == SigningStep::Upload
                }
            } else {
                next == SigningStep::Report(CrossSigningReport::NotSignedByExistingIdentity)
            },
            (Some(_), None) => next == SigningStep::Report(
                CrossSigningReport::NotSignedByExistingIdentity,
            ),
            (None, _) => true,
        },
{
}

/// After an upload, cross-signing counts as set up exactly where the server shows this device's
/// signature and publishes the master key that the store holds. An upload that the server did not
/// accept is reported with the reason, and the server is asked again after one that it did.
pub proof fn law_upload_is_seen_on_the_server(
    server: ServerKeys,
    local: LocalKeys,
    why_not: Option<String>,
    reset: bool,
    uploaded: SigningStep,
    next: SigningStep,
)
    requires
        call_ensures(
            SigningStep::next,
            (SigningStep::Upload, reset, SigningEvent::Uploaded { why_not }),
            uploaded,
        ),
        call_ensures(
            SigningStep::next,
            (SigningStep::ReadLocalAgain { server }, reset, SigningEvent::Local(local)),
            next,
        ),
    ensures
        match why_not {
            Some(why) => uploaded == SigningStep::Report(
                CrossSigningReport::NeedsInteractiveAuth(why),
            ),
            None => uploaded == SigningStep::QueryServerAgain,
        },
        next == SigningStep::Report(CrossSigningReport::Bootstrapped) <==> {
            &&& server.device_signed
            &&& server.master_key matches Some(published) && local.master_key matches Some(held)
                && held@ == published@
        },
        next is Report,
        next != SigningStep::Report(CrossSigningReport::Bootstrapped) ==> (
        next matches SigningStep::Report(CrossSigningReport::Incomplete(w)) && {
            &&& server.master_key is None <==> w@
                == "server shows no cross-signing identity after upload"@
            &&& server.master_key is Some && !server.device_signed ==> w@
                == "keys uploaded but the server shows no signature on this device"@
        }),
{
    reveal_strlit("server shows no cross-signing identity after upload");
    reveal_strlit("keys uploaded but the server shows no signature on this device");
    reveal_strlit("server publishes master key ");
    if let SigningStep::Report(CrossSigningReport::Incomplete(w)) = next {
        assert("server shows no cross-signing identity after upload"@[7] == 's');
        assert("server publishes master key "@[7] == 'p');
        assert("keys uploaded but the server shows no signature on this device"@[0] == 'k');
        if server.master_key is Some && server.device_signed {
            assert(w@[7] == 'p');
        }
    }
}

/// The event is what comes of carrying out the step.
pub open spec fn signing_answers(event: SigningEvent, step: SigningStep) -> bool {
    match step {
        SigningStep::QueryServer => event is Server,
        SigningStep::ReadLocal { .. } => event is Local,
        SigningStep::Upload => event is Uploaded,
        SigningStep::QueryServerAgain => event is Server,
        SigningStep::ReadLocalAgain { .. } => event is Local,
        SigningStep::Report(_) => false,
    }
}

/// What the server publishes is judged together with what the store holds, before and after an upload;
/// an event that answers no step changes nothing, and a report is final.
pub proof fn law_signing_asks_before_it_decides(
    step: SigningStep,
    reset: bool,
    event: SigningEvent,
    next: SigningStep,
)
    requires
        call_ensures(SigningStep::next, (step, reset, event), next),
    ensures
        !signing_answers(event, step) ==> next == step,
        step is Report ==> next == step,
        step is QueryServer ==> (event matches SigningEvent::Server(server) ==> next == (
        SigningStep::ReadLocal { server })),
        step is QueryServerAgain ==> (event matches SigningEvent::Server(server) ==> next == (
        SigningStep::ReadLocalAgain { server })),
        next is Upload ==> step is Upload || (step is ReadLocal && event is Local),
{
}

/// The text of a member.
pub open spec fn first_text(members: Seq<(Seq<char>, Option<Seq<char>>)>) -> Option<Seq<char>> {
    if members.len() == 0 {
        None
    } else {
        members[0].1
    }
}

/// The published master key is the first one that the answer lists among the keys of the master key,
/// and there is none where the answer has no master key.
pub proof fn law_master_key_is_read_from_the_answer(
    answer: &KeysAnswer,
    user_id: &str,
    keys: ServerKeys,
)
    requires
        call_ensures(ServerKeys::read, (answer, user_id), Ok::<ServerKeys, serde_json::Error>(keys)),
    ensures
        answer.master is None ==> keys.master_key is None,
        answer.master matches Some(text) ==> match json_object(text@, seq!["keys"@]) {
            Some(Some(members)) => opt_view(keys.master_key) == first_text(members),
            Some(None) => keys.master_key is None,
            None => false,
        },
{
}

/// This device counts as signed exactly where the answer has a self-signing key and the device, and
/// the device's signatures by our own user include one by that key.
pub proof fn law_signature_is_read_from_the_answer(
    answer: &KeysAnswer,
    user_id: &str,
    keys: ServerKeys,
)
    requires
        call_ensures(ServerKeys::read, (answer, user_id), Ok::<ServerKeys, serde_json::Error>(keys)),
    ensures
        keys.device_signed <==> {
            &&& answer.self_signing matches Some(s) && answer.device matches Some(d)
                && json_object(s@, seq!["keys"@]) matches Some(Some(published))
                && first_text(published) matches Some(key)
                && json_object(d@, seq!["signatures"@, user_id@]) matches Some(Some(signatures))
                && exists|i: int|
                0 <= i < signatures.len() && (#[trigger] signatures[i]).0 == "ed25519:"@ + key
        },
{
}

/// Nothing is decided about an identity before the server was asked; and an upload may take a minute
/// and a half, less than the SDK would poll for.
pub proof fn law_signing_starts_with_the_server(step: SigningStep)
    requires
        call_ensures(SigningStep::first, (), step),
    ensures
        step is QueryServer,
        UPLOAD_LIMIT_SECS == 90,
{
}

/// An answer is read wherever it is JSON: it is refused only where the master key, the self-signing key,
/// or the device's keys, where they are looked at, are no JSON.
pub proof fn law_answer_is_refused_only_for_its_json(
    answer: &KeysAnswer,
    user_id: &str,
    keys: Result<ServerKeys, serde_json::Error>,
)
    requires
        call_ensures(ServerKeys::read, (answer, user_id), keys),
    ensures
        keys is Err ==> {
            ||| answer.master matches Some(m) && json_object(m@, seq!["keys"@]) is None
            ||| answer.self_signing matches Some(s) && json_object(s@, seq!["keys"@]) is None
            ||| answer.device matches Some(d) && json_object(d@, seq!["signatures"@, user_id@])
                is None
        },
        answer.master matches Some(m) && json_object(m@, seq!["keys"@]) is None ==> keys is Err,
        answer.self_signing matches Some(s) && json_object(s@, seq!["keys"@]) is None ==> keys
            is Err,
{
}

} // verus!
