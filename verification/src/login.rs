//! First-time setup: create (or adopt) the device, save the session, upload keys, bootstrap
//! cross-signing and join rooms.

use vstd::prelude::*;
use vstd::string::*;

use crate::matrix::{Credentials, CrossSigningReport, LoginOptions, LoginReport};
use crate::signing::Login;
use crate::store::Session;
use crate::text::{first_chars, take_chars};

verus! {

/// How long a request may take at login, in seconds.
pub const LOGIN_TIMEOUT_SECS: u64 = 60;

/// Where the homeserver says whose token it is, below its address.
pub const WHOAMI_PATH: &'static str = "_matrix/client/v3/account/whoami";

/// Why a text is no URL.
#[verifier::external_type_specification]
#[verifier::external_body]
pub struct ExUrlError(url::ParseError);

/// The URL that a reference stands for, as seen from a base URL; nothing where either is not valid.
pub uninterp spec fn url_joined(base: Seq<char>, reference: Seq<char>) -> Option<Seq<char>>;

/// `url::Url::parse` and `join`: the URL that `reference` stands for, as seen from `base`. It is
/// named, not described. Nothing is said of what is inside an error.
#[verifier::external_body]
fn join_url(base: &str, reference: &str) -> (url: Result<String, url::ParseError>)
    ensures
        match url {
            Ok(u) => url_joined(base@, reference@) == Some(u@),
            Err(_) => url_joined(base@, reference@) is None,
        },
{
    Ok(url::Url::parse(base)?.join(reference)?.into())
}

/// Where to ask the homeserver whose token it is.
pub fn whoami_url(homeserver: &str) -> (url: Result<String, url::ParseError>)
    ensures
        match url {
            Ok(u) => url_joined(homeserver@, WHOAMI_PATH@) == Some(u@),
            Err(_) => url_joined(homeserver@, WHOAMI_PATH@) is None,
        },
{
    join_url(homeserver, WHOAMI_PATH)
}

/// How much of the answer to a rejected token is shown, in characters.
pub const REJECTION_CHARS: usize = 200;

/// What to tell the user of a token that the homeserver rejected.
pub fn token_rejected(status: &str, body: &str) -> (text: String)
    ensures
        text@ == "token rejected by homeserver ("@ + status@ + "): "@ + first_chars(
            body@,
            REJECTION_CHARS as nat,
        ),
{
    let mut text = "token rejected by homeserver (".to_owned();
    text.append(status);
    text.append("): ");
    text.append(take_chars(body, REJECTION_CHARS).as_str());
    text
}

/// Why there is no login.
#[derive(Debug)]
pub enum LoginRefusal {
    /// The store, whose path follows, already holds a session.
    HasSession { store: String },
    /// The token belongs to no device.
    TokenWithoutDevice,
    /// The client does not know who it is.
    NoUserId,
    /// The client does not know which device it is.
    NoDeviceId,
}

impl LoginRefusal {
    /// The text of the refusal.
    pub open spec fn text(self) -> Seq<char> {
        match self {
            LoginRefusal::HasSession { store } => store@
                + " already holds a session; use a different --store or remove it first"@,
            LoginRefusal::TokenWithoutDevice =>
            "this token is not bound to a device (no device_id in whoami); matrix-notify needs a device"@,
            LoginRefusal::NoUserId => "no user id after login"@,
            LoginRefusal::NoDeviceId => "no device id after login"@,
        }
    }

    /// What to tell the user.
    pub fn message(&self) -> (text: String)
        ensures
            text@ == self.text(),
    {
        match self {
            LoginRefusal::HasSession { store } => {
                let mut text = store.clone();
                text.append(
                    " already holds a session; use a different --store or remove it first",
                );
                text
            },
            LoginRefusal::TokenWithoutDevice =>
            "this token is not bound to a device (no device_id in whoami); matrix-notify needs a device".to_owned(),
            LoginRefusal::NoUserId => "no user id after login".to_owned(),
            LoginRefusal::NoDeviceId => "no device id after login".to_owned(),
        }
    }
}

/// Which device logged in.
#[derive(Debug)]
pub struct Identified {
    pub user_id: String,
    pub device_id: String,
}

/// What is to be done next to log in.
pub enum LoginStep {
    /// Log in with the user and the password.
    PasswordLogin,
    /// Ask the homeserver whose token it is.
    AskWhoami,
    /// Take over the session of the token's device.
    AdoptToken { user_id: String, device_id: String },
    /// Give the device its display name. It is no failure where that does not work.
    RenameDevice,
    /// See which device the client is.
    ReadIdentity,
    /// Write the session. Persist immediately: even if the steps below fail, the device exists on
    /// the server and we must not lose the token that owns it.
    SaveSession { session: Session },
    /// Sync once: uploads device keys and one-time keys, learns rooms.
    InitialSync { who: Identified },
    /// Set up cross-signing.
    CrossSign { who: Identified },
    /// Join the first of the rooms that is not joined yet.
    JoinRoom { who: Identified, cross_signing: CrossSigningReport, joined: Vec<String> },
    /// Flush what the steps above left to be sent.
    Flush { who: Identified, cross_signing: CrossSigningReport, joined: Vec<String> },
    /// Give up.
    Refused(LoginRefusal),
    /// Done.
    Done(LoginReport),
}

/// What happened when a step was carried out.
pub enum LoginEvent {
    LoggedIn,
    Whoami { user_id: String, device_id: Option<String> },
    Adopted,
    Renamed,
    Identity {
        user_id: Option<String>,
        device_id: Option<String>,
        access_token: Option<String>,
    },
    Saved,
    Synced,
    CrossSigned(CrossSigningReport),
    Joined { room_id: String },
    Flushed,
}

/// The session that is saved at login. No refresh token is kept.
pub open spec fn is_new_session(
    session: Session,
    homeserver: Seq<char>,
    server_name: Seq<char>,
    user_id: Seq<char>,
    device_id: Seq<char>,
    access_token: Option<String>,
) -> bool {
    &&& session.homeserver@ == homeserver
    &&& session.server_name@ == server_name
    &&& session.user_id@ == user_id
    &&& session.device_id@ == device_id
    &&& session.access_token@ == match access_token {
        Some(t) => t@,
        None => Seq::empty(),
    }
    &&& session.refresh_token is None
}

/// The step after `joined` of `wanted` rooms are joined.
pub open spec fn after_rooms(
    who: Identified,
    cross_signing: CrossSigningReport,
    joined: Vec<String>,
    wanted: nat,
) -> LoginStep {
    if joined@.len() < wanted {
        LoginStep::JoinRoom { who, cross_signing, joined }
    } else {
        LoginStep::Flush { who, cross_signing, joined }
    }
}

/// The step that follows a step when an event answers it. An event that does not answer the step
/// changes nothing. `homeserver` is the address that the server name was resolved to.
pub open spec fn login_leads_to(
    step: LoginStep,
    opts: LoginOptions,
    homeserver: Seq<char>,
    event: LoginEvent,
    next: LoginStep,
) -> bool {
    match (step, event) {
        (LoginStep::PasswordLogin, LoginEvent::LoggedIn) => next == LoginStep::ReadIdentity,
        (LoginStep::AskWhoami, LoginEvent::Whoami { user_id, device_id }) => next
            == match device_id {
            Some(device_id) => LoginStep::AdoptToken { user_id, device_id },
            None => LoginStep::Refused(LoginRefusal::TokenWithoutDevice),
        },
        (LoginStep::AdoptToken { .. }, LoginEvent::Adopted) => next == LoginStep::RenameDevice,
        (LoginStep::RenameDevice, LoginEvent::Renamed) => next == LoginStep::ReadIdentity,
        (LoginStep::ReadIdentity, LoginEvent::Identity { user_id, device_id, access_token }) => {
            match (user_id, device_id) {
                (None, _) => next == LoginStep::Refused(LoginRefusal::NoUserId),
                (Some(_), None) => next == LoginStep::Refused(LoginRefusal::NoDeviceId),
                (Some(u), Some(d)) => next matches LoginStep::SaveSession { session }
                    && is_new_session(
                    session,
                    homeserver,
                    opts.homeserver@,
                    u@,
                    d@,
                    access_token,
                ),
            }
        },
        (LoginStep::SaveSession { session }, LoginEvent::Saved) => next == (
        LoginStep::InitialSync {
            who: Identified { user_id: session.user_id, device_id: session.device_id },
        }),
        (LoginStep::InitialSync { who }, LoginEvent::Synced) => next == (LoginStep::CrossSign {
            who,
        }),
        (LoginStep::CrossSign { who }, LoginEvent::CrossSigned(report)) => exists|none: Vec<String>|
            none@.len() == 0 && next == #[trigger] after_rooms(who, report, none, opts.join@.len()),
        (
            LoginStep::JoinRoom { who, cross_signing, joined },
            LoginEvent::Joined { room_id },
        ) => exists|more: Vec<String>|
            more@ == joined@.push(room_id) && next == #[trigger] after_rooms(
                who,
                cross_signing,
                more,
                opts.join@.len(),
            ),
        (LoginStep::Flush { who, cross_signing, joined }, LoginEvent::Flushed) => {
            next matches LoginStep::Done(report) && report.user_id == who.user_id
                && report.device_id == who.device_id && report.homeserver@ == homeserver
                && report.cross_signing == cross_signing && report.joined == joined
        },
        _ => next == step,
    }
}

fn after_joining(
    who: Identified,
    cross_signing: CrossSigningReport,
    joined: Vec<String>,
    wanted: usize,
) -> (step: LoginStep)
    ensures
        step == after_rooms(who, cross_signing, joined, wanted as nat),
{
    if joined.len() < wanted {
        LoginStep::JoinRoom { who, cross_signing, joined }
    } else {
        LoginStep::Flush { who, cross_signing, joined }
    }
}

impl LoginStep {
    /// The first step: a store that holds a session is left alone.
    pub fn first(opts: &LoginOptions, has_session: bool, store: &str) -> (step: Self)
        ensures
            if has_session {
                step matches LoginStep::Refused(LoginRefusal::HasSession { store: s }) && s@
                    == store@
            } else {
                step == match opts.credentials {
                    Credentials::Password { .. } => LoginStep::PasswordLogin,
                    Credentials::Token(_) => LoginStep::AskWhoami,
                }
            },
    {
        if has_session {
            return LoginStep::Refused(LoginRefusal::HasSession { store: store.to_owned() });
        }
        match &opts.credentials {
            Credentials::Password { .. } => LoginStep::PasswordLogin,
            Credentials::Token(_) => LoginStep::AskWhoami,
        }
    }

    /// The step that follows this one when `event` answers it.
    pub fn next(self, opts: &LoginOptions, homeserver: &str, event: LoginEvent) -> (step: Self)
        ensures
            login_leads_to(self, *opts, homeserver@, event, step),
    {
        match (self, event) {
            (LoginStep::PasswordLogin, LoginEvent::LoggedIn) => LoginStep::ReadIdentity,
            (LoginStep::AskWhoami, LoginEvent::Whoami { user_id, device_id }) => match device_id {
                Some(device_id) => LoginStep::AdoptToken { user_id, device_id },
                None => LoginStep::Refused(LoginRefusal::TokenWithoutDevice),
            },
            (LoginStep::AdoptToken { .. }, LoginEvent::Adopted) => LoginStep::RenameDevice,
            (LoginStep::RenameDevice, LoginEvent::Renamed) => LoginStep::ReadIdentity,
            (
                LoginStep::ReadIdentity,
                LoginEvent::Identity { user_id, device_id, access_token },
            ) => match (user_id, device_id) {
                (None, _) => LoginStep::Refused(LoginRefusal::NoUserId),
                (Some(_), None) => LoginStep::Refused(LoginRefusal::NoDeviceId),
                (Some(user_id), Some(device_id)) => LoginStep::SaveSession {
                    session: Session {
                        homeserver: homeserver.to_owned(),
                        server_name: opts.homeserver.clone(),
                        user_id,
                        device_id,
                        access_token: match access_token {
                            Some(t) => t,
                            None => String::new(),
                        },
                        refresh_token: None,
                    },
                },
            },
            (LoginStep::SaveSession { session }, LoginEvent::Saved) => LoginStep::InitialSync {
                who: Identified { user_id: session.user_id, device_id: session.device_id },
            },
            (LoginStep::InitialSync { who }, LoginEvent::Synced) => LoginStep::CrossSign { who },
            (LoginStep::CrossSign { who }, LoginEvent::CrossSigned(report)) => {
                let none: Vec<String> = Vec::new();
                after_joining(who, report, none, opts.join.len())
            },
            (
                LoginStep::JoinRoom { who, cross_signing, joined },
                LoginEvent::Joined { room_id },
            ) => {
                let mut more = joined;
                more.push(room_id);
                after_joining(who, cross_signing, more, opts.join.len())
            },
            (LoginStep::Flush { who, cross_signing, joined }, LoginEvent::Flushed) => {
                LoginStep::Done(
                    LoginReport {
                        user_id: who.user_id,
                        device_id: who.device_id,
                        homeserver: homeserver.to_owned(),
                        cross_signing,
                        joined,
                    },
                )
            },
            (step, _) => step,
        }
    }
}

/// What interactive auth can be answered with after a login: the password, where it was one.
pub fn interactive_login(opts: &LoginOptions) -> (login: Option<Login>)
    ensures
        match opts.credentials {
            Credentials::Password { user, password } => login matches Some(l) && l.user@ == user@
                && l.password@ == password@,
            Credentials::Token(_) => login is None,
        },
{
    match &opts.credentials {
        Credentials::Password { user, password } => Some(
            Login { user: user.clone(), password: password.clone() },
        ),
        Credentials::Token(_) => None,
    }
}

/// A run of a login: the steps, the first of which authenticates, and the event that led from each
/// to the one after it.
pub open spec fn is_login_run(
    steps: Seq<LoginStep>,
    events: Seq<LoginEvent>,
    opts: LoginOptions,
    homeserver: Seq<char>,
) -> bool {
    &&& steps.len() == events.len() + 1
    &&& steps[0] is PasswordLogin || steps[0] is AskWhoami
    &&& forall|i: int, j: int|
        0 <= i < events.len() && j == i + 1 ==> login_leads_to(
            #[trigger] steps[i],
            opts,
            homeserver,
            events[i],
            #[trigger] steps[j],
        )
}

/// The session was saved at a moment of a run.
pub open spec fn saved_at(steps: Seq<LoginStep>, events: Seq<LoginEvent>, k: int) -> bool {
    &&& 0 <= k < events.len()
    &&& steps[k] is SaveSession
    &&& events[k] is Saved
}

/// The step comes after the session is saved.
pub open spec fn is_after_saving(step: LoginStep) -> bool {
    step is InitialSync || step is CrossSign || step is JoinRoom || step is Flush || step is Done
}

/// Whatever happens, the session is saved before anything that follows the login itself, it holds
/// no refresh token, and a login is done only when every room that was asked for is joined.
pub proof fn law_session_is_saved_first(
    steps: Seq<LoginStep>,
    events: Seq<LoginEvent>,
    opts: LoginOptions,
    homeserver: Seq<char>,
)
    requires
        is_login_run(steps, events, opts, homeserver),
    ensures
        is_after_saving(steps.last()) ==> exists|k: int| saved_at(steps, events, k),
        match steps.last() {
            LoginStep::SaveSession { session } => session.refresh_token is None,
            LoginStep::JoinRoom { joined, .. } => joined@.len() < opts.join@.len(),
            LoginStep::Flush { joined, .. } => joined@.len() == opts.join@.len(),
            LoginStep::Done(report) => report.joined@.len() == opts.join@.len(),
            _ => true,
        },
    decreases events.len(),
{
    if events.len() > 0 {
        let s = steps.drop_last();
        let e = events.drop_last();
        let n = events.len() - 1;
        assert forall|i: int, j: int| 0 <= i < e.len() && j == i + 1 implies login_leads_to(
            #[trigger] s[i],
            opts,
            homeserver,
            e[i],
            #[trigger] s[j],
        ) by {
            assert(s[i] == steps[i] && s[j] == steps[j]);
        }
        law_session_is_saved_first(s, e, opts, homeserver);
        assert(s.last() == steps[n]);
        assert(steps[n + 1] == steps.last());
        assert(login_leads_to(steps[n], opts, homeserver, events[n], steps.last()));
        assert forall|k: int| saved_at(s, e, k) implies saved_at(steps, events, k) by {
            assert(s[k] == steps[k] && e[k] == events[k]);
        }
        if steps[n] is SaveSession && events[n] is Saved {
            assert(saved_at(steps, events, n));
        }
    }
}

/// A refusal is final, so that a store that holds a session is never logged in again: no event leads
/// from the refusal to anything else.
pub proof fn law_login_refusal_is_final(
    refusal: LoginRefusal,
    opts: LoginOptions,
    homeserver: Seq<char>,
    event: LoginEvent,
    next: LoginStep,
)
    requires
        login_leads_to(LoginStep::Refused(refusal), opts, homeserver, event, next),
    ensures
        next == LoginStep::Refused(refusal),
{
}

/// The beginning of a run is a run.
proof fn lemma_login_prefix(
    steps: Seq<LoginStep>,
    events: Seq<LoginEvent>,
    opts: LoginOptions,
    homeserver: Seq<char>,
)
    requires
        is_login_run(steps, events, opts, homeserver),
        events.len() > 0,
    ensures
        is_login_run(steps.drop_last(), events.drop_last(), opts, homeserver),
        steps.drop_last().last() == steps[events.len() - 1],
        login_leads_to(
            steps[events.len() - 1],
            opts,
            homeserver,
            events[events.len() - 1],
            steps.last(),
        ),
{
    let s = steps.drop_last();
    let e = events.drop_last();
    assert forall|i: int, j: int| 0 <= i < e.len() && j == i + 1 implies login_leads_to(
        #[trigger] s[i],
        opts,
        homeserver,
        e[i],
        #[trigger] s[j],
    ) by {
        assert(s[i] == steps[i] && s[j] == steps[j]);
    }
    assert(steps[events.len() as int] == steps.last());
}

/// At a moment of a run the homeserver said that the token belongs to the given device of the given
/// user.
pub open spec fn whoami_said_at(
    steps: Seq<LoginStep>,
    events: Seq<LoginEvent>,
    k: int,
    user_id: String,
    device_id: String,
) -> bool {
    &&& 0 <= k < events.len()
    &&& steps[k] is AskWhoami
    &&& events[k] == (LoginEvent::Whoami { user_id, device_id: Some(device_id) })
}

/// Whose session is taken over is what the homeserver said: in every run, a step that adopts a token
/// holds as the user id the user id, and as the device id the device id, of its answer in that run.
pub proof fn law_adopted_session_is_the_tokens(
    steps: Seq<LoginStep>,
    events: Seq<LoginEvent>,
    opts: LoginOptions,
    homeserver: Seq<char>,
)
    requires
        is_login_run(steps, events, opts, homeserver),
    ensures
        steps.last() matches LoginStep::AdoptToken { user_id, device_id } ==> exists|k: int|
            whoami_said_at(steps, events, k, user_id, device_id),
    decreases events.len(),
{
    if events.len() > 0 {
        let s = steps.drop_last();
        let e = events.drop_last();
        let n = events.len() - 1;
        lemma_login_prefix(steps, events, opts, homeserver);
        law_adopted_session_is_the_tokens(s, e, opts, homeserver);
        if let LoginStep::AdoptToken { user_id, device_id } = steps.last() {
            if steps[n] is AdoptToken {
                let k = choose|k: int| whoami_said_at(s, e, k, user_id, device_id);
                assert(s[k] == steps[k] && e[k] == events[k]);
                assert(whoami_said_at(steps, events, k, user_id, device_id));
            } else {
                assert(whoami_said_at(steps, events, n, user_id, device_id));
            }
        }
    }
}

/// At a moment of a run the client said which device it is, and which token it has.
pub open spec fn identified_at(
    steps: Seq<LoginStep>,
    events: Seq<LoginEvent>,
    k: int,
    user_id: Seq<char>,
    device_id: Seq<char>,
    access_token: Seq<char>,
) -> bool {
    &&& 0 <= k < events.len()
    &&& steps[k] is ReadIdentity
    &&& events[k] matches LoginEvent::Identity { user_id: u, device_id: d, access_token: t } && u
        matches Some(u) && d matches Some(d) && u@ == user_id && d@ == device_id && match t {
        Some(t) => t@ == access_token,
        None => access_token.len() == 0,
    }
}

/// The session that is saved is that of the device that logged in: its user, its device and its token
/// are those that the client named, its homeserver is the resolved one, its server name is what the
/// user typed, and it has no refresh token.
pub proof fn law_saved_session_is_the_clients(
    steps: Seq<LoginStep>,
    events: Seq<LoginEvent>,
    opts: LoginOptions,
    homeserver: Seq<char>,
)
    requires
        is_login_run(steps, events, opts, homeserver),
    ensures
        steps.last() matches LoginStep::SaveSession { session } ==> {
            &&& session.homeserver@ == homeserver
            &&& session.server_name@ == opts.homeserver@
            &&& session.refresh_token is None
            &&& exists|k: int|
                identified_at(
                    steps,
                    events,
                    k,
                    session.user_id@,
                    session.device_id@,
                    session.access_token@,
                )
        },
    decreases events.len(),
{
    if events.len() > 0 {
        let s = steps.drop_last();
        let e = events.drop_last();
        let n = events.len() - 1;
        lemma_login_prefix(steps, events, opts, homeserver);
        law_saved_session_is_the_clients(s, e, opts, homeserver);
        if let LoginStep::SaveSession { session } = steps.last() {
            let (u, d, t) = (session.user_id@, session.device_id@, session.access_token@);
            if steps[n] is SaveSession {
                let k = choose|k: int| identified_at(s, e, k, u, d, t);
                assert(s[k] == steps[k] && e[k] == events[k]);
                assert(identified_at(steps, events, k, u, d, t));
            } else {
                assert(identified_at(steps, events, n, u, d, t));
            }
        }
    }
}

/// The event is what comes of carrying out the step.
pub open spec fn login_answers(event: LoginEvent, step: LoginStep) -> bool {
    match step {
        LoginStep::PasswordLogin => event is LoggedIn,
        LoginStep::AskWhoami => event is Whoami,
        LoginStep::AdoptToken { .. } => event is Adopted,
        LoginStep::RenameDevice => event is Renamed,
        LoginStep::ReadIdentity => event is Identity,
        LoginStep::SaveSession { .. } => event is Saved,
        LoginStep::InitialSync { .. } => event is Synced,
        LoginStep::CrossSign { .. } => event is CrossSigned,
        LoginStep::JoinRoom { .. } => event is Joined,
        LoginStep::Flush { .. } => event is Flushed,
        LoginStep::Refused(_) => false,
        LoginStep::Done(_) => false,
    }
}

/// Who logged in, as far as a step knows.
pub open spec fn who_logged_in(step: LoginStep) -> Option<(Seq<char>, Seq<char>)> {
    match step {
        LoginStep::SaveSession { session } => Some((session.user_id@, session.device_id@)),
        LoginStep::InitialSync { who } => Some((who.user_id@, who.device_id@)),
        LoginStep::CrossSign { who } => Some((who.user_id@, who.device_id@)),
        LoginStep::JoinRoom { who, .. } => Some((who.user_id@, who.device_id@)),
        LoginStep::Flush { who, .. } => Some((who.user_id@, who.device_id@)),
        LoginStep::Done(report) => Some((report.user_id@, report.device_id@)),
        _ => None,
    }
}

/// How cross-signing stands, as far as a step knows.
pub open spec fn signing_in(step: LoginStep) -> Option<CrossSigningReport> {
    match step {
        LoginStep::JoinRoom { cross_signing, .. } => Some(cross_signing),
        LoginStep::Flush { cross_signing, .. } => Some(cross_signing),
        LoginStep::Done(report) => Some(report.cross_signing),
        _ => None,
    }
}

/// The rooms that are joined, as far as a step knows.
pub open spec fn rooms_in(step: LoginStep) -> Seq<String> {
    match step {
        LoginStep::JoinRoom { joined, .. } => joined@,
        LoginStep::Flush { joined, .. } => joined@,
        LoginStep::Done(report) => report.joined@,
        _ => Seq::empty(),
    }
}

/// A login is refused only where it must be, and otherwise goes on with every answer: a password login
/// and an adopted token both lead to the session being saved, that to a sync, that to cross-signing,
/// and then every room is joined before what is left is flushed and the login is done. An event that
/// answers no step changes nothing.
pub proof fn law_login_goes_on(
    step: LoginStep,
    opts: &LoginOptions,
    homeserver: &str,
    event: LoginEvent,
    next: LoginStep,
)
    requires
        call_ensures(LoginStep::next, (step, opts, homeserver, event), next),
    ensures
        !login_answers(event, step) ==> next == step,
        login_answers(event, step) ==> match step {
            LoginStep::PasswordLogin => next is ReadIdentity,
            LoginStep::AskWhoami => {
                &&& next is Refused || next is AdoptToken
                &&& event matches LoginEvent::Whoami { device_id, .. } ==> (next is Refused
                    <==> device_id is None)
                &&& next is Refused ==> next == LoginStep::Refused(LoginRefusal::TokenWithoutDevice)
            },
            LoginStep::AdoptToken { .. } => next is RenameDevice,
            LoginStep::RenameDevice => next is ReadIdentity,
            LoginStep::ReadIdentity => event matches LoginEvent::Identity {
                user_id,
                device_id,
                ..
            } ==> {
                &&& next is SaveSession <==> user_id is Some && device_id is Some
                &&& next == LoginStep::Refused(LoginRefusal::NoUserId) <==> user_id is None
                &&& next == LoginStep::Refused(LoginRefusal::NoDeviceId) <==> user_id is Some
                    && device_id is None
            },
            LoginStep::SaveSession { .. } => next is InitialSync,
            LoginStep::InitialSync { .. } => next is CrossSign,
            LoginStep::CrossSign { .. } => if opts.join@.len() > 0 {
                next is JoinRoom
            } else {
                next is Flush
            },
            LoginStep::JoinRoom { joined, .. } => if joined@.len() + 1 < opts.join@.len() {
                next is JoinRoom
            } else {
                next is Flush
            },
            LoginStep::Flush { .. } => next is Done,
            _ => true,
        },
{
}

/// A login tells of one device from the moment its session is to be saved, reports cross-signing as it
/// was found, and lists the joined rooms in the order in which they were joined, each by the id that it
/// was joined as.
pub proof fn law_login_loses_nothing(
    step: LoginStep,
    opts: &LoginOptions,
    homeserver: &str,
    event: LoginEvent,
    next: LoginStep,
)
    requires
        call_ensures(LoginStep::next, (step, opts, homeserver, event), next),
    ensures
        who_logged_in(step) is Some ==> who_logged_in(next) == who_logged_in(step),
        signing_in(step) is Some ==> signing_in(next) == signing_in(step),
        step is CrossSign && event is CrossSigned ==> (event matches LoginEvent::CrossSigned(report)
            && signing_in(next) == Some(report)),
        step is JoinRoom && event is Joined ==> (event matches LoginEvent::Joined { room_id }
            && rooms_in(next) == rooms_in(step).push(room_id)),
        !(step is JoinRoom && event is Joined) ==> rooms_in(next) == rooms_in(step),
        next matches LoginStep::Done(report) ==> step is Done || report.homeserver@ == homeserver@,
{
}

/// A store that holds a session is left alone, whatever the credentials are, and the refusal names it.
/// Otherwise a password is logged in with, and a token is asked about.
pub proof fn law_login_starts_by_its_credentials(
    opts: &LoginOptions,
    has_session: bool,
    store: &str,
    step: LoginStep,
    login: Option<Login>,
)
    requires
        call_ensures(LoginStep::first, (opts, has_session, store), step),
        call_ensures(interactive_login, (opts,), login),
    ensures
        step is Refused <==> has_session,
        has_session ==> (step matches LoginStep::Refused(LoginRefusal::HasSession { store: s })
            && s@ == store@),
        step is PasswordLogin <==> !has_session && opts.credentials is Password,
        step is AskWhoami <==> !has_session && opts.credentials is Token,
        login is Some <==> opts.credentials is Password,
        opts.credentials matches Credentials::Password { user, password } ==> (login matches Some(l)
            && l.user@ == user@ && l.password@ == password@),
{
}

/// The homeserver is asked at the address that the protocol has for it, below the homeserver's own.
pub proof fn law_whoami_is_below_the_homeserver(homeserver: &str, url: String)
    requires
        call_ensures(whoami_url, (homeserver,), Ok::<String, url::ParseError>(url)),
    ensures
        url_joined(homeserver@, "_matrix/client/v3/account/whoami"@) == Some(url@),
{
}

/// A rejected token is told with the status and the beginning of the answer, of which no more than two
/// hundred characters are shown, and all where there are no more.
pub proof fn law_rejection_shows_the_answer(status: &str, body: &str, text: String)
    requires
        call_ensures(token_rejected, (status, body), text),
    ensures
        text@ == "token rejected by homeserver ("@ + status@ + "): "@ + (if body@.len() <= 200 {
            body@
        } else {
            body@.take(200)
        }),
{
}

/// A refusal tells why there is no login, and names the store that holds a session already.
pub proof fn law_login_refusal_tells_why(refusal: &LoginRefusal, text: String)
    requires
        call_ensures(LoginRefusal::message, (refusal,), text),
    ensures
        match *refusal {
            LoginRefusal::HasSession { store } => text@ == store@
                + " already holds a session; use a different --store or remove it first"@,
            LoginRefusal::TokenWithoutDevice => text@
                == "this token is not bound to a device (no device_id in whoami); matrix-notify needs a device"@,
            LoginRefusal::NoUserId => text@ == "no user id after login"@,
            LoginRefusal::NoDeviceId => text@ == "no device id after login"@,
        },
{
}

/// A request at login may take a minute.
pub proof fn law_login_waits_a_minute()
    ensures
        LOGIN_TIMEOUT_SECS == 60,
{
}

} // verus!
