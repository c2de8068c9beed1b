use std::time::Duration;

use matrix_notify::joining::{join_context, JoinEvent, JoinRefusal, JoinStep, RoomState};
use matrix_notify::login::{
    interactive_login, token_rejected, whoami_url, LoginEvent, LoginRefusal, LoginStep,
};
use matrix_notify::matrix::{
    other_members, recipient_coverage, user_mismatch, Coverage, Credentials, CrossSigningReport, Device,
    HistoryVisibility, LoginOptions, MemberDevices, Memberships, OwnDevice, SendEvent, SendOptions,
    SendRefusal, SendStep, SigningKeys, WhoAmI,
};
use matrix_notify::signing::{
    contains_member, first_member, KeysAnswer, LocalKeys, Login, ResetAuth, ServerKeys, SigningEvent, SigningStep, UploadEvent, UploadStep,
};
use matrix_notify::store::Session;
use matrix_notify::target::RoomTarget;

fn opts(allow_unencrypted: bool, strict_recipients: bool) -> SendOptions {
    SendOptions { allow_unencrypted, strict_recipients, timeout: Duration::from_secs(60) }
}

fn coverage(members: usize, devices: usize, without: &[&str]) -> Coverage {
    Coverage { members, devices, without_devices: without.iter().map(|s| s.to_string()).collect() }
}

fn until_encryption(o: &SendOptions) -> SendStep {
    let step = SendStep::first();
    assert!(matches!(step, SendStep::Join));
    let step = step.next(o, SendEvent::Joined { room_id: "!r:x".into() });
    assert!(matches!(step, SendStep::FetchMembers { .. }));
    let step = step.next(o, SendEvent::MembersFetched);
    assert!(matches!(step, SendStep::ReadEncryption { .. }));
    step
}

fn encrypted(o: &SendOptions) -> SendStep {
    until_encryption(o).next(o, SendEvent::Encryption { encrypted: true, state: "Encrypted".into() })
}

fn plain(o: &SendOptions) -> SendStep {
    until_encryption(o).next(o, SendEvent::Encryption { encrypted: false, state: "NotEncrypted".into() })
}

#[test]
fn send_encrypted() {
    let o = opts(false, false);
    let step = encrypted(&o);
    assert!(matches!(step, SendStep::QueryDevices { .. }));
    let step = step.next(&o, SendEvent::Devices(coverage(3, 4, &["@a:x"])));
    assert_eq!(
        step.warning().as_deref(),
        Some("1 member(s) of !r:x have no device and will not be able to read this: @a:x")
    );
    assert!(matches!(step, SendStep::DiscardRoomKey { .. }));
    let step = step.next(&o, SendEvent::RoomKeyDiscarded);
    assert!(matches!(step, SendStep::Post { coverage: Some(_), .. }));
    assert_eq!(step.warning(), None);
    match step.next(&o, SendEvent::Posted { event_id: "$e".into() }) {
        SendStep::Sent(r) => {
            assert_eq!(r.room_id, "!r:x");
            assert_eq!(r.event_id, "$e");
            assert!(r.encrypted);
            assert_eq!((r.members, r.recipients), (3, 4));
            assert_eq!(r.members_without_devices, ["@a:x"]);
        }
        _ => panic!("must be sent"),
    }
}

#[test]
fn send_plaintext_only_when_allowed() {
    match plain(&opts(false, false)) {
        SendStep::Refused(r) => assert_eq!(
            r.message(),
            "room !r:x is not encrypted (state: NotEncrypted); refusing to send plaintext. Enable encryption in the room \
             or pass --allow-unencrypted"
        ),
        _ => panic!("must be refused"),
    }
    let o = opts(true, true);
    let step = plain(&o);
    assert!(matches!(step, SendStep::Post { coverage: None, .. }));
    match step.next(&o, SendEvent::Posted { event_id: "$e".into() }) {
        SendStep::Sent(r) => {
            assert!(!r.encrypted);
            assert_eq!((r.members, r.recipients, r.members_without_devices.len()), (0, 0, 0));
        }
        _ => panic!("must be sent"),
    }
}

#[test]
fn send_refuses_what_nobody_can_read() {
    let o = opts(false, false);
    match encrypted(&o).next(&o, SendEvent::Devices(coverage(0, 0, &[]))) {
        SendStep::Refused(r) => {
            assert!(matches!(r, SendRefusal::NobodyElse { .. }));
            assert_eq!(
                r.message(),
                "nobody but the bot is in !r:x (or can read it); refusing to post a message nobody can decrypt"
            );
        }
        _ => panic!("must be refused"),
    }
    match encrypted(&o).next(&o, SendEvent::Devices(coverage(2, 0, &["@a:x", "@b:x"]))) {
        SendStep::Refused(r) => assert_eq!(
            r.message(),
            "no member of !r:x has a device that could receive the room key (members: @a:x, @b:x); refusing to \
             post a message nobody can decrypt"
        ),
        _ => panic!("must be refused"),
    }
    let strict = opts(false, true);
    match encrypted(&strict).next(&strict, SendEvent::Devices(coverage(3, 1, &["@a:x", "@b:x"]))) {
        SendStep::Refused(r) => assert_eq!(
            r.message(),
            "--strict-recipients: 2 member(s) of !r:x have no device: @a:x, @b:x"
        ),
        _ => panic!("must be refused"),
    }
    let step = encrypted(&strict).next(&strict, SendEvent::Devices(coverage(1, 1, &[])));
    assert!(matches!(step, SendStep::DiscardRoomKey { .. }));
    assert_eq!(step.warning(), None);
}

#[test]
fn events_that_answer_nothing_change_nothing() {
    let o = opts(true, false);
    let step = encrypted(&o).next(&o, SendEvent::Posted { event_id: "$e".into() });
    assert!(matches!(step, SendStep::QueryDevices { .. }));
    let refused = plain(&opts(false, false)).next(&o, SendEvent::Posted { event_id: "$e".into() });
    assert!(matches!(refused, SendStep::Refused(_)));
}

#[test]
fn coverage_counts_devices_that_receive_keys() {
    let ok = Device { deleted: false, blacklisted: false, dehydrated: false };
    let members = vec![
        MemberDevices { user_id: "@a:x".into(), devices: vec![ok, Device { deleted: true, ..ok }, ok] },
        MemberDevices { user_id: "@b:x".into(), devices: vec![] },
        MemberDevices { user_id: "@c:x".into(), devices: vec![Device { blacklisted: true, ..ok }] },
        MemberDevices { user_id: "@d:x".into(), devices: vec![Device { dehydrated: true, ..ok }, ok] },
    ];
    let c = recipient_coverage(&members);
    assert_eq!((c.members, c.devices), (4, 3));
    assert_eq!(c.without_devices, ["@b:x", "@c:x"]);
    let none = recipient_coverage(&vec![]);
    assert_eq!((none.members, none.devices, none.without_devices.len()), (0, 0, 0));
}

#[test]
fn the_bot_is_no_recipient() {
    let members = vec!["@a:x".to_owned(), "@ci:x".to_owned(), "@b:x".to_owned()];
    assert_eq!(other_members(&members, "@ci:x"), ["@a:x", "@b:x"]);
    assert_eq!(HistoryVisibility::Joined.readers(), Memberships::Join);
    for h in [HistoryVisibility::Invited, HistoryVisibility::Shared, HistoryVisibility::WorldReadable] {
        assert_eq!(h.readers(), Memberships::Active);
    }
}

fn id_target() -> RoomTarget {
    RoomTarget::Id { room_id: "!r:x".into(), via: vec!["s.org".into()] }
}

#[test]
fn join_a_known_room() {
    let step = JoinStep::first(&id_target());
    let step = step.next(false, JoinEvent::Seen(Some(RoomState::Joined)));
    assert!(matches!(step, JoinStep::Joined { ref room_id } if room_id == "!r:x"));
    // A forced sync is carried out even so.
    let step = JoinStep::first(&id_target()).next(true, JoinEvent::Seen(Some(RoomState::Joined)));
    assert!(matches!(step, JoinStep::Sync { .. }));
    let step = step.next(true, JoinEvent::Synced).next(true, JoinEvent::Seen(Some(RoomState::Joined)));
    assert!(matches!(step, JoinStep::Joined { .. }));
}

#[test]
fn join_by_alias() {
    let step = JoinStep::first(&RoomTarget::Alias("#ci:x".into()));
    assert!(matches!(step, JoinStep::Resolve { ref alias } if alias == "#ci:x"));
    let step = step
        .next(false, JoinEvent::Resolved { room_id: "!r:x".into(), servers: vec!["s.org".into()] })
        .next(false, JoinEvent::Seen(None))
        .next(false, JoinEvent::Synced)
        .next(false, JoinEvent::Seen(Some(RoomState::Left)));
    match &step {
        JoinStep::JoinRoom { room } => {
            assert_eq!(room.named, "#ci:x");
            assert_eq!(room.room_id, "!r:x");
            assert_eq!(room.via, ["s.org"]);
        }
        _ => panic!("must join"),
    }
    let step = step.next(false, JoinEvent::RoomJoined);
    let early = JoinEvent::SyncedAfterJoin {
        state: Some(RoomState::Joined),
        history_known: false,
        late: false,
    };
    let step = step.next(false, early);
    assert!(matches!(step, JoinStep::SyncAfterJoin { .. }));
    let done = JoinEvent::SyncedAfterJoin { state: Some(RoomState::Joined), history_known: true, late: true };
    assert!(matches!(step.next(false, done), JoinStep::Joined { ref room_id } if room_id == "!r:x"));
}

#[test]
fn join_an_invitation_a_ban_and_too_late() {
    let seen = |state| {
        JoinStep::first(&id_target())
            .next(true, JoinEvent::Seen(None))
            .next(true, JoinEvent::Synced)
            .next(true, JoinEvent::Seen(state))
    };
    let invited = seen(Some(RoomState::Invited));
    assert!(matches!(invited, JoinStep::AcceptInvite { .. }));
    let waiting = invited.next(true, JoinEvent::InviteAccepted);
    let late = JoinEvent::SyncedAfterJoin { state: None, history_known: false, late: true };
    match waiting.next(true, late) {
        JoinStep::Refused(r) => assert_eq!(
            r.message(),
            "room !r:x not joined with state after 30 s of syncing (state: None)"
        ),
        _ => panic!("must be refused"),
    }
    match seen(Some(RoomState::Banned)) {
        JoinStep::Refused(r) => {
            assert!(matches!(r, JoinRefusal::Banned { .. }));
            assert_eq!(r.message(), "this account is banned from !r:x");
        }
        _ => panic!("must be refused"),
    }
    assert!(matches!(seen(Some(RoomState::Knocked)), JoinStep::JoinRoom { .. }));
    assert!(matches!(seen(None), JoinStep::JoinRoom { .. }));
    let r = JoinRefusal::NotInTime { room_id: "!r:x".into(), state: Some(RoomState::Invited) };
    assert!(r.message().ends_with("(state: Some(Invited))"));
    assert_eq!(
        join_context("#ci:x", "!r:x"),
        "joining #ci:x: the bot must be invited to (or the room must be public) !r:x"
    );
}

fn login_pair() -> Login {
    Login { user: "@ci:x".into(), password: "pw".into() }
}

fn why_not(step: UploadStep) -> Option<String> {
    match step {
        UploadStep::Finished { why_not } => why_not,
        _ => panic!("must be finished"),
    }
}

#[test]
fn upload_without_interactive_auth() {
    assert_eq!(why_not(UploadStep::first(false).next(None, UploadEvent::Accepted)), None);
    assert_eq!(why_not(UploadStep::first(true).next(None, UploadEvent::Accepted)), None);
}

#[test]
fn upload_with_interactive_auth() {
    let wanted = || UploadEvent::AuthWanted { session: Some("s".into()) };
    assert_eq!(
        why_not(UploadStep::first(false).next(None, wanted())).as_deref(),
        Some("server requires interactive auth to upload cross-signing keys; a password is needed")
    );
    let step = UploadStep::first(false).next(Some(login_pair()), wanted());
    match &step {
        UploadStep::BootstrapWithPassword { login, session } => {
            assert_eq!((login.user.as_str(), login.password.as_str()), ("@ci:x", "pw"));
            assert_eq!(session.as_deref(), Some("s"));
        }
        _ => panic!("must use the password"),
    }
    assert_eq!(why_not(step.next(None, UploadEvent::Failed { error: "no".into() })).as_deref(), Some("no"));
}

#[test]
fn reset_with_interactive_auth() {
    let interactive = || UploadEvent::ApprovalWanted(ResetAuth::Interactive { session: None });
    let oauth = || UploadEvent::ApprovalWanted(ResetAuth::OAuth);
    assert_eq!(
        why_not(UploadStep::first(true).next(None, oauth())).as_deref(),
        Some("server requires interactive auth to replace cross-signing keys; a password is needed")
    );
    assert_eq!(
        why_not(UploadStep::first(true).next(Some(login_pair()), oauth())).as_deref(),
        Some("server requires approval through its OAuth provider; do that from a browser session")
    );
    let step = UploadStep::first(true).next(Some(login_pair()), interactive());
    assert!(matches!(step, UploadStep::ResetWithPassword { .. }));
    assert_eq!(why_not(step.next(None, UploadEvent::Accepted)), None);
}

fn server(master: Option<&str>, device_signed: bool) -> SigningEvent {
    SigningEvent::Server(ServerKeys { master_key: master.map(str::to_owned), device_signed })
}

fn local(have_private: bool, master: Option<&str>) -> SigningEvent {
    SigningEvent::Local(LocalKeys { have_private, master_key: master.map(str::to_owned) })
}

fn report(step: SigningStep) -> CrossSigningReport {
    match step {
        SigningStep::Report(r) => r,
        _ => panic!("must be a report"),
    }
}

#[test]
fn signing_before_an_upload() {
    let decide = |s, l, reset| SigningStep::first().next(reset, s).next(reset, l);
    assert!(matches!(decide(server(None, false), local(false, None), false), SigningStep::Upload));
    assert_eq!(
        report(decide(server(Some("k"), true), local(true, Some("k")), false)),
        CrossSigningReport::Present
    );
    for l in [local(false, Some("k")), local(true, Some("j")), local(true, None)] {
        assert_eq!(
            report(decide(server(Some("k"), true), l, false)),
            CrossSigningReport::NotSignedByExistingIdentity
        );
    }
    assert!(matches!(decide(server(Some("k"), false), local(true, Some("k")), false), SigningStep::Upload));
    assert!(matches!(decide(server(Some("k"), true), local(false, None), true), SigningStep::Upload));
}

#[test]
fn signing_after_an_upload() {
    let upload = || SigningStep::first().next(false, server(None, false)).next(false, local(false, None));
    assert_eq!(
        report(upload().next(false, SigningEvent::Uploaded { why_not: Some("why".into()) })),
        CrossSigningReport::NeedsInteractiveAuth("why".into())
    );
    let after = |s, l| {
        report(upload().next(false, SigningEvent::Uploaded { why_not: None }).next(false, s).next(false, l))
    };
    assert_eq!(after(server(Some("k"), true), local(true, Some("k"))), CrossSigningReport::Bootstrapped);
    assert_eq!(
        after(server(Some("k"), true), local(true, Some("j"))),
        CrossSigningReport::Incomplete(
            "server publishes master key k but this store holds different private keys".into()
        )
    );
    assert_eq!(
        after(server(Some("k"), false), local(true, Some("k"))),
        CrossSigningReport::Incomplete("keys uploaded but the server shows no signature on this device".into())
    );
    assert_eq!(
        after(server(None, true), local(true, None)),
        CrossSigningReport::Incomplete("server shows no cross-signing identity after upload".into())
    );
}

fn answer(master: Option<&str>, self_signing: Option<&str>, device: Option<&str>) -> KeysAnswer {
    KeysAnswer {
        master: master.map(str::to_owned),
        self_signing: self_signing.map(str::to_owned),
        device: device.map(str::to_owned),
    }
}

#[test]
fn server_keys_from_an_answer() {
    let master = r#"{"keys":{"ed25519:m":"m"}}"#;
    let own = r#"{"user_id":"@ci:x","keys":{"ed25519:s":"s"}}"#;
    let signed = r#"{"signatures":{"@ci:x":{"ed25519:DEV":"1","ed25519:s":"2"}}}"#;
    let unsigned = r#"{"signatures":{"@ci:x":{"ed25519:DEV":"1"},"@b:x":{"ed25519:s":"2"}}}"#;
    let read = |a: KeysAnswer| ServerKeys::read(&a, "@ci:x").unwrap();
    let k = read(answer(Some(master), Some(own), Some(signed)));
    assert_eq!(k.master_key.as_deref(), Some("m"));
    assert!(k.device_signed);
    assert!(!read(answer(Some(master), Some(own), Some(unsigned))).device_signed);
    assert!(!read(answer(Some(master), Some(own), None)).device_signed);
    assert!(!read(answer(Some(master), None, Some(signed))).device_signed);
    assert!(!read(answer(Some(master), Some(own), Some(r#"{"signatures":"x"}"#))).device_signed);
    assert_eq!(read(answer(None, None, None)).master_key, None);
    for odd in [r#"{"keys":{}}"#, r#"{"keys":{"a":1,"b":"m"}}"#, r#"{"keys":["m"]}"#, "3"] {
        assert_eq!(read(answer(Some(odd), None, None)).master_key, None, "{odd}");
    }
    assert!(ServerKeys::read(&answer(Some("{"), None, None), "@ci:x").is_err());
    assert!(ServerKeys::read(&answer(None, Some("{"), None), "@ci:x").is_err());
    assert!(ServerKeys::read(&answer(None, Some(own), Some("{")), "@ci:x").is_err());
    // Without a self-signing key the device's keys are not read.
    assert!(ServerKeys::read(&answer(None, None, Some("{")), "@ci:x").is_ok());
}

#[test]
fn members_that_were_read() {
    let m = |list: &[(&str, Option<&str>)]| {
        Some(list.iter().map(|(k, v)| (k.to_string(), v.map(str::to_owned))).collect::<Vec<_>>())
    };
    assert_eq!(first_member(&m(&[("a", Some("x")), ("b", None)])).as_deref(), Some("x"));
    assert_eq!(first_member(&m(&[("a", None), ("b", Some("x"))])), None);
    assert_eq!(first_member(&m(&[])), None);
    assert!(contains_member(&m(&[("a", None), ("b", None)]), "b"));
    assert!(!contains_member(&m(&[("a", Some("b"))]), "b"));
    assert!(!contains_member(&None, "b"));
}

#[test]
fn whoami_urls() {
    assert_eq!(
        whoami_url("https://chat.example.org").unwrap(),
        "https://chat.example.org/_matrix/client/v3/account/whoami"
    );
    assert_eq!(
        whoami_url("https://example.org/base/x").unwrap(),
        "https://example.org/base/_matrix/client/v3/account/whoami"
    );
    assert!(whoami_url("example.org").is_err());
}

fn login_options(credentials: Credentials, join: usize) -> LoginOptions {
    LoginOptions {
        homeserver: "x".into(),
        credentials,
        device_name: "d".into(),
        reset_cross_signing: false,
        join: (0..join).map(|_| id_target()).collect(),
    }
}

fn identity() -> LoginEvent {
    LoginEvent::Identity {
        user_id: Some("@ci:x".into()),
        device_id: Some("DEV".into()),
        access_token: Some("tok".into()),
    }
}

#[test]
fn login_with_a_password() {
    let o = login_options(Credentials::Password { user: "ci".into(), password: "pw".into() }, 2);
    let l = interactive_login(&o).unwrap();
    assert_eq!((l.user.as_str(), l.password.as_str()), ("ci", "pw"));
    let step = LoginStep::first(&o, false, "/s");
    assert!(matches!(step, LoginStep::PasswordLogin));
    let step = step.next(&o, "https://h", LoginEvent::LoggedIn).next(&o, "https://h", identity());
    match &step {
        LoginStep::SaveSession { session } => {
            assert_eq!(session.homeserver, "https://h");
            assert_eq!(session.server_name, "x");
            assert_eq!(session.user_id, "@ci:x");
            assert_eq!(session.device_id, "DEV");
            assert_eq!(session.access_token, "tok");
            assert_eq!(session.refresh_token, None);
        }
        _ => panic!("must save"),
    }
    let step = step
        .next(&o, "https://h", LoginEvent::Saved)
        .next(&o, "https://h", LoginEvent::Synced)
        .next(&o, "https://h", LoginEvent::CrossSigned(CrossSigningReport::Bootstrapped));
    assert!(matches!(step, LoginStep::JoinRoom { .. }));
    let step = step.next(&o, "https://h", LoginEvent::Joined { room_id: "!a".into() });
    assert!(matches!(step, LoginStep::JoinRoom { .. }));
    let step = step
        .next(&o, "https://h", LoginEvent::Joined { room_id: "!b".into() })
        .next(&o, "https://h", LoginEvent::Flushed);
    match step {
        LoginStep::Done(r) => {
            assert_eq!(r.user_id, "@ci:x");
            assert_eq!(r.device_id, "DEV");
            assert_eq!(r.homeserver, "https://h");
            assert_eq!(r.cross_signing, CrossSigningReport::Bootstrapped);
            assert_eq!(r.joined, ["!a", "!b"]);
        }
        _ => panic!("must be done"),
    }
}

#[test]
fn login_with_a_token() {
    let o = login_options(Credentials::Token("t".into()), 0);
    assert!(interactive_login(&o).is_none());
    let first = || LoginStep::first(&o, false, "/s");
    match first().next(&o, "h", LoginEvent::Whoami { user_id: "@ci:x".into(), device_id: None }) {
        LoginStep::Refused(r) => assert_eq!(
            r.message(),
            "this token is not bound to a device (no device_id in whoami); matrix-notify needs a device"
        ),
        _ => panic!("must be refused"),
    }
    let step = first()
        .next(&o, "h", LoginEvent::Whoami { user_id: "@ci:x".into(), device_id: Some("DEV".into()) })
        .next(&o, "h", LoginEvent::Adopted)
        .next(&o, "h", LoginEvent::Renamed);
    assert!(matches!(step, LoginStep::ReadIdentity));
    let step = step
        .next(&o, "h", identity())
        .next(&o, "h", LoginEvent::Saved)
        .next(&o, "h", LoginEvent::Synced)
        .next(&o, "h", LoginEvent::CrossSigned(CrossSigningReport::Present));
    assert!(matches!(step, LoginStep::Flush { .. }), "no room was asked for");
}

#[test]
fn login_refusals() {
    let o = login_options(Credentials::Token("t".into()), 0);
    match LoginStep::first(&o, true, "/s") {
        LoginStep::Refused(r) => {
            assert!(matches!(r, LoginRefusal::HasSession { .. }));
            assert_eq!(
                r.message(),
                "/s already holds a session; use a different --store or remove it first"
            );
        }
        _ => panic!("must be refused"),
    }
    let read = |user_id: Option<&str>, device_id: Option<&str>| {
        LoginStep::ReadIdentity.next(
            &o,
            "h",
            LoginEvent::Identity {
                user_id: user_id.map(str::to_owned),
                device_id: device_id.map(str::to_owned),
                access_token: None,
            },
        )
    };
    assert!(matches!(read(None, Some("D")), LoginStep::Refused(LoginRefusal::NoUserId)));
    assert!(matches!(read(Some("u"), None), LoginStep::Refused(LoginRefusal::NoDeviceId)));
    match read(Some("u"), Some("D")) {
        LoginStep::SaveSession { session } => assert_eq!(session.access_token, ""),
        _ => panic!("must save"),
    }
    assert_eq!(LoginRefusal::NoUserId.message(), "no user id after login");
    assert_eq!(LoginRefusal::NoDeviceId.message(), "no device id after login");
    assert_eq!(
        token_rejected("401 Unauthorized", &"é".repeat(201)),
        format!("token rejected by homeserver (401 Unauthorized): {}", "é".repeat(200))
    );
}

#[test]
fn who_we_are() {
    let session = Session {
        homeserver: "h".into(),
        server_name: "x".into(),
        user_id: "@ci:x".into(),
        device_id: "DEV".into(),
        access_token: "tok".into(),
        refresh_token: None,
    };
    let device = OwnDevice { display_name: Some("n".into()), cross_signed: false };
    let keys = SigningKeys { master: true, self_signing: false };
    let w = WhoAmI::gather(&session, true, Some(device), Some(keys), vec!["!r".into()]);
    assert_eq!((w.homeserver.as_str(), w.user_id.as_str(), w.device_id.as_str()), ("h", "@ci:x", "DEV"));
    assert_eq!(w.device_name.as_deref(), Some("n"));
    assert_eq!(w.cross_signed, Some(false));
    assert!(!w.has_cross_signing_keys);
    assert!(w.server_ok);
    let w = WhoAmI::gather(&session, false, None, Some(SigningKeys { self_signing: true, ..keys }), vec![]);
    assert_eq!((w.device_name, w.cross_signed), (None, None));
    assert!(w.has_cross_signing_keys);
    assert_eq!(user_mismatch(&session, "@ci:x"), None);
    assert_eq!(
        user_mismatch(&session, "@b:x").as_deref(),
        Some("server reports @b:x but session.json says @ci:x")
    );
}
