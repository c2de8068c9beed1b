use matrix_notify::cli::{
    compose, credential_source, credentials, cross_sign_outcome, cross_signing_text, default_device_name,
    exported_text, github_token, import_state, imported_text, is_blank_input, is_standard_stream, login_key,
    login_lines, nothing_to_export, output_line, parse_targets, password_line, secret_output, secret_value,
    secrets_lines, send_timed_out, sent_json, sent_text, whoami_json, whoami_lines, whoami_outcome, without_line_ends, ComposeError,
    CredentialError, CredentialSource, ImportError, SecretError, SendRequest, EMPTY_STATE_INPUT,
};
use matrix_notify::github::SecretsClient;
use matrix_notify::matrix::{Command, Credentials, CrossSigningReport, LoginReport, SendReport, WhoAmI};
use matrix_notify::message::RunInfo;
use matrix_notify::state::{export, store_files, StateError, StateKey};
use matrix_notify::store::Session;
use matrix_notify::target::RoomTarget;

/// `session.json` as a store holds it.
fn session_file(s: &Session) -> Vec<u8> {
    let mut map = serde_json::Map::new();
    for (name, value) in [
        ("homeserver", &s.homeserver),
        ("server_name", &s.server_name),
        ("user_id", &s.user_id),
        ("device_id", &s.device_id),
        ("access_token", &s.access_token),
    ] {
        map.insert(name.to_owned(), serde_json::Value::String(value.clone()));
    }
    if let Some(t) = &s.refresh_token {
        map.insert("refresh_token".to_owned(), serde_json::Value::String(t.clone()));
    }
    let mut bytes = serde_json::to_vec_pretty(&map).unwrap();
    bytes.push(b'\n');
    bytes
}

/// The session in the contents of `session.json`.
fn session_in(bytes: &[u8]) -> Session {
    let v: serde_json::Value = serde_json::from_slice(bytes).unwrap();
    let text = |name: &str| v[name].as_str().unwrap().to_owned();
    Session {
        homeserver: text("homeserver"),
        server_name: text("server_name"),
        user_id: text("user_id"),
        device_id: text("device_id"),
        access_token: text("access_token"),
        refresh_token: v["refresh_token"].as_str().map(str::to_owned),
    }
}

fn request(text: Option<&str>, format: Option<&str>, status: Option<&str>) -> SendRequest {
    SendRequest {
        text: text.map(str::to_owned),
        markdown: false,
        format: format.map(str::to_owned),
        status: status.map(str::to_owned),
        notice: true,
        no_notice: false,
    }
}

fn run() -> RunInfo {
    RunInfo { repository: "a/b".into(), run_id: "1".into(), ..RunInfo::default() }
}

fn refused(r: SendRequest, info: &RunInfo) -> String {
    match compose(r, info) {
        Ok(_) => panic!("must be refused"),
        Err(e) => e.message(),
    }
}

#[test]
fn send_argument_validation() {
    let none = RunInfo::default();
    match RoomTarget::parse("nonsense") {
        Err(e) => {
            assert!(e.message().contains("not a room alias"));
            assert_eq!(e.0, "nonsense");
        }
        Ok(_) => panic!("not a room alias"),
    }
    assert!(RoomTarget::parse("#ci:example.org").is_ok());
    assert!(refused(request(Some("   "), None, None), &none).contains("empty message"));
    assert!(refused(request(None, Some("github-run"), None), &none).contains("--status"));
    assert!(refused(request(None, Some("github-run"), Some("success")), &none).contains("GITHUB_REPOSITORY"));
    assert!(compose(request(None, None, None), &none).is_err());
}

#[test]
fn compose_errors_in_full() {
    assert_eq!(refused(request(None, None, None), &run()), "--message is required");
    assert_eq!(refused(request(Some("\n"), None, None), &run()), "refusing to send an empty message");
    assert_eq!(refused(request(None, Some("a\"b"), None), &run()), "unknown --format \"a\\\"b\"");
    assert_eq!(
        refused(request(None, Some("github-run"), None), &run()),
        "--format github-run needs --status success|failure|cancelled"
    );
    assert_eq!(
        refused(request(None, Some("github-run"), Some("weird")), &RunInfo::default()),
        "unknown --status \"weird\" (expected success|failure|cancelled)"
    );
    let mut no_id = run();
    no_id.run_id = String::new();
    assert!(matches!(
        compose(request(None, Some("github-run"), Some("ok")), &no_id),
        Err(ComposeError::RunUnknown)
    ));
}

#[test]
fn compose_messages() {
    let m = compose(request(Some(" *a* "), None, None), &run()).ok().unwrap();
    assert_eq!((m.body.as_str(), m.html.as_deref(), m.notice), (" *a* ", None, true));
    let mut md = request(Some("*a*"), None, None);
    md.markdown = true;
    md.no_notice = true;
    let m = compose(md, &run()).ok().unwrap();
    assert_eq!(m.html.as_deref(), Some("<p><em>a</em></p>"));
    assert!(!m.notice);
    let mut card = request(Some("note"), Some("github-run"), Some("ok"));
    card.notice = false;
    let m = compose(card, &run()).ok().unwrap();
    assert!(m.body.starts_with("✅ a/b: "));
    assert!(m.body.ends_with("\nnote"));
    assert!(!m.notice, "the card follows the request");
}

#[test]
fn streams_and_lines() {
    assert!(is_standard_stream("-"));
    assert!(!is_standard_stream("--"));
    assert_eq!(without_line_ends(" a \r\n\n"), " a ");
    assert_eq!(output_line("x"), "x\n");
}

#[test]
fn reports() {
    let r = SendReport {
        room_id: "!r".into(),
        event_id: "$e".into(),
        encrypted: true,
        members: 12,
        recipients: 340,
        members_without_devices: vec![],
    };
    assert_eq!(sent_text(&r), "sent $e to !r (encrypted, 12 members, 340 devices)");
    let r = SendReport { encrypted: false, members: 0, recipients: 0, ..r };
    assert_eq!(sent_text(&r), "sent $e to !r (PLAINTEXT, 0 members, 0 devices)");
    assert_eq!(send_timed_out(60), "send did not complete within 60s");
    assert_eq!(exported_text(1234567890), "exported 1234567890 bytes of base64");
    assert_eq!(imported_text(3, "/s"), "imported 3 file(s) into /s");
    assert_eq!(nothing_to_export("/s"), "nothing to export: /s has no session");
}

#[test]
fn login_requires_a_credential_source() {
    let e = credential_source(false, Some("ci".into()), false).err().unwrap();
    assert!(e.message().contains("--password-stdin"));
    assert_eq!(credential_source(false, None, true).err(), Some(CredentialError::UserMissing));
    assert_eq!(CredentialError::UserMissing.message(), "--user is required");
    assert!(matches!(credential_source(true, None, false), Ok(CredentialSource::Token)));
}

#[test]
fn credentials_from_a_line() {
    match credentials(CredentialSource::Token, "tok\r\n") {
        Ok(Credentials::Token(t)) => assert_eq!(t, "tok"),
        _ => panic!("must be a token"),
    }
    let source = credential_source(false, Some("ci".into()), true).ok().unwrap();
    match credentials(source, " pw \n") {
        Ok(Credentials::Password { user, password }) => {
            assert_eq!((user.as_str(), password.as_str()), ("ci", " pw "));
        }
        _ => panic!("must be a password"),
    }
    assert_eq!(credentials(CredentialSource::Token, "\n").err(), Some(CredentialError::EmptyToken));
    let password = CredentialSource::Password { user: "ci".into() };
    assert_eq!(credentials(password, "").err(), Some(CredentialError::EmptyPassword));
    assert_eq!(password_line("pw\n"), Ok("pw".to_owned()));
    assert_eq!(password_line("\r\n"), Err(CredentialError::EmptyPassword));
    assert_eq!(CredentialError::EmptyToken.message(), "empty token on stdin");
    assert_eq!(CredentialError::EmptyPassword.message(), "empty password on stdin");
}

#[test]
fn login_keys_and_targets() {
    let given = login_key(Some(&"0f".repeat(32))).ok().unwrap();
    assert_eq!(given.to_hex().as_str(), "0f".repeat(32));
    assert!(matches!(login_key(Some("abc")), Err(StateError::KeyLength(3))));
    assert_eq!(login_key(None).ok().unwrap().to_hex().as_str().len(), 64);

    let targets = parse_targets(&vec!["#a:x.org".into(), "!b".into()]).unwrap();
    assert_eq!(targets.len(), 2);
    assert_eq!(targets[1].describe(), "!b");
    let e = parse_targets(&vec!["#a:x.org".into(), "bad".into(), "worse".into()]).unwrap_err();
    assert_eq!(e.0, "bad");
}

#[test]
fn device_names() {
    assert_eq!(default_device_name(Some("o/r")), "matrix-notify (o/r)");
    assert_eq!(default_device_name(Some("")), "matrix-notify");
    assert_eq!(default_device_name(None), "matrix-notify");
}

#[test]
fn cross_signing_said_and_done() {
    let all = [
        CrossSigningReport::Bootstrapped,
        CrossSigningReport::Present,
        CrossSigningReport::NotSignedByExistingIdentity,
        CrossSigningReport::NeedsInteractiveAuth("why".into()),
        CrossSigningReport::Incomplete("why".into()),
    ];
    let said: Vec<String> = all.iter().map(cross_signing_text).collect();
    assert_eq!(said[0], "cross-signing: bootstrapped, device is self-signed");
    assert_eq!(said[1], "cross-signing: already present, device is self-signed");
    assert_eq!(
        said[2],
        "cross-signing: WARNING an identity created by another session exists; this device is not signed by it.\n  \
         Either verify this device from that session, or run `matrix-notify cross-sign --reset --password-stdin` \
         on this store and re-export."
    );
    assert_eq!(
        said[3],
        "cross-signing: WARNING not bootstrapped: why\n  Finish it with `matrix-notify cross-sign \
         --password-stdin` on this store and re-export."
    );
    assert_eq!(said[4], "cross-signing: WARNING why");
    assert_eq!(cross_sign_outcome(&all[0]), Ok(()));
    assert_eq!(cross_sign_outcome(&all[1]), Ok(()));
    assert_eq!(cross_sign_outcome(&all[2]), Err("device is not signed; use --reset to take over".to_owned()));
    assert_eq!(cross_sign_outcome(&all[3]), Err("not bootstrapped: why".to_owned()));
    assert_eq!(cross_sign_outcome(&all[4]), Err("why".to_owned()));
}

#[test]
fn login_is_told() {
    let report = LoginReport {
        user_id: "@ci:x".into(),
        device_id: "DEV".into(),
        homeserver: "https://h".into(),
        cross_signing: CrossSigningReport::Present,
        joined: vec!["!a".into(), "!b".into()],
    };
    assert_eq!(
        login_lines(&report),
        [
            "logged in as @ci:x device DEV via https://h",
            "cross-signing: already present, device is self-signed",
            "joined !a",
            "joined !b",
        ]
    );
    let lines = secrets_lines(true, 16384);
    assert_eq!(
        lines,
        [
            "",
            "Add these two repository secrets (Settings > Secrets and variables > Actions):",
            "",
            "  MATRIX_STATE_KEY   (new key, keep it safe)",
            "  MATRIX_STATE       (16384 bytes of base64)",
            "",
        ]
    );
    assert_eq!(secrets_lines(false, 0)[3], "  MATRIX_STATE_KEY   (the key you provided)");
    let key = StateKey::from_hex(&"0f".repeat(32)).ok().unwrap();
    assert_eq!(
        secret_output(&key, "TU5TMQ"),
        [format!("MATRIX_STATE_KEY={}", "0f".repeat(32)), "MATRIX_STATE=TU5TMQ".to_owned()]
    );
}

#[test]
fn reports_as_json() {
    let r = SendReport {
        room_id: "!r".into(),
        event_id: "$e\"\n".into(),
        encrypted: true,
        members: 2,
        recipients: 3,
        members_without_devices: vec!["@a:x".into(), "@b:x".into()],
    };
    let v: serde_json::Value = serde_json::from_str(&sent_json(&r, "f0")).unwrap();
    assert_eq!(v.as_object().unwrap().len(), 7);
    assert_eq!(v["room_id"], "!r");
    assert_eq!(v["event_id"], "$e\"\n");
    assert_eq!(v["encrypted"], true);
    assert_eq!(v["members"], 2);
    assert_eq!(v["recipients"], 3);
    assert_eq!(v["members_without_devices"].as_array().unwrap().len(), 2);
    assert_eq!(v["members_without_devices"][1], "@b:x");
    assert_eq!(v["identity_fingerprint"], "f0");
    assert!(!sent_json(&r, "f0").contains('\n'), "a report is one line");

    let w = WhoAmI {
        homeserver: "https://h".into(),
        user_id: "@ci:x".into(),
        device_id: "DEV".into(),
        device_name: None,
        cross_signed: Some(false),
        has_cross_signing_keys: true,
        joined_rooms: vec![],
        server_ok: false,
    };
    let v: serde_json::Value = serde_json::from_str(&whoami_json(&w, "f1")).unwrap();
    assert_eq!(v.as_object().unwrap().len(), 9);
    assert_eq!(v["homeserver"], "https://h");
    assert_eq!(v["user_id"], "@ci:x");
    assert_eq!(v["device_id"], "DEV");
    assert!(v["device_name"].is_null());
    assert_eq!(v["cross_signed"], false);
    assert_eq!(v["has_cross_signing_keys"], true);
    assert_eq!(v["joined_rooms"].as_array().unwrap().len(), 0);
    assert_eq!(v["server_ok"], false);
    assert_eq!(v["identity_fingerprint"], "f1");
    let named = WhoAmI { device_name: Some("bot".into()), cross_signed: None, ..w };
    let v: serde_json::Value = serde_json::from_str(&whoami_json(&named, "")).unwrap();
    assert_eq!(v["device_name"], "bot");
    assert!(v["cross_signed"].is_null());

    assert_eq!(
        SecretsClient::update_body("AA==", "k\"1"),
        "{\"encrypted_value\":\"AA==\",\"key_id\":\"k\\\"1\"}"
    );
}

#[test]
fn commands_and_the_store() {
    let all = [Command::Login, Command::Send, Command::Whoami, Command::CrossSign];
    assert_eq!(all.map(|c| c.forces_sync()), [false, true, false, false]);
    assert_eq!(all.map(|c| c.keeps_sessions()), [true, false, true, true]);
    assert_eq!(all.map(|c| c.before_open(true).len()), [0, 3, 0, 0]);
    assert_eq!(Command::Send.before_open(false).len(), 0);
}

#[test]
fn state_export_import_via_cli() {
    let refused = StateKey::from_hex("abc").err().unwrap();
    assert!(matches!(refused, StateError::KeyLength(3)));
    assert!(refused.message("").contains("64 hex characters"));
    let key = StateKey::from_hex(&"0f".repeat(32)).ok().unwrap();
    let session = Session {
        homeserver: "http://127.0.0.1:1".into(),
        server_name: "example.org".into(),
        user_id: "@ci:example.org".into(),
        device_id: "ABCDEFGH".into(),
        access_token: "syt_fake".into(),
        refresh_token: None,
    };
    let files = store_files(|name: &str| match name {
        "session.json" => Some(session_file(&session)),
        "matrix-sdk-state.sqlite3" => Some(Vec::new()),
        _ => Some(b"SQLite format 3\0".to_vec()),
    });
    let blob = export(&files, &key).unwrap();
    assert!(!blob.contains("syt_fake"), "export must be ciphertext");

    let got = import_state(&key, output_line(&blob).as_bytes()).ok().unwrap();
    assert_eq!(imported_text(got.files.len(), "dst"), "imported 3 file(s) into dst");
    assert_eq!(got.files[0].name, b"session.json");
    for (back, file) in got.files.iter().zip(&files) {
        assert_eq!(back.name, file.name.as_bytes());
        assert_eq!(Some(&back.contents), file.contents.as_ref());
    }
    let imported = session_in(&got.files[0].contents);
    assert_eq!(imported.identity_fingerprint(), session.identity_fingerprint());

    // Wrong key: clean error, nothing to write.
    let wrong = StateKey::from_hex(&"ee".repeat(32)).ok().unwrap();
    match import_state(&wrong, blob.as_bytes()) {
        Err(ImportError::State(e)) => {
            assert!(e.message("").contains("wrong key or tampered"));
            assert!(matches!(e, StateError::Authentication));
        }
        _ => panic!("must not open"),
    }

    // Empty secret: explicit message.
    assert!(matches!(import_state(&key, b"\n"), Err(ImportError::Empty)));
    assert!(EMPTY_STATE_INPUT.contains("empty state input"));
}

#[test]
fn blank_input() {
    assert!(is_blank_input(b""));
    assert!(is_blank_input(b" \t\r\n\x0c"));
    assert!(!is_blank_input(b"\x0b"));
    assert!(!is_blank_input(b" x "));
}

#[test]
fn whoami_is_told() {
    let w = WhoAmI {
        homeserver: "https://h".into(),
        user_id: "@ci:x".into(),
        device_id: "DEV".into(),
        device_name: Some("bot".into()),
        cross_signed: Some(true),
        has_cross_signing_keys: true,
        joined_rooms: vec!["!a".into(), "!b".into(), "!c".into()],
        server_ok: true,
    };
    assert_eq!(
        whoami_lines(&w),
        [
            "homeserver:    https://h",
            "user:          @ci:x",
            "device:        DEV (bot)",
            "cross-signed:  yes",
            "signing keys:  present",
            "server check:  ok",
            "rooms:         !a, !b, !c",
        ]
    );
    let w = WhoAmI {
        device_name: None,
        cross_signed: None,
        has_cross_signing_keys: false,
        joined_rooms: vec![],
        server_ok: false,
        ..w
    };
    let lines = whoami_lines(&w);
    assert_eq!(lines[2], "device:        DEV (no display name)");
    assert_eq!(lines[3], "cross-signed:  unknown");
    assert_eq!(lines[4], "signing keys:  absent");
    assert_eq!(lines[5], "server check:  FAILED (token rejected?)");
    assert_eq!(lines[6], "rooms:         -");
    let w = WhoAmI { cross_signed: Some(false), joined_rooms: vec!["!a".into()], ..w };
    assert_eq!(whoami_lines(&w)[3], "cross-signed:  no");
    assert_eq!(whoami_lines(&w)[6], "rooms:         !a");
    assert_eq!(whoami_outcome(true), Ok(()));
    assert_eq!(whoami_outcome(false), Err("homeserver rejected the session token"));
}

#[test]
fn github_secret_via_cli() {
    assert_eq!(github_token("GH_TOKEN", Some(" ghp_test\n")).ok().unwrap(), "ghp_test");
    for value in [None, Some(""), Some("  ")] {
        match github_token("GH_TOKEN", value) {
            Err(e) => assert!(e.message().contains("GH_TOKEN is not set")),
            Ok(_) => panic!("must be refused"),
        }
    }
    assert_eq!(secret_value("bmV3\n").ok().unwrap(), "bmV3");
    assert!(matches!(secret_value("\r\n"), Err(SecretError::ValueEmpty)));
    assert_eq!(SecretError::ValueEmpty.message(), "refusing to store an empty secret");
}
