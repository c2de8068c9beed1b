use matrix_notify::store::{
    before_open, compact, has_session, hygiene, prepare_export, resolve_dir, slim, Deletion, Session,
    COMPACT_SQL, CRYPTO_DB, STATE_DB,
};
use rusqlite::Connection;
use sha2::Digest;

fn session() -> Session {
    Session {
        homeserver: "https://chat.example.org".into(),
        server_name: "example.org".into(),
        user_id: "@ci:example.org".into(),
        device_id: "ABCDEFGH".into(),
        access_token: "syt_secret".into(),
        refresh_token: None,
    }
}

/// `session.json` as a store holds it.
fn session_file(s: &Session) -> Vec<u8> {
    let mut map = serde_json::Map::new();
    for (name, value) in [
        ("homeserver", &s.homeserver),
        ("server_name", &s.server_name),
        ("user_id", &s.user_id),
        ("device_id", &s.device_id),
        ("access_token", &s.access_token),
    ] {
        map.insert(name.to_owned(), serde_json::Value::String(value.clone()));
    }
    if let Some(t) = &s.refresh_token {
        map.insert("refresh_token".to_owned(), serde_json::Value::String(t.clone()));
    }
    let mut bytes = serde_json::to_vec_pretty(&map).unwrap();
    bytes.push(b'\n');
    bytes
}

/// The session in the contents of `session.json`.
fn session_in(bytes: &[u8]) -> Session {
    let v: serde_json::Value = serde_json::from_slice(bytes).unwrap();
    let text = |name: &str| v[name].as_str().unwrap().to_owned();
    Session {
        homeserver: text("homeserver"),
        server_name: text("server_name"),
        user_id: text("user_id"),
        device_id: text("device_id"),
        access_token: text("access_token"),
        refresh_token: v["refresh_token"].as_str().map(str::to_owned),
    }
}

fn run(conn: &Connection, list: &[Deletion]) -> rusqlite::Result<usize> {
    let mut removed = 0;
    for d in list {
        removed += match &d.keep {
            Some(user) => conn.execute(&d.sql(), [user])?,
            None => conn.execute(&d.sql(), [])?,
        };
    }
    Ok(removed)
}

fn count(conn: &Connection, sql: &str) -> i64 {
    conn.query_row(sql, [], |r| r.get(0)).unwrap()
}

#[test]
fn resolve_dir_precedence() {
    let flag: &[u8] = b"/x/flag";
    assert_eq!(resolve_dir(Some(flag), Some(b"/env"), Some(b"/home/u")).unwrap(), b"/x/flag");
    assert_eq!(resolve_dir(None, Some(b"/env"), Some(b"/home/u")).unwrap(), b"/env");
    assert_eq!(resolve_dir(None, Some(b""), Some(b"/home/u")).unwrap(), b"/home/u/.matrix-notify");
    let d = resolve_dir(None, None, Some(b"/home/u/")).unwrap();
    assert_eq!(d, b"/home/u/.matrix-notify");
    assert!(d.starts_with(b"/"));
    let none = resolve_dir(None, Some(b""), None).unwrap_err();
    assert_eq!(
        none.message(),
        "cannot determine home directory; pass --store or set MATRIX_NOTIFY_HOME"
    );
}

#[test]
fn session_paths() {
    assert_eq!(Session::path(b"/x"), b"/x/session.json");
    assert_eq!(Session::path(b"/x/"), b"/x/session.json");
    assert_eq!(Session::path(b""), b"session.json");
    assert!(has_session(b"/x", |p: &[u8]| p == b"/x/session.json"));
    assert!(!has_session(b"/y", |p: &[u8]| p == b"/x/session.json"));
}

#[test]
fn session_round_trip_and_redaction() {
    let s = session();
    let back = session_in(&session_file(&s));
    assert_eq!(back.access_token, "syt_secret");
    assert_eq!(back.identity_fingerprint(), s.identity_fingerprint());
    let dbg = back.debug_text();
    assert!(!dbg.contains("syt_secret"));
    assert!(dbg.contains("<redacted>"));

    let mut rotated = back.clone();
    rotated.access_token = "syt_other".into();
    assert_ne!(rotated.identity_fingerprint(), s.identity_fingerprint());
}

#[test]
fn debug_text_in_full() {
    let mut s = session();
    s.device_id = "a\"b".into();
    assert_eq!(
        s.debug_text(),
        "Session { homeserver: \"https://chat.example.org\", user_id: \"@ci:example.org\", \
         device_id: \"a\\\"b\", access_token: \"<redacted>\", refresh_token: None }"
    );
    s.refresh_token = Some("r".into());
    assert!(s.debug_text().ends_with("refresh_token: Some(\"<redacted>\") }"));
}

#[test]
fn fingerprint_in_full() {
    let mut s = session();
    s.homeserver = "h".into();
    s.user_id = "".into();
    s.device_id = "dd".into();
    s.access_token = "é".into();
    let mut h = sha2::Sha256::new();
    for part in ["h", "", "dd", "é", ""] {
        h.update((part.len() as u64).to_be_bytes());
        h.update(part.as_bytes());
    }
    let f = s.identity_fingerprint();
    assert_eq!(f, hex::encode(h.finalize()));
    assert_eq!(f.len(), 64);
    let input = s.identity_input();
    assert_eq!(&input[..9], &[0, 0, 0, 0, 0, 0, 0, 1, b'h']);
    assert_eq!(&input[input.len() - 8..], &[0; 8]);
    assert_eq!(input.len(), 5 * 8 + 5);
}

#[test]
fn fingerprint_covers_the_identity_only() {
    let s = session();
    let f = s.identity_fingerprint();
    let mut t = session();
    t.server_name = "other.org".into();
    assert_eq!(t.identity_fingerprint(), f);
    t.refresh_token = Some("r".into());
    assert_eq!(t.identity_fingerprint(), f);
    for i in 0..4 {
        let mut t = session();
        match i {
            0 => t.homeserver.push('x'),
            1 => t.user_id.push('x'),
            2 => t.device_id.push('x'),
            _ => t.access_token.push('x'),
        }
        assert_ne!(t.identity_fingerprint(), f);
    }
    // What moves from one field to the next does not go unnoticed.
    let mut moved = session();
    moved.user_id = "@ci:example.orgA".into();
    moved.device_id = "BCDEFGH".into();
    assert_ne!(moved.identity_fingerprint(), f);
}

#[test]
fn tokens_are_adopted_when_they_differ() {
    let mut s = session();
    assert!(!s.adopt_tokens("syt_secret".into(), None));
    assert!(s.adopt_tokens("syt_new".into(), None));
    assert_eq!(s.access_token, "syt_new");
    let f = s.identity_fingerprint();
    assert!(s.adopt_tokens("syt_new".into(), Some("r".into())));
    assert_eq!(s.refresh_token.as_deref(), Some("r"));
    assert_eq!(s.identity_fingerprint(), f, "a refresh token is no part of the identity");
    assert!(!s.adopt_tokens("syt_new".into(), Some("r".into())));
    assert_eq!(s.user_id, "@ci:example.org");
}

const CONVERSATION: &str = r#"
    CREATE TABLE "kv" ("key" TEXT PRIMARY KEY NOT NULL, "value" BLOB NOT NULL);
    CREATE TABLE "session" ("session_id" BLOB PRIMARY KEY NOT NULL, "sender_key" BLOB NOT NULL, "data" BLOB NOT NULL);
    CREATE TABLE "outbound_group_session" ("room_id" BLOB PRIMARY KEY NOT NULL, "data" BLOB NOT NULL);
    CREATE TABLE "tracked_user" ("user_id" BLOB PRIMARY KEY NOT NULL, "data" BLOB NOT NULL);
    INSERT INTO kv VALUES ('account', x'01');
    INSERT INTO session VALUES (x'01', x'02', x'03');
    INSERT INTO session VALUES (x'04', x'05', x'06');
    INSERT INTO outbound_group_session VALUES (x'07', x'08');
    INSERT INTO tracked_user VALUES (x'09', x'0a');
"#;

const CACHES: &str = r#"
    CREATE TABLE "device" ("user_id" BLOB NOT NULL, "device_id" BLOB NOT NULL, "data" BLOB NOT NULL, PRIMARY KEY ("user_id", "device_id"));
    CREATE TABLE "identity" ("user_id" BLOB PRIMARY KEY NOT NULL, "data" BLOB NOT NULL);
    INSERT INTO device VALUES (CAST('@ci:example.org' AS BLOB), x'01', x'00');
    INSERT INTO device VALUES (CAST('@alice:example.org' AS BLOB), x'02', x'00');
    INSERT INTO device VALUES (CAST('@alice:example.org' AS BLOB), x'03', x'00');
    INSERT INTO identity VALUES (CAST('@ci:example.org' AS BLOB), x'00');
    INSERT INTO identity VALUES (CAST('@alice:example.org' AS BLOB), x'00');
"#;

#[test]
fn hygiene_clears_conversation_tables_only() {
    let conn = Connection::open_in_memory().unwrap();
    conn.execute_batch(CONVERSATION).unwrap();

    assert_eq!(run(&conn, &hygiene(true)).unwrap(), 4);
    assert_eq!(count(&conn, "SELECT count(*) FROM session"), 0);
    assert_eq!(count(&conn, "SELECT count(*) FROM kv"), 1, "identity rows must survive");

    // Missing store: nothing to do, not an error.
    assert_eq!(hygiene(false).len(), 0);
}

#[test]
fn slim_keeps_only_own_rows() {
    let conn = Connection::open_in_memory().unwrap();
    conn.execute_batch(CACHES).unwrap();
    assert_eq!(run(&conn, &slim(true, "@ci:example.org")).unwrap(), 3);
    assert_eq!(count(&conn, "SELECT count(*) FROM device"), 1);
    assert_eq!(count(&conn, "SELECT count(*) FROM identity"), 1);
    assert_eq!(slim(false, "@ci:example.org").len(), 0);
}

#[test]
fn hygiene_fails_loudly_on_schema_drift() {
    let conn = Connection::open_in_memory().unwrap();
    conn.execute_batch(r#"CREATE TABLE "kv" ("key" TEXT PRIMARY KEY, "value" BLOB);"#).unwrap();
    let err = run(&conn, &hygiene(true)).unwrap_err().to_string();
    assert!(err.contains("session"), "{err}");
}

#[test]
fn export_is_prepared_in_order_and_idempotently() {
    let plan = prepare_export(&session(), true, true);
    let sql: Vec<String> = plan.deletions.iter().map(|d| d.sql()).collect();
    assert_eq!(
        sql,
        [
            "DELETE FROM \"session\"",
            "DELETE FROM \"outbound_group_session\"",
            "DELETE FROM \"tracked_user\"",
            "DELETE FROM \"device\" WHERE user_id != ?1",
            "DELETE FROM \"identity\" WHERE user_id != ?1",
        ]
    );
    assert_eq!(plan.compact, [STATE_DB, CRYPTO_DB]);

    let conn = Connection::open_in_memory().unwrap();
    conn.execute_batch(CONVERSATION).unwrap();
    conn.execute_batch(CACHES).unwrap();
    assert_eq!(run(&conn, &plan.deletions).unwrap(), 7);
    conn.execute_batch(COMPACT_SQL).unwrap();
    assert_eq!(run(&conn, &plan.deletions).unwrap(), 0);

    let bare = prepare_export(&session(), false, false);
    assert_eq!(bare.deletions.len() + bare.compact.len(), 0);
}

#[test]
fn compacting_only_what_is_there() {
    assert_eq!(compact(true, false), [STATE_DB]);
    assert_eq!(compact(false, true), [CRYPTO_DB]);
}

#[test]
fn a_client_that_keeps_sessions_changes_nothing() {
    assert_eq!(before_open(true, true).len(), 0);
    assert_eq!(before_open(false, true).len(), 3);
    assert_eq!(before_open(false, false).len(), 0);
}
