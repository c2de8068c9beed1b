use base64::Engine;
use chacha20poly1305::aead::{Aead, KeyInit, Payload};
use chacha20poly1305::{Key, XChaCha20Poly1305, XNonce};
use flate2::write::GzEncoder;
use flate2::Compression;
use matrix_notify::archive::ArchiveEntry;
use matrix_notify::state::{
    archive_text, export, file_name, import, open, pack, seal, seal_with, store_files, unpack, unpack_entries, StateError, StateKey, StoreFile,
    HEADER_LEN, MAGIC,
};
use matrix_notify::store::EXPORTED_FILES;

const TAG_LEN: usize = 16;

fn key() -> StateKey {
    StateKey::from_hex(&"ab".repeat(32)).unwrap_or_else(|_| panic!("a key"))
}

fn other_key() -> StateKey {
    StateKey::from_hex(&"cd".repeat(32)).unwrap_or_else(|_| panic!("a key"))
}

fn refusal(key: &StateKey, blob: &[u8]) -> StateError {
    match open(key, blob) {
        Ok(_) => panic!("must not open"),
        Err(e) => e,
    }
}

fn file(name: &str, contents: &[u8]) -> StoreFile {
    StoreFile { name: name.to_owned(), contents: Some(contents.to_vec()) }
}

#[test]
fn key_parsing() {
    assert!(StateKey::from_hex("abc").is_err());
    assert!(StateKey::from_hex(&"zz".repeat(32)).is_err());
    let k = StateKey::from_hex(&format!("  {}\n", "01".repeat(32))).ok().unwrap();
    assert_eq!(k.to_hex().as_str(), "01".repeat(32));
    let g = StateKey::generate().ok().unwrap();
    assert_ne!(g.to_hex().as_str(), k.to_hex().as_str());
}

#[test]
fn key_errors() {
    assert!(matches!(StateKey::from_hex("abc"), Err(StateError::KeyLength(3))));
    assert!(matches!(StateKey::from_hex(&"zz".repeat(32)), Err(StateError::KeyHex)));
    assert!(matches!(StateKey::from_hex(&"é".repeat(32)), Err(StateError::KeyHex)));
    let mixed = StateKey::from_hex(&"aB".repeat(32)).ok().unwrap();
    assert_eq!(mixed.to_hex().as_str(), "ab".repeat(32));
    assert_eq!(mixed.debug_text(), "StateKey(..)");
}

#[test]
fn error_texts() {
    let said = |e: StateError, shown: &str| e.message(shown);
    assert_eq!(
        said(StateError::KeyLength(3), ""),
        "state key must be 64 hex characters (32 bytes); got 3 characters"
    );
    assert_eq!(said(StateError::KeyHex, ""), "state key is not valid hex");
    assert_eq!(said(StateError::BadMagic, ""), "input is not a matrix-notify state archive (bad magic)");
    assert_eq!(said(StateError::Truncated, ""), "state archive is truncated");
    assert_eq!(
        said(StateError::Authentication, "x"),
        "state archive failed authentication: wrong key or tampered data"
    );
    assert_eq!(
        said(StateError::Base64(base64::DecodeError::InvalidPadding), "why"),
        "state archive is not valid base64: why"
    );
    assert_eq!(
        said(StateError::UnsafePath(b"a/b".to_vec()), "\"a/b\""),
        "archive entry \"a/b\" escapes the store directory"
    );
    assert_eq!(
        said(StateError::NotAFile(b"l".to_vec()), "\"l\""),
        "archive entry \"l\" is not a regular file"
    );
    assert_eq!(said(StateError::TooLarge, ""), "archive is larger than the 268435456-byte limit");
    assert_eq!(said(StateError::Io(std::io::Error::other("disk")), "disk"), "disk");
}

#[test]
fn keygen_is_64_hex() {
    let k = StateKey::generate().ok().unwrap();
    let hex = k.to_hex();
    let s = hex.as_str();
    assert_eq!(s.trim().len(), 64);
    assert!(s.trim().chars().all(|c| c.is_ascii_hexdigit()));
    let back = StateKey::from_hex(s).ok().unwrap();
    assert_eq!(back.to_hex().as_str(), s);
}

#[test]
fn seal_open_round_trip() {
    let blob = seal(&key(), b"hello").unwrap();
    assert_eq!(&blob[..4], &MAGIC);
    assert_eq!(blob.len(), HEADER_LEN + 5 + TAG_LEN);
    let plain = open(&key(), &blob).ok().unwrap();
    assert_eq!(plain.as_slice(), b"hello");
    assert_eq!(plain.as_slice().len(), blob.len() - HEADER_LEN - TAG_LEN);
}

#[test]
fn tamper_anywhere_is_rejected() {
    let blob = seal(&key(), b"hello world").unwrap();
    for i in 0..blob.len() {
        let mut t = blob.clone();
        t[i] ^= 0x01;
        let err = refusal(&key(), &t);
        if i < MAGIC.len() {
            assert!(matches!(err, StateError::BadMagic), "byte {i}: {err:?}");
        } else {
            assert!(matches!(err, StateError::Authentication), "byte {i}: {err:?}");
        }
    }
    let mut short = blob.clone();
    short.truncate(HEADER_LEN + 3);
    assert!(matches!(refusal(&key(), &short), StateError::Truncated));
}

#[test]
fn wrong_key_is_rejected() {
    let blob = seal(&key(), b"hello").unwrap();
    assert!(matches!(refusal(&other_key(), &blob), StateError::Authentication));
}

#[test]
fn short_input_is_truncated() {
    assert!(matches!(refusal(&key(), b""), StateError::Truncated));
    assert!(matches!(refusal(&key(), b"MNS"), StateError::Truncated));
    assert!(matches!(refusal(&key(), b"MNS2"), StateError::BadMagic));
    assert!(matches!(refusal(&key(), b"MNS1"), StateError::Truncated));
}

#[test]
fn sealing_is_decided_by_key_salt_nonce_and_text() {
    let blob = seal_with(&key(), &[7u8; 32], &[9u8; 24], b"hello").unwrap();
    assert_eq!(blob, seal_with(&key(), &[7u8; 32], &[9u8; 24], b"hello").unwrap());
    assert_eq!(&blob[..4], b"MNS1");
    assert_eq!(&blob[4..36], &[7u8; 32]);
    assert_eq!(&blob[36..60], &[9u8; 24]);
    assert_ne!(&blob[60..65], b"hello");
    assert_ne!(blob, seal_with(&key(), &[8u8; 32], &[9u8; 24], b"hello").unwrap());
    assert_ne!(blob, seal_with(&other_key(), &[7u8; 32], &[9u8; 24], b"hello").unwrap());
    assert_eq!(open(&key(), &blob).ok().unwrap().as_slice(), b"hello");
}

#[test]
fn salt_and_nonce_are_fresh() {
    let a = seal(&key(), b"x").unwrap();
    let b = seal(&key(), b"x").unwrap();
    assert_ne!(&a[4..36], &b[4..36]);
    assert_ne!(&a[36..60], &b[36..60]);
}

#[test]
fn export_import_round_trip() {
    let contents = |name: &str| match name {
        "session.json" => Some(b"{\"a\":1}".to_vec()),
        "matrix-sdk-crypto.sqlite3" => Some(vec![7u8; 10_000]),
        "matrix-sdk-state.sqlite3" => Some(vec![0u8; 50_000]),
        "matrix-sdk-event-cache.sqlite3" => Some(b"not exported".to_vec()),
        _ => None,
    };
    let files: Vec<StoreFile> = store_files(contents);
    assert_eq!(files.iter().map(|f| f.name.as_str()).collect::<Vec<_>>(), EXPORTED_FILES);

    let b64 = export(&files, &key()).unwrap();
    assert!(b64.len() < 8_000, "zero pages must compress: {}", b64.len());
    assert!(b64.starts_with("TU5TM"));

    let got = import(&key(), format!("{b64}\n").as_bytes()).ok().unwrap();
    assert!(got.outcome.is_ok());
    let written: Vec<String> = got.files.iter().map(|f| f.display_name()).collect();
    assert_eq!(written, ["session.json", "matrix-sdk-state.sqlite3", "matrix-sdk-crypto.sqlite3"]);
    assert_eq!(got.files[0].contents, b"{\"a\":1}");
    assert_eq!(got.files[2].contents, vec![7u8; 10_000]);
    assert!(!written.contains(&"matrix-sdk-event-cache.sqlite3".to_owned()));

    // Raw binary input is accepted too.
    let raw = base64::engine::general_purpose::STANDARD.decode(&b64).unwrap();
    assert_eq!(import(&key(), &raw).ok().unwrap().files.len(), 3);

    // It opens to what packing gives, and so does another export.
    let tgz = pack(&files).unwrap();
    assert_eq!(open(&key(), &raw).ok().unwrap().as_slice(), tgz);
    let again = export(&files, &key()).unwrap();
    assert_ne!(again, b64);
    let again = base64::engine::general_purpose::STANDARD.decode(&again).unwrap();
    assert_eq!(open(&key(), &again).ok().unwrap().as_slice(), tgz);

    // A flipped byte inside the base64 payload is a clean error, not a partial write.
    let mut bad = raw.clone();
    let last = bad.len() - 1;
    bad[last] ^= 0x80;
    assert!(matches!(import(&key(), &bad), Err(StateError::Authentication)));
}

#[test]
fn white_space_anywhere_in_the_text_is_tolerated() {
    let b64 = export(&vec![file("session.json", b"x")], &key()).unwrap();
    let spread: String = b64.chars().flat_map(|c| [c, '\r', '\n', ' ', '\t']).collect();
    let got = import(&key(), spread.as_bytes()).ok().unwrap();
    assert_eq!(got.files[0].contents, b"x");
    // A vertical tab is no ASCII white space.
    assert!(matches!(import(&key(), format!("{b64}\u{b}").as_bytes()), Err(StateError::Base64(_))));
}

#[test]
fn text_that_is_no_base64() {
    for bad in ["!", "TU5T", "TU5TM", "TU5TMQ", "TU5TMR=="] {
        let r = import(&key(), bad.as_bytes());
        match bad {
            "TU5T" => assert!(matches!(r, Err(StateError::Truncated))),
            _ => assert!(matches!(r, Err(StateError::Base64(_))), "{bad}"),
        }
    }
    assert!(matches!(import(&key(), b"TU5TMQ=="), Err(StateError::Truncated)));
    assert!(matches!(import(&key(), b"AAAAAA=="), Err(StateError::BadMagic)));
    assert!(matches!(
        import(&key(), b"T!"),
        Err(StateError::Base64(base64::DecodeError::InvalidByte(1, b'!')))
    ));
}

#[test]
fn pack_is_deterministic() {
    let files = || vec![file("session.json", b"x")];
    let a = pack(&files()).unwrap();
    let b = pack(&files()).unwrap();
    assert_eq!(a, b);
}

#[test]
fn pack_has_fixed_metadata() {
    let tgz = pack(&vec![file("session.json", b"xyz"), file("b", b"")]).unwrap();
    let mut archive = tar::Archive::new(flate2::read::GzDecoder::new(&tgz[..]));
    let mut names = Vec::new();
    for entry in archive.entries().unwrap() {
        let entry = entry.unwrap();
        let h = entry.header();
        assert_eq!(h.mode().unwrap(), 0o600);
        assert_eq!(h.mtime().unwrap(), 0);
        assert_eq!(h.uid().unwrap(), 0);
        assert_eq!(h.gid().unwrap(), 0);
        assert_eq!(h.entry_type(), tar::EntryType::Regular);
        names.push(entry.path().unwrap().to_string_lossy().into_owned());
    }
    assert_eq!(names, ["session.json", "b"]);
}

#[test]
fn missing_files_are_skipped() {
    let missing = StoreFile { name: "gone".to_owned(), contents: None };
    let tgz = pack(&vec![missing, file("b", b"1")]).unwrap();
    let got = unpack(&tgz);
    assert!(got.outcome.is_ok());
    assert_eq!(got.files.len(), 1);
    assert_eq!(got.files[0].name, b"b");
    assert_eq!(got.files[0].contents, b"1");
    assert_eq!(got.files[0].temporary_name(), ".b.tmp");
}

#[test]
fn unpacking_gives_long_names_back() {
    for len in [99, 100, 101, 510, 511, 512, 513, 5000] {
        let name = "n".repeat(len);
        let tgz = pack(&vec![file("first", b"1"), file(&name, b"2"), file("last", b"3")]).unwrap();
        let got = unpack(&tgz);
        assert!(got.outcome.is_ok());
        let names: Vec<&[u8]> = got.files.iter().map(|f| f.name.as_slice()).collect();
        assert_eq!(names, [&b"first"[..], name.as_bytes(), &b"last"[..]]);
        assert_eq!(got.files[1].contents, b"2");
    }
    // Where the header's hundred bytes end in the middle of a character.
    let name = format!("{}{}", "n".repeat(99), "é".repeat(20));
    let got = unpack(&pack(&vec![file(&name, b"2")]).unwrap());
    assert_eq!(got.files[0].name, name.as_bytes());
    assert!(matches!(pack(&vec![file("a\0b", b"")]), Err(StateError::Io(_))));
}

#[test]
fn archive_lengths_before_compression() {
    for (name, contents, expected) in [(1, 0, 1536), (100, 512, 2048), (101, 513, 3584), (511, 1, 3072), (512, 1, 3584)] {
        let tgz = pack(&vec![file(&"n".repeat(name), &vec![7u8; contents])]).unwrap();
        let mut tar = Vec::new();
        std::io::Read::read_to_end(&mut flate2::read::GzDecoder::new(&tgz[..]), &mut tar).unwrap();
        assert_eq!(tar.len(), expected, "{name} {contents}");
    }
}

#[test]
fn pack_refuses_names_that_leave_the_directory() {
    assert!(matches!(pack(&vec![file("../x", b"")]), Err(StateError::Io(_))));
    assert!(matches!(pack(&vec![file("/x", b"")]), Err(StateError::Io(_))));
}

#[test]
fn unpack_rejects_path_escape() {
    let mut tar = tar::Builder::new(GzEncoder::new(Vec::new(), Compression::fast()));
    let data = b"evil";
    let mut h = tar::Header::new_gnu();
    h.set_size(data.len() as u64);
    h.set_mode(0o644);
    h.set_cksum();
    tar.append_data(&mut h, "nested/escape", &data[..]).unwrap();
    let tgz = tar.into_inner().unwrap().finish().unwrap();
    match unpack(&tgz).outcome {
        Err(StateError::UnsafePath(p)) => assert_eq!(p, b"nested/escape"),
        _ => panic!("must be unsafe"),
    }

    let mut tar = tar::Builder::new(GzEncoder::new(Vec::new(), Compression::fast()));
    let mut h = tar::Header::new_gnu();
    h.set_size(0);
    h.set_entry_type(tar::EntryType::Symlink);
    h.set_cksum();
    tar.append_link(&mut h, "link", "/etc/passwd").unwrap();
    let tgz = tar.into_inner().unwrap().finish().unwrap();
    match unpack(&tgz).outcome {
        Err(StateError::NotAFile(p)) => assert_eq!(p, b"link"),
        _ => panic!("must not be a file"),
    }
}

#[test]
fn files_before_a_fault_are_kept() {
    let mut tar = tar::Builder::new(GzEncoder::new(Vec::new(), Compression::fast()));
    for name in ["good", "bad/name", "late"] {
        let mut h = tar::Header::new_gnu();
        h.set_size(1);
        tar.append_data(&mut h, name, &b"1"[..]).unwrap();
    }
    let tgz = tar.into_inner().unwrap().finish().unwrap();
    let got = unpack(&tgz);
    assert_eq!(got.files.len(), 1);
    assert_eq!(got.files[0].name, b"good");
    assert!(matches!(got.outcome, Err(StateError::UnsafePath(_))));
}

#[test]
fn damaged_archives_are_errors() {
    assert!(matches!(unpack(b"no gzip").outcome, Err(StateError::Io(_))));
    let tgz = pack(&vec![file("a", &vec![1u8; 4000])]).unwrap();
    assert!(matches!(unpack(&tgz[..30]).outcome, Err(StateError::Io(_))));
}

#[test]
fn plain_file_names() {
    let name = |p: &str| file_name(p.as_bytes()).map(|n| String::from_utf8(n).unwrap());
    assert_eq!(name("a").as_deref(), Some("a"));
    assert_eq!(name("a/").as_deref(), Some("a"));
    assert_eq!(name("a//./.").as_deref(), Some("a"));
    assert_eq!(name(".a").as_deref(), Some(".a"));
    assert_eq!(name("...").as_deref(), Some("..."));
    for bad in ["", ".", "..", "/", "/a", "./a", "../a", "a/b", "a/..", "a/...", "a/.b", "a/./b"] {
        assert_eq!(name(bad), None, "{bad}");
    }
}

#[test]
fn archives_as_text() {
    let blob = seal_with(&key(), &[1u8; 32], &[2u8; 24], b"").unwrap();
    let text = archive_text(&blob);
    assert!(text.starts_with("TU5TMQEB"));
    assert_eq!(base64::engine::general_purpose::STANDARD.decode(text).unwrap(), blob);
    assert_eq!(archive_text(b"\xff\xef\xfe"), "/+/+");
}

#[test]
fn archive_layout_by_hand() {
    let (salt, nonce) = ([3u8; 32], [4u8; 24]);
    let mut okm = [0u8; 32];
    hkdf::Hkdf::<sha2::Sha256>::new(Some(&salt), &[0xabu8; 32])
        .expand(b"matrix-notify/state/v1", &mut okm)
        .unwrap();
    let mut expected = b"MNS1".to_vec();
    expected.extend_from_slice(&salt);
    expected.extend_from_slice(&nonce);
    let ct = XChaCha20Poly1305::new(Key::from_slice(&okm))
        .encrypt(XNonce::from_slice(&nonce), Payload { msg: b"hello", aad: &expected })
        .unwrap();
    expected.extend_from_slice(&ct);
    assert_eq!(seal_with(&key(), &salt, &nonce, b"hello").unwrap(), expected);
}

#[test]
fn how_unpacking_ends() {
    let entry = |path: &str, contents: Result<&[u8], ()>| {
        Ok(ArchiveEntry::File {
            path: path.as_bytes().to_vec(),
            contents: contents.map(<[u8]>::to_vec).map_err(|_| std::io::Error::other("damaged")),
        })
    };
    assert!(unpack_entries(vec![], 1).outcome.is_ok());
    assert!(matches!(unpack_entries(vec![], 0).outcome, Err(StateError::TooLarge)));
    let got = unpack_entries(vec![entry("a", Ok(b"1")), entry("b/", Ok(b"2"))], 0);
    assert!(matches!(got.outcome, Err(StateError::TooLarge)));
    assert_eq!(got.files.len(), 2);
    assert_eq!((got.files[1].name.as_slice(), got.files[1].contents.as_slice()), (&b"b"[..], &b"2"[..]));
    let got = unpack_entries(vec![entry("a", Ok(b"1")), entry("b", Err(()))], 9);
    assert!(matches!(got.outcome, Err(StateError::Io(_))));
    assert_eq!(got.files.len(), 1);
    // An unsafe name counts before contents that cannot be read.
    let got = unpack_entries(vec![entry("../b", Err(()))], 9);
    assert!(matches!(got.outcome, Err(StateError::UnsafePath(_))));
    let got = unpack_entries(vec![Ok(ArchiveEntry::Other { path: b"../d".to_vec() })], 9);
    assert!(matches!(got.outcome, Err(StateError::NotAFile(_))));
    let got = unpack_entries(vec![Err(std::io::Error::other("damaged")), entry("a", Ok(b""))], 9);
    assert!(matches!(got.outcome, Err(StateError::Io(_))));
    assert_eq!(got.files.len(), 0);
}
