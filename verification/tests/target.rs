use matrix_notify::target::RoomTarget;

#[test]
fn alias() {
    let t = RoomTarget::parse(" #ci:hippius.com\n").unwrap();
    assert_eq!(t, RoomTarget::Alias("#ci:hippius.com".parse().unwrap()));
    assert_eq!(t.describe(), "#ci:hippius.com");
}

#[test]
fn room_id() {
    let t = RoomTarget::parse("!abcDEF:hippius.com").unwrap();
    assert!(
        matches!(t, RoomTarget::Id { ref room_id, ref via } if room_id == "!abcDEF:hippius.com" && via.is_empty())
    );
}

#[test]
fn permalinks() {
    let t = RoomTarget::parse("https://matrix.to/#/%23ci%3Ahippius.com").unwrap();
    assert_eq!(t.describe(), "#ci:hippius.com");
    let t = RoomTarget::parse("https://matrix.to/#/%23ci%3ahippius.com?via=hippius%2Ecom").unwrap();
    assert_eq!(t.describe(), "#ci:hippius.com");
    let t =
        RoomTarget::parse("https://matrix.to/#/!abc:hippius.com?via=hippius.com&via=matrix.org").unwrap();
    match t {
        RoomTarget::Id { room_id, via } => {
            assert_eq!(room_id, "!abc:hippius.com");
            assert_eq!(
                via.iter().map(ToString::to_string).collect::<Vec<_>>(),
                ["hippius.com", "matrix.org"]
            );
        }
        _ => panic!(),
    }
}

#[test]
fn garbage() {
    for bad in ["", "ci", "@user:hippius.com", "#no-server", "!", "https://example.org"] {
        assert!(RoomTarget::parse(bad).is_err(), "{bad:?} should fail");
    }
}

#[test]
fn error_holds_the_whole_input() {
    assert_eq!(RoomTarget::parse("  nonsense ").unwrap_err().0, "  nonsense ");
}

#[test]
fn permalink_without_scheme_names_the_same() {
    for target in ["#ci:hippius.com", "!abc:hippius.com", "!abc"] {
        let plain = RoomTarget::parse(target).unwrap();
        assert_eq!(RoomTarget::parse(&format!("matrix.to/#/{target}")).unwrap(), plain);
        assert_eq!(RoomTarget::parse(&format!("https://matrix.to/#/{target}")).unwrap(), plain);
        assert_eq!(RoomTarget::parse(&plain.describe()).unwrap(), plain);
    }
}

#[test]
fn query_keeps_only_valid_servers() {
    let t = RoomTarget::parse("https://matrix.to/#/!a:b.c?via=one.org&x=two.org&via=&via=b%20d&via=[::1]:80")
        .unwrap();
    match t {
        RoomTarget::Id { via, .. } => assert_eq!(via, ["one.org", "[::1]:80"]),
        _ => panic!("expected a room id"),
    }
}

#[test]
fn encoded_bytes_that_are_no_text() {
    // `%ff` is no UTF-8: the replacement character takes its place.
    let t = RoomTarget::parse("https://matrix.to/#/!a%ff").unwrap();
    assert_eq!(t.describe(), "!a\u{fffd}");
    // A `%` that no two digits follow stands for itself.
    let t = RoomTarget::parse("https://matrix.to/#/!a%4%41").unwrap();
    assert_eq!(t.describe(), "!a%4A");
}

#[test]
fn outside_a_permalink_nothing_is_decoded() {
    let t = RoomTarget::parse("!a%41?via=b.c").unwrap();
    assert_eq!(t, RoomTarget::Id { room_id: "!a%41?via=b.c".into(), via: vec![] });
}

#[test]
fn a_target_can_be_encoded_in_full() {
    for target in ["#ci:hippius.com", "!caf\u{e9}?via=x", "!a%41"] {
        let encoded: String = target.bytes().map(|b| format!("%{b:02X}")).collect();
        let t = RoomTarget::parse(&format!("https://matrix.to/#/{encoded}")).unwrap();
        assert_eq!(t, RoomTarget::parse(target).unwrap());
    }
}

#[test]
fn what_is_no_target_is_quoted() {
    assert_eq!(
        RoomTarget::parse("a\"b").unwrap_err().message(),
        "\"a\\\"b\" is not a room alias (#name:server) or room id (!id:server)"
    );
}
