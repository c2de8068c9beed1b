//! Parsing of the `--room` argument: a room alias (`#ci:example.org`), a room id
//! (`!abc:example.org`), or either of those wrapped in a `https://matrix.to/#/...` permalink.

use vstd::prelude::*;
use vstd::string::*;
use vstd::utf8::*;

use crate::codec::hex_value;
use crate::text::{
    after_prefix, cut, is_trimmed, lemma_ascii_byte_in_encoding, lemma_first_index,
    lemma_first_index_unique, lemma_trimmed_is_fixed, lossy_text, quote, quoted, split_on,
    split_once, split_parts, str_views, strip_prefix, trim, trimmed, utf8_lossy, views,
};

verus! {

/// Where a message goes.
#[derive(Debug, Clone, PartialEq, Eq)]
pub enum RoomTarget {
    /// A room alias, `#name:server`.
    Alias(String),
    /// A room id, `!id:server`, and the servers through which it can be joined.
    Id { room_id: String, via: Vec<String> },
}

/// A [`RoomTarget`] over texts.
pub enum TargetView {
    Alias(Seq<char>),
    Id { room_id: Seq<char>, via: Seq<Seq<char>> },
}

impl View for RoomTarget {
    type V = TargetView;

    open spec fn view(&self) -> TargetView {
        match *self {
            RoomTarget::Alias(a) => TargetView::Alias(a@),
            RoomTarget::Id { room_id, via } => TargetView::Id {
                room_id: room_id@,
                via: views(via@),
            },
        }
    }
}

/// The input that is neither a room alias nor a room id.
#[derive(Debug)]
pub struct TargetError(pub String);

impl TargetError {
    /// What to tell the user.
    pub fn message(&self) -> (text: String)
        ensures
            text@ == quoted(self.0@)
                + " is not a room alias (#name:server) or room id (!id:server)"@,
    {
        let mut text = quote(self.0.as_str());
        text.append(" is not a room alias (#name:server) or room id (!id:server)");
        text
    }
}

/// Whether `ServerName` accepts a text as a server name.
pub uninterp spec fn is_server_name(s: Seq<char>) -> bool;

/// A room alias: `#`, a local part, `:` and a server name.
pub open spec fn is_room_alias(s: Seq<char>) -> bool {
    &&& s.len() > 0
    &&& s[0] == '#'
    &&& match cut(s, ':') {
        Some((_, server)) => is_server_name(server),
        None => false,
    }
}

/// A room id: anything that starts with `!`.
pub open spec fn is_room_id(s: Seq<char>) -> bool {
    s.len() > 0 && s[0] == '!'
}

/// `OwnedServerName` from a text: whether the text is a host name or address with an optional
/// port. The grammar is named, not described.
#[verifier::external_body]
fn server_name_ok(s: &str) -> (ok: bool)
    ensures
        ok == is_server_name(s@),
{
    s.parse::<matrix_sdk::ruma::OwnedServerName>().is_ok()
}

/// `OwnedRoomAliasId` from a text: whether the text starts with `#` and has a `:` whose first
/// occurrence is followed by a server name.
#[verifier::external_body]
fn room_alias_ok(s: &str) -> (ok: bool)
    ensures
        ok == is_room_alias(s@),
{
    s.parse::<matrix_sdk::ruma::OwnedRoomAliasId>().is_ok()
}

/// `OwnedRoomId` from a text: whether the text starts with `!`.
#[verifier::external_body]
fn room_id_ok(s: &str) -> (ok: bool)
    ensures
        ok == is_room_id(s@),
{
    s.parse::<matrix_sdk::ruma::OwnedRoomId>().is_ok()
}

/// Bytes with each `%` and the two hexadecimal digits after it replaced by the byte that the
/// digits stand for. A `%` that no two digits follow stands for itself.
pub open spec fn percent_decoded(bytes: Seq<u8>) -> Seq<u8>
    decreases bytes.len(),
{
    if bytes.len() == 0 {
        Seq::empty()
    } else if bytes[0] == 0x25 && bytes.len() >= 3 && hex_value(bytes[1]) is Some && hex_value(
        bytes[2],
    ) is Some {
        seq![(16 * hex_value(bytes[1])->0 + hex_value(bytes[2])->0) as u8] + percent_decoded(
            bytes.skip(3),
        )
    } else {
        seq![bytes[0]] + percent_decoded(bytes.skip(1))
    }
}

/// `percent_encoding::percent_decode_str`: the bytes of `s` with the percent-encoded ones decoded.
#[verifier::external_body]
fn percent_decode(s: &str) -> (bytes: Vec<u8>)
    ensures
        bytes@ == percent_decoded(encode_utf8(s@)),
{
    percent_encoding::percent_decode_str(s).collect()
}

/// The text that a part of a permalink stands for.
pub open spec fn link_decoded(s: Seq<char>) -> Seq<char> {
    utf8_lossy(percent_decoded(encode_utf8(s)))
}

fn link_decode(s: &str) -> (r: String)
    ensures
        r@ == link_decoded(s@),
{
    let bytes = percent_decode(s);
    lossy_text(bytes.as_slice())
}

/// What follows the permalink prefix, with or without its scheme.
pub open spec fn link_rest(raw: Seq<char>) -> Option<Seq<char>> {
    match after_prefix(raw, "https://matrix.to/#/"@) {
        Some(rest) => Some(rest),
        None => after_prefix(raw, "matrix.to/#/"@),
    }
}

/// The target and the query of an argument. Only a permalink has a query, and only its target is
/// percent-decoded.
pub open spec fn target_and_query(raw: Seq<char>) -> (Seq<char>, Option<Seq<char>>) {
    match link_rest(raw) {
        Some(rest) => match cut(rest, '?') {
            Some((target, query)) => (link_decoded(target), Some(query)),
            None => (link_decoded(rest), None),
        },
        None => (raw, None),
    }
}

/// The server that one part of a query names.
pub open spec fn via_server(part: Seq<char>) -> Option<Seq<char>> {
    match after_prefix(part, "via="@) {
        Some(v) => if is_server_name(link_decoded(v)) {
            Some(link_decoded(v))
        } else {
            None
        },
        None => None,
    }
}

/// The servers that the parts of a query name, in order.
pub open spec fn via_servers(parts: Seq<Seq<char>>) -> Seq<Seq<char>>
    decreases parts.len(),
{
    if parts.len() == 0 {
        Seq::empty()
    } else {
        match via_server(parts.last()) {
            Some(server) => via_servers(parts.drop_last()).push(server),
            None => via_servers(parts.drop_last()),
        }
    }
}

/// The servers that a query names.
pub open spec fn query_servers(query: Option<Seq<char>>) -> Seq<Seq<char>> {
    match query {
        Some(q) => via_servers(split_parts(q, '&')),
        None => Seq::empty(),
    }
}

/// The target that an argument names, where it names one.
pub open spec fn target_named(input: Seq<char>) -> Option<TargetView> {
    let (body, query) = target_and_query(trimmed(input));
    if encode_utf8(body).len() < 2 {
        None
    } else if is_room_alias(body) {
        Some(TargetView::Alias(body))
    } else if is_room_id(body) {
        Some(TargetView::Id { room_id: body, via: query_servers(query) })
    } else {
        None
    }
}

impl RoomTarget {
    /// Parses an alias, a room id or a permalink to either; white space around it is tolerated.
    pub fn parse(input: &str) -> (target: Result<Self, TargetError>)
        ensures
            match target {
                Ok(t) => target_named(input@) == Some(t@),
                Err(e) => target_named(input@) is None && e.0@ == input@,
            },
    {
        let raw = trim(input);
        let (body, query) = strip_permalink(raw);
        let via = query_via(query);

        if body.as_str().as_bytes().len() < 2 {
            return Err(TargetError(input.to_owned()));
        }
        let chars = crate::text::chars_of(body.as_str());
        proof {
            crate::text::lemma_encoding_length(body@);
        }
        if chars[0] == '#' {
            if room_alias_ok(body.as_str()) {
                return Ok(Self::Alias(body));
            }
            return Err(TargetError(input.to_owned()));
        }
        if chars[0] == '!' {
            if room_id_ok(body.as_str()) {
                return Ok(Self::Id { room_id: body, via });
            }
            return Err(TargetError(input.to_owned()));
        }
        Err(TargetError(input.to_owned()))
    }

    /// The alias or the room id.
    pub fn describe(&self) -> (text: String)
        ensures
            text@ == match self@ {
                TargetView::Alias(a) => a,
                TargetView::Id { room_id, .. } => room_id,
            },
    {
        match self {
            Self::Alias(a) => a.clone(),
            Self::Id { room_id, .. } => room_id.clone(),
        }
    }
}

/// Peel `https://matrix.to/#/<target>?via=..` (percent-encoded `#` as `%23` too). Returns
/// `(target, query)`.
fn strip_permalink(raw: &str) -> (parts: (String, Option<&str>))
    ensures
        parts.0@ == target_and_query(raw@).0,
        match parts.1 {
            Some(q) => target_and_query(raw@).1 == Some(q@),
            None => target_and_query(raw@).1 is None,
        },
{
    let rest = match strip_prefix(raw, "https://matrix.to/#/") {
        Some(rest) => rest,
        None => match strip_prefix(raw, "matrix.to/#/") {
            Some(rest) => rest,
            None => return (raw.to_owned(), None),
        },
    };
    match split_once(rest, '?') {
        Some((target, query)) => (link_decode(target), Some(query)),
        None => (link_decode(rest), None),
    }
}

fn query_via(query: Option<&str>) -> (servers: Vec<String>)
    ensures
        views(servers@) == query_servers(
            match query {
                Some(q) => Some(q@),
                None => None,
            },
        ),
{
    let mut servers: Vec<String> = Vec::new();
    let query = match query {
        Some(q) => q,
        None => {
            assert(views(servers@) == Seq::<Seq<char>>::empty());
            return servers;
        },
    };
    let parts = split_on(query, '&');
    let ghost all = split_parts(query@, '&');
    let mut i: usize = 0;
    assert(views(servers@) == via_servers(all.take(0)));
    while i < parts.len()
        invariant
            i <= parts.len(),
            str_views(parts@) == all,
            views(servers@) == via_servers(all.take(i as int)),
        decreases parts.len() - i,
    {
        let ghost before = servers@;
        assert(all.take(i as int + 1).drop_last() == all.take(i as int));
        assert(all[i as int] == parts@[i as int]@);
        if let Some(v) = strip_prefix(parts[i], "via=") {
            let server = link_decode(v);
            if server_name_ok(server.as_str()) {
                servers.push(server);
                assert(views(servers@) == views(before).push(server@));
            }
        }
        i = i + 1;
    }
    assert(all.take(all.len() as int) == all);
    servers
}

/// Bytes without a `%` are left alone by percent-decoding.
proof fn lemma_nothing_to_decode(bytes: Seq<u8>)
    requires
        forall|i: int| 0 <= i < bytes.len() ==> bytes[i] != 0x25,
    ensures
        percent_decoded(bytes) == bytes,
    decreases bytes.len(),
{
    if bytes.len() > 0 {
        lemma_nothing_to_decode(bytes.skip(1));
        assert(bytes == seq![bytes[0]] + bytes.skip(1));
    }
}

/// A permalink names what the target in it names by itself, whether or not the link starts with its
/// scheme. `encoded` is the target as it stands in the link. This leaves out white space at the ends
/// of either, which trimming takes off, a `?`, which starts the query, and targets that are
/// permalinks themselves.
pub proof fn law_permalink_names_its_target(encoded: Seq<char>, target: Seq<char>)
    requires
        link_decoded(encoded) == target,
        encoded.len() > 0,
        is_trimmed(encoded),
        !encoded.contains('?'),
        is_trimmed(target),
        link_rest(target) is None,
    ensures
        target_named("https://matrix.to/#/"@ + encoded) == target_named(target),
        target_named("matrix.to/#/"@ + encoded) == target_named(target),
{
    reveal_strlit("https://matrix.to/#/");
    reveal_strlit("matrix.to/#/");
    let long = "https://matrix.to/#/"@ + encoded;
    let short = "matrix.to/#/"@ + encoded;
    assert(long.last() == encoded.last());
    assert(short.last() == encoded.last());
    lemma_trimmed_is_fixed(long);
    lemma_trimmed_is_fixed(short);
    lemma_trimmed_is_fixed(target);
    assert(long.skip("https://matrix.to/#/"@.len() as int) == encoded);
    assert(short.skip("matrix.to/#/"@.len() as int) == encoded);
    assert("https://matrix.to/#/"@.is_prefix_of(long));
    assert("matrix.to/#/"@.is_prefix_of(short));
    assert(!"https://matrix.to/#/"@.is_prefix_of(short)) by {
        if "https://matrix.to/#/"@.is_prefix_of(short) {
            assert(short[0] == "https://matrix.to/#/"@[0]);
            assert(short[0] == "matrix.to/#/"@[0]);
        }
    }
    lemma_first_index(encoded, '?');
    assert(target_and_query(long) == (target, None::<Seq<char>>));
    assert(target_and_query(short) == (target, None::<Seq<char>>));
    assert(target_and_query(target) == (target, None::<Seq<char>>));
}

/// A text without a `%` stands for itself in a permalink.
pub proof fn law_plain_text_is_not_decoded(s: Seq<char>)
    requires
        !s.contains('%'),
    ensures
        link_decoded(s) == s,
{
    let bytes = encode_utf8(s);
    assert forall|i: int| 0 <= i < bytes.len() implies bytes[i] != 0x25 by {
        if bytes[i] == 0x25 {
            lemma_ascii_byte_in_encoding(s, i);
        }
    }
    lemma_nothing_to_decode(bytes);
    encode_utf8_valid_utf8(s);
    encode_utf8_decode_utf8(s);
}

/// The upper-case hexadecimal digit of a value below 16.
pub open spec fn upper_hex_digit(n: int) -> char {
    if n < 10 {
        (0x30 + n) as u8 as char
    } else {
        (0x37 + n) as u8 as char
    }
}

/// Bytes with every one of them percent-encoded.
pub open spec fn percent_encoded(bytes: Seq<u8>) -> Seq<char>
    decreases bytes.len(),
{
    if bytes.len() == 0 {
        Seq::empty()
    } else {
        seq!['%', upper_hex_digit(bytes[0] as int / 16), upper_hex_digit(bytes[0] as int % 16)]
            + percent_encoded(bytes.drop_first())
    }
}

/// A text whose every byte is percent-encoded stands for the text.
pub proof fn law_encoded_text_is_decoded(s: Seq<char>)
    ensures
        link_decoded(percent_encoded(encode_utf8(s))) == s,
{
    lemma_percent_round_trip(encode_utf8(s));
    encode_utf8_valid_utf8(s);
    encode_utf8_decode_utf8(s);
}

proof fn lemma_percent_round_trip(bytes: Seq<u8>)
    ensures
        is_ascii_chars(percent_encoded(bytes)),
        percent_decoded(encode_utf8(percent_encoded(bytes))) == bytes,
    decreases bytes.len(),
{
    let text = percent_encoded(bytes);
    if bytes.len() > 0 {
        let rest = bytes.drop_first();
        let b = bytes[0] as int;
        lemma_percent_round_trip(rest);
        let tail = percent_encoded(rest);
        assert forall|i: int| 0 <= i < text.len() implies (text[i] as nat) < 128 by {
            if i >= 3 {
                assert(text[i] == tail[i - 3]);
            }
        }
        assert(is_ascii_chars(text));
        is_ascii_chars_encode_utf8(text);
        is_ascii_chars_encode_utf8(tail);
        let enc = encode_utf8(text);
        assert(enc.skip(3) =~= encode_utf8(tail));
        assert(enc[0] == 0x25);
        assert(enc[1] == upper_hex_digit(b / 16) as u8);
        assert(enc[2] == upper_hex_digit(b % 16) as u8);
        assert(hex_value(enc[1]) == Some((b / 16) as u8));
        assert(hex_value(enc[2]) == Some((b % 16) as u8));
        assert(bytes =~= seq![bytes[0]] + rest);
    } else {
        assert(encode_utf8(text) =~= Seq::empty());
    }
}

/// What a target is described by names the target again, without the servers to join through:
/// an argument that is no permalink has none. The description must have no white space at its
/// ends.
pub proof fn law_description_names_the_target(input: Seq<char>)
    requires
        match target_named(input) {
            Some(TargetView::Alias(a)) => is_trimmed(a),
            Some(TargetView::Id { room_id, .. }) => is_trimmed(room_id),
            None => false,
        },
    ensures
        match target_named(input) {
            Some(TargetView::Alias(a)) => target_named(a) == Some(TargetView::Alias(a)),
            Some(TargetView::Id { room_id, .. }) => target_named(room_id) == Some(
                TargetView::Id { room_id, via: Seq::empty() },
            ),
            None => false,
        },
{
    let d = match target_named(input) {
        Some(TargetView::Alias(a)) => a,
        Some(TargetView::Id { room_id, .. }) => room_id,
        None => Seq::empty(),
    };
    reveal_strlit("https://matrix.to/#/");
    reveal_strlit("matrix.to/#/");
    lemma_trimmed_is_fixed(d);
    assert(d[0] == '#' || d[0] == '!');
    if "https://matrix.to/#/"@.is_prefix_of(d) {
        assert(d[0] == "https://matrix.to/#/"@[0]);
    }
    if "matrix.to/#/"@.is_prefix_of(d) {
        assert(d[0] == "matrix.to/#/"@[0]);
    }
    assert(target_and_query(d) == (d, None::<Seq<char>>));
}

/// An argument that is no permalink names itself: an alias where it starts with `#` and has a server
/// name behind its first `:`, a room id where it starts with `!` and goes on, and nothing otherwise.
/// White space around it does not matter. What names nothing is told as it was given.
pub proof fn law_argument_names_itself(
    input: &str,
    raw: &str,
    target: Result<RoomTarget, TargetError>,
)
    requires
        call_ensures(trim, (input,), raw),
        call_ensures(RoomTarget::parse, (input,), target),
        !"https://matrix.to/#/"@.is_prefix_of(raw@),
        !"matrix.to/#/"@.is_prefix_of(raw@),
    ensures
        target matches Ok(RoomTarget::Alias(a)) ==> a@ == raw@,
        target matches Ok(RoomTarget::Id { room_id, via }) ==> room_id@ == raw@ && via@.len() == 0,
        (target matches Ok(t) && t is Alias) <==> raw@.len() > 0 && raw@[0] == '#' && exists|
            local: Seq<char>,
            server: Seq<char>,
        |
            raw@ == #[trigger] (local + seq![':'] + server) && !local.contains(':')
                && is_server_name(server),
        (target matches Ok(t) && t is Id) <==> raw@.len() > 0 && raw@[0] == '!' && encode_utf8(
            raw@,
        ).len() >= 2,
        target matches Err(e) ==> e.0@ == input@,
{
    let r = raw@;
    assert(target_and_query(r) == (r, None::<Seq<char>>));
    lemma_first_index(r, ':');
    let k = crate::text::first_index(r, ':');
    if let Ok(t) = target {
        if let RoomTarget::Id { via, .. } = t {
            assert(views(via@).len() == via@.len());
        }
        if t is Alias {
            let local = r.take(k);
            let server = r.skip(k + 1);
            assert(r =~= local + seq![':'] + server);
            if local.contains(':') {
                let i = choose|i: int| 0 <= i < local.len() && local[i] == ':';
                assert(r[i] == ':');
            }
            assert(is_server_name(server));
        }
    }
    assert forall|local: Seq<char>, server: Seq<char>|
        r.len() > 0 && r[0] == '#' && r == #[trigger] (local + seq![':'] + server)
            && !local.contains(':') && is_server_name(server) implies target matches Ok(t)
        && t is Alias by {
        assert forall|i: int| 0 <= i < local.len() implies r[i] != ':' by {
            if r[i] == ':' {
                assert(local[i] == ':');
            }
        }
        assert(r[local.len() as int] == ':');
        lemma_first_index_unique(r, ':', local.len() as int);
        assert(r.skip(local.len() as int + 1) =~= server);
        assert(local.len() > 0);
        crate::text::lemma_encoding_length(r);
        lemma_two_characters(r);
        assert(is_room_alias(r));
    }
    if r.len() > 0 && r[0] == '!' && encode_utf8(r).len() >= 2 {
        assert(!is_room_alias(r));
        assert(target is Ok);
    }
}

/// A text of two characters or more takes two bytes or more.
proof fn lemma_two_characters(s: Seq<char>)
    requires
        s.len() >= 2,
    ensures
        encode_utf8(s).len() >= 2,
{
    crate::text::lemma_encoding_length(s);
}

/// The servers that the parts of a query name: of the parts that start with `via=`, what follows that,
/// decoded, where it is a server name, in order.
pub open spec fn servers_in(parts: Seq<Seq<char>>) -> Seq<Seq<char>> {
    parts.filter(
        |p: Seq<char>| "via="@.is_prefix_of(p) && is_server_name(link_decoded(p.skip(4))),
    ).map_values(|p: Seq<char>| link_decoded(p.skip(4)))
}

proof fn lemma_via_servers(parts: Seq<Seq<char>>)
    ensures
        via_servers(parts) == servers_in(parts),
    decreases parts.len(),
{
    reveal(Seq::filter);
    reveal_strlit("via=");
    let wanted = |p: Seq<char>| "via="@.is_prefix_of(p) && is_server_name(link_decoded(p.skip(4)));
    let decoded = |p: Seq<char>| link_decoded(p.skip(4));
    if parts.len() > 0 {
        let rest = parts.drop_last();
        lemma_via_servers(rest);
        if wanted(parts.last()) {
            assert(rest.filter(wanted).push(parts.last()).map_values(decoded) =~= rest.filter(
                wanted,
            ).map_values(decoded).push(decoded(parts.last())));
        }
    } else {
        assert(parts.filter(wanted).map_values(decoded) =~= Seq::empty());
    }
}

/// A permalink with a query names the room that its target names, and every server that the query names
/// is one to join it through, in order. `encoded` is the target as it stands in the link; the query is
/// what follows the first `?`, and its parts are those between the `&`. This leaves out white space at
/// the ends of the link, which trimming takes off.
pub proof fn law_permalink_names_its_servers(
    encoded: Seq<char>,
    query: &str,
    parts: Vec<&str>,
    input: &str,
    target: Result<RoomTarget, TargetError>,
)
    requires
        !encoded.contains('?'),
        input@ == "https://matrix.to/#/"@ + encoded + seq!['?'] + query@ || input@
            == "matrix.to/#/"@ + encoded + seq!['?'] + query@,
        is_trimmed(query@),
        call_ensures(split_on, (query, '&'), parts),
        call_ensures(RoomTarget::parse, (input,), target),
    ensures
        ({
            let named = link_decoded(encoded);
            &&& target matches Ok(RoomTarget::Alias(a)) ==> a@ == named
            &&& target matches Ok(RoomTarget::Id { room_id, via }) ==> room_id@ == named && views(
                via@,
            ) == servers_in(str_views(parts@))
            &&& encode_utf8(named).len() >= 2 && named[0] == '!' ==> (target matches Ok(t) && t
                is Id)
        }),
{
    reveal_strlit("https://matrix.to/#/");
    reveal_strlit("matrix.to/#/");
    let rest = encoded + seq!['?'] + query@;
    let long = "https://matrix.to/#/"@;
    let short = "matrix.to/#/"@;
    let s = input@;
    assert(long + encoded + seq!['?'] + query@ =~= long + rest);
    assert(short + encoded + seq!['?'] + query@ =~= short + rest);
    assert(s == long + rest || s == short + rest);
    assert(s.last() == rest.last());
    assert(rest.last() == if query@.len() > 0 {
        query@.last()
    } else {
        '?'
    });
    assert(s[0] == 'h' || s[0] == 'm');
    lemma_trimmed_is_fixed(s);
    if s == long + rest {
        assert(s.skip(long.len() as int) =~= rest);
        assert(long.is_prefix_of(s));
    } else {
        assert(s.skip(short.len() as int) =~= rest);
        assert(short.is_prefix_of(s));
        if long.is_prefix_of(s) {
            assert(s[0] == long[0] && s[0] == short[0]);
        }
    }
    assert forall|i: int| 0 <= i < encoded.len() implies rest[i] != '?' by {
        if rest[i] == '?' {
            assert(encoded[i] == '?');
        }
    }
    lemma_first_index_unique(rest, '?', encoded.len() as int);
    assert(rest.take(encoded.len() as int) =~= encoded);
    assert(rest.skip(encoded.len() as int + 1) =~= query@);
    assert(target_and_query(s) == (link_decoded(encoded), Some(query@)));
    lemma_via_servers(split_parts(query@, '&'));
}

/// A target is described by what it is joined by.
pub proof fn law_target_is_described_by_its_name(target: &RoomTarget, text: String)
    requires
        call_ensures(RoomTarget::describe, (target,), text),
    ensures
        *target matches RoomTarget::Alias(a) ==> text@ == a@,
        *target matches RoomTarget::Id { room_id, .. } ==> text@ == room_id@,
{
}

/// What names no target is told, quoted, with what would.
pub proof fn law_target_error_tells_the_input(error: &TargetError, text: String)
    requires
        call_ensures(TargetError::message, (error,), text),
    ensures
        text@ == quoted(error.0@)
            + " is not a room alias (#name:server) or room id (!id:server)"@,
{
}

/// A part of a permalink stands for the text whose bytes its percent-decoded ones are; where they are
/// no text, for what the standard library makes of them.
pub proof fn law_link_stands_for_its_decoded_bytes(s: Seq<char>, t: Seq<char>)
    ensures
        percent_decoded(encode_utf8(s)) == encode_utf8(t) ==> link_decoded(s) == t,
        !valid_utf8(percent_decoded(encode_utf8(s))) ==> link_decoded(s)
            == crate::text::utf8_replaced(percent_decoded(encode_utf8(s))),
{
    encode_utf8_valid_utf8(t);
    encode_utf8_decode_utf8(t);
}

} // verus!
