//! On-disk layout of a matrix-notify store directory and the small amount of SQLite surgery we do
//! on it.
//!
//! ```text
//! <store>/
//!   session.json                 access token, user/device id, homeserver
//!   matrix-sdk-crypto.sqlite3    Olm account, cross-signing keys, devices
//!   matrix-sdk-state.sqlite3     rooms, members, sync token
//!   matrix-sdk-event-cache.sqlite3   regenerable, never exported
//! ```
//!
//! Paths are byte strings, as Unix has them.

use vstd::prelude::*;
use vstd::slice::*;
use vstd::string::*;
use vstd::utf8::*;

use crate::codec::{hex_encode, hex_text};
use crate::crypto::{sha256, sha256_digest};
use crate::text::{opt_view, quote, quoted, same_option, same_text};

verus! {

/// The file with the session.
pub const SESSION_FILE: &'static str = "session.json";

/// The SDK's state store.
pub const STATE_DB: &'static str = "matrix-sdk-state.sqlite3";

/// The SDK's crypto store.
pub const CRYPTO_DB: &'static str = "matrix-sdk-crypto.sqlite3";

/// Files that make up the portable identity. Order is the tar order.
pub const EXPORTED_FILES: [&'static str; 3] = [SESSION_FILE, STATE_DB, CRYPTO_DB];

/// A relative name below a directory: a `/` stands between them unless the directory is empty or
/// ends in one.
pub open spec fn joined_path(dir: Seq<u8>, name: Seq<u8>) -> Seq<u8> {
    if dir.len() > 0 && dir.last() != 0x2f {
        dir.push(0x2f) + name
    } else {
        dir + name
    }
}

/// The path of the relative `name` below `dir`.
pub fn join_path(dir: &[u8], name: &[u8]) -> (path: Vec<u8>)
    ensures
        path@ == joined_path(dir@, name@),
{
    let mut path = slice_to_vec(dir);
    if dir.len() > 0 && dir[dir.len() - 1] != 0x2f {
        path.push(0x2f);
    }
    path.extend_from_slice(name);
    path
}

/// There is no home directory to fall back on.
#[derive(Debug, Clone, Copy)]
pub struct NoHomeDirectory;

impl NoHomeDirectory {
    /// What to tell the user.
    pub fn message(&self) -> (text: &'static str)
        ensures
            text@
                == "cannot determine home directory; pass --store or set MATRIX_NOTIFY_HOME"@,
    {
        "cannot determine home directory; pass --store or set MATRIX_NOTIFY_HOME"
    }
}

/// The store directory: the explicit flag, then `$MATRIX_NOTIFY_HOME` where it is not empty, then
/// `.matrix-notify` in the home directory.
pub open spec fn store_dir(
    flag: Option<Seq<u8>>,
    variable: Option<Seq<u8>>,
    home: Option<Seq<u8>>,
) -> Option<Seq<u8>> {
    match (flag, variable, home) {
        (Some(f), _, _) => Some(f),
        (None, Some(v), _) if v.len() > 0 => Some(v),
        (None, _, Some(h)) => Some(joined_path(h, encode_utf8(".matrix-notify"@))),
        _ => None,
    }
}

/// The bytes of an optional path.
pub open spec fn opt_bytes(path: Option<&[u8]>) -> Option<Seq<u8>> {
    match path {
        Some(p) => Some(p@),
        None => None,
    }
}

/// Resolve the store directory: explicit flag, then `$MATRIX_NOTIFY_HOME`, then
/// `~/.matrix-notify`.
pub fn resolve_dir(flag: Option<&[u8]>, variable: Option<&[u8]>, home: Option<&[u8]>) -> (dir:
    Result<Vec<u8>, NoHomeDirectory>)
    ensures
        match dir {
            Ok(d) => store_dir(opt_bytes(flag), opt_bytes(variable), opt_bytes(home)) == Some(d@),
            Err(_) => store_dir(
                opt_bytes(flag),
                opt_bytes(variable),
                opt_bytes(home),
            ) is None,
        },
{
    if let Some(f) = flag {
        return Ok(slice_to_vec(f));
    }
    if let Some(v) = variable {
        if v.len() > 0 {
            return Ok(slice_to_vec(v));
        }
    }
    match home {
        Some(h) => Ok(join_path(h, ".matrix-notify".as_bytes())),
        None => Err(NoHomeDirectory),
    }
}

/// What we need to come back as the same device. Serialised to `session.json`; never logged.
#[derive(Clone)]
pub struct Session {
    /// Resolved base URL of the client-server API (after `.well-known`).
    pub homeserver: String,
    /// What the user typed (`hippius.com`), kept for display.
    pub server_name: String,
    pub user_id: String,
    pub device_id: String,
    pub access_token: String,
    pub refresh_token: Option<String>,
}

/// A number as eight bytes, the most significant one first.
#[verifier::opaque]
pub open spec fn be_bytes(n: int) -> Seq<u8> {
    seq![
        (n / 0x100_0000_0000_0000 % 256) as u8,
        (n / 0x1_0000_0000_0000 % 256) as u8,
        (n / 0x100_0000_0000 % 256) as u8,
        (n / 0x1_0000_0000 % 256) as u8,
        (n / 0x100_0000 % 256) as u8,
        (n / 0x1_0000 % 256) as u8,
        (n / 0x100 % 256) as u8,
        (n % 256) as u8,
    ]
}

fn push_be_bytes(out: &mut Vec<u8>, n: u64)
    ensures
        final(out)@ == old(out)@ + be_bytes(n as int),
{
    let ghost before = out@;
    reveal(be_bytes);
    out.push((n / 0x100_0000_0000_0000 % 256) as u8);
    out.push((n / 0x1_0000_0000_0000 % 256) as u8);
    out.push((n / 0x100_0000_0000 % 256) as u8);
    out.push((n / 0x1_0000_0000 % 256) as u8);
    out.push((n / 0x100_0000 % 256) as u8);
    out.push((n / 0x1_0000 % 256) as u8);
    out.push((n / 0x100 % 256) as u8);
    out.push((n % 256) as u8);
    assert(out@ =~= before + be_bytes(n as int));
}

/// A text as it goes into the fingerprint: the length of its encoding, and its encoding.
pub open spec fn measured(s: Seq<char>) -> Seq<u8> {
    be_bytes(encode_utf8(s).len() as int) + encode_utf8(s)
}

fn push_measured(out: &mut Vec<u8>, s: &str)
    ensures
        final(out)@ == old(out)@ + measured(s@),
{
    let ghost before = out@;
    let bytes = s.as_bytes();
    push_be_bytes(out, bytes.len() as u64);
    out.extend_from_slice(bytes);
    assert(out@ =~= before + measured(s@));
}

/// What a fingerprint is made of: which device we are and how we authenticate.
pub struct Identity {
    pub homeserver: Seq<char>,
    pub user_id: Seq<char>,
    pub device_id: Seq<char>,
    pub access_token: Seq<char>,
}

/// The length of a text's encoding fits in eight bytes.
pub open spec fn fits(s: Seq<char>) -> bool {
    encode_utf8(s).len() < 0x1_0000_0000_0000_0000
}

impl Identity {
    /// The length of every field fits in eight bytes.
    pub open spec fn fits(self) -> bool {
        &&& fits(self.homeserver)
        &&& fits(self.user_id)
        &&& fits(self.device_id)
        &&& fits(self.access_token)
    }
}

/// The bytes whose digest is the fingerprint: the four fields, and the length of an empty one
/// behind them.
pub open spec fn identity_bytes(id: Identity) -> Seq<u8> {
    measured(id.homeserver) + measured(id.user_id) + measured(id.device_id) + measured(
        id.access_token,
    ) + be_bytes(0)
}

/// A path with `session.json` in a directory.
pub open spec fn session_path(dir: Seq<u8>) -> Seq<u8> {
    joined_path(dir, encode_utf8(SESSION_FILE@))
}

/// What a log shows of a session: no token.
pub open spec fn session_debug(
    homeserver: Seq<char>,
    user_id: Seq<char>,
    device_id: Seq<char>,
    refreshable: bool,
) -> Seq<char> {
    "Session { homeserver: "@ + quoted(homeserver) + ", user_id: "@ + quoted(user_id)
        + ", device_id: "@ + quoted(device_id)
        + ", access_token: \"<redacted>\", refresh_token: "@ + (if refreshable {
        "Some(\"<redacted>\")"@
    } else {
        "None"@
    }) + " }"@
}

impl Session {
    /// The identity in this session.
    pub open spec fn identity(self) -> Identity {
        Identity {
            homeserver: self.homeserver@,
            user_id: self.user_id@,
            device_id: self.device_id@,
            access_token: self.access_token@,
        }
    }

    /// Where the session of the store in `dir` is.
    pub fn path(dir: &[u8]) -> (path: Vec<u8>)
        ensures
            path@ == session_path(dir@),
    {
        join_path(dir, SESSION_FILE.as_bytes())
    }

    /// Stable digest of the fields whose change requires re-publishing the state secret: which
    /// device we are and how we authenticate, that is, exactly the homeserver, the user id, the
    /// device id and the access token. Room state, sync tokens and one-time keys are deliberately
    /// excluded (they change on every run and are regenerable).
    pub fn identity_fingerprint(&self) -> (text: String)
        ensures
            text@ == hex_text(sha256_digest(identity_bytes(self.identity()))),
            text@.len() == 64,
    {
        let input = self.identity_input();
        hex_encode(sha256(input.as_slice()).as_slice())
    }

    /// The bytes whose digest is the fingerprint: each field of the identity, with the length of
    /// its encoding before it, and the length of an empty field at the end.
    pub fn identity_input(&self) -> (bytes: Vec<u8>)
        ensures
            bytes@ == identity_bytes(self.identity()),
    {
        let mut out: Vec<u8> = Vec::new();
        push_measured(&mut out, self.homeserver.as_str());
        assert(out@ =~= measured(self.homeserver@));
        push_measured(&mut out, self.user_id.as_str());
        push_measured(&mut out, self.device_id.as_str());
        push_measured(&mut out, self.access_token.as_str());
        push_be_bytes(&mut out, 0);
        out
    }

    /// What a log shows of a session.
    pub fn debug_text(&self) -> (text: String)
        ensures
            text@ == session_debug(
                self.homeserver@,
                self.user_id@,
                self.device_id@,
                self.refresh_token is Some,
            ),
    {
        let mut text = "Session { homeserver: ".to_owned();
        text.append(quote(self.homeserver.as_str()).as_str());
        text.append(", user_id: ");
        text.append(quote(self.user_id.as_str()).as_str());
        text.append(", device_id: ");
        text.append(quote(self.device_id.as_str()).as_str());
        text.append(", access_token: \"<redacted>\", refresh_token: ");
        if self.refresh_token.is_some() {
            text.append("Some(\"<redacted>\")");
        } else {
            text.append("None");
        }
        text.append(" }");
        text
    }

    /// Takes over the tokens that a client holds at the end of a run. Says whether they differ
    /// from those of the session, that is, whether the session has to be saved and exported again.
    pub fn adopt_tokens(&mut self, access_token: String, refresh_token: Option<String>) -> (rotated:
        bool)
        ensures
            rotated == (access_token@ != old(self).access_token@ || opt_view(refresh_token)
                != opt_view(old(self).refresh_token)),
            rotated ==> final(self).access_token == access_token && final(self).refresh_token
                == refresh_token && final(self).homeserver == old(self).homeserver
                && final(self).server_name == old(self).server_name && final(self).user_id == old(
                self,
            ).user_id && final(self).device_id == old(self).device_id,
            !rotated ==> *final(self) == *old(self),
            final(self).identity() == (Identity {
                access_token: access_token@,
                ..old(self).identity()
            }),
    {
        if same_text(access_token.as_str(), self.access_token.as_str()) && same_option(
            &refresh_token,
            &self.refresh_token,
        ) {
            return false;
        }
        self.access_token = access_token;
        self.refresh_token = refresh_token;
        true
    }
}

proof fn lemma_div_chain(n: int, a: int)
    requires
        0 <= n,
        a > 0,
    ensures
        n / (a * 256) == (n / a) / 256,
{
    vstd::arithmetic::div_mod::lemma_div_denominator(n, a, 256);
}

/// The number is put together from its bytes.
proof fn lemma_be_value(n: int)
    requires
        0 <= n < 0x1_0000_0000_0000_0000,
    ensures
        ({
            let b = be_bytes(n);
            n == ((((((b[0] * 256 + b[1]) * 256 + b[2]) * 256 + b[3]) * 256 + b[4]) * 256 + b[5])
                * 256 + b[6]) * 256 + b[7]
        }),
{
    reveal(be_bytes);
    let q1 = n / 0x100;
    let q2 = n / 0x1_0000;
    let q3 = n / 0x100_0000;
    let q4 = n / 0x1_0000_0000;
    let q5 = n / 0x100_0000_0000;
    let q6 = n / 0x1_0000_0000_0000;
    let q7 = n / 0x100_0000_0000_0000;
    lemma_div_chain(n, 0x100);
    lemma_div_chain(n, 0x1_0000);
    lemma_div_chain(n, 0x100_0000);
    lemma_div_chain(n, 0x1_0000_0000);
    lemma_div_chain(n, 0x100_0000_0000);
    lemma_div_chain(n, 0x1_0000_0000_0000);
    assert(q2 == q1 / 256 && q3 == q2 / 256 && q4 == q3 / 256);
    assert(q5 == q4 / 256 && q6 == q5 / 256 && q7 == q6 / 256);
    let b = be_bytes(n);
    assert(0 <= q7 < 256);
    assert(b[0] == q7 && b[1] == q6 % 256 && b[2] == q5 % 256 && b[3] == q4 % 256);
    assert(b[4] == q3 % 256 && b[5] == q2 % 256 && b[6] == q1 % 256 && b[7] == n % 256);
    assert(q6 == q7 * 256 + q6 % 256);
    assert(q5 == q6 * 256 + q5 % 256);
    assert(q4 == q5 * 256 + q4 % 256);
    assert(q3 == q4 * 256 + q3 % 256);
    assert(q2 == q3 * 256 + q2 % 256);
    assert(q1 == q2 * 256 + q1 % 256);
    assert(n == q1 * 256 + n % 256);
}

proof fn lemma_be_bytes_injective(m: int, n: int)
    requires
        0 <= m < 0x1_0000_0000_0000_0000,
        0 <= n < 0x1_0000_0000_0000_0000,
        be_bytes(m) == be_bytes(n),
    ensures
        m == n,
{
    lemma_be_value(m);
    lemma_be_value(n);
}

proof fn lemma_measured_prefix_free(a: Seq<char>, b: Seq<char>, x: Seq<u8>, y: Seq<u8>)
    requires
        fits(a),
        fits(b),
        measured(a) + x == measured(b) + y,
    ensures
        a == b,
        x == y,
{
    let ea = encode_utf8(a);
    let eb = encode_utf8(b);
    let l = measured(a) + x;
    let r = measured(b) + y;
    assert(be_bytes(ea.len() as int).len() == 8 && be_bytes(eb.len() as int).len() == 8) by {
        reveal(be_bytes);
    }
    assert(l.take(8) =~= be_bytes(ea.len() as int));
    assert(r.take(8) =~= be_bytes(eb.len() as int));
    lemma_be_bytes_injective(ea.len() as int, eb.len() as int);
    assert(l.subrange(8, 8 + ea.len() as int) =~= ea);
    assert(r.subrange(8, 8 + eb.len() as int) =~= eb);
    encode_utf8_decode_utf8(a);
    encode_utf8_decode_utf8(b);
    assert(l.skip(8 + ea.len() as int) =~= x);
    assert(r.skip(8 + eb.len() as int) =~= y);
}

proof fn lemma_regroup(a: Seq<u8>, b: Seq<u8>, c: Seq<u8>, d: Seq<u8>, e: Seq<u8>)
    ensures
        a + b + c + d + e == a + (b + (c + (d + e))),
{
    assert(a + b + c + d + e =~= a + (b + (c + (d + e))));
}

/// The fields are told apart in what is digested: two identities with the same bytes are the same,
/// so that a change of any field changes what is digested. The lengths are those that fit in eight
/// bytes.
pub proof fn law_identity_bytes_injective(a: Identity, b: Identity)
    requires
        identity_bytes(a) == identity_bytes(b),
        a.fits(),
        b.fits(),
    ensures
        a == b,
{
    let end = be_bytes(0);
    let a4 = measured(a.access_token) + end;
    let b4 = measured(b.access_token) + end;
    let a3 = measured(a.device_id) + a4;
    let b3 = measured(b.device_id) + b4;
    let a2 = measured(a.user_id) + a3;
    let b2 = measured(b.user_id) + b3;
    lemma_regroup(
        measured(a.homeserver),
        measured(a.user_id),
        measured(a.device_id),
        measured(a.access_token),
        end,
    );
    lemma_regroup(
        measured(b.homeserver),
        measured(b.user_id),
        measured(b.device_id),
        measured(b.access_token),
        end,
    );
    lemma_measured_prefix_free(a.homeserver, b.homeserver, a2, b2);
    lemma_measured_prefix_free(a.user_id, b.user_id, a3, b3);
    lemma_measured_prefix_free(a.device_id, b.device_id, a4, b4);
    lemma_measured_prefix_free(a.access_token, b.access_token, end, end);
}

/// Nothing else in a session goes into the fingerprint: two sessions that agree on the homeserver,
/// the user id, the device id and the access token have the same, whatever their server names and
/// refresh tokens are.
pub proof fn law_fingerprint_covers_the_identity_only(a: Session, b: Session)
    requires
        a.homeserver@ == b.homeserver@,
        a.user_id@ == b.user_id@,
        a.device_id@ == b.device_id@,
        a.access_token@ == b.access_token@,
    ensures
        a.identity() == b.identity(),
        identity_bytes(a.identity()) == identity_bytes(b.identity()),
{
}

/// True when the directory holds a session (i.e. `login` or `import` ran). `is_file` looks at the
/// file system.
pub fn has_session<F: Fn(&[u8]) -> bool>(dir: &[u8], is_file: F) -> (found: bool)
    requires
        forall|path: &[u8]| call_requires(is_file, (path,)),
    ensures
        exists|path: &[u8]|
            path@ == session_path(dir@) && #[trigger] call_ensures(is_file, (path,), found),
{
    let path = Session::path(dir);
    is_file(path.as_slice())
}

/// How long to wait for another process to release a database, in seconds.
pub const BUSY_TIMEOUT_SECS: u64 = 10;

/// Checkpoints the write-ahead log and rewrites the database.
pub const COMPACT_SQL: &'static str = "PRAGMA wal_checkpoint(TRUNCATE); VACUUM;";

/// A deletion in the crypto store: all rows of a table, or those of other users.
pub struct Deletion {
    pub table: &'static str,
    /// The user whose rows stay, as the table writes it.
    pub keep: Option<Vec<u8>>,
}

/// A [`Deletion`] over texts and bytes.
pub struct DeletionView {
    pub table: Seq<char>,
    pub keep: Option<Seq<u8>>,
}

impl View for Deletion {
    type V = DeletionView;

    open spec fn view(&self) -> DeletionView {
        DeletionView {
            table: self.table@,
            keep: match self.keep {
                Some(user) => Some(user@),
                None => None,
            },
        }
    }
}

impl Deletion {
    /// The SQL statement. Where rows stay, their user is its parameter.
    pub fn sql(&self) -> (text: String)
        ensures
            text@ == "DELETE FROM \""@ + self@.table + (if self@.keep is Some {
                "\" WHERE user_id != ?1"@
            } else {
                "\""@
            }),
    {
        let mut text = "DELETE FROM \"".to_owned();
        text.append(self.table);
        if self.keep.is_some() {
            text.append("\" WHERE user_id != ?1");
        } else {
            text.append("\"");
        }
        text
    }
}

/// The views of deletions.
pub open spec fn deletion_views(list: Seq<Deletion>) -> Seq<DeletionView> {
    list.map_values(|d: Deletion| d@)
}

/// The deletion of everything in a table.
pub open spec fn clearing(table: Seq<char>) -> DeletionView {
    DeletionView { table, keep: None }
}

/// The deletions that drop per-conversation state: Olm sessions with other devices, our outbound
/// Megolm sessions, and the device-list tracking flags.
pub open spec fn hygiene_deletions() -> Seq<DeletionView> {
    seq![clearing("session"@), clearing("outbound_group_session"@), clearing("tracked_user"@)]
}

/// The deletions that drop other users' cached devices and identities.
pub open spec fn slim_deletions(own_user_id: Seq<char>) -> Seq<DeletionView> {
    seq![
        DeletionView { table: "device"@, keep: Some(encode_utf8(own_user_id)) },
        DeletionView { table: "identity"@, keep: Some(encode_utf8(own_user_id)) },
    ]
}

/// Drop per-conversation crypto state so that a run starting from a snapshot never replays it.
/// There is nothing to do where there is no crypto store.
///
/// Why this exists: a CI runner restores the same snapshot every time and throws its changes away.
/// If that snapshot contained an outbound Megolm session at message index *n*, every run would
/// encrypt at index *n* and recipients would flag a replay. If it contained an Olm session whose
/// ratchet the recipient has already advanced past, the room-key share would be undecryptable and
/// the message unreadable for that device. Deleting these rows forces the SDK to claim fresh
/// one-time keys, build fresh Olm sessions, re-query device lists and start a fresh Megolm session
/// for this run - the same work a first-ever send does.
///
/// The Olm *account* (device keys), cross-signing keys, and known devices are left intact: that is
/// the identity we want to keep.
pub fn hygiene(crypto_db: bool) -> (list: Vec<Deletion>)
    ensures
        deletion_views(list@) == if crypto_db {
            hygiene_deletions()
        } else {
            Seq::empty()
        },
{
    let mut list: Vec<Deletion> = Vec::new();
    if crypto_db {
        list.push(Deletion { table: "session", keep: None });
        list.push(Deletion { table: "outbound_group_session", keep: None });
        list.push(Deletion { table: "tracked_user", keep: None });
        assert(deletion_views(list@) =~= hygiene_deletions());
    } else {
        assert(deletion_views(list@) =~= Seq::empty());
    }
    list
}

/// What happens to the crypto store before a client opens it: the same hygiene as before an export,
/// unless the conversation state is to be kept, as by a command that must not change the store.
pub fn before_open(keep_sessions: bool, crypto_db: bool) -> (list: Vec<Deletion>)
    ensures
        deletion_views(list@) == if !keep_sessions && crypto_db {
            hygiene_deletions()
        } else {
            Seq::empty()
        },
{
    if keep_sessions {
        let none: Vec<Deletion> = Vec::new();
        assert(deletion_views(none@) =~= Seq::empty());
        none
    } else {
        hygiene(crypto_db)
    }
}

/// Remove other users' cached devices and identities from the crypto store. They are re-fetched
/// with `/keys/query` on every run anyway (see [`hygiene`]), and they are what makes the snapshot
/// grow with room size: a repository secret is capped at 48 KB. Our own rows stay.
pub fn slim(crypto_db: bool, own_user_id: &str) -> (list: Vec<Deletion>)
    ensures
        deletion_views(list@) == if crypto_db {
            slim_deletions(own_user_id@)
        } else {
            Seq::empty()
        },
{
    let mut list: Vec<Deletion> = Vec::new();
    if crypto_db {
        list.push(Deletion { table: "device", keep: Some(slice_to_vec(own_user_id.as_bytes())) });
        list.push(Deletion { table: "identity", keep: Some(slice_to_vec(own_user_id.as_bytes())) });
        assert(deletion_views(list@) =~= slim_deletions(own_user_id@));
    } else {
        assert(deletion_views(list@) =~= Seq::empty());
    }
    list
}

/// The databases to compact: those of the exported ones that there are.
pub open spec fn compacted(state_db: bool, crypto_db: bool) -> Seq<&'static str> {
    (if state_db {
        seq![STATE_DB]
    } else {
        Seq::empty()
    }) + (if crypto_db {
        seq![CRYPTO_DB]
    } else {
        Seq::empty()
    })
}

/// The databases on which to run [`COMPACT_SQL`], so the export is self-contained (no `-wal`
/// sidecar) and as small as possible. Must run while no SDK client holds the store open.
pub fn compact(state_db: bool, crypto_db: bool) -> (names: Vec<&'static str>)
    ensures
        names@ == compacted(state_db, crypto_db),
{
    let mut names: Vec<&'static str> = Vec::new();
    if state_db {
        names.push(STATE_DB);
    }
    if crypto_db {
        names.push(CRYPTO_DB);
    }
    assert(names@ =~= compacted(state_db, crypto_db));
    names
}

/// What happens to a store before it is exported.
pub struct ExportPlan {
    /// To be carried out on the crypto store, in order.
    pub deletions: Vec<Deletion>,
    /// The databases to compact afterwards, in order.
    pub compact: Vec<&'static str>,
}

/// Everything that should happen to a store before it is exported: drop regenerable
/// per-conversation state, drop other users' key cache, checkpoint and vacuum. Idempotent.
pub fn prepare_export(session: &Session, state_db: bool, crypto_db: bool) -> (plan: ExportPlan)
    ensures
        deletion_views(plan.deletions@) == if crypto_db {
            export_deletions(session.user_id@)
        } else {
            Seq::empty()
        },
        plan.compact@ == compacted(state_db, crypto_db),
{
    let mut deletions = hygiene(crypto_db);
    let ghost first = deletions@;
    let mut rest = slim(crypto_db, session.user_id.as_str());
    let ghost second = rest@;
    deletions.append(&mut rest);
    assert(deletion_views(first + second) =~= deletion_views(first) + deletion_views(second));
    assert(Seq::<DeletionView>::empty() + Seq::<DeletionView>::empty() =~= Seq::empty());
    ExportPlan { deletions, compact: compact(state_db, crypto_db) }
}

/// The deletions before an export.
pub open spec fn export_deletions(own_user_id: Seq<char>) -> Seq<DeletionView> {
    hygiene_deletions() + slim_deletions(own_user_id)
}

/// The tables of a database: the rows of each, by the user they belong to and the rest of them.
pub type Tables = Map<Seq<char>, Seq<(Seq<u8>, Seq<u8>)>>;

/// The rows that belong to a user.
pub open spec fn rows_of(rows: Seq<(Seq<u8>, Seq<u8>)>, user: Seq<u8>) -> Seq<(Seq<u8>, Seq<u8>)>
    decreases rows.len(),
{
    if rows.len() == 0 {
        Seq::empty()
    } else if rows.last().0 == user {
        rows_of(rows.drop_last(), user).push(rows.last())
    } else {
        rows_of(rows.drop_last(), user)
    }
}

/// The rows that a deletion leaves.
pub open spec fn rows_left(rows: Seq<(Seq<u8>, Seq<u8>)>, keep: Option<Seq<u8>>) -> Seq<
    (Seq<u8>, Seq<u8>),
> {
    match keep {
        Some(user) => rows_of(rows, user),
        None => Seq::empty(),
    }
}

/// The tables after deletions, each of which fails where its table is missing.
pub open spec fn after_deletions(tables: Tables, list: Seq<DeletionView>) -> Option<Tables>
    decreases list.len(),
{
    if list.len() == 0 {
        Some(tables)
    } else {
        match after_deletions(tables, list.drop_last()) {
            Some(t) => if t.dom().contains(list.last().table) {
                Some(
                    t.insert(
                        list.last().table,
                        rows_left(t[list.last().table], list.last().keep),
                    ),
                )
            } else {
                None
            },
            None => None,
        }
    }
}

proof fn lemma_rows_of_idempotent(rows: Seq<(Seq<u8>, Seq<u8>)>, user: Seq<u8>)
    ensures
        rows_of(rows_of(rows, user), user) == rows_of(rows, user),
        forall|i: int|
            0 <= i < rows_of(rows, user).len() ==> (#[trigger] rows_of(rows, user)[i]).0 == user,
    decreases rows.len(),
{
    if rows.len() > 0 {
        lemma_rows_of_idempotent(rows.drop_last(), user);
        let before = rows_of(rows.drop_last(), user);
        if rows.last().0 == user {
            assert(before.push(rows.last()).drop_last() =~= before);
        }
    }
}

/// The tables that the deletions before an export touch are five different ones.
proof fn lemma_table_names()
    ensures
        "session"@ != "outbound_group_session"@,
        "session"@ != "tracked_user"@,
        "session"@ != "device"@,
        "session"@ != "identity"@,
        "outbound_group_session"@ != "tracked_user"@,
        "outbound_group_session"@ != "device"@,
        "outbound_group_session"@ != "identity"@,
        "tracked_user"@ != "device"@,
        "tracked_user"@ != "identity"@,
        "device"@ != "identity"@,
{
    reveal_strlit("session");
    reveal_strlit("outbound_group_session");
    reveal_strlit("tracked_user");
    reveal_strlit("device");
    reveal_strlit("identity");
    assert("session"@.len() == 7);
    assert("outbound_group_session"@.len() == 22);
    assert("tracked_user"@.len() == 12);
    assert("device"@.len() == 6);
    assert("identity"@.len() == 8);
}

/// Whether a table holds conversation state.
pub open spec fn is_conversation_table(table: Seq<char>) -> bool {
    table == "session"@ || table == "outbound_group_session"@ || table == "tracked_user"@
}

proof fn lemma_hygiene(tables: Tables)
    ensures
        after_deletions(tables, hygiene_deletions()) == (if tables.dom().contains("session"@)
            && tables.dom().contains("outbound_group_session"@) && tables.dom().contains(
            "tracked_user"@,
        ) {
            Some(
                tables.insert("session"@, Seq::empty()).insert(
                    "outbound_group_session"@,
                    Seq::empty(),
                ).insert("tracked_user"@, Seq::empty()),
            )
        } else {
            None
        }),
{
    lemma_table_names();
    let list = hygiene_deletions();
    let two = list.drop_last();
    let one = two.drop_last();
    assert(one.drop_last() =~= Seq::empty());
    assert(after_deletions(tables, one.drop_last()) == Some(tables));
    assert(one.last() == clearing("session"@));
    assert(two.last() == clearing("outbound_group_session"@));
    assert(list.last() == clearing("tracked_user"@));
    assert(after_deletions(tables, one) == (if tables.dom().contains("session"@) {
        Some(tables.insert("session"@, Seq::empty()))
    } else {
        None
    }));
    assert(after_deletions(tables, two) is Some <==> tables.dom().contains("session"@)
        && tables.dom().contains("outbound_group_session"@));
}

/// Hygiene empties the tables with conversation state and leaves every other table alone: the
/// identity survives.
pub proof fn law_hygiene_clears_conversations_only(tables: Tables)
    requires
        tables.dom().contains("session"@),
        tables.dom().contains("outbound_group_session"@),
        tables.dom().contains("tracked_user"@),
    ensures
        match after_deletions(tables, hygiene_deletions()) {
            Some(after) => {
                &&& after.dom() == tables.dom()
                &&& forall|table: Seq<char>|
                    tables.dom().contains(table) ==> #[trigger] after[table]
                        == if is_conversation_table(table) {
                        Seq::empty()
                    } else {
                        tables[table]
                    }
            },
            None => false,
        },
{
    lemma_hygiene(tables);
    let after = after_deletions(tables, hygiene_deletions())->0;
    assert(after.dom() =~= tables.dom());
}

/// A store whose schema has moved, so that one of those tables is missing, fails loudly.
pub proof fn law_hygiene_fails_on_schema_drift(tables: Tables, missing: Seq<char>)
    requires
        is_conversation_table(missing),
        !tables.dom().contains(missing),
    ensures
        after_deletions(tables, hygiene_deletions()) is None,
{
    lemma_hygiene(tables);
}

proof fn lemma_slim(tables: Tables, own: Seq<char>)
    ensures
        after_deletions(tables, slim_deletions(own)) == (if tables.dom().contains("device"@)
            && tables.dom().contains("identity"@) {
            Some(
                tables.insert("device"@, rows_of(tables["device"@], encode_utf8(own))).insert(
                    "identity"@,
                    rows_of(tables["identity"@], encode_utf8(own)),
                ),
            )
        } else {
            None
        }),
{
    lemma_table_names();
    let list = slim_deletions(own);
    let one = list.drop_last();
    assert(one.drop_last() =~= Seq::empty());
    assert(after_deletions(tables, one.drop_last()) == Some(tables));
    assert(one.last() == list[0]);
    assert(list.last() == list[1]);
    assert(after_deletions(tables, one) == (if tables.dom().contains("device"@) {
        Some(tables.insert("device"@, rows_of(tables["device"@], encode_utf8(own))))
    } else {
        None
    }));
}

/// Slimming leaves our own rows in the two caches, and every other table alone.
pub proof fn law_slim_keeps_own_rows(tables: Tables, own_user_id: Seq<char>)
    requires
        tables.dom().contains("device"@),
        tables.dom().contains("identity"@),
    ensures
        match after_deletions(tables, slim_deletions(own_user_id)) {
            Some(after) => {
                &&& after.dom() == tables.dom()
                &&& forall|table: Seq<char>|
                    tables.dom().contains(table) ==> #[trigger] after[table] == if table
                        == "device"@ || table == "identity"@ {
                        rows_of(tables[table], encode_utf8(own_user_id))
                    } else {
                        tables[table]
                    }
            },
            None => false,
        },
{
    lemma_slim(tables, own_user_id);
    lemma_table_names();
    let after = after_deletions(tables, slim_deletions(own_user_id))->0;
    assert(after.dom() =~= tables.dom());
}

proof fn lemma_after_both(tables: Tables, a: Seq<DeletionView>, b: Seq<DeletionView>)
    ensures
        after_deletions(tables, a + b) == (match after_deletions(tables, a) {
            Some(t) => after_deletions(t, b),
            None => None,
        }),
    decreases b.len(),
{
    if b.len() == 0 {
        assert(a + b =~= a);
    } else {
        lemma_after_both(tables, a, b.drop_last());
        assert((a + b).drop_last() =~= a + b.drop_last());
        assert((a + b).last() == b.last());
    }
}

/// Preparing a store for export twice is preparing it once.
pub proof fn law_prepare_export_idempotent(tables: Tables, own_user_id: Seq<char>)
    ensures
        match after_deletions(tables, export_deletions(own_user_id)) {
            Some(after) => after_deletions(after, export_deletions(own_user_id)) == Some(after),
            None => true,
        },
{
    let own = encode_utf8(own_user_id);
    lemma_after_both(tables, hygiene_deletions(), slim_deletions(own_user_id));
    lemma_hygiene(tables);
    lemma_table_names();
    if let Some(clean) = after_deletions(tables, hygiene_deletions()) {
        lemma_slim(clean, own_user_id);
        if let Some(after) = after_deletions(tables, export_deletions(own_user_id)) {
            lemma_after_both(after, hygiene_deletions(), slim_deletions(own_user_id));
            lemma_hygiene(after);
            let clean_again = after_deletions(after, hygiene_deletions())->0;
            assert(clean_again =~= after);
            lemma_slim(after, own_user_id);
            lemma_rows_of_idempotent(clean["device"@], own);
            lemma_rows_of_idempotent(clean["identity"@], own);
            let again = after_deletions(after, slim_deletions(own_user_id))->0;
            assert(again =~= after);
        }
    }
}

/// A name below a directory is the directory and the name, with exactly one `/` put between them where
/// neither the directory is empty nor ends in one.
pub proof fn law_path_is_directory_and_name(dir: &[u8], name: &[u8], path: Vec<u8>)
    requires
        call_ensures(join_path, (dir, name), path),
    ensures
        dir@.len() == 0 || dir@.last() == 0x2f ==> path@ == dir@ + name@,
        dir@.len() > 0 && dir@.last() != 0x2f ==> path@ == dir@ + seq![0x2fu8] + name@,
{
    if dir@.len() > 0 && dir@.last() != 0x2f {
        assert(path@ =~= dir@ + seq![0x2fu8] + name@);
    }
}

/// The session of a store is in the file of that name in its directory, and is there exactly where that
/// file is.
pub proof fn law_session_is_in_its_file(dir: &[u8], name: &[u8], path: Vec<u8>, joined: Vec<u8>)
    requires
        name@ == encode_utf8("session.json"@),
        call_ensures(Session::path, (dir,), path),
        call_ensures(join_path, (dir, name), joined),
    ensures
        path@ == joined@,
{
}

/// The store directory is the one that was asked for: by the flag where there is one, then by the
/// variable where it is not empty, and otherwise it is `.matrix-notify` at home. It is unknown only
/// where none of them tells it.
pub proof fn law_store_is_where_it_was_asked_for(
    flag: Option<&[u8]>,
    variable: Option<&[u8]>,
    home: Option<&[u8]>,
    dir: Result<Vec<u8>, NoHomeDirectory>,
)
    requires
        call_ensures(resolve_dir, (flag, variable, home), dir),
    ensures
        flag matches Some(f) ==> (dir matches Ok(d) && d@ == f@),
        flag is None && (variable matches Some(v) && v@.len() > 0) ==> (variable matches Some(v)
            && dir matches Ok(d) && d@ == v@),
        flag is None && !(variable matches Some(v) && v@.len() > 0) ==> match home {
            Some(h) => {
                &&& dir matches Ok(d)
                &&& h@.is_prefix_of(d@)
                &&& encode_utf8(".matrix-notify"@).is_suffix_of(d@)
                &&& h@.len() + encode_utf8(".matrix-notify"@).len() <= d@.len() <= h@.len() + 1
                    + encode_utf8(".matrix-notify"@).len()
            },
            None => dir is Err,
        },
{
    if flag is None && !(variable matches Some(v) && v@.len() > 0) {
        if let Some(h) = home {
            if let Ok(d) = dir {
                let name = encode_utf8(".matrix-notify"@);
                assert(d@ == joined_path(h@, name));
                assert(d@.take(h@.len() as int) =~= h@);
                assert(d@.skip(d@.len() - name.len()) =~= name);
            }
        }
    }
}

/// The fingerprint is the digest of what the identity consists of, in hexadecimal digits, and so it is
/// the same for two sessions exactly as far as the digest tells them apart: it never differs where the
/// homeserver, the user id, the device id and the access token agree.
pub proof fn law_fingerprint_is_the_digest_of_the_identity(
    a: &Session,
    b: &Session,
    input: Vec<u8>,
    f: String,
    g: String,
)
    requires
        call_ensures(Session::identity_input, (a,), input),
        call_ensures(Session::identity_fingerprint, (a,), f),
        call_ensures(Session::identity_fingerprint, (b,), g),
    ensures
        f@ == hex_text(sha256_digest(input@)),
        f@.len() == 64,
        a.homeserver@ == b.homeserver@ && a.user_id@ == b.user_id@ && a.device_id@ == b.device_id@
            && a.access_token@ == b.access_token@ ==> f@ == g@,
{
}

/// What is digested differs wherever one of the four fields does: whichever of them changes, and however
/// characters move from one to the next, the bytes are others. The lengths are those that fit in eight
/// bytes.
pub proof fn law_identity_input_tells_sessions_apart(
    a: &Session,
    b: &Session,
    x: Vec<u8>,
    y: Vec<u8>,
)
    requires
        call_ensures(Session::identity_input, (a,), x),
        call_ensures(Session::identity_input, (b,), y),
        encode_utf8(a.homeserver@).len() < 0x1_0000_0000_0000_0000,
        encode_utf8(a.user_id@).len() < 0x1_0000_0000_0000_0000,
        encode_utf8(a.device_id@).len() < 0x1_0000_0000_0000_0000,
        encode_utf8(a.access_token@).len() < 0x1_0000_0000_0000_0000,
        encode_utf8(b.homeserver@).len() < 0x1_0000_0000_0000_0000,
        encode_utf8(b.user_id@).len() < 0x1_0000_0000_0000_0000,
        encode_utf8(b.device_id@).len() < 0x1_0000_0000_0000_0000,
        encode_utf8(b.access_token@).len() < 0x1_0000_0000_0000_0000,
    ensures
        x@ == y@ <==> {
            &&& a.homeserver@ == b.homeserver@
            &&& a.user_id@ == b.user_id@
            &&& a.device_id@ == b.device_id@
            &&& a.access_token@ == b.access_token@
        },
{
    if x@ == y@ {
        law_identity_bytes_injective(a.identity(), b.identity());
    }
}

/// A log tells nothing of the tokens of a session: two sessions that differ in nothing else, and have a
/// refresh token both or neither, read the same; and it tells the address, the user and the device.
pub proof fn law_log_hides_the_tokens(a: &Session, b: &Session, x: String, y: String)
    requires
        call_ensures(Session::debug_text, (a,), x),
        call_ensures(Session::debug_text, (b,), y),
        a.homeserver@ == b.homeserver@,
        a.user_id@ == b.user_id@,
        a.device_id@ == b.device_id@,
        a.refresh_token is Some <==> b.refresh_token is Some,
    ensures
        x@ == y@,
        ("Session { homeserver: "@ + quoted(a.homeserver@) + ", user_id: "@ + quoted(a.user_id@)
            + ", device_id: "@ + quoted(a.device_id@)).is_prefix_of(x@),
{
    let head = "Session { homeserver: "@ + quoted(a.homeserver@) + ", user_id: "@ + quoted(
        a.user_id@,
    ) + ", device_id: "@ + quoted(a.device_id@);
    assert(x@.take(head.len() as int) =~= head);
}

/// A deletion is one statement on its table: of all rows, or of those of other users, where some stay.
pub proof fn law_deletion_is_on_its_table(deletion: &Deletion, text: String)
    requires
        call_ensures(Deletion::sql, (deletion,), text),
    ensures
        deletion.keep is None ==> text@ == "DELETE FROM \""@ + deletion.table@ + "\""@,
        deletion.keep is Some ==> text@ == "DELETE FROM \""@ + deletion.table@
            + "\" WHERE user_id != ?1"@,
{
}

/// Hygiene empties the Olm sessions, the outbound group sessions and the tracked users, and leaves
/// every other table as it is, the account, the devices and the identities among them.
pub proof fn law_hygiene_empties_three_tables(tables: Tables, list: Vec<Deletion>)
    requires
        call_ensures(hygiene, (true,), list),
        tables.dom().contains("session"@),
        tables.dom().contains("outbound_group_session"@),
        tables.dom().contains("tracked_user"@),
    ensures
        after_deletions(tables, deletion_views(list@)) matches Some(after) && {
            &&& after.dom() == tables.dom()
            &&& after["session"@].len() == 0
            &&& after["outbound_group_session"@].len() == 0
            &&& after["tracked_user"@].len() == 0
            &&& forall|table: Seq<char>|
                tables.dom().contains(table) && table != "session"@ && table
                    != "outbound_group_session"@ && table != "tracked_user"@ ==> #[trigger]
                after[table] == tables[table]
        },
{
    lemma_hygiene(tables);
    lemma_table_names();
    let after = after_deletions(tables, hygiene_deletions())->0;
    assert(after.dom() =~= tables.dom());
}

proof fn lemma_rows_of_is_filter(rows: Seq<(Seq<u8>, Seq<u8>)>, user: Seq<u8>)
    ensures
        rows_of(rows, user) == rows.filter(|row: (Seq<u8>, Seq<u8>)| row.0 == user),
    decreases rows.len(),
{
    reveal(Seq::filter);
    if rows.len() > 0 {
        lemma_rows_of_is_filter(rows.drop_last(), user);
    }
}

/// Preparing a store for export empties the tables with conversation state, leaves exactly our own rows
/// of the devices and the identities, in order, and leaves every other table as it is.
pub proof fn law_export_keeps_the_identity(
    session: &Session,
    state_db: bool,
    user: Seq<u8>,
    tables: Tables,
    plan: ExportPlan,
)
    requires
        user == encode_utf8(session.user_id@),
        call_ensures(prepare_export, (session, state_db, true), plan),
        tables.dom().contains("session"@),
        tables.dom().contains("outbound_group_session"@),
        tables.dom().contains("tracked_user"@),
        tables.dom().contains("device"@),
        tables.dom().contains("identity"@),
    ensures
        after_deletions(tables, deletion_views(plan.deletions@)) matches Some(after) && {
            &&& after.dom() == tables.dom()
            &&& after["session"@].len() == 0
            &&& after["outbound_group_session"@].len() == 0
            &&& after["tracked_user"@].len() == 0
            &&& after["device"@] == tables["device"@].filter(
                |row: (Seq<u8>, Seq<u8>)| row.0 == user,
            )
            &&& after["identity"@] == tables["identity"@].filter(
                |row: (Seq<u8>, Seq<u8>)| row.0 == user,
            )
            &&& forall|table: Seq<char>|
                tables.dom().contains(table) && table != "session"@ && table
                    != "outbound_group_session"@ && table != "tracked_user"@ && table != "device"@
                    && table != "identity"@ ==> #[trigger] after[table] == tables[table]
        },
{
    lemma_after_both(tables, hygiene_deletions(), slim_deletions(session.user_id@));
    lemma_hygiene(tables);
    lemma_table_names();
    let clean = after_deletions(tables, hygiene_deletions())->0;
    lemma_slim(clean, session.user_id@);
    lemma_rows_of_is_filter(tables["device"@], user);
    lemma_rows_of_is_filter(tables["identity"@], user);
    let after = after_deletions(tables, export_deletions(session.user_id@))->0;
    assert(after.dom() =~= tables.dom());
}

/// There is nothing to do to a crypto store that is not there; and the databases to compact are those
/// that are, each once, the state store before the crypto store.
pub proof fn law_only_what_is_there_is_prepared(
    session: &Session,
    state_db: bool,
    crypto_db: bool,
    keep_sessions: bool,
    opening: Vec<Deletion>,
    plan: ExportPlan,
)
    requires
        call_ensures(before_open, (keep_sessions, crypto_db), opening),
        call_ensures(prepare_export, (session, state_db, crypto_db), plan),
    ensures
        !crypto_db ==> opening@.len() == 0 && plan.deletions@.len() == 0,
        keep_sessions ==> opening@.len() == 0,
        crypto_db && !keep_sessions ==> opening@.len() == 3,
        crypto_db ==> plan.deletions@.len() == 5,
        plan.compact@.len() == (if state_db {
            1int
        } else {
            0int
        }) + (if crypto_db {
            1int
        } else {
            0int
        }),
        state_db ==> plan.compact@[0]@ == "matrix-sdk-state.sqlite3"@,
        crypto_db ==> plan.compact@.last()@ == "matrix-sdk-crypto.sqlite3"@,
{
    assert(deletion_views(opening@).len() == opening@.len());
    assert(deletion_views(plan.deletions@).len() == plan.deletions@.len());
}

/// A database is checkpointed and rewritten before an export, and another process is waited for ten
/// seconds.
pub proof fn law_databases_are_compacted()
    ensures
        COMPACT_SQL@ == "PRAGMA wal_checkpoint(TRUNCATE); VACUUM;"@,
        BUSY_TIMEOUT_SECS == 10,
{
}

/// The tokens that a client holds at the end of a run are taken over, whole, and it is told exactly
/// where one of them is another than before. Nothing else in a session changes.
pub proof fn law_tokens_are_taken_over(
    session: &mut Session,
    access_token: String,
    refresh_token: Option<String>,
    rotated: bool,
)
    requires
        call_ensures(Session::adopt_tokens, (session, access_token, refresh_token), rotated),
    ensures
        final(session).access_token@ == access_token@,
        opt_view(final(session).refresh_token) == opt_view(refresh_token),
        final(session).homeserver@ == old(session).homeserver@,
        final(session).server_name@ == old(session).server_name@,
        final(session).user_id@ == old(session).user_id@,
        final(session).device_id@ == old(session).device_id@,
        rotated <==> access_token@ != old(session).access_token@ || opt_view(refresh_token)
            != opt_view(old(session).refresh_token),
{
}

/// The number that eight bytes stand for, the most significant one first.
pub open spec fn big_endian(b: Seq<u8>) -> int {
    ((((((b[0] * 256 + b[1]) * 256 + b[2]) * 256 + b[3]) * 256 + b[4]) * 256 + b[5]) * 256 + b[6])
        * 256 + b[7]
}

/// A text with the length of its encoding before it, in eight bytes.
pub open spec fn is_measured(part: Seq<u8>, text: Seq<char>) -> bool {
    &&& part.len() == 8 + encode_utf8(text).len()
    &&& big_endian(part.take(8)) == encode_utf8(text).len()
    &&& part.skip(8) == encode_utf8(text)
}

proof fn lemma_measured(text: Seq<char>)
    requires
        fits(text),
    ensures
        is_measured(measured(text), text),
{
    let n = encode_utf8(text).len() as int;
    let part = measured(text);
    lemma_be_value(n);
    assert(be_bytes(n).len() == 8) by {
        reveal(be_bytes);
    }
    assert(part.take(8) =~= be_bytes(n));
    assert(part.skip(8) =~= encode_utf8(text));
}

/// What is digested is laid out field by field: the homeserver, the user id, the device id and the
/// access token, each whole and with its length before it, and eight zeros at the end. The lengths are
/// those that fit in eight bytes.
pub proof fn law_identity_input_is_laid_out(session: &Session, input: Vec<u8>)
    requires
        call_ensures(Session::identity_input, (session,), input),
        encode_utf8(session.homeserver@).len() < 0x1_0000_0000_0000_0000,
        encode_utf8(session.user_id@).len() < 0x1_0000_0000_0000_0000,
        encode_utf8(session.device_id@).len() < 0x1_0000_0000_0000_0000,
        encode_utf8(session.access_token@).len() < 0x1_0000_0000_0000_0000,
    ensures
        exists|a: Seq<u8>, b: Seq<u8>, c: Seq<u8>, d: Seq<u8>|
            #![trigger is_measured(a, session.homeserver@), is_measured(b, session.user_id@), is_measured(c, session.device_id@), is_measured(d, session.access_token@)]
            is_measured(a, session.homeserver@) && is_measured(b, session.user_id@) && is_measured(
                c,
                session.device_id@,
            ) && is_measured(d, session.access_token@) && input@ == a + b + c + d + seq![
                0u8,
                0u8,
                0u8,
                0u8,
                0u8,
                0u8,
                0u8,
                0u8,
            ],
{
    lemma_measured(session.homeserver@);
    lemma_measured(session.user_id@);
    lemma_measured(session.device_id@);
    lemma_measured(session.access_token@);
    assert(be_bytes(0) =~= seq![0u8, 0u8, 0u8, 0u8, 0u8, 0u8, 0u8, 0u8]) by {
        reveal(be_bytes);
    }
    assert(is_measured(measured(session.homeserver@), session.homeserver@));
    assert(is_measured(measured(session.user_id@), session.user_id@));
    assert(is_measured(measured(session.device_id@), session.device_id@));
    assert(is_measured(measured(session.access_token@), session.access_token@));
}

} // verus!
