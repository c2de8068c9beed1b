//! What the conversation with the homeserver decides: what goes in and out of it, and when a
//! message may be posted.
//!
//! Design notes
//!
//! * A run never persists its conversation state (see [`crate::store::hygiene`]). Each `send`
//!   therefore starts a fresh Megolm session for the room and shares it over fresh Olm sessions.
//!   The device identity, cross-signing keys and access token are the only long-lived pieces.
//! * `send` refuses to post to a room whose encryption state is not `Encrypted` unless explicitly
//!   allowed, so a misconfigured room cannot silently downgrade the whole point of the tool.
//! * No refresh tokens are requested: the access token in the snapshot must keep working across
//!   runs without being rotated.

use std::time::Duration;

use vstd::prelude::*;
use vstd::string::*;

use crate::store::{before_open, deletion_views, hygiene_deletions, Deletion, Session};
use crate::target::RoomTarget;
use crate::text::{decimal, decimal_text, join_texts, joined, same_text, views};

verus! {

/// How to authenticate at `login`.
pub enum Credentials {
    Password { user: String, password: String },
    /// A MAS- or admin-issued access token for an existing device.
    Token(String),
}

/// What `login` is asked for.
pub struct LoginOptions {
    pub homeserver: String,
    pub credentials: Credentials,
    pub device_name: String,
    /// Replace an existing cross-signing identity with a fresh one owned by this device (other
    /// sessions of the bot become unverified).
    pub reset_cross_signing: bool,
    /// Rooms to join right away so the snapshot already knows them.
    pub join: Vec<RoomTarget>,
}

/// What `login` did.
#[derive(Debug)]
pub struct LoginReport {
    pub user_id: String,
    pub device_id: String,
    pub homeserver: String,
    pub cross_signing: CrossSigningReport,
    pub joined: Vec<String>,
}

/// How cross-signing stands.
#[derive(Debug, Clone, PartialEq, Eq)]
pub enum CrossSigningReport {
    /// We created the identity; this device is self-signed.
    Bootstrapped,
    /// Identity existed and we hold the private keys (device self-signed).
    Present,
    /// Identity exists on the server but was created elsewhere: this device is not signed by it.
    /// Message still sends; readers see a grey shield.
    NotSignedByExistingIdentity,
    /// Server required interactive auth we could not satisfy.
    NeedsInteractiveAuth(String),
    /// Upload went through but the server does not show the expected result.
    Incomplete(String),
}

/// A command that talks to the homeserver.
#[derive(Debug, Clone, Copy, PartialEq, Eq, Structural)]
pub enum Command {
    Login,
    Send,
    Whoami,
    CrossSign,
}

impl Command {
    /// Whether a sync precedes the look at a room that is known to be joined. Only `send` wants one:
    /// what it restored is as old as the snapshot.
    pub fn forces_sync(self) -> (forces: bool)
        ensures
            forces == (self == Command::Send),
    {
        self == Command::Send
    }

    /// Whether the conversation state stays in the store. Only `send`, which starts from a snapshot
    /// and would replay it, drops it.
    pub fn keeps_sessions(self) -> (keeps: bool)
        ensures
            keeps == (self != Command::Send),
    {
        self != Command::Send
    }

    /// What happens to the crypto store before the command opens it: before every `send` the same
    /// hygiene as before an export, and nothing before the others.
    pub fn before_open(self, crypto_db: bool) -> (list: Vec<Deletion>)
        ensures
            deletion_views(list@) == if self == Command::Send && crypto_db {
                hygiene_deletions()
            } else {
                Seq::empty()
            },
    {
        before_open(self.keeps_sessions(), crypto_db)
    }
}

/// How to send.
pub struct SendOptions {
    pub allow_unencrypted: bool,
    /// Fail when any other member of the room has no device that can receive the room key.
    /// Default: fail only when nobody at all can read it.
    pub strict_recipients: bool,
    pub timeout: Duration,
}

/// What `send` did.
#[derive(Debug)]
pub struct SendReport {
    pub room_id: String,
    pub event_id: String,
    pub encrypted: bool,
    /// Members other than the bot who can read an encrypted message: the joined ones and, unless the
    /// room's history is for joined members only, the invited ones. None are counted for a message
    /// in plaintext.
    pub members: usize,
    /// Devices of those members known after a fresh key query, i.e. the set the room key was shared
    /// with.
    pub recipients: usize,
    /// Members whose key query returned no device (federation failure, deactivated account, or no
    /// E2E client).
    pub members_without_devices: Vec<String>,
}

/// Who we are, as the store and the server have it.
#[derive(Debug)]
pub struct WhoAmI {
    pub homeserver: String,
    pub user_id: String,
    pub device_id: String,
    pub device_name: Option<String>,
    pub cross_signed: Option<bool>,
    pub has_cross_signing_keys: bool,
    pub joined_rooms: Vec<String>,
    /// Whether the server accepted the token (`/account/whoami`).
    pub server_ok: bool,
}

/// Our own device, as the crypto store knows it.
#[derive(Debug)]
pub struct OwnDevice {
    pub display_name: Option<String>,
    pub cross_signed: bool,
}

/// Which private cross-signing keys are in the crypto store.
#[derive(Debug, Clone, Copy)]
pub struct SigningKeys {
    pub master: bool,
    pub self_signing: bool,
}

impl SigningKeys {
    /// Whether devices can be signed: the master and the self-signing key are there.
    pub fn can_sign(keys: Option<SigningKeys>) -> (can: bool)
        ensures
            can == (keys matches Some(k) && k.master && k.self_signing),
    {
        match keys {
            Some(k) => k.master && k.self_signing,
            None => false,
        }
    }
}

impl WhoAmI {
    /// Puts together who we are: the session says it, the crypto store and the server add to it.
    pub fn gather(
        session: &Session,
        server_ok: bool,
        device: Option<OwnDevice>,
        keys: Option<SigningKeys>,
        joined_rooms: Vec<String>,
    ) -> (who: Self)
        ensures
            who.homeserver@ == session.homeserver@,
            who.user_id@ == session.user_id@,
            who.device_id@ == session.device_id@,
            match device {
                Some(d) => who.device_name == d.display_name && who.cross_signed == Some(
                    d.cross_signed,
                ),
                None => who.device_name is None && who.cross_signed is None,
            },
            who.has_cross_signing_keys == (keys matches Some(k) && k.master && k.self_signing),
            who.joined_rooms == joined_rooms,
            who.server_ok == server_ok,
    {
        let (device_name, cross_signed) = match device {
            Some(d) => (d.display_name, Some(d.cross_signed)),
            None => (None, None),
        };
        WhoAmI {
            homeserver: session.homeserver.clone(),
            user_id: session.user_id.clone(),
            device_id: session.device_id.clone(),
            device_name,
            cross_signed,
            has_cross_signing_keys: SigningKeys::can_sign(keys),
            joined_rooms,
            server_ok,
        }
    }
}

/// What to warn of where the server takes us for another user than the session does.
pub fn user_mismatch(session: &Session, reported: &str) -> (text: Option<String>)
    ensures
        match text {
            Some(t) => reported@ != session.user_id@ && t@ == "server reports "@ + reported@
                + " but session.json says "@ + session.user_id@,
            None => reported@ == session.user_id@,
        },
{
    if same_text(reported, session.user_id.as_str()) {
        return None;
    }
    let mut text = "server reports ".to_owned();
    text.append(reported);
    text.append(" but session.json says ");
    text.append(session.user_id.as_str());
    Some(text)
}

/// Who may read what was sent before they joined.
#[derive(Debug, Clone, Copy, PartialEq, Eq, Structural)]
pub enum HistoryVisibility {
    Invited,
    Joined,
    Shared,
    WorldReadable,
    Other,
}

/// Which members a room key goes to.
#[derive(Debug, Clone, Copy, PartialEq, Eq, Structural)]
pub enum Memberships {
    /// Those who joined.
    Join,
    /// Those who joined or are invited.
    Active,
}

impl HistoryVisibility {
    /// The SDK shares with invited members only when history visibility allows them to read; count
    /// the same set.
    pub fn readers(self) -> (memberships: Memberships)
        ensures
            memberships == Memberships::Join <==> self == HistoryVisibility::Joined,
    {
        match self {
            HistoryVisibility::Joined => Memberships::Join,
            _ => Memberships::Active,
        }
    }
}

/// The members other than `own`, in order.
pub open spec fn others(members: Seq<Seq<char>>, own: Seq<char>) -> Seq<Seq<char>>
    decreases members.len(),
{
    if members.len() == 0 {
        Seq::empty()
    } else if members.last() == own {
        others(members.drop_last(), own)
    } else {
        others(members.drop_last(), own).push(members.last())
    }
}

/// The members other than the bot: those whose devices are to be queried.
pub fn other_members(members: &Vec<String>, own: &str) -> (r: Vec<String>)
    ensures
        views(r@) == others(views(members@), own@),
{
    let mut r: Vec<String> = Vec::new();
    let ghost all = views(members@);
    let mut i: usize = 0;
    assert(views(r@) =~= others(all.take(0), own@));
    while i < members.len()
        invariant
            i <= members.len(),
            all == views(members@),
            views(r@) == others(all.take(i as int), own@),
        decreases members.len() - i,
    {
        let ghost before = r@;
        assert(all.take(i as int + 1).drop_last() =~= all.take(i as int));
        assert(all.take(i as int + 1).last() == members@[i as int]@);
        if !same_text(members[i].as_str(), own) {
            r.push(members[i].clone());
            assert(views(r@) =~= views(before).push(members@[i as int]@));
        }
        i = i + 1;
    }
    assert(all.take(all.len() as int) =~= all);
    r
}

/// A device of a member.
#[derive(Debug, Clone, Copy)]
pub struct Device {
    pub deleted: bool,
    pub blacklisted: bool,
    pub dehydrated: bool,
}

impl Device {
    /// Whether the room key is shared with the device.
    pub open spec fn receives_keys(self) -> bool {
        !self.deleted && !self.blacklisted && !self.dehydrated
    }
}

/// A member with the devices that a fresh key query gave.
pub struct MemberDevices {
    pub user_id: String,
    pub devices: Vec<Device>,
}

/// Of how many devices the room key is shared with.
pub open spec fn receiving(devices: Seq<Device>) -> nat
    decreases devices.len(),
{
    if devices.len() == 0 {
        0
    } else {
        receiving(devices.drop_last()) + (if devices.last().receives_keys() {
            1nat
        } else {
            0nat
        })
    }
}

/// The devices of all members that the room key is shared with.
pub open spec fn all_receiving(members: Seq<MemberDevices>) -> nat
    decreases members.len(),
{
    if members.len() == 0 {
        0
    } else {
        all_receiving(members.drop_last()) + receiving(members.last().devices@)
    }
}

/// The members with no device that the room key is shared with, in order.
pub open spec fn unreachable_members(members: Seq<MemberDevices>) -> Seq<Seq<char>>
    decreases members.len(),
{
    if members.len() == 0 {
        Seq::empty()
    } else if receiving(members.last().devices@) == 0 {
        unreachable_members(members.drop_last()).push(members.last().user_id@)
    } else {
        unreachable_members(members.drop_last())
    }
}

/// Result of a fresh key query over the room's active members.
#[derive(Debug)]
pub struct Coverage {
    pub members: usize,
    pub devices: usize,
    pub without_devices: Vec<String>,
}

fn count_receiving(devices: &Vec<Device>) -> (n: usize)
    ensures
        n == receiving(devices@),
        n <= devices@.len(),
{
    let mut n: usize = 0;
    let mut i: usize = 0;
    while i < devices.len()
        invariant
            i <= devices.len(),
            n == receiving(devices@.take(i as int)),
            n <= i,
        decreases devices.len() - i,
    {
        assert(devices@.take(i as int + 1).drop_last() =~= devices@.take(i as int));
        let d = devices[i];
        if !d.deleted && !d.blacklisted && !d.dehydrated {
            n = n + 1;
        }
        i = i + 1;
    }
    assert(devices@.take(devices@.len() as int) =~= devices@);
    n
}

proof fn lemma_all_receiving_grows(members: Seq<MemberDevices>, k: int)
    requires
        0 <= k <= members.len(),
    ensures
        all_receiving(members.take(k)) <= all_receiving(members),
    decreases members.len(),
{
    if k < members.len() {
        lemma_all_receiving_grows(members.drop_last(), k);
        assert(members.drop_last().take(k) =~= members.take(k));
    } else {
        assert(members.take(k) =~= members);
    }
}

/// Count what we would encrypt to, over the devices of every other active member. The SDK does the
/// same query inside `room.send` but treats "no devices" as "nothing to share with" and reports
/// success; a notification nobody can decrypt is a failure for us.
pub fn recipient_coverage(members: &Vec<MemberDevices>) -> (coverage: Coverage)
    requires
        all_receiving(members@) <= usize::MAX,
    ensures
        coverage.members == members@.len(),
        coverage.devices == all_receiving(members@),
        views(coverage.without_devices@) == unreachable_members(members@),
{
    let mut devices: usize = 0;
    let mut without_devices: Vec<String> = Vec::new();
    let mut i: usize = 0;
    assert(views(without_devices@) =~= unreachable_members(members@.take(0)));
    while i < members.len()
        invariant
            i <= members.len(),
            all_receiving(members@) <= usize::MAX,
            devices == all_receiving(members@.take(i as int)),
            views(without_devices@) == unreachable_members(members@.take(i as int)),
        decreases members.len() - i,
    {
        let ghost before = without_devices@;
        proof {
            assert(members@.take(i as int + 1).drop_last() =~= members@.take(i as int));
            lemma_all_receiving_grows(members@, i as int + 1);
        }
        let n = count_receiving(&members[i].devices);
        if n == 0 {
            without_devices.push(members[i].user_id.clone());
            assert(views(without_devices@) =~= views(before).push(members@[i as int].user_id@));
        }
        devices = devices + n;
        i = i + 1;
    }
    assert(members@.take(members@.len() as int) =~= members@);
    Coverage { members: members.len(), devices, without_devices }
}

/// No more members are listed as unreachable than there are, and all of them are exactly where there
/// is no device at all that receives the room key.
pub proof fn law_coverage_without_devices(members: Seq<MemberDevices>)
    ensures
        unreachable_members(members).len() <= members.len(),
        all_receiving(members) == 0 <==> unreachable_members(members).len() == members.len(),
    decreases members.len(),
{
    if members.len() > 0 {
        law_coverage_without_devices(members.drop_last());
    }
}

/// Why a message is not posted.
#[derive(Debug)]
pub enum SendRefusal {
    /// The room is not encrypted; its encryption state follows.
    NotEncrypted { room_id: String, state: String },
    /// Nobody but the bot is in the room, or can read it.
    NobodyElse { room_id: String },
    /// No member has a device that could receive the room key.
    NoDevices { room_id: String, members: Vec<String> },
    /// Some members have no device, and that was not to be accepted.
    Unreachable { room_id: String, members: Vec<String> },
}

impl SendRefusal {
    /// The text of the refusal.
    pub open spec fn text(self) -> Seq<char> {
        match self {
            SendRefusal::NotEncrypted { room_id, state } => "room "@ + room_id@
                + " is not encrypted (state: "@ + state@
                + "); refusing to send plaintext. Enable encryption in the room or pass --allow-unencrypted"@,
            SendRefusal::NobodyElse { room_id } => "nobody but the bot is in "@ + room_id@
                + " (or can read it); refusing to post a message nobody can decrypt"@,
            SendRefusal::NoDevices { room_id, members } => "no member of "@ + room_id@
                + " has a device that could receive the room key (members: "@ + joined(
                views(members@),
                ", "@,
            ) + "); refusing to post a message nobody can decrypt"@,
            SendRefusal::Unreachable { room_id, members } => "--strict-recipients: "@ + decimal(
                members@.len(),
            ) + " member(s) of "@ + room_id@ + " have no device: "@ + joined(
                views(members@),
                ", "@,
            ),
        }
    }

    /// What to tell the user.
    pub fn message(&self) -> (text: String)
        ensures
            text@ == self.text(),
    {
        match self {
            SendRefusal::NotEncrypted { room_id, state } => {
                let mut text = "room ".to_owned();
                text.append(room_id.as_str());
                text.append(" is not encrypted (state: ");
                text.append(state.as_str());
                text.append(
                    "); refusing to send plaintext. Enable encryption in the room or pass --allow-unencrypted",
                );
                text
            },
            SendRefusal::NobodyElse { room_id } => {
                let mut text = "nobody but the bot is in ".to_owned();
                text.append(room_id.as_str());
                text.append(" (or can read it); refusing to post a message nobody can decrypt");
                text
            },
            SendRefusal::NoDevices { room_id, members } => {
                let mut text = "no member of ".to_owned();
                text.append(room_id.as_str());
                text.append(" has a device that could receive the room key (members: ");
                text.append(join_texts(members, ", ").as_str());
                text.append("); refusing to post a message nobody can decrypt");
                text
            },
            SendRefusal::Unreachable { room_id, members } => {
                let mut text = "--strict-recipients: ".to_owned();
                text.append(decimal_text(members.len() as u64).as_str());
                text.append(" member(s) of ");
                text.append(room_id.as_str());
                text.append(" have no device: ");
                text.append(join_texts(members, ", ").as_str());
                text
            },
        }
    }
}

/// What is to be done next on the way to a posted message.
#[derive(Debug)]
pub enum SendStep {
    /// Join the room, with a sync in any case: the state we restored is as old as the snapshot
    /// (encryption state, history visibility, membership), and it is never written back.
    Join,
    /// Force the member list to be fetched, so a member who joined since the snapshot gets the room
    /// key and one who left does not.
    FetchMembers { room_id: String },
    /// Ask the server whether the room is encrypted.
    ReadEncryption { room_id: String },
    /// Query the devices of every other member.
    QueryDevices { room_id: String },
    /// Drop the room key: never reuse a Megolm session from the snapshot.
    DiscardRoomKey { room_id: String, coverage: Coverage },
    /// Post the message: in plaintext where there is no coverage, and otherwise encrypted for the
    /// devices that it counts.
    Post { room_id: String, coverage: Option<Coverage> },
    /// Give up.
    Refused(SendRefusal),
    /// Done.
    Sent(SendReport),
}

/// What happened when a step was carried out.
#[derive(Debug)]
pub enum SendEvent {
    Joined { room_id: String },
    MembersFetched,
    Encryption { encrypted: bool, state: String },
    Devices(Coverage),
    RoomKeyDiscarded,
    Posted { event_id: String },
}

/// What a coverage says about sending: who is to be told, if anyone is.
pub open spec fn coverage_refusal(
    room_id: String,
    coverage: Coverage,
    strict: bool,
) -> Option<SendRefusal> {
    if coverage.members == 0 {
        Some(SendRefusal::NobodyElse { room_id })
    } else if coverage.devices == 0 {
        Some(SendRefusal::NoDevices { room_id, members: coverage.without_devices })
    } else if coverage.without_devices@.len() > 0 && strict {
        Some(SendRefusal::Unreachable { room_id, members: coverage.without_devices })
    } else {
        None
    }
}

/// A report on a posted message.
pub open spec fn reports(
    report: SendReport,
    room_id: String,
    coverage: Option<Coverage>,
    event_id: String,
) -> bool {
    &&& report.room_id == room_id
    &&& report.event_id == event_id
    &&& report.encrypted == coverage is Some
    &&& match coverage {
        Some(c) => {
            &&& report.members == c.members
            &&& report.recipients == c.devices
            &&& report.members_without_devices == c.without_devices
        },
        None => {
            &&& report.members == 0
            &&& report.recipients == 0
            &&& report.members_without_devices@.len() == 0
        },
    }
}

/// The step that follows a step when an event answers it. An event that does not answer the step
/// changes nothing.
pub open spec fn send_leads_to(
    step: SendStep,
    allow_unencrypted: bool,
    strict: bool,
    event: SendEvent,
    next: SendStep,
) -> bool {
    match (step, event) {
        (SendStep::Join, SendEvent::Joined { room_id }) => next == (SendStep::FetchMembers {
            room_id,
        }),
        (SendStep::FetchMembers { room_id }, SendEvent::MembersFetched) => next == (
        SendStep::ReadEncryption { room_id }),
        (SendStep::ReadEncryption { room_id }, SendEvent::Encryption { encrypted, state }) => next
            == if encrypted {
            SendStep::QueryDevices { room_id }
        } else if allow_unencrypted {
            SendStep::Post { room_id, coverage: None }
        } else {
            SendStep::Refused(SendRefusal::NotEncrypted { room_id, state })
        },
        (SendStep::QueryDevices { room_id }, SendEvent::Devices(coverage)) => next
            == match coverage_refusal(room_id, coverage, strict) {
            Some(refusal) => SendStep::Refused(refusal),
            None => SendStep::DiscardRoomKey { room_id, coverage },
        },
        (SendStep::DiscardRoomKey { room_id, coverage }, SendEvent::RoomKeyDiscarded) => next == (
        SendStep::Post { room_id, coverage: Some(coverage) }),
        (SendStep::Post { room_id, coverage }, SendEvent::Posted { event_id }) => {
            next matches SendStep::Sent(report) && reports(report, room_id, coverage, event_id)
        },
        _ => next == step,
    }
}

impl SendStep {
    /// The first step.
    pub fn first() -> (step: Self)
        ensures
            step == SendStep::Join,
    {
        SendStep::Join
    }

    /// The step that follows this one when `event` answers it.
    pub fn next(self, opts: &SendOptions, event: SendEvent) -> (step: Self)
        ensures
            send_leads_to(self, opts.allow_unencrypted, opts.strict_recipients, event, step),
    {
        match (self, event) {
            (SendStep::Join, SendEvent::Joined { room_id }) => SendStep::FetchMembers { room_id },
            (
                SendStep::FetchMembers { room_id },
                SendEvent::MembersFetched,
            ) => SendStep::ReadEncryption { room_id },
            (SendStep::ReadEncryption { room_id }, SendEvent::Encryption { encrypted, state }) => {
                if encrypted {
                    SendStep::QueryDevices { room_id }
                } else if opts.allow_unencrypted {
                    SendStep::Post { room_id, coverage: None }
                } else {
                    SendStep::Refused(SendRefusal::NotEncrypted { room_id, state })
                }
            },
            (SendStep::QueryDevices { room_id }, SendEvent::Devices(coverage)) => {
                if coverage.members == 0 {
                    SendStep::Refused(SendRefusal::NobodyElse { room_id })
                } else if coverage.devices == 0 {
                    SendStep::Refused(
                        SendRefusal::NoDevices { room_id, members: coverage.without_devices },
                    )
                } else if coverage.without_devices.len() > 0 && opts.strict_recipients {
                    SendStep::Refused(
                        SendRefusal::Unreachable { room_id, members: coverage.without_devices },
                    )
                } else {
                    SendStep::DiscardRoomKey { room_id, coverage }
                }
            },
            (
                SendStep::DiscardRoomKey { room_id, coverage },
                SendEvent::RoomKeyDiscarded,
            ) => SendStep::Post { room_id, coverage: Some(coverage) },
            (SendStep::Post { room_id, coverage }, SendEvent::Posted { event_id }) => {
                match coverage {
                    Some(c) => SendStep::Sent(
                        SendReport {
                            room_id,
                            event_id,
                            encrypted: true,
                            members: c.members,
                            recipients: c.devices,
                            members_without_devices: c.without_devices,
                        },
                    ),
                    None => SendStep::Sent(
                        SendReport {
                            room_id,
                            event_id,
                            encrypted: false,
                            members: 0,
                            recipients: 0,
                            members_without_devices: Vec::new(),
                        },
                    ),
                }
            },
            (step, _) => step,
        }
    }

    /// What to warn of before the room key is dropped and the message posted: members who will not
    /// be able to read it.
    pub fn warning(&self) -> (text: Option<String>)
        ensures
            match *self {
                SendStep::DiscardRoomKey { room_id, coverage } => {
                    if coverage.without_devices@.len() > 0 {
                        text matches Some(t) && t@ == decimal(coverage.without_devices@.len())
                            + " member(s) of "@ + room_id@
                            + " have no device and will not be able to read this: "@ + joined(
                            views(coverage.without_devices@),
                            ", "@,
                        )
                    } else {
                        text is None
                    }
                },
                _ => text is None,
            },
    {
        match self {
            SendStep::DiscardRoomKey { room_id, coverage } => {
                if coverage.without_devices.len() > 0 {
                    let mut text = decimal_text(coverage.without_devices.len() as u64);
                    text.append(" member(s) of ");
                    text.append(room_id.as_str());
                    text.append(" have no device and will not be able to read this: ");
                    text.append(join_texts(&coverage.without_devices, ", ").as_str());
                    Some(text)
                } else {
                    None
                }
            },
            _ => None,
        }
    }
}

/// A run of a send: the steps, the first of which is to join the room, and the event that led from
/// each to the one after it.
pub open spec fn is_send_run(
    steps: Seq<SendStep>,
    events: Seq<SendEvent>,
    allow_unencrypted: bool,
    strict: bool,
) -> bool {
    &&& steps.len() == events.len() + 1
    &&& steps[0] == SendStep::Join
    &&& forall|i: int, j: int|
        0 <= i < events.len() && j == i + 1 ==> send_leads_to(
            #[trigger] steps[i],
            allow_unencrypted,
            strict,
            events[i],
            #[trigger] steps[j],
        )
}

/// The member list was fetched at a moment of a run.
pub open spec fn fetched_members(steps: Seq<SendStep>, events: Seq<SendEvent>, k: int) -> bool {
    &&& 0 <= k < events.len()
    &&& steps[k] is FetchMembers
    &&& events[k] is MembersFetched
}

/// The encryption state was read at a moment of a run, and found to be the given one.
pub open spec fn found_encryption(
    steps: Seq<SendStep>,
    events: Seq<SendEvent>,
    k: int,
    encrypted: bool,
) -> bool {
    &&& 0 <= k < events.len()
    &&& steps[k] is ReadEncryption
    &&& events[k] matches SendEvent::Encryption { encrypted: e, .. } && e == encrypted
}

/// The devices of the members were queried at a moment of a run, with the given result.
pub open spec fn queried_devices(
    steps: Seq<SendStep>,
    events: Seq<SendEvent>,
    k: int,
    coverage: Coverage,
) -> bool {
    &&& 0 <= k < events.len()
    &&& steps[k] is QueryDevices
    &&& events[k] == SendEvent::Devices(coverage)
}

/// The room key was dropped at a moment of a run.
pub open spec fn dropped_key(steps: Seq<SendStep>, events: Seq<SendEvent>, k: int) -> bool {
    &&& 0 <= k < events.len()
    &&& steps[k] is DiscardRoomKey
    &&& events[k] is RoomKeyDiscarded
}

proof fn lemma_send_prefix(
    steps: Seq<SendStep>,
    events: Seq<SendEvent>,
    allow_unencrypted: bool,
    strict: bool,
)
    requires
        is_send_run(steps, events, allow_unencrypted, strict),
        events.len() > 0,
    ensures
        is_send_run(steps.drop_last(), events.drop_last(), allow_unencrypted, strict),
        send_leads_to(
            steps[steps.len() - 2],
            allow_unencrypted,
            strict,
            events.last(),
            steps.last(),
        ),
{
    let s = steps.drop_last();
    let e = events.drop_last();
    assert forall|i: int, j: int| 0 <= i < e.len() && j == i + 1 implies send_leads_to(
        #[trigger] s[i],
        allow_unencrypted,
        strict,
        e[i],
        #[trigger] s[j],
    ) by {
        assert(s[i] == steps[i] && s[j] == steps[j]);
    }
    assert(steps[steps.len() - 1] == steps.last());
}

/// In a run, the member list was fetched, and then the encryption state was found to be the given
/// one.
pub open spec fn looked_up(steps: Seq<SendStep>, events: Seq<SendEvent>, encrypted: bool) -> bool {
    exists|i: int, j: int|
        i < j && #[trigger] fetched_members(steps, events, i) && #[trigger] found_encryption(
            steps,
            events,
            j,
            encrypted,
        )
}

/// In a run, the devices of the members were queried, with a result that allows sending: there is
/// somebody else, with a device that receives the room key, and nobody is left out where that was
/// not to be accepted.
pub open spec fn is_covered(
    steps: Seq<SendStep>,
    events: Seq<SendEvent>,
    strict: bool,
    coverage: Coverage,
) -> bool {
    &&& exists|k: int| queried_devices(steps, events, k, coverage)
    &&& coverage.members > 0
    &&& coverage.devices > 0
    &&& strict ==> coverage.without_devices@.len() == 0
}

/// What every moment of a run owes to what went before it.
pub open spec fn send_is_justified(
    steps: Seq<SendStep>,
    events: Seq<SendEvent>,
    allow_unencrypted: bool,
    strict: bool,
) -> bool {
    match steps.last() {
        SendStep::ReadEncryption { .. } => exists|k: int| fetched_members(steps, events, k),
        SendStep::QueryDevices { .. } => looked_up(steps, events, true),
        SendStep::DiscardRoomKey { coverage, .. } => {
            &&& looked_up(steps, events, true)
            &&& is_covered(steps, events, strict, coverage)
        },
        SendStep::Post { coverage: Some(coverage), .. } => {
            &&& looked_up(steps, events, true)
            &&& is_covered(steps, events, strict, coverage)
            &&& exists|k: int| dropped_key(steps, events, k)
        },
        SendStep::Post { coverage: None, .. } => {
            &&& looked_up(steps, events, false)
            &&& allow_unencrypted
        },
        SendStep::Sent(report) => {
            if report.encrypted {
                &&& looked_up(steps, events, true)
                &&& exists|coverage: Coverage| #[trigger]
                    is_covered(steps, events, strict, coverage) && report.members
                        == coverage.members && report.recipients == coverage.devices
                        && report.members_without_devices == coverage.without_devices
                &&& exists|k: int| dropped_key(steps, events, k)
            } else {
                &&& looked_up(steps, events, false)
                &&& allow_unencrypted
            }
        },
        _ => true,
    }
}

/// Whatever happens, a message is posted only where it may be: in plaintext only where that was
/// allowed and the room is not encrypted; encrypted only where the room is, the member list was
/// fetched and the members' devices queried, somebody else is in the room and has a device that
/// receives the room key, nobody is left out where that was not to be accepted, and the room key of
/// the snapshot was dropped before.
pub proof fn law_posting_is_justified(
    steps: Seq<SendStep>,
    events: Seq<SendEvent>,
    allow_unencrypted: bool,
    strict: bool,
)
    requires
        is_send_run(steps, events, allow_unencrypted, strict),
    ensures
        send_is_justified(steps, events, allow_unencrypted, strict),
    decreases events.len(),
{
    if events.len() > 0 {
        let s = steps.drop_last();
        let e = events.drop_last();
        lemma_send_prefix(steps, events, allow_unencrypted, strict);
        law_posting_is_justified(s, e, allow_unencrypted, strict);
        lemma_send_moments(steps, events);
        let n = events.len() - 1;
        let from = steps[n];
        assert(s.last() == from);
        if from is FetchMembers && events[n] is MembersFetched {
            assert(fetched_members(steps, events, n));
        }
        if from is ReadEncryption {
            if let SendEvent::Encryption { encrypted, .. } = events[n] {
                assert(found_encryption(steps, events, n, encrypted));
            }
        }
        if from is QueryDevices {
            if let SendEvent::Devices(coverage) = events[n] {
                assert(queried_devices(steps, events, n, coverage));
            }
        }
        if from is DiscardRoomKey && events[n] is RoomKeyDiscarded {
            assert(dropped_key(steps, events, n));
        }
        if let SendStep::Post { coverage: Some(coverage), .. } = from {
            assert(is_covered(s, e, strict, coverage));
            assert(is_covered(steps, events, strict, coverage));
        }
        if let SendStep::Sent(report) = from {
            if report.encrypted {
                let c = choose|coverage: Coverage| #[trigger]
                    is_covered(s, e, strict, coverage) && report.members == coverage.members
                        && report.recipients == coverage.devices && report.members_without_devices
                        == coverage.without_devices;
                assert(is_covered(steps, events, strict, c));
            }
        }
    }
}

/// What happened in the beginning of a run happened in the run.
proof fn lemma_send_moments(steps: Seq<SendStep>, events: Seq<SendEvent>)
    requires
        events.len() > 0,
        steps.len() == events.len() + 1,
    ensures
        ({
            let s = steps.drop_last();
            let e = events.drop_last();
            &&& forall|k: int|
                #![trigger fetched_members(s, e, k)]
                fetched_members(s, e, k) ==> fetched_members(steps, events, k)
            &&& forall|k: int, b: bool|
                #![trigger found_encryption(s, e, k, b)]
                found_encryption(s, e, k, b) ==> found_encryption(steps, events, k, b)
            &&& forall|k: int, c: Coverage|
                #![trigger queried_devices(s, e, k, c)]
                queried_devices(s, e, k, c) ==> queried_devices(steps, events, k, c)
            &&& forall|k: int|
                #![trigger dropped_key(s, e, k)]
                dropped_key(s, e, k) ==> dropped_key(steps, events, k)
        }),
{
    let s = steps.drop_last();
    let e = events.drop_last();
    assert(forall|k: int| 0 <= k < e.len() ==> s[k] == steps[k] && e[k] == events[k]);
}

/// A refusal is final: no event leads from it to anything else.
pub proof fn law_refusal_is_final(
    refusal: SendRefusal,
    allow_unencrypted: bool,
    strict: bool,
    event: SendEvent,
    next: SendStep,
)
    requires
        send_leads_to(SendStep::Refused(refusal), allow_unencrypted, strict, event, next),
    ensures
        next == SendStep::Refused(refusal),
{
}

/// The members other than the bot are all members that have another name, in order; nobody else is
/// left out, and nobody is added.
pub proof fn law_other_members_leaves_only_the_bot_out(
    members: &Vec<String>,
    own: &str,
    r: Vec<String>,
)
    requires
        call_ensures(other_members, (members, own), r),
    ensures
        views(r@) == views(members@).filter(|m: Seq<char>| m != own@),
{
    lemma_others_is_filter(views(members@), own);
}

proof fn lemma_others_is_filter(members: Seq<Seq<char>>, own: &str)
    ensures
        others(members, own@) == members.filter(|m: Seq<char>| m != own@),
    decreases members.len(),
{
    reveal(Seq::filter);
    if members.len() > 0 {
        lemma_others_is_filter(members.drop_last(), own);
    }
}

/// The devices of a member that the room key is shared with: those that are neither deleted nor
/// blacklisted nor dehydrated.
pub open spec fn reached(member: MemberDevices) -> Seq<Device> {
    member.devices@.filter(|d: Device| !d.deleted && !d.blacklisted && !d.dehydrated)
}

proof fn lemma_receiving_is_filter(devices: Seq<Device>)
    ensures
        receiving(devices) == devices.filter(
            |d: Device| !d.deleted && !d.blacklisted && !d.dehydrated,
        ).len(),
    decreases devices.len(),
{
    reveal(Seq::filter);
    if devices.len() > 0 {
        lemma_receiving_is_filter(devices.drop_last());
    }
}

proof fn lemma_unreachable_is_filter(members: Seq<MemberDevices>)
    ensures
        unreachable_members(members) == members.filter(
            |m: MemberDevices| reached(m).len() == 0,
        ).map_values(|m: MemberDevices| m.user_id@),
    decreases members.len(),
{
    reveal(Seq::filter);
    let none = |m: MemberDevices| reached(m).len() == 0;
    let name = |m: MemberDevices| m.user_id@;
    if members.len() > 0 {
        let rest = members.drop_last();
        lemma_unreachable_is_filter(rest);
        lemma_receiving_is_filter(members.last().devices@);
        if none(members.last()) {
            assert(rest.filter(none).push(members.last()).map_values(name) =~= rest.filter(
                none,
            ).map_values(name).push(members.last().user_id@));
        }
    } else {
        assert(members.filter(none).map_values(name) =~= Seq::empty());
    }
}

proof fn lemma_all_receiving_concat(a: Seq<MemberDevices>, b: Seq<MemberDevices>)
    ensures
        all_receiving(a + b) == all_receiving(a) + all_receiving(b),
    decreases b.len(),
{
    if b.len() == 0 {
        assert(a + b =~= a);
    } else {
        lemma_all_receiving_concat(a, b.drop_last());
        assert((a + b).drop_last() =~= a + b.drop_last());
        assert((a + b).last() == b.last());
    }
}

/// Every member counts, the members without a device that receives the room key are listed by name and
/// in order, no other is, and nobody is listed more than once for each time they are a member.
pub proof fn law_coverage_lists_who_is_left_out(members: &Vec<MemberDevices>, coverage: Coverage)
    requires
        call_ensures(recipient_coverage, (members,), coverage),
    ensures
        coverage.members == members@.len(),
        views(coverage.without_devices@) == members@.filter(
            |m: MemberDevices| reached(m).len() == 0,
        ).map_values(|m: MemberDevices| m.user_id@),
        members@.len() == 1 ==> coverage.devices == reached(members@[0]).len(),
        coverage.devices == 0 <==> forall|i: int|
            0 <= i < members@.len() ==> reached(#[trigger] members@[i]).len() == 0,
{
    lemma_unreachable_is_filter(members@);
    lemma_no_device_reached(members@);
    if members@.len() == 1 {
        lemma_receiving_is_filter(members@[0].devices@);
        assert(members@.drop_last() =~= Seq::empty());
        assert(all_receiving(members@.drop_last()) == 0);
    }
}

proof fn lemma_no_device_reached(members: Seq<MemberDevices>)
    ensures
        all_receiving(members) == 0 <==> forall|i: int|
            0 <= i < members.len() ==> reached(#[trigger] members[i]).len() == 0,
    decreases members.len(),
{
    if members.len() > 0 {
        let rest = members.drop_last();
        lemma_no_device_reached(rest);
        lemma_receiving_is_filter(members.last().devices@);
        if all_receiving(members) == 0 {
            assert forall|i: int| 0 <= i < members.len() implies reached(
                #[trigger] members[i],
            ).len() == 0 by {
                if i < rest.len() {
                    assert(rest[i] == members[i]);
                }
            }
        } else if forall|i: int|
            0 <= i < members.len() ==> reached(#[trigger] members[i]).len() == 0 {
            assert(reached(members[members.len() - 1]).len() == 0);
            assert forall|i: int| 0 <= i < rest.len() implies reached(#[trigger] rest[i]).len()
                == 0 by {
                assert(rest[i] == members[i]);
            }
        }
    }
}

/// The devices of two groups of members are counted together: as many as are counted in each.
pub proof fn law_coverage_adds_up(
    a: &Vec<MemberDevices>,
    b: &Vec<MemberDevices>,
    both: &Vec<MemberDevices>,
    of_a: Coverage,
    of_b: Coverage,
    of_both: Coverage,
)
    requires
        both@ == a@ + b@,
        call_ensures(recipient_coverage, (a,), of_a),
        call_ensures(recipient_coverage, (b,), of_b),
        call_ensures(recipient_coverage, (both,), of_both),
    ensures
        of_both.members == of_a.members + of_b.members,
        of_both.devices == of_a.devices + of_b.devices,
        of_both.without_devices@.len() == of_a.without_devices@.len()
            + of_b.without_devices@.len(),
{
    lemma_all_receiving_concat(a@, b@);
    lemma_unreachable_concat(a@, b@);
    assert(views(of_both.without_devices@).len() == of_both.without_devices@.len());
    assert(views(of_a.without_devices@).len() == of_a.without_devices@.len());
    assert(views(of_b.without_devices@).len() == of_b.without_devices@.len());
}

proof fn lemma_unreachable_concat(a: Seq<MemberDevices>, b: Seq<MemberDevices>)
    ensures
        unreachable_members(a + b) == unreachable_members(a) + unreachable_members(b),
    decreases b.len(),
{
    if b.len() == 0 {
        assert(a + b =~= a);
        assert(unreachable_members(a) + unreachable_members(b) =~= unreachable_members(a));
    } else {
        lemma_unreachable_concat(a, b.drop_last());
        assert((a + b).drop_last() =~= a + b.drop_last());
        assert((a + b).last() == b.last());
        assert(unreachable_members(a + b) =~= unreachable_members(a) + unreachable_members(b));
    }
}

/// Sending is refused over its recipients only where it must be. Where somebody else is in the room
/// and has a device that receives the room key, and nobody is left out or that was to be accepted, the
/// answer to the device query leads to dropping the room key, and that to posting, for the same
/// recipients. A refusal says why: nobody else is there, nobody has a device, or somebody has none and
/// strict recipients were asked for.
pub proof fn law_reachable_rooms_are_posted_to(
    room_id: String,
    opts: &SendOptions,
    coverage: Coverage,
    next: SendStep,
    after: SendStep,
)
    requires
        call_ensures(
            SendStep::next,
            (SendStep::QueryDevices { room_id }, opts, SendEvent::Devices(coverage)),
            next,
        ),
        call_ensures(SendStep::next, (next, opts, SendEvent::RoomKeyDiscarded), after),
    ensures
        coverage.members > 0 && coverage.devices > 0 && (coverage.without_devices@.len() == 0
            || !opts.strict_recipients) ==> {
            &&& next == (SendStep::DiscardRoomKey { room_id, coverage })
            &&& after == (SendStep::Post { room_id, coverage: Some(coverage) })
        },
        match next {
            SendStep::DiscardRoomKey { .. } => {
                coverage.members > 0 && coverage.devices > 0 && (coverage.without_devices@.len()
                    == 0 || !opts.strict_recipients)
            },
            SendStep::Refused(SendRefusal::NobodyElse { room_id: r }) => {
                coverage.members == 0 && r == room_id
            },
            SendStep::Refused(SendRefusal::NoDevices { room_id: r, members }) => {
                &&& coverage.members > 0
                &&& coverage.devices == 0
                &&& r == room_id
                &&& members == coverage.without_devices
            },
            SendStep::Refused(SendRefusal::Unreachable { room_id: r, members }) => {
                &&& opts.strict_recipients
                &&& coverage.without_devices@.len() > 0
                &&& coverage.devices > 0
                &&& r == room_id
                &&& members == coverage.without_devices
            },
            _ => false,
        },
{
}

/// An encrypted room is never refused for its encryption state, and its devices are queried. A room
/// that is not is posted to in plaintext where that was allowed, and otherwise refused, with the state
/// that was found; it is never taken for an encrypted one.
pub proof fn law_encryption_decides(
    room_id: String,
    opts: &SendOptions,
    encrypted: bool,
    state: String,
    next: SendStep,
)
    requires
        call_ensures(
            SendStep::next,
            (
                SendStep::ReadEncryption { room_id },
                opts,
                SendEvent::Encryption { encrypted, state },
            ),
            next,
        ),
    ensures
        encrypted <==> next == (SendStep::QueryDevices { room_id }),
        next is Post <==> !encrypted && opts.allow_unencrypted,
        next matches SendStep::Post { room_id: r, coverage } ==> r == room_id && coverage is None,
        next is Refused <==> !encrypted && !opts.allow_unencrypted,
        next matches SendStep::Refused(refusal) ==> refusal == (SendRefusal::NotEncrypted {
            room_id,
            state,
        }),
{
}

/// The room that a step is about.
pub open spec fn room_of_step(step: SendStep) -> Option<String> {
    match step {
        SendStep::Join => None,
        SendStep::FetchMembers { room_id } => Some(room_id),
        SendStep::ReadEncryption { room_id } => Some(room_id),
        SendStep::QueryDevices { room_id } => Some(room_id),
        SendStep::DiscardRoomKey { room_id, .. } => Some(room_id),
        SendStep::Post { room_id, .. } => Some(room_id),
        SendStep::Refused(SendRefusal::NotEncrypted { room_id, .. }) => Some(room_id),
        SendStep::Refused(SendRefusal::NobodyElse { room_id }) => Some(room_id),
        SendStep::Refused(SendRefusal::NoDevices { room_id, .. }) => Some(room_id),
        SendStep::Refused(SendRefusal::Unreachable { room_id, .. }) => Some(room_id),
        SendStep::Sent(report) => Some(report.room_id),
    }
}

/// The event is what comes of carrying out the step.
pub open spec fn answers(event: SendEvent, step: SendStep) -> bool {
    match step {
        SendStep::Join => event is Joined,
        SendStep::FetchMembers { .. } => event is MembersFetched,
        SendStep::ReadEncryption { .. } => event is Encryption,
        SendStep::QueryDevices { .. } => event is Devices,
        SendStep::DiscardRoomKey { .. } => event is RoomKeyDiscarded,
        SendStep::Post { .. } => event is Posted,
        SendStep::Refused(_) => false,
        SendStep::Sent(_) => false,
    }
}

/// A send is about one room from beginning to end: the one that was joined. Each step is followed by
/// another as soon as an event answers it, and by itself until then. What is dropped is dropped for
/// the recipients that were found, and what is posted is posted for them.
pub proof fn law_send_keeps_to_its_room(
    step: SendStep,
    opts: &SendOptions,
    event: SendEvent,
    next: SendStep,
)
    requires
        call_ensures(SendStep::next, (step, opts, event), next),
    ensures
        room_of_step(step) is Some ==> room_of_step(next) == room_of_step(step),
        !answers(event, step) ==> next == step,
        answers(event, step) ==> next != step,
        match (step, event) {
            (SendStep::Join, SendEvent::Joined { room_id }) => next is FetchMembers && room_of_step(
                next,
            ) == Some(room_id),
            (SendStep::FetchMembers { .. }, SendEvent::MembersFetched) => next is ReadEncryption,
            (SendStep::DiscardRoomKey { coverage, .. }, SendEvent::RoomKeyDiscarded) => {
                next matches SendStep::Post { coverage: c, .. } && c == Some(coverage)
            },
            (SendStep::Post { .. }, SendEvent::Posted { .. }) => next is Sent,
            _ => true,
        },
{
}

/// A report says what was done: the room that was posted to, the event that the server made of the
/// message, and whether and for whom it was encrypted. A message in plaintext has no recipients.
pub proof fn law_report_tells_what_was_posted(
    room_id: String,
    coverage: Option<Coverage>,
    opts: &SendOptions,
    event_id: String,
    next: SendStep,
)
    requires
        call_ensures(
            SendStep::next,
            (SendStep::Post { room_id, coverage }, opts, SendEvent::Posted { event_id }),
            next,
        ),
    ensures
        match next {
            SendStep::Sent(report) => {
                &&& report.room_id@ == room_id@
                &&& report.event_id@ == event_id@
                &&& report.encrypted <==> coverage is Some
                &&& coverage matches Some(c) ==> report.members == c.members && report.recipients
                    == c.devices && views(report.members_without_devices@) == views(
                    c.without_devices@,
                )
                &&& coverage is None ==> report.members == 0 && report.recipients == 0
                    && report.members_without_devices@.len() == 0
            },
            _ => false,
        },
{
}

/// There is a warning exactly before a message goes out that some member cannot read, and it counts
/// and names them.
pub proof fn law_warning_names_who_is_left_out(step: &SendStep, text: Option<String>)
    requires
        call_ensures(SendStep::warning, (step,), text),
    ensures
        text is Some <==> (step matches SendStep::DiscardRoomKey { coverage, .. }
            && coverage.without_devices@.len() > 0),
        match (*step, text) {
            (SendStep::DiscardRoomKey { room_id, coverage }, Some(t)) => {
                &&& (decimal(coverage.without_devices@.len()) + " member(s) of "@
                    + room_id@).is_prefix_of(t@)
                &&& joined(views(coverage.without_devices@), ", "@).is_suffix_of(t@)
            },
            _ => true,
        },
{
    if let SendStep::DiscardRoomKey { room_id, coverage } = *step {
        if let Some(t) = text {
            let head = decimal(coverage.without_devices@.len()) + " member(s) of "@ + room_id@;
            let middle = " have no device and will not be able to read this: "@;
            let names = joined(views(coverage.without_devices@), ", "@);
            assert(t@ =~= head + (middle + names));
            assert(t@ =~= (head + middle) + names);
            assert(t@.take(head.len() as int) =~= head);
            assert(t@.skip(t@.len() - names.len()) =~= names);
        }
    }
}

/// Only `send` starts from a snapshot: it alone syncs in any case and drops the conversation state,
/// that is, the rows of the three tables that hold it, before the store is opened.
pub proof fn law_only_send_cleans_the_store(
    command: Command,
    crypto_db: bool,
    forces: bool,
    keeps: bool,
    list: Vec<Deletion>,
)
    requires
        call_ensures(Command::forces_sync, (command,), forces),
        call_ensures(Command::keeps_sessions, (command,), keeps),
        call_ensures(Command::before_open, (command, crypto_db), list),
    ensures
        forces <==> command is Send,
        keeps <==> !(command is Send),
        !(command is Send) || !crypto_db ==> list@.len() == 0,
        command is Send && crypto_db ==> {
            &&& list@.len() == 3
            &&& list@[0].table@ == "session"@
            &&& list@[1].table@ == "outbound_group_session"@
            &&& list@[2].table@ == "tracked_user"@
            &&& forall|i: int| 0 <= i < 3 ==> (#[trigger] list@[i]).keep is None
        },
{
    let views = deletion_views(list@);
    assert(views.len() == list@.len());
    if command is Send && crypto_db {
        assert forall|i: int| 0 <= i < 3 implies (#[trigger] list@[i]).keep is None && list@[i].table@
            == views[i].table by {
            assert(views[i] == list@[i]@);
        }
    }
}

/// Invited members are counted except where the history is for joined members only.
pub proof fn law_readers_follow_the_history(visibility: HistoryVisibility, who: Memberships)
    requires
        call_ensures(HistoryVisibility::readers, (visibility,), who),
    ensures
        who is Join <==> visibility is Joined,
        who is Active <==> !(visibility is Joined),
{
}

/// A send starts with the room.
pub proof fn law_send_starts_with_the_room(step: SendStep)
    requires
        call_ensures(SendStep::first, (), step),
    ensures
        step is Join,
{
}

/// A refusal tells the room, whole, and what stood in the way: the encryption state that was found, or
/// every member without a device, and how many there are where strict recipients were asked for.
pub proof fn law_refusal_tells_why(refusal: &SendRefusal, count: String, names: String, text: String)
    requires
        match *refusal {
            SendRefusal::NoDevices { members, .. } => call_ensures(
                join_texts,
                (&members, ", "),
                names,
            ),
            SendRefusal::Unreachable { members, .. } => call_ensures(
                join_texts,
                (&members, ", "),
                names,
            ) && call_ensures(decimal_text, (members@.len() as u64,), count) && members@.len()
                <= u64::MAX,
            _ => true,
        },
        call_ensures(SendRefusal::message, (refusal,), text),
    ensures
        match *refusal {
            SendRefusal::NotEncrypted { room_id, state } => text@ == "room "@ + room_id@
                + " is not encrypted (state: "@ + state@
                + "); refusing to send plaintext. Enable encryption in the room or pass --allow-unencrypted"@,
            SendRefusal::NobodyElse { room_id } => text@ == "nobody but the bot is in "@ + room_id@
                + " (or can read it); refusing to post a message nobody can decrypt"@,
            SendRefusal::NoDevices { room_id, .. } => text@ == "no member of "@ + room_id@
                + " has a device that could receive the room key (members: "@ + names@
                + "); refusing to post a message nobody can decrypt"@,
            SendRefusal::Unreachable { room_id, .. } => text@ == "--strict-recipients: "@ + count@
                + " member(s) of "@ + room_id@ + " have no device: "@ + names@,
        },
{
}

/// Who we are is what the session says, and what the crypto store and the server say is added to it
/// without a change. Signing takes both private keys.
pub proof fn law_whoami_is_gathered_unchanged(
    session: &Session,
    server_ok: bool,
    device: Option<OwnDevice>,
    keys: Option<SigningKeys>,
    rooms: Vec<String>,
    who: WhoAmI,
)
    requires
        call_ensures(WhoAmI::gather, (session, server_ok, device, keys, rooms), who),
    ensures
        who.homeserver@ == session.homeserver@,
        who.user_id@ == session.user_id@,
        who.device_id@ == session.device_id@,
        who.server_ok == server_ok,
        views(who.joined_rooms@) == views(rooms@),
        who.device_name is Some ==> (device matches Some(d) && who.device_name == d.display_name),
        who.cross_signed is Some <==> device is Some,
        device matches Some(d) ==> who.device_name == d.display_name && who.cross_signed == Some(
            d.cross_signed,
        ),
        who.has_cross_signing_keys <==> (keys matches Some(k) && k.master && k.self_signing),
{
}

/// There is a warning exactly where the server takes us for somebody else, and it tells both names.
pub proof fn law_mismatch_is_told(session: &Session, reported: &str, text: Option<String>)
    requires
        call_ensures(user_mismatch, (session, reported), text),
    ensures
        text is Some <==> reported@ != session.user_id@,
        text matches Some(t) ==> t@ == "server reports "@ + reported@ + " but session.json says "@
            + session.user_id@,
{
}

} // verus!
