//! The way from a target to a joined room, syncing and joining as needed.

use vstd::prelude::*;
use vstd::string::*;

use crate::target::RoomTarget;

verus! {

/// How we stand to a room.
#[derive(Debug, Clone, Copy, PartialEq, Eq, Structural)]
pub enum RoomState {
    Joined,
    Left,
    Invited,
    Knocked,
    Banned,
}

/// How long to sync for a room that was joined, in seconds.
pub const JOIN_DEADLINE_SECS: u64 = 30;

/// How long one of those syncs may wait for news, in seconds.
pub const JOIN_SYNC_SECS: u64 = 5;

/// Why a room is not joined.
#[derive(Debug)]
pub enum JoinRefusal {
    /// This account is banned from the room.
    Banned { room_id: String },
    /// The join did not show up in time; how we stand to the room follows.
    NotInTime { room_id: String, state: Option<RoomState> },
}

/// The name of a room state.
pub open spec fn state_name(state: RoomState) -> Seq<char> {
    match state {
        RoomState::Joined => "Joined"@,
        RoomState::Left => "Left"@,
        RoomState::Invited => "Invited"@,
        RoomState::Knocked => "Knocked"@,
        RoomState::Banned => "Banned"@,
    }
}

fn state_text(state: RoomState) -> (text: &'static str)
    ensures
        text@ == state_name(state),
{
    match state {
        RoomState::Joined => "Joined",
        RoomState::Left => "Left",
        RoomState::Invited => "Invited",
        RoomState::Knocked => "Knocked",
        RoomState::Banned => "Banned",
    }
}

impl JoinRefusal {
    /// The text of the refusal.
    pub open spec fn text(self) -> Seq<char> {
        match self {
            JoinRefusal::Banned { room_id } => "this account is banned from "@ + room_id@,
            JoinRefusal::NotInTime { room_id, state } => "room "@ + room_id@
                + " not joined with state after 30 s of syncing (state: "@ + (match state {
                Some(s) => "Some("@ + state_name(s) + ")"@,
                None => "None"@,
            }) + ")"@,
        }
    }

    /// What to tell the user.
    pub fn message(&self) -> (text: String)
        ensures
            text@ == self.text(),
    {
        match self {
            JoinRefusal::Banned { room_id } => {
                let mut text = "this account is banned from ".to_owned();
                text.append(room_id.as_str());
                text
            },
            JoinRefusal::NotInTime { room_id, state } => {
                let mut text = "room ".to_owned();
                text.append(room_id.as_str());
                text.append(" not joined with state after 30 s of syncing (state: ");
                match state {
                    Some(s) => {
                        let mut inner = "Some(".to_owned();
                        inner.append(state_text(*s));
                        inner.append(")");
                        text.append(inner.as_str());
                    },
                    None => text.append("None"),
                }
                text.append(")");
                text
            },
        }
    }
}

/// What a failed join is reported with.
pub fn join_context(described: &str, room_id: &str) -> (text: String)
    ensures
        text@ == "joining "@ + described@
            + ": the bot must be invited to (or the room must be public) "@ + room_id@,
{
    let mut text = "joining ".to_owned();
    text.append(described);
    text.append(": the bot must be invited to (or the room must be public) ");
    text.append(room_id);
    text
}

/// A room that a target led to, and how it can be joined: by what the target names it, through the
/// given servers.
#[derive(Debug)]
pub struct Resolved {
    pub room_id: String,
    pub named: String,
    pub via: Vec<String>,
}

/// What is to be done next on the way to a joined room.
#[derive(Debug)]
pub enum JoinStep {
    /// Ask the server which room an alias stands for.
    Resolve { alias: String },
    /// See whether the store knows the room.
    Look { room: Resolved },
    /// Sync once.
    Sync { room: Resolved },
    /// See how we stand to the room.
    LookAgain { room: Resolved },
    /// Accept the invitation.
    AcceptInvite { room_id: String },
    /// Join the room.
    JoinRoom { room: Resolved },
    /// Sync, and see whether the join has shown up: a room that was just joined is a stub until a
    /// sync delivers its state (history visibility, encryption), and a busy account gets an
    /// immediate answer that may predate the join on a homeserver with replication lag.
    SyncAfterJoin { room_id: String },
    /// Give up.
    Refused(JoinRefusal),
    /// Done.
    Joined { room_id: String },
}

/// What happened when a step was carried out.
#[derive(Debug)]
pub enum JoinEvent {
    Resolved { room_id: String, servers: Vec<String> },
    Seen(Option<RoomState>),
    Synced,
    InviteAccepted,
    RoomJoined,
    /// The room as it is after a sync, whether its history visibility is known, and whether the
    /// deadline has passed.
    SyncedAfterJoin { state: Option<RoomState>, history_known: bool, late: bool },
}

/// What is to be done about a room, by how we stand to it after the last look.
pub open spec fn approach(room: Resolved, state: Option<RoomState>) -> JoinStep {
    match state {
        Some(RoomState::Joined) => JoinStep::Joined { room_id: room.room_id },
        Some(RoomState::Invited) => JoinStep::AcceptInvite { room_id: room.room_id },
        Some(RoomState::Banned) => JoinStep::Refused(
            JoinRefusal::Banned { room_id: room.room_id },
        ),
        _ => JoinStep::JoinRoom { room },
    }
}

fn approach_room(room: Resolved, state: Option<RoomState>) -> (step: JoinStep)
    ensures
        step == approach(room, state),
{
    match state {
        Some(RoomState::Joined) => JoinStep::Joined { room_id: room.room_id },
        Some(RoomState::Invited) => JoinStep::AcceptInvite { room_id: room.room_id },
        Some(RoomState::Banned) => JoinStep::Refused(
            JoinRefusal::Banned { room_id: room.room_id },
        ),
        _ => JoinStep::JoinRoom { room },
    }
}

/// The step that follows a step when an event answers it. An event that does not answer the step
/// changes nothing.
pub open spec fn join_leads_to(
    step: JoinStep,
    force_sync: bool,
    event: JoinEvent,
    next: JoinStep,
) -> bool {
    match (step, event) {
        (JoinStep::Resolve { alias }, JoinEvent::Resolved { room_id, servers }) => next == (
        JoinStep::Look { room: Resolved { room_id, named: alias, via: servers } }),
        (JoinStep::Look { room }, JoinEvent::Seen(state)) => next == if force_sync || state != Some(
            RoomState::Joined,
        ) {
            JoinStep::Sync { room }
        } else {
            JoinStep::Joined { room_id: room.room_id }
        },
        (JoinStep::Sync { room }, JoinEvent::Synced) => next == (JoinStep::LookAgain { room }),
        (JoinStep::LookAgain { room }, JoinEvent::Seen(state)) => next == approach(room, state),
        (JoinStep::AcceptInvite { room_id }, JoinEvent::InviteAccepted) => next == (
        JoinStep::SyncAfterJoin { room_id }),
        (JoinStep::JoinRoom { room }, JoinEvent::RoomJoined) => next == (JoinStep::SyncAfterJoin {
            room_id: room.room_id,
        }),
        (
            JoinStep::SyncAfterJoin { room_id },
            JoinEvent::SyncedAfterJoin { state, history_known, late },
        ) => next == if state == Some(RoomState::Joined) && history_known {
            JoinStep::Joined { room_id }
        } else if late {
            JoinStep::Refused(JoinRefusal::NotInTime { room_id, state })
        } else {
            JoinStep::SyncAfterJoin { room_id }
        },
        _ => next == step,
    }
}

impl JoinStep {
    /// The first step on the way to a target: an alias is resolved, a room id is looked up.
    pub fn first(target: &RoomTarget) -> (step: Self)
        ensures
            match *target {
                RoomTarget::Alias(a) => step matches JoinStep::Resolve { alias } && alias@ == a@,
                RoomTarget::Id { room_id, via } => {
                    step matches JoinStep::Look { room } && room.room_id@ == room_id@
                        && room.named@ == room_id@ && crate::text::views(room.via@)
                        == crate::text::views(via@)
                },
            },
    {
        match target {
            RoomTarget::Alias(a) => JoinStep::Resolve { alias: a.clone() },
            RoomTarget::Id { room_id, via } => {
                let servers = clone_texts(via);
                JoinStep::Look {
                    room: Resolved {
                        room_id: room_id.clone(),
                        named: room_id.clone(),
                        via: servers,
                    },
                }
            },
        }
    }

    /// The step that follows this one when `event` answers it. `force_sync` asks for a sync even
    /// where the store knows the room as joined.
    pub fn next(self, force_sync: bool, event: JoinEvent) -> (step: Self)
        ensures
            join_leads_to(self, force_sync, event, step),
    {
        match (self, event) {
            (JoinStep::Resolve { alias }, JoinEvent::Resolved { room_id, servers }) => {
                JoinStep::Look { room: Resolved { room_id, named: alias, via: servers } }
            },
            (JoinStep::Look { room }, JoinEvent::Seen(state)) => {
                let known_joined = matches!(state, Some(RoomState::Joined));
                if force_sync || !known_joined {
                    JoinStep::Sync { room }
                } else {
                    JoinStep::Joined { room_id: room.room_id }
                }
            },
            (JoinStep::Sync { room }, JoinEvent::Synced) => JoinStep::LookAgain { room },
            (JoinStep::LookAgain { room }, JoinEvent::Seen(state)) => approach_room(room, state),
            (
                JoinStep::AcceptInvite { room_id },
                JoinEvent::InviteAccepted,
            ) => JoinStep::SyncAfterJoin { room_id },
            (JoinStep::JoinRoom { room }, JoinEvent::RoomJoined) => JoinStep::SyncAfterJoin {
                room_id: room.room_id,
            },
            (
                JoinStep::SyncAfterJoin { room_id },
                JoinEvent::SyncedAfterJoin { state, history_known, late },
            ) => {
                let joined = matches!(state, Some(RoomState::Joined));
                if joined && history_known {
                    JoinStep::Joined { room_id }
                } else if late {
                    JoinStep::Refused(JoinRefusal::NotInTime { room_id, state })
                } else {
                    JoinStep::SyncAfterJoin { room_id }
                }
            },
            (step, _) => step,
        }
    }
}

fn clone_texts(texts: &Vec<String>) -> (r: Vec<String>)
    ensures
        crate::text::views(r@) == crate::text::views(texts@),
{
    let mut r: Vec<String> = Vec::new();
    let mut i: usize = 0;
    while i < texts.len()
        invariant
            i <= texts.len(),
            r@.len() == i,
            forall|k: int| 0 <= k < i ==> (#[trigger] r@[k])@ == texts@[k]@,
        decreases texts.len() - i,
    {
        r.push(texts[i].clone());
        i = i + 1;
    }
    assert(crate::text::views(r@) =~= crate::text::views(texts@));
    r
}

/// A run of a join: the steps, and the event that led from each to the one after it.
pub open spec fn is_join_run(
    steps: Seq<JoinStep>,
    events: Seq<JoinEvent>,
    force_sync: bool,
) -> bool {
    &&& steps.len() == events.len() + 1
    &&& steps[0] is Resolve || steps[0] is Look
    &&& forall|i: int, j: int|
        0 <= i < events.len() && j == i + 1 ==> join_leads_to(
            #[trigger] steps[i],
            force_sync,
            events[i],
            #[trigger] steps[j],
        )
}

/// A sync was carried out at a moment of a run.
pub open spec fn synced_at(steps: Seq<JoinStep>, events: Seq<JoinEvent>, k: int) -> bool {
    &&& 0 <= k < events.len()
    &&& steps[k] is Sync
    &&& events[k] is Synced
}

/// At a moment of a run the room was seen as joined: by a look, or after a join, together with its
/// history visibility.
pub open spec fn seen_joined_at(steps: Seq<JoinStep>, events: Seq<JoinEvent>, k: int) -> bool {
    &&& 0 <= k < events.len()
    &&& match (steps[k], events[k]) {
        (JoinStep::Look { .. }, JoinEvent::Seen(state)) => state == Some(RoomState::Joined),
        (JoinStep::LookAgain { .. }, JoinEvent::Seen(state)) => state == Some(RoomState::Joined),
        (
            JoinStep::SyncAfterJoin { .. },
            JoinEvent::SyncedAfterJoin { state, history_known, .. },
        ) => state == Some(RoomState::Joined) && history_known,
        _ => false,
    }
}

proof fn lemma_join_prefix(steps: Seq<JoinStep>, events: Seq<JoinEvent>, force_sync: bool)
    requires
        is_join_run(steps, events, force_sync),
        events.len() > 0,
    ensures
        is_join_run(steps.drop_last(), events.drop_last(), force_sync),
        join_leads_to(steps[steps.len() - 2], force_sync, events.last(), steps.last()),
{
    let s = steps.drop_last();
    let e = events.drop_last();
    assert forall|i: int, j: int| 0 <= i < e.len() && j == i + 1 implies join_leads_to(
        #[trigger] s[i],
        force_sync,
        e[i],
        #[trigger] s[j],
    ) by {
        assert(s[i] == steps[i] && s[j] == steps[j]);
    }
    assert(steps[steps.len() - 1] == steps.last());
}

/// Whatever happens, a room counts as joined only where it was seen as joined; and where a sync is
/// forced, nothing is done about the room, and it does not count as joined, before a sync was
/// carried out.
pub proof fn law_joined_is_seen(steps: Seq<JoinStep>, events: Seq<JoinEvent>, force_sync: bool)
    requires
        is_join_run(steps, events, force_sync),
    ensures
        steps.last() is Joined ==> exists|k: int| seen_joined_at(steps, events, k),
        force_sync && !(steps.last() is Resolve || steps.last() is Look || steps.last() is Sync)
            ==> exists|k: int| synced_at(steps, events, k),
    decreases events.len(),
{
    if events.len() > 0 {
        let s = steps.drop_last();
        let e = events.drop_last();
        lemma_join_prefix(steps, events, force_sync);
        law_joined_is_seen(s, e, force_sync);
        assert forall|k: int| synced_at(s, e, k) implies synced_at(steps, events, k) by {
            assert(s[k] == steps[k] && e[k] == events[k]);
        }
        assert forall|k: int| seen_joined_at(s, e, k) implies seen_joined_at(steps, events, k) by {
            assert(s[k] == steps[k] && e[k] == events[k]);
        }
        let n = events.len() - 1;
        assert(s.last() == steps[n]);
        if steps[n] is Sync && events[n] is Synced {
            assert(synced_at(steps, events, n));
        }
        if steps.last() is Joined && !(steps[n] is Joined) {
            assert(seen_joined_at(steps, events, n));
        }
    }
}

/// The account joins nothing that it is banned from: a look that finds a ban ends the way.
pub proof fn law_ban_is_final(
    room: Resolved,
    force_sync: bool,
    next: JoinStep,
    event: JoinEvent,
    after: JoinStep,
)
    requires
        join_leads_to(
            JoinStep::LookAgain { room },
            force_sync,
            JoinEvent::Seen(Some(RoomState::Banned)),
            next,
        ),
        join_leads_to(next, force_sync, event, after),
    ensures
        next == JoinStep::Refused(JoinRefusal::Banned { room_id: room.room_id }),
        after == next,
{
}

/// The room that a step is about, where it is known.
pub open spec fn room_of_step(step: JoinStep) -> Option<Seq<char>> {
    match step {
        JoinStep::Resolve { .. } => None,
        JoinStep::Look { room } => Some(room.room_id@),
        JoinStep::Sync { room } => Some(room.room_id@),
        JoinStep::LookAgain { room } => Some(room.room_id@),
        JoinStep::AcceptInvite { room_id } => Some(room_id@),
        JoinStep::JoinRoom { room } => Some(room.room_id@),
        JoinStep::SyncAfterJoin { room_id } => Some(room_id@),
        JoinStep::Refused(JoinRefusal::Banned { room_id }) => Some(room_id@),
        JoinStep::Refused(JoinRefusal::NotInTime { room_id, .. }) => Some(room_id@),
        JoinStep::Joined { room_id } => Some(room_id@),
    }
}

/// How the room of a step can be joined, where that still matters.
pub open spec fn way_of_step(step: JoinStep) -> Option<Resolved> {
    match step {
        JoinStep::Look { room } => Some(room),
        JoinStep::Sync { room } => Some(room),
        JoinStep::LookAgain { room } => Some(room),
        JoinStep::JoinRoom { room } => Some(room),
        _ => None,
    }
}

/// The event is what comes of carrying out the step.
pub open spec fn join_answers(event: JoinEvent, step: JoinStep) -> bool {
    match step {
        JoinStep::Resolve { .. } => event is Resolved,
        JoinStep::Look { .. } => event is Seen,
        JoinStep::Sync { .. } => event is Synced,
        JoinStep::LookAgain { .. } => event is Seen,
        JoinStep::AcceptInvite { .. } => event is InviteAccepted,
        JoinStep::JoinRoom { .. } => event is RoomJoined,
        JoinStep::SyncAfterJoin { .. } => event is SyncedAfterJoin,
        JoinStep::Refused(_) => false,
        JoinStep::Joined { .. } => false,
    }
}

/// The way to a room stays with that room, and with how it can be joined: an alias leads to the room
/// and the servers that the server named for it, to be joined by the alias, and no step after that
/// changes them. An event that answers no step changes nothing.
pub proof fn law_join_keeps_to_its_room(
    step: JoinStep,
    force_sync: bool,
    event: JoinEvent,
    next: JoinStep,
)
    requires
        call_ensures(JoinStep::next, (step, force_sync, event), next),
    ensures
        room_of_step(step) is Some ==> room_of_step(next) == room_of_step(step),
        way_of_step(step) is Some && way_of_step(next) is Some ==> way_of_step(next) == way_of_step(
            step,
        ),
        way_of_step(next) is Some ==> way_of_step(step) is Some || step is Resolve,
        !join_answers(event, step) ==> next == step,
        match (step, event) {
            (JoinStep::Resolve { alias }, JoinEvent::Resolved { room_id, servers }) => {
                next matches JoinStep::Look { room } && room.room_id == room_id && room.named
                    == alias && room.via == servers
            },
            _ => true,
        },
{
}

/// What is done about a room follows from how we stand to it. One that is known as joined is done with
/// at the first look, unless a sync is forced; any other is synced first. Then an invitation is
/// accepted, a ban is final, and every other room that is not joined is joined; both are followed by
/// syncs until the join has shown up with the room's history visibility, and given up only when it has
/// not and it is late.
pub proof fn law_join_does_what_the_room_needs(
    step: JoinStep,
    force_sync: bool,
    event: JoinEvent,
    next: JoinStep,
)
    requires
        call_ensures(JoinStep::next, (step, force_sync, event), next),
    ensures
        step is Look ==> (event matches JoinEvent::Seen(state) ==> {
            &&& next is Joined <==> !force_sync && state == Some(RoomState::Joined)
            &&& next is Sync <==> force_sync || state != Some(RoomState::Joined)
        }),
        step is Sync && event is Synced ==> next is LookAgain,
        step is LookAgain ==> (event matches JoinEvent::Seen(state) ==> {
            &&& next is Joined <==> state == Some(RoomState::Joined)
            &&& next is AcceptInvite <==> state == Some(RoomState::Invited)
            &&& next is Refused <==> state == Some(RoomState::Banned)
            &&& next is Refused ==> (next matches JoinStep::Refused(refusal) && refusal is Banned)
            &&& next is JoinRoom <==> state is None || state == Some(RoomState::Left) || state
                == Some(RoomState::Knocked)
        }),
        step is AcceptInvite && event is InviteAccepted ==> next is SyncAfterJoin,
        step is JoinRoom && event is RoomJoined ==> next is SyncAfterJoin,
        step is SyncAfterJoin ==> (event matches JoinEvent::SyncedAfterJoin {
            state: seen,
            history_known,
            late,
        } ==> {
            let shown = seen == Some(RoomState::Joined) && history_known;
            &&& next is Joined <==> shown
            &&& next is SyncAfterJoin <==> !shown && !late
            &&& next is Refused <==> !shown && late
            &&& next is Refused ==> (next matches JoinStep::Refused(
                JoinRefusal::NotInTime { state: told, .. },
            ) && told == seen)
        }),
{
}

/// A target is looked for as it was given: an alias is resolved, and a room id is looked up and joined
/// by itself, through the servers that came with it.
pub proof fn law_join_starts_from_the_target(target: &RoomTarget, step: JoinStep)
    requires
        call_ensures(JoinStep::first, (target,), step),
    ensures
        match *target {
            RoomTarget::Alias(a) => step matches JoinStep::Resolve { alias } && alias@ == a@,
            RoomTarget::Id { room_id, via } => {
                &&& step matches JoinStep::Look { room }
                &&& room.room_id@ == room_id@
                &&& room.named@ == room_id@
                &&& room.via@.len() == via@.len()
                &&& forall|i: int|
                    0 <= i < via@.len() ==> (#[trigger] room.via@[i])@ == via@[i]@
            },
        },
{
    if let RoomTarget::Id { room_id, via } = *target {
        if let JoinStep::Look { room } = step {
            let a = crate::text::views(room.via@);
            let b = crate::text::views(via@);
            assert(a.len() == room.via@.len() && b.len() == via@.len());
            assert forall|i: int| 0 <= i < via@.len() implies (#[trigger] room.via@[i])@
                == via@[i]@ by {
                assert(a[i] == room.via@[i]@ && b[i] == via@[i]@);
            }
        }
    }
}

/// A refusal tells the room, whole, and how we stand to it where a join did not show up.
pub proof fn law_join_refusal_tells_why(refusal: &JoinRefusal, text: String)
    requires
        call_ensures(JoinRefusal::message, (refusal,), text),
    ensures
        match *refusal {
            JoinRefusal::Banned { room_id } => text@ == "this account is banned from "@ + room_id@,
            JoinRefusal::NotInTime { room_id, state } => text@ == "room "@ + room_id@
                + " not joined with state after 30 s of syncing (state: "@ + (match state {
                Some(RoomState::Joined) => "Some("@ + "Joined"@ + ")"@,
                Some(RoomState::Left) => "Some("@ + "Left"@ + ")"@,
                Some(RoomState::Invited) => "Some("@ + "Invited"@ + ")"@,
                Some(RoomState::Knocked) => "Some("@ + "Knocked"@ + ")"@,
                Some(RoomState::Banned) => "Some("@ + "Banned"@ + ")"@,
                None => "None"@,
            }) + ")"@,
        },
{
}

/// A join that failed is told with what was to be joined and the room that it led to.
pub proof fn law_failed_join_is_told(described: &str, room_id: &str, text: String)
    requires
        call_ensures(join_context, (described, room_id), text),
    ensures
        text@ == "joining "@ + described@
            + ": the bot must be invited to (or the room must be public) "@ + room_id@,
{
}

/// A join is given up after as long as is told: half a minute, in syncs that wait a part of it each.
pub proof fn law_join_is_given_up_in_time()
    ensures
        JOIN_DEADLINE_SECS == 30,
        JOIN_SYNC_SECS == 5,
{
}

} // verus!
