//! What the platform does to a call, and what call control does about it.
//!
//! The platform decides that the user answered, that a call was disconnected, that another
//! call takes the audio, and where the audio goes. It says so in small JSON events that name
//! the call by its handle.

use super::cmd::{
    after_hangup, call_decline, call_hangup, decline_outcome, hangup_local_effects, hangup_remote_effects,
    something_up,
};
use super::group_end::{
    after_group_hangup, group_call_decline, group_call_hangup, group_decline_outcome, group_hangup_outcome,
};
use super::handles::{accounts_for, ends, no_orphans, starts_none};
use super::session::Session;
use super::types::{CallCtl, CallTerminalReason, DisconnectCause, Effect, GroupCallCtl};
use super::unlock::AnswerPlan;
use crate::text::same;
use vstd::prelude::*;

verus! {

/// The cause an authenticated terminal outcome deserves in the platform's call log.
pub open spec fn cause_of(reason: CallTerminalReason) -> DisconnectCause {
    match reason {
        CallTerminalReason::AnsweredHere => DisconnectCause::Local,
        CallTerminalReason::AnsweredElsewhere => DisconnectCause::AnsweredElsewhere,
        CallTerminalReason::DeclinedHere => DisconnectCause::Rejected,
        CallTerminalReason::DeclinedElsewhere => DisconnectCause::AnsweredElsewhere,
        CallTerminalReason::CallerCancelled => DisconnectCause::Remote,
        CallTerminalReason::Expired => DisconnectCause::Missed,
        CallTerminalReason::Busy => DisconnectCause::Busy,
        CallTerminalReason::TransportError => DisconnectCause::Error,
    }
}

/// The cause an authenticated terminal outcome deserves in the platform's call log.
pub fn disconnect_cause(reason: CallTerminalReason) -> (r: DisconnectCause)
    ensures
        r == cause_of(reason),
{
    match reason {
        CallTerminalReason::AnsweredHere => DisconnectCause::Local,
        CallTerminalReason::AnsweredElsewhere => DisconnectCause::AnsweredElsewhere,
        CallTerminalReason::DeclinedHere => DisconnectCause::Rejected,
        CallTerminalReason::DeclinedElsewhere => DisconnectCause::AnsweredElsewhere,
        CallTerminalReason::CallerCancelled => DisconnectCause::Remote,
        CallTerminalReason::Expired => DisconnectCause::Missed,
        CallTerminalReason::Busy => DisconnectCause::Busy,
        CallTerminalReason::TransportError => DisconnectCause::Error,
    }
}

/// The text a JSON document has as a member: `None` where the document is not valid JSON,
/// `Some(None)` where it has no such member or the member is not a text.
pub uninterp spec fn json_member_of(document: Seq<char>, key: Seq<char>) -> Option<Option<Seq<char>>>;

/// The view of an optional text inside an optional document.
pub open spec fn member_view(r: Option<Option<String>>) -> Option<Option<Seq<char>>> {
    match r {
        None => None,
        Some(None) => Some(None),
        Some(Some(text)) => Some(Some(text@)),
    }
}

/// Reads a document with `serde_json::from_str` and takes the text of one member out of the
/// `serde_json::Value` it gives. What that is, is a function of the document and the key; it
/// is claimed to be the one that [`json_member_of`] names, and no more.
#[verifier::external_body]
fn json_member(document: &str, key: &str) -> (r: Option<Option<String>>)
    ensures
        member_view(r) == json_member_of(document@, key@),
{
    match serde_json::from_str::<serde_json::Value>(document) {
        Ok(value) => Some(value[key].as_str().map(|text| text.to_string())),
        Err(_) => None,
    }
}

/// The text of a member, or nothing.
pub open spec fn member_text(m: Option<Option<Seq<char>>>) -> Seq<char> {
    match m {
        Some(Some(text)) => text,
        _ => Seq::empty(),
    }
}

fn member_or_empty(document: &str, key: &str) -> (r: String)
    ensures
        r@ == member_text(json_member_of(document@, key@)),
{
    match json_member(document, key) {
        Some(Some(text)) => text,
        _ => {
            let r = String::new();
            assert(r@ =~= Seq::<char>::empty());
            r
        },
    }
}

/// What a platform event asks for.
#[derive(Clone, Copy, Debug, PartialEq, Eq, Structural)]
pub enum TelecomStep {
    /// Nothing.
    Ignore,
    /// The user answered: see [`super::unlock::answer_plan`].
    Answered,
    /// The call is over for the platform: see [`disconnected`].
    Disconnected,
    /// Another call took the audio, or gave it back: see [`set_muted`].
    Muted(bool),
    /// The audio goes elsewhere: see [`route_changed`].
    RouteChanged,
}

/// What an event asks for. A failure is the end of a call only where the platform would not
/// add it or would not take the answer; a refused route is an answer like any other.
pub open spec fn telecom_step(ring: Seq<char>, event: Seq<char>, op: Seq<char>) -> TelecomStep {
    if ring.len() == 0 {
        TelecomStep::Ignore
    } else if event == "answer"@ {
        TelecomStep::Answered
    } else if event == "disconnect"@ {
        TelecomStep::Disconnected
    } else if event == "inactive"@ {
        TelecomStep::Muted(true)
    } else if event == "active"@ {
        TelecomStep::Muted(false)
    } else if event == "endpoint"@ {
        TelecomStep::RouteChanged
    } else if event == "error"@ && (op == "add"@ || op == "answer"@) {
        TelecomStep::Disconnected
    } else if event == "error"@ && op == "route"@ {
        TelecomStep::RouteChanged
    } else {
        TelecomStep::Ignore
    }
}

/// Decide what a platform event asks for.
pub fn telecom_event(ring: &str, event: &str, op: &str) -> (r: TelecomStep)
    ensures
        r == telecom_step(ring@, event@, op@),
{
    if ring.is_empty() {
        TelecomStep::Ignore
    } else if same(event, "answer") {
        TelecomStep::Answered
    } else if same(event, "disconnect") {
        TelecomStep::Disconnected
    } else if same(event, "inactive") {
        TelecomStep::Muted(true)
    } else if same(event, "active") {
        TelecomStep::Muted(false)
    } else if same(event, "endpoint") {
        TelecomStep::RouteChanged
    } else if same(event, "error") {
        if same(op, "add") || same(op, "answer") {
            TelecomStep::Disconnected
        } else if same(op, "route") {
            TelecomStep::RouteChanged
        } else {
            TelecomStep::Ignore
        }
    } else {
        TelecomStep::Ignore
    }
}

/// A route request the platform refuses does not end the call, and of the platform's failures
/// only those of a call's own beginning do.
pub proof fn lemma_only_a_failed_beginning_ends_a_call(ring: Seq<char>, op: Seq<char>)
    ensures
        telecom_step(ring, "error"@, op) is Disconnected ==> op == "add"@ || op == "answer"@,
{
    reveal_strlit("disconnect");
    reveal_strlit("error");
    assert("disconnect"@.len() != "error"@.len());
}

/// A platform event that has been read: which call it names, what it asks for, and which route
/// it reports.
pub struct TelecomEvent {
    pub ring: String,
    pub step: TelecomStep,
    pub route: String,
}

/// The route an event reports: the new one where the platform moved the audio and says where
/// to, else unknown.
pub open spec fn reported_route(event: Seq<char>, route: Option<Option<Seq<char>>>) -> Seq<char> {
    match route {
        Some(Some(text)) => if event == "endpoint"@ {
            text
        } else {
            "unknown"@
        },
        _ => "unknown"@,
    }
}

/// Read one platform event. A document that is not JSON asks for nothing.
pub fn handle_telecom_event(json: &str) -> (r: TelecomEvent)
    ensures
        ({
            let ring = member_text(json_member_of(json@, "ring"@));
            let event = member_text(json_member_of(json@, "event"@));
            let op = member_text(json_member_of(json@, "op"@));
            &&& r.ring@ == ring
            &&& r.step == telecom_step(ring, event, op)
            &&& r.route@ == reported_route(event, json_member_of(json@, "route"@))
        }),
{
    let ring: String = member_or_empty(json, "ring");
    let event: String = member_or_empty(json, "event");
    let op: String = member_or_empty(json, "op");
    let step: TelecomStep = telecom_event(ring.as_str(), event.as_str(), op.as_str());
    let route: String = match json_member(json, "route") {
        Some(Some(text)) => if same(event.as_str(), "endpoint") {
            text
        } else {
            "unknown".to_owned()
        },
        _ => "unknown".to_owned(),
    };
    TelecomEvent { ring, step, route }
}

/// The audio routing the interface is shown.
pub enum RoutePicture {
    /// The bridge's own JSON picture.
    Bridge(String),
    /// What the event alone says: whether Bluetooth is in use, and the route.
    Event { bluetooth: bool, route: String },
}

/// The audio goes elsewhere: show the bridge's picture of it where that is valid JSON, and
/// what the event says where it is not.
pub fn route_changed(bridge: Option<String>, route: String) -> (r: RoutePicture)
    ensures
        r == if bridge is Some && json_member_of(bridge->0@, "route"@) is Some {
            RoutePicture::Bridge(bridge->0)
        } else {
            RoutePicture::Event { bluetooth: route@ == "bluetooth"@, route }
        },
{
    if let Some(json) = bridge {
        if json_member(json.as_str(), "route").is_some() {
            return RoutePicture::Bridge(json);
        }
    }
    let bluetooth = same(route.as_str(), "bluetooth");
    RoutePicture::Event { bluetooth, route }
}

/// The audio routing the interface asks for: the bridge's picture where that is valid JSON,
/// else the earpiece.
pub fn call_audio_routes(bridge: Option<String>) -> (r: RoutePicture)
    ensures
        bridge is Some && json_member_of(bridge->0@, "route"@) is Some ==> r == RoutePicture::Bridge(
            bridge->0,
        ),
        !(bridge is Some && json_member_of(bridge->0@, "route"@) is Some) ==> (r matches RoutePicture::Event {
            bluetooth,
            route,
        } && !bluetooth && route@ == "earpiece"@),
{
    proof {
        reveal_strlit("bluetooth");
        reveal_strlit("earpiece");
        assert("bluetooth"@.len() != "earpiece"@.len());
    }
    route_changed(bridge, "earpiece".to_owned())
}

/// The bridge reports that a headset came or went. Its picture is passed on if it is valid
/// JSON.
pub fn native_audio_route(json: String) -> (r: Option<String>)
    ensures
        r == if json_member_of(json@, "route"@) is Some {
            Some(json)
        } else {
            None
        },
{
    if json_member(json.as_str(), "route").is_some() {
        Some(json)
    } else {
        None
    }
}

/// What the platform's answer does at once. An answer that has to wait still stops the
/// ringtone; one for a call that is gone takes the system call down.
pub fn answered(plan: &AnswerPlan, ring: &String) -> (out: Vec<Effect>)
    ensures
        out@ == match plan {
            AnswerPlan::Unlock { .. } => seq![Effect::AcceptRing { ring: *ring }],
            AnswerPlan::Nothing => seq![
                Effect::EndSystemCall { ring: *ring, cause: DisconnectCause::Local },
            ],
            _ => Seq::<Effect>::empty(),
        },
        starts_none(out@),
{
    let mut out: Vec<Effect> = Vec::new();
    match plan {
        AnswerPlan::Unlock { .. } => {
            out.push(Effect::AcceptRing { ring: ring.clone() });
        },
        AnswerPlan::Nothing => {
            out.push(Effect::EndSystemCall { ring: ring.clone(), cause: DisconnectCause::Local });
        },
        _ => {},
    }
    out
}

/// Whether the vault may be opened for an answer with nobody there.
pub fn may_unlock_silently(s: &Session) -> (r: bool)
    ensures
        r == !s.prefs.require_unlock_to_answer,
{
    !s.prefs.require_unlock_to_answer
}

/// An answer waits: go on with it if the vault opened by itself, else ask for an unlock, and
/// for a person where one is needed, and watch the deadline.
pub fn answer_waits(
    call: &String,
    ring: &String,
    needs_presence: bool,
    deadline: u64,
    unlocked: bool,
) -> (out: Vec<Effect>)
    ensures
        unlocked ==> out@ == seq![Effect::ResumeUnlock],
        !unlocked ==> out@ == seq![Effect::OpenUnlockSurface] + (if needs_presence {
            seq![Effect::PromptPresence { call: *call, presented_as: *ring, deadline }]
        } else {
            Seq::<Effect>::empty()
        }) + seq![Effect::WatchUnlock { call: *call, presented_as: *ring, deadline }],
        starts_none(out@),
{
    let mut out: Vec<Effect> = Vec::new();
    if unlocked {
        out.push(Effect::ResumeUnlock);
        return out;
    }
    out.push(Effect::OpenUnlockSurface);
    if needs_presence {
        out.push(
            Effect::PromptPresence { call: call.clone(), presented_as: ring.clone(), deadline },
        );
    }
    out.push(Effect::WatchUnlock { call: call.clone(), presented_as: ring.clone(), deadline });
    out
}

/// An answer could not be given: the system call does not outlive the attempt.
pub fn answer_failed(ring: &String) -> (out: Vec<Effect>)
    ensures
        out@ == seq![Effect::EndSystemCall { ring: *ring, cause: DisconnectCause::Error }],
        forall|s: Session| #[trigger] accounts_for(s, Some(ring@), s, None, out@),
{
    let mut out: Vec<Effect> = Vec::new();
    out.push(Effect::EndSystemCall { ring: ring.clone(), cause: DisconnectCause::Error });
    assert(ends(out@[0], ring@));
    out
}

/// What a handle stands for here.
#[derive(Clone, Copy, Debug, PartialEq, Eq, Structural)]
pub enum Handle {
    Ringing,
    GroupRinging,
    /// A live 1:1 call, or one that waits for the caller's word.
    Call,
    GroupCall,
    Unknown,
}

/// What a handle stands for: a ring before a call, a 1:1 call before a group call.
pub open spec fn handle_of(s: Session, ring: Seq<char>) -> Handle {
    if s.incoming is Some && s.incoming->0.ring_handle@ == ring {
        Handle::Ringing
    } else if s.group_incoming is Some && s.group_incoming->0.ring_handle@ == ring {
        Handle::GroupRinging
    } else if (s.call is Some && s.call->0.ring_handle@ == ring) || (s.claiming is Some
        && s.claiming->0.offer.ring_handle@ == ring) {
        Handle::Call
    } else if (s.group_call is Some && s.group_call->0.ring_handle@ == ring) || (s.group_claiming is Some
        && s.group_claiming->0.offer.ring_handle@ == ring) {
        Handle::GroupCall
    } else {
        Handle::Unknown
    }
}

fn handle_of_exec(s: &Session, ring: &str) -> (r: Handle)
    ensures
        r == handle_of(*s, ring@),
{
    if let Some(o) = &s.incoming {
        if same(o.ring_handle.as_str(), ring) {
            return Handle::Ringing;
        }
    }
    if let Some(o) = &s.group_incoming {
        if same(o.ring_handle.as_str(), ring) {
            return Handle::GroupRinging;
        }
    }
    if let Some(c) = &s.call {
        if same(c.ring_handle.as_str(), ring) {
            return Handle::Call;
        }
    }
    if let Some(p) = &s.claiming {
        if same(p.offer.ring_handle.as_str(), ring) {
            return Handle::Call;
        }
    }
    if let Some(g) = &s.group_call {
        if same(g.ring_handle.as_str(), ring) {
            return Handle::GroupCall;
        }
    }
    if let Some(p) = &s.group_claiming {
        if same(p.offer.ring_handle.as_str(), ring) {
            return Handle::GroupCall;
        }
    }
    Handle::Unknown
}

/// The platform ended the call: decline it if it rings, hang up if it is up.
pub fn disconnected(s: &mut Session, ring: &str) -> (out: Vec<Effect>)
    ensures
        match handle_of(*old(s), ring@) {
            Handle::Ringing => *final(s) == (Session { incoming: None, ..*old(s) }) && out@
                == decline_outcome(*old(s)).1,
            Handle::GroupRinging => *final(s) == (Session { group_incoming: None, ..*old(s) }) && out@
                == group_decline_outcome(*old(s)).1,
            Handle::Call => *final(s) == after_hangup(*old(s)) && out@ == if !something_up(*old(s)) {
                Seq::<Effect>::empty()
            } else if old(s).client is None {
                hangup_local_effects(*old(s))
            } else {
                hangup_local_effects(*old(s)) + hangup_remote_effects(*old(s))
            },
            Handle::GroupCall => *final(s) == after_group_hangup(*old(s)) && out@ == group_hangup_outcome(
                *old(s),
            ).1,
            Handle::Unknown => *final(s) == *old(s) && out@ == Seq::<Effect>::empty(),
        },
        no_orphans(*old(s), *final(s), out@),
{
    match handle_of_exec(s, ring) {
        Handle::Ringing => call_decline(s).1,
        Handle::GroupRinging => group_call_decline(s).1,
        Handle::Call => call_hangup(s).1,
        Handle::GroupCall => group_call_hangup(s).1,
        Handle::Unknown => Vec::new(),
    }
}

/// Another call took the audio, or gave it back: the microphone is muted or unmuted, and the
/// call stays.
pub fn set_muted(s: &mut Session, ring: &str, muted: bool)
    ensures
        *final(s) == if old(s).call is Some && old(s).call->0.ring_handle@ == ring@ {
            Session { call: Some(CallCtl { muted, ..old(s).call->0 }), ..*old(s) }
        } else if old(s).group_call is Some && old(s).group_call->0.ring_handle@ == ring@ {
            Session {
                group_call: Some(GroupCallCtl { muted, ..old(s).group_call->0 }),
                ..*old(s)
            }
        } else {
            *old(s)
        },
{
    match &mut s.call {
        Some(c) => {
            if same(c.ring_handle.as_str(), ring) {
                c.muted = muted;
                return ;
            }
        },
        None => {},
    }
    match &mut s.group_call {
        Some(g) => {
            if same(g.ring_handle.as_str(), ring) {
                g.muted = muted;
            }
        },
        None => {},
    }
}

/// What each of the platform's events asks for; one without a handle asks for nothing.
pub proof fn lemma_what_the_platforms_events_ask_for(ring: Seq<char>, op: Seq<char>)
    ensures
        ring.len() > 0 ==> telecom_step(ring, "answer"@, op) is Answered,
        ring.len() > 0 ==> telecom_step(ring, "disconnect"@, op) is Disconnected,
        ring.len() > 0 ==> telecom_step(ring, "inactive"@, op) == TelecomStep::Muted(true),
        ring.len() > 0 ==> telecom_step(ring, "active"@, op) == TelecomStep::Muted(false),
        ring.len() > 0 ==> telecom_step(ring, "endpoint"@, op) is RouteChanged,
        ring.len() > 0 ==> telecom_step(ring, "error"@, "add"@) is Disconnected,
        ring.len() > 0 ==> telecom_step(ring, "error"@, "answer"@) is Disconnected,
        ring.len() > 0 ==> telecom_step(ring, "error"@, "route"@) is RouteChanged,
        forall|event: Seq<char>| ring.len() == 0 ==> #[trigger] telecom_step(ring, event, op) is Ignore,
{
    reveal_strlit("answer");
    reveal_strlit("disconnect");
    reveal_strlit("inactive");
    reveal_strlit("active");
    reveal_strlit("endpoint");
    reveal_strlit("error");
    reveal_strlit("add");
    reveal_strlit("route");
    assert("answer"@[0] == 'a' && "answer"@[1] == 'n' && "active"@[1] == 'c');
    assert("answer"@.len() == 6 && "disconnect"@.len() == 10 && "inactive"@.len() == 8 && "active"@.len() == 6
        && "endpoint"@.len() == 8 && "error"@.len() == 5 && "add"@.len() == 3 && "route"@.len() == 5);
    assert("inactive"@[0] == 'i' && "endpoint"@[0] == 'e');
}

/// A handle stands for the ring or the call that goes by it, and for nothing where none does.
pub proof fn lemma_what_a_handle_stands_for(s: Session, ring: Seq<char>)
    ensures
        s.incoming is Some && s.incoming->0.ring_handle@ == ring ==> handle_of(s, ring) is Ringing,
        s.incoming is None && s.group_incoming is Some && s.group_incoming->0.ring_handle@ == ring ==> handle_of(
            s,
            ring,
        ) is GroupRinging,
        s.incoming is None && s.group_incoming is None && s.call is Some && s.call->0.ring_handle@ == ring ==> handle_of(
            s,
            ring,
        ) is Call,
        s.incoming is None && s.group_incoming is None && s.claiming is Some && s.claiming->0.offer.ring_handle@
            == ring ==> handle_of(s, ring) is Call,
        s.incoming is None && s.group_incoming is None && s.call is None && s.claiming is None && s.group_call is Some
            && s.group_call->0.ring_handle@ == ring ==> handle_of(s, ring) is GroupCall,
        s.incoming is None && s.group_incoming is None && s.call is None && s.claiming is None
            && s.group_claiming is Some && s.group_claiming->0.offer.ring_handle@ == ring ==> handle_of(
            s,
            ring,
        ) is GroupCall,
        handle_of(s, ring) is Unknown <==> !((s.incoming is Some && s.incoming->0.ring_handle@ == ring) || (
        s.group_incoming is Some && s.group_incoming->0.ring_handle@ == ring) || (s.call is Some
            && s.call->0.ring_handle@ == ring) || (s.claiming is Some && s.claiming->0.offer.ring_handle@ == ring) || (
        s.group_call is Some && s.group_call->0.ring_handle@ == ring) || (s.group_claiming is Some
            && s.group_claiming->0.offer.ring_handle@ == ring)),
{
}

/// A route is reported where the platform moved the audio and says where to; otherwise it is not
/// known.
pub proof fn lemma_which_route_is_reported(event: Seq<char>, text: Seq<char>)
    ensures
        reported_route("endpoint"@, Some(Some(text))) == text,
        event != "endpoint"@ ==> reported_route(event, Some(Some(text))) == "unknown"@,
        reported_route(event, None) == "unknown"@,
        reported_route(event, Some(None)) == "unknown"@,
        member_text(Some(Some(text))) == text,
        member_text(None).len() == 0,
        member_text(Some(None)).len() == 0,
{
}

} // verus!
