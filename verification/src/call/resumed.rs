//! What a resume keeps: a call that dropped and came back is the same call, under the same handle,
//! with the same peer, and it began when it first connected.

use super::engine::{call_installed, dropped, MediaFlags};
use super::error::CallError;
use super::reconnect::{owes_resume_offer, resume_join_plan, resume_offer};
use super::session::Session;
use super::signal::{resume_carried_on, resume_taken_up, CallOffer, JoinPlan, PeerMedia, ResumePlan};
use super::types::{CallCtl, CallTerminalReason, Effect, ResumeDecision, Ticket};
use crate::text::lemma_the_first_difference_decides;
use vstd::prelude::*;
use vstd::utf8::encode_utf8;

verus! {

/// A call that drops loses nothing of what a resume needs.
pub proof fn lemma_a_drop_keeps_the_call(c: CallCtl)
    ensures
        dropped(c).call_instance_id == c.call_instance_id,
        dropped(c).offer_id == c.offer_id,
        dropped(c).ring_handle == c.ring_handle,
        dropped(c).old_call_id == c.call_id,
        dropped(c).peer_username == c.peer_username,
        dropped(c).peer_key == c.peer_key,
        dropped(c).peer_device_key == c.peer_device_key,
        dropped(c).peer_reply_to_mailbox == c.peer_reply_to_mailbox,
        dropped(c).caller == c.caller,
        dropped(c).peer_media2 == c.peer_media2,
        dropped(c).connected_at == c.connected_at,
{
}

/// The end whose key sorts first is the one to offer a fresh room for the call it lost, and the
/// offer is for that call; when it is made has no bearing on when the call connected.
pub proof fn lemma_the_first_key_offers_the_resume(s: Session, old_call_id: Seq<char>, now: u64, at: int)
    requires
        s.account is Some,
        s.reconnect is Some,
        s.reconnect->0.old_call_id@ == old_call_id,
        ({
            let x = encode_utf8(s.account->0.identity_key@);
            let y = encode_utf8(s.reconnect->0.peer_device_key@);
            &&& 0 <= at <= x.len()
            &&& at < y.len()
            &&& forall|i: int| 0 <= i < at ==> x[i] == y[i]
            &&& at == x.len() || x[at] < y[at]
        }),
    ensures
        owes_resume_offer(s, old_call_id),
        ({
            let rc = s.reconnect->0;
            let offer = resume_offer(s, now);
            &&& offer.call_instance_id == rc.call_instance_id
            &&& offer.ring_handle == rc.ring_handle
            &&& offer.peer_username == rc.peer_username
            &&& offer.peer_key == rc.peer_key
            &&& offer.peer_device_key == rc.peer_device_key
            &&& offer.peer_reply_to_mailbox == rc.peer_reply_to_mailbox
            &&& offer.peer_media2 == rc.peer_media2
            &&& offer.connected_at == rc.connected_at
            &&& offer.caller_device_id == s.directory.self_device_id
            &&& offer.created_at == now
            &&& now + s.limits.ring_timeout_secs <= u64::MAX ==> offer.ring_expires_at == now
                + s.limits.ring_timeout_secs
            &&& now + s.limits.signal_ttl_secs <= u64::MAX ==> offer.expires_at == now + s.limits.signal_ttl_secs
        }),
{
    lemma_the_first_difference_decides(
        encode_utf8(s.account->0.identity_key@),
        encode_utf8(s.reconnect->0.peer_device_key@),
        at,
    );
}

/// The end whose key sorts last offers nothing, and neither does an end whose vault is locked or
/// which is not waiting to resume the call of this room.
pub proof fn lemma_only_the_first_key_offers_the_resume(s: Session, old_call_id: Seq<char>, at: int)
    requires
        s.account is None || s.reconnect is None || s.reconnect->0.old_call_id@ != old_call_id || ({
            let x = encode_utf8(s.account->0.identity_key@);
            let y = encode_utf8(s.reconnect->0.peer_device_key@);
            &&& 0 <= at <= y.len()
            &&& at < x.len()
            &&& forall|i: int| 0 <= i < at ==> x[i] == y[i]
            &&& at == y.len() || y[at] < x[at]
        }),
    ensures
        !owes_resume_offer(s, old_call_id),
{
    if !(s.account is None || s.reconnect is None || s.reconnect->0.old_call_id@ != old_call_id) {
        lemma_the_first_difference_decides(
            encode_utf8(s.reconnect->0.peer_device_key@),
            encode_utf8(s.account->0.identity_key@),
            at,
        );
    }
}

/// A resume keeps the call, at the end that offers the fresh room: it is the same call under the
/// same handle, with the same peer and device, connected when it first connected; only the room
/// and the offer are new. `lost` is the call as it
/// dropped; `s` the session while it waits, `now` whenever the offer is made; `before`,
/// `up` and `after` the session before the fresh room is installed, with it, and with what the
/// resume carries on.
pub proof fn lemma_a_resume_keeps_the_call_of_who_offers(
    lost: CallCtl,
    s: Session,
    now: u64,
    offer_id: String,
    ticket: Ticket,
    before: Session,
    flags: MediaFlags,
    transport: String,
    client: u64,
    ended: Option<CallTerminalReason>,
    result: Result<(), CallError>,
    out: Seq<Effect>,
    up: Session,
    after: Session,
)
    requires
        s.reconnect == Some(dropped(lost)),
        ({
            let plan = resume_join_plan(resume_offer(s, now), offer_id, ticket);
            &&& call_installed(before, plan.join, flags, transport, client, ended, up, result, out)
            &&& result is Ok
            &&& resume_carried_on(up, plan.join.call_id@, plan.connected_at, plan.peer_device_key, after)
        }),
    ensures
        after.call is Some,
        after.call->0.call_instance_id@ == lost.call_instance_id@,
        after.call->0.ring_handle == lost.ring_handle,
        after.call->0.peer_key == lost.peer_key,
        after.call->0.peer_username == lost.peer_username,
        after.call->0.connected_at == lost.connected_at,
        after.call->0.peer_device_key == lost.peer_device_key,
        after.call->0.peer_reply_to_mailbox == lost.peer_reply_to_mailbox,
        after.call->0.call_id == ticket.call_id,
        after.call->0.offer_id == offer_id,
        after.call->0.caller,
        resume_join_plan(resume_offer(s, now), offer_id, ticket).join.key_b64 == ticket.key_b64,
        resume_join_plan(resume_offer(s, now), offer_id, ticket).join.peer_media == PeerMedia::Known(
            lost.peer_media2,
        ),
        after.rings == before.rings && after.incoming == before.incoming && after.claiming == before.claiming
            && after.reconnect == before.reconnect && after.group_call == before.group_call,
{
}

/// A resume keeps the call, at the end that takes the offer up. The device it is with is the one
/// that made the offer, which is of the same account; `lost`, `before`, `up` and `after` are as
/// above.
pub proof fn lemma_a_resume_keeps_the_call_of_who_accepts(
    lost: CallCtl,
    s: Session,
    o: CallOffer,
    decision: ResumeDecision,
    waiting: Session,
    taken: Option<ResumePlan>,
    before: Session,
    flags: MediaFlags,
    transport: String,
    client: u64,
    ended: Option<CallTerminalReason>,
    result: Result<(), CallError>,
    out: Seq<Effect>,
    up: Session,
    after: Session,
)
    requires
        s.reconnect == Some(dropped(lost)),
        resume_taken_up(s, o, decision, waiting, taken),
        taken is Some,
        ({
            let plan = taken->0;
            &&& call_installed(before, plan.join, flags, transport, client, ended, up, result, out)
            &&& result is Ok
            &&& resume_carried_on(up, plan.join.call_id@, plan.connected_at, plan.peer_device_key, after)
        }),
    ensures
        waiting.reconnect is None,
        after.call is Some,
        after.call->0.call_instance_id@ == lost.call_instance_id@,
        after.call->0.ring_handle == lost.ring_handle,
        after.call->0.peer_key == lost.peer_key,
        after.call->0.peer_username == lost.peer_username,
        after.call->0.connected_at == lost.connected_at,
        after.call->0.peer_device_key == o.sender_identity_key,
        s.directory.account_of(o.sender_identity_key@) == s.directory.account_of(lost.peer_key@),
        after.call->0.peer_reply_to_mailbox == o.reply_to_mailbox,
        after.call->0.call_id == o.call_id,
        after.call->0.offer_id == o.offer_id,
        !after.call->0.caller,
        taken->0.join.key_b64 == o.key_b64,
        taken->0.join.peer_media == PeerMedia::Said(o.caps),
{
}

/// An offer resumes the call it names and no other: it is taken up exactly where this session
/// waits to resume the call of that room and that id, the sender is of the peer's account, and the
/// registry lets it through.
pub proof fn lemma_a_resume_is_for_the_call_it_names(
    s: Session,
    o: CallOffer,
    decision: ResumeDecision,
    after: Session,
    taken: Option<ResumePlan>,
)
    requires
        resume_taken_up(s, o, decision, after, taken),
    ensures
        taken is Some <==> s.reconnect is Some && s.reconnect->0.old_call_id@ == o.resume_of@
            && s.reconnect->0.call_instance_id@ == o.call_instance_id@ && s.directory.account_of(
            o.sender_identity_key@,
        ) == s.directory.account_of(s.reconnect->0.peer_key@) && (decision is Accepted || decision is Duplicate),
        taken is None ==> after == s,
        taken is Some ==> after.reconnect is None && after.call == s.call && after.rings == s.rings,
{
}

/// A call goes up only through the connection it was begun on, with the vault open, and if it has
/// not ended meanwhile; what goes up is what the plan says, at rest and not connected unless its
/// media session has said more.
pub proof fn lemma_a_call_that_goes_up_is_the_one_planned(
    before: Session,
    plan: JoinPlan,
    flags: MediaFlags,
    transport: String,
    client: u64,
    ended: Option<CallTerminalReason>,
    after: Session,
    result: Result<(), CallError>,
    out: Seq<Effect>,
)
    requires
        call_installed(before, plan, flags, transport, client, ended, after, result, out),
    ensures
        result is Ok <==> before.client == Some(client) && before.account is Some && ended is None,
        result is Err ==> after == before && out.contains(Effect::StopMedia { room: plan.call_id }),
        ended is Some && before.client == Some(client) && before.account is Some ==> result == Err::<
            (),
            CallError,
        >(CallError::AlreadyEnded(ended->0)),
        before.client != Some(client) ==> result == Err::<(), CallError>(CallError::NotConfigured),
        before.client == Some(client) && before.account is None ==> result == Err::<(), CallError>(
            CallError::Locked,
        ),
        result is Ok ==> ({
            let c = after.call->0;
            &&& after.call is Some
            &&& c.call_instance_id == plan.call_instance_id
            &&& c.offer_id == plan.offer_id
            &&& c.ring_handle == plan.ring_handle
            &&& c.call_id == plan.call_id
            &&& c.peer_username == plan.peer_username
            &&& c.peer_key == plan.peer_key
            &&& c.peer_device_key == plan.peer_key
            &&& c.peer_reply_to_mailbox == plan.peer_reply_to_mailbox
            &&& c.caller == plan.caller
            &&& !c.muted
            &&& !c.camera_on
            &&& !c.screen_on
            &&& !c.screen_audio_on
            &&& c.connected == flags.connected
            &&& c.connected_at == flags.connected_at
            &&& c.peer_media2 == flags.peer_media2
            &&& c.video_ready == flags.video_ready
            &&& c.peer_camera == flags.peer_camera
            &&& c.peer_screen == flags.peer_screen
            &&& c.transport == transport
            &&& c.ring_fanout == plan.ring_fanout
            &&& out[0] == Effect::ResetVolumes
            &&& out[1] == (Effect::ApplyGain { peer_key: plan.peer_key, username: plan.peer_username })
            &&& before.call is Some && before.call->0.ring_handle@ != plan.ring_handle@ ==> out.len() == 3 && (
            out[2] matches Effect::EndSystemCall { ring, .. } && ring == before.call->0.ring_handle)
            &&& !(before.call is Some && before.call->0.ring_handle@ != plan.ring_handle@) ==> out.len() == 2
        }),
{
    if result is Err {
        assert(out[1] == Effect::StopMedia { room: plan.call_id });
    }
}

} // verus!
