//! The vocabulary of call control: outcomes, decisions, the pending and live call states a
//! session holds, and the effects a step asks the shell to carry out.

use crate::names::{NameMap, NameSet};
use vstd::prelude::*;

verus! {

/// How a call came to its end, as one side authenticated it.
#[derive(Clone, Copy, Debug, PartialEq, Eq, Structural)]
pub enum CallTerminalReason {
    AnsweredHere,
    AnsweredElsewhere,
    DeclinedHere,
    DeclinedElsewhere,
    CallerCancelled,
    Expired,
    Busy,
    TransportError,
}

/// What the platform's call log is told about a call that went away.
#[derive(Clone, Copy, Debug, PartialEq, Eq, Structural)]
pub enum DisconnectCause {
    Local,
    Remote,
    Missed,
    Rejected,
    Busy,
    AnsweredElsewhere,
    Error,
}

/// The phases a call record moves through.
#[derive(Clone, Copy, Debug, PartialEq, Eq, Structural)]
pub enum CallPhase {
    AnswerPendingUnlock,
    Claiming,
    Winner,
    Active,
}

/// The registry's answer to an offer.
#[derive(Clone, Copy, Debug, PartialEq, Eq, Structural)]
pub enum OfferDecision {
    Ring,
    Duplicate,
    Suppressed(CallTerminalReason),
    Expired,
    Invalid,
    Capacity,
}

/// The registry's answer to an offer that resumes a dropped call.
#[derive(Clone, Copy, Debug, PartialEq, Eq, Structural)]
pub enum ResumeDecision {
    Accepted,
    Duplicate,
    Suppressed(CallTerminalReason),
    Expired,
    Invalid,
    Stale,
    Missing,
}

/// The registry's answer to a phase change.
#[derive(Clone, Copy, Debug, PartialEq, Eq, Structural)]
pub enum TransitionDecision {
    Applied,
    Duplicate,
    Terminal(CallTerminalReason),
    Refused,
}

/// The registry's answer to a terminal outcome.
#[derive(Clone, Copy, Debug, PartialEq, Eq, Structural)]
pub enum TerminalDecision {
    Applied(CallTerminalReason),
    Duplicate(CallTerminalReason),
    Conflict,
    Invalid,
    Capacity,
}

/// The claim an arbiter settled on.
pub struct AnswerClaim {
    pub claim_nonce: String,
    pub answering_device_id: String,
    pub reply_to_mailbox: String,
}

/// An arbiter's answer to a claim.
pub enum ClaimDecision {
    Winner(AnswerClaim),
    Duplicate(AnswerClaim),
    Lost(AnswerClaim),
    Invalid,
}

/// The room of one media leg and the key that opens it. A key is used once.
pub struct Ticket {
    pub call_id: String,
    pub key_b64: String,
}

impl Clone for Ticket {
    fn clone(&self) -> (r: Ticket)
        ensures
            r == *self,
    {
        Ticket { call_id: self.call_id.clone(), key_b64: self.key_b64.clone() }
    }
}

/// An inbound 1:1 ring.
pub struct PendingOffer {
    pub call_instance_id: String,
    pub offer_id: String,
    pub ring_handle: String,
    pub call_id: String,
    pub key_b64: String,
    pub username: String,
    pub peer_key: String,
    pub caller_device_id: String,
    pub caller_reply_to_mailbox: String,
    pub expires_at: u64,
    pub caps: Vec<String>,
}

/// An inbound 1:1 ring this device answered, waiting for the caller to name a winner.
pub struct PendingClaim {
    pub offer: PendingOffer,
    pub claim_nonce: String,
    pub answering_device_id: String,
}

/// A live 1:1 call.
pub struct CallCtl {
    pub call_instance_id: String,
    pub offer_id: String,
    pub ring_handle: String,
    pub call_id: String,
    pub peer_username: String,
    pub peer_key: String,
    pub peer_device_key: String,
    pub peer_reply_to_mailbox: String,
    pub caller: bool,
    pub muted: bool,
    pub camera_on: bool,
    pub screen_on: bool,
    pub screen_audio_on: bool,
    pub connected: bool,
    pub connected_at: u64,
    pub peer_media2: bool,
    pub video_ready: bool,
    pub peer_camera: bool,
    pub peer_screen: bool,
    pub transport: String,
    pub ring_fanout: usize,
    pub busy_devices: NameSet,
}

/// A dropped 1:1 call that is being resumed.
pub struct PendingReconnect {
    pub call_instance_id: String,
    pub offer_id: String,
    pub ring_handle: String,
    pub old_call_id: String,
    pub peer_username: String,
    pub peer_key: String,
    pub peer_device_key: String,
    pub peer_reply_to_mailbox: String,
    pub caller: bool,
    pub peer_media2: bool,
    pub connected_at: u64,
}

/// An answer claim as it arrived.
pub struct BufferedClaim {
    pub sender_identity_key: String,
    pub call_instance_id: String,
    pub offer_id: String,
    pub claim_nonce: String,
    pub answering_device_id: String,
    pub reply_to_mailbox: String,
    pub caps: Vec<String>,
    pub expires_at: u64,
}

/// An outgoing call whose offers are out and whose room is not up yet, with the claims that
/// arrived meanwhile.
pub struct OutgoingSetup {
    pub call_instance_id: String,
    pub offer_id: String,
    pub claims: Vec<BufferedClaim>,
}

/// The device that rang a group and decides who answered.
pub struct GroupCoordinator {
    pub username: String,
    pub identity_key: String,
    pub device_id: String,
    pub reply_to_mailbox: String,
}

impl Clone for GroupCoordinator {
    fn clone(&self) -> (r: GroupCoordinator)
        ensures
            r == *self,
    {
        GroupCoordinator {
            username: self.username.clone(),
            identity_key: self.identity_key.clone(),
            device_id: self.device_id.clone(),
            reply_to_mailbox: self.reply_to_mailbox.clone(),
        }
    }
}

/// When a group ring was made, stops ringing, and stops being answerable.
#[derive(Clone, Copy, Debug, PartialEq, Eq, Structural)]
pub struct GroupRingDeadline {
    pub created_at: u64,
    pub ring_expires_at: u64,
    pub expires_at: u64,
}

/// One member's leg of a group call, as that member offered it.
pub struct LegOffer {
    pub username: String,
    pub call_id: String,
    pub key_b64: String,
}

/// An inbound group ring, with the legs offered while it rings (by device key).
pub struct PendingGroupOffer {
    pub call_instance: String,
    pub ring_id: String,
    pub ring_handle: String,
    pub group_id: String,
    pub group_name: String,
    pub rang_by_username: String,
    pub coordinator: GroupCoordinator,
    pub deadline: GroupRingDeadline,
    pub offers: NameMap<LegOffer>,
}

/// An inbound group ring this device answered, waiting for the coordinator.
pub struct PendingGroupClaim {
    pub offer: PendingGroupOffer,
    pub claim_nonce: String,
    pub answering_device_id: String,
}

/// A live group call.
pub struct GroupCallCtl {
    pub call_instance: String,
    pub ring_id: String,
    pub ring_handle: String,
    pub group_id: String,
    pub group_name: String,
    pub coordinator: GroupCoordinator,
    pub deadline: GroupRingDeadline,
    pub my_key: String,
    pub muted: bool,
    /// Device keys with a leg up or coming up.
    pub legs_added: NameSet,
    /// The room this device offered each member (by account name).
    pub my_tickets: NameMap<Ticket>,
    /// Every room whose key has been derived.
    pub used_call_ids: NameSet,
    /// Members who left on purpose.
    pub departed: NameSet,
    /// How often each member was offered a fresh room since their last working leg.
    pub reoffer_attempts: NameMap<u32>,
    /// Accounts whose answer race has an arbiter.
    pub arbiters: NameSet,
    /// Device keys with audio flowing, and the member each belongs to.
    pub connected: NameMap<String>,
    pub connected_at: u64,
}

/// An answer that waits for the vault to open or for a person to be vouched for.
pub struct PendingUnlock {
    pub call_instance_id: String,
    pub ring_handle: String,
    pub group: bool,
    pub needs_presence: bool,
    pub wants_credential: bool,
    pub expires_at: u64,
}

/// A ring announced by a capsule, whose encrypted offer has not arrived.
pub struct PendingRing {
    pub call_instance_id: String,
    pub offer_id: String,
    pub ring_handle: String,
    pub from: String,
    pub display_name: String,
    pub video: bool,
    pub group: bool,
    pub caller_device_id: String,
    pub reply_to_mailbox: String,
    pub reply_call_mailbox: String,
    pub reply_call_key: String,
    pub created_at: u64,
    pub ring_expires_at: u64,
    pub presented_as: Option<String>,
}

/// What a capsule is about.
#[derive(Clone, Copy, Debug, PartialEq, Eq, Structural)]
pub enum CapsuleKind {
    /// A ring begins.
    Offer,
    /// A call is over.
    Terminal,
}

/// Which of a device's keys signed a capsule.
#[derive(Clone, Copy, Debug, PartialEq, Eq, Structural)]
pub enum CapsuleSigner {
    /// The key its account's roster lists.
    Roster,
    /// Its call-control key, which is all a locked device has to sign with.
    CallKey,
}

/// A minimal call-control message for one device. It carries no media capability, and a
/// device can open it while its vault is locked.
pub struct CallCapsule {
    pub kind: CapsuleKind,
    pub call_instance_id: String,
    pub offer_id: String,
    pub from: String,
    pub caller_identity_key: String,
    pub caller_device_id: String,
    pub to_device_id: String,
    pub video: bool,
    pub group: bool,
    pub display_name: String,
    pub created_at: u64,
    pub ring_expires_at: u64,
    pub expires_at: u64,
    pub reply_to_mailbox: String,
    pub reply_call_mailbox: String,
    pub reply_call_key: String,
    pub signer: CapsuleSigner,
    pub reason: Option<CallTerminalReason>,
}

/// The call-control keys a device has published, verified against its account's roster.
pub struct CallKeyBinding {
    pub device_id: String,
    pub call_key: String,
    pub call_signing_key: String,
    pub created_at: u64,
    pub signature: String,
}

impl Clone for CallKeyBinding {
    fn clone(&self) -> (r: CallKeyBinding)
        ensures
            r == *self,
    {
        CallKeyBinding {
            device_id: self.device_id.clone(),
            call_key: self.call_key.clone(),
            call_signing_key: self.call_signing_key.clone(),
            created_at: self.created_at,
            signature: self.signature.clone(),
        }
    }
}

/// The bindings of one account's devices, by device id, and when they were fetched.
pub struct CallBindings {
    pub fetched_at: u64,
    pub devices: Vec<(String, CallKeyBinding)>,
}

/// What a ring may show as its caller.
pub enum RingName {
    /// Nothing at all.
    Nobody,
    /// The application's own name, in place of the caller's.
    Generic,
    /// The caller's or the group's name.
    Named(String),
}

/// Which sort of call a history entry speaks of.
#[derive(Clone, Copy, Debug, PartialEq, Eq, Structural)]
pub enum CallKind {
    Direct,
    Group,
}

/// A call outcome as the conversation's history shows it.
pub enum Label {
    MissedCall,
    DeclinedCall,
    CallEnded,
    MissedGroupCall { from: String },
    DeclinedGroupCall,
    GroupCallEnded,
    UnansweredGroupCall,
    /// A call this device was part of: its duration if it connected, else how it went.
    Ended { kind: CallKind, caller: bool, connected_at: u64 },
}

/// The media tracks a peer can switch.
#[derive(Clone, Copy, Debug, PartialEq, Eq, Structural)]
pub enum Track {
    Camera,
    Screen,
    ScreenAudio,
    Control,
}

/// What the user interface is told of a 1:1 call.
pub enum CallEvent {
    Incoming { username: String },
    Outgoing { username: String },
    Claiming,
    Accepted,
    Connected,
    Reconnecting { username: String },
    VideoReady { ready: bool },
    PeerTrack { track: Track, on: bool },
    Missed,
    NoAnswer,
    Handled { reason: CallTerminalReason },
    UnlockCredential,
    Ended,
}

/// What the user interface is told of a group call.
pub enum GroupEvent {
    Incoming { name: String, from: String },
    Outgoing { group_id: String, name: String },
    Claiming,
    Accepted,
    PeerConnected { username: String },
    PeerLeft { left: Option<String> },
    PeerDeclined { username: String },
    Missed,
    NoAnswer,
    Handled { reason: CallTerminalReason },
    Ended,
}

/// A locked device's word of decline, before it is signed.
pub struct LockedDecline {
    pub call: String,
    pub offer: String,
    pub group: bool,
    /// The caller's device, and where and under which key it reads call-control messages.
    pub to_device_id: String,
    pub to_mailbox: String,
    pub to_key: String,
    pub created_at: u64,
    pub expires_at: u64,
}

/// What a step asks the shell to do, in order.
pub enum Effect {
    /// Hand the platform a call under this handle.
    StartSystemCall { ring: String, name: RingName, video: bool, incoming: bool },
    /// Post the ring notification.
    ShowRing { ring: String, name: RingName, group: bool },
    /// Stop the ringtone and clear the notification; the system call stays.
    AcceptRing { ring: String },
    /// Take the ring and its system call down.
    CancelRing { ring: String, name: RingName },
    /// End the system call.
    EndSystemCall { ring: String, cause: DisconnectCause },
    /// The system call is connected.
    SystemCallActive { ring: String },
    /// Remove the prompt that asks for an unlock.
    ClearUnlockPrompt,
    /// Bring the application forward for an unlock.
    OpenUnlockSurface,
    /// Ask the operating system to vouch for whoever holds the device.
    PromptPresence { call: String, presented_as: String, deadline: u64 },
    /// Tell the user interface about a 1:1 call.
    Emit(CallEvent),
    /// Tell the user interface about a group call.
    EmitGroup(GroupEvent),
    /// Write an outcome into a 1:1 conversation.
    RecordChip { peer_key: String, label: Label },
    /// Write an outcome into a group conversation.
    RecordGroupChip { group_id: String, label: Label },
    /// Save the session.
    Persist,
    /// Repaint open conversations.
    Sync,
    /// Record a terminal outcome in the call registry.
    RecordTerminal { call: String, offer: String, reason: CallTerminalReason, retention: u64 },
    /// Enter an offer this device made into the call registry.
    RegisterOffer { call: String, offer: String, created_at: u64, ring_expires_at: u64, retention: u64 },
    /// Move a call record to a phase.
    Transition { call: String, offer: String, phase: CallPhase },
    /// Seal the call store.
    SaveStore,
    /// Stop the media session of this room or group call.
    StopMedia { room: String },
    /// Send a terminal outcome to one device.
    SendTerminalToDevice {
        device_key: String,
        mailbox: String,
        call: String,
        offer: String,
        reason: CallTerminalReason,
    },
    /// Send a terminal outcome to every device of a peer, on both delivery layers.
    SendTerminalEverywhere {
        username: String,
        peer_key: String,
        call: String,
        offer: String,
        reason: CallTerminalReason,
    },
    /// Tell the caller this device is busy.
    SendBusy { device_key: String, mailbox: String, call: String, offer: String },
    /// Acknowledge the winner of an answer race.
    SendWinner {
        username: String,
        device_key: String,
        call: String,
        offer: String,
        winner: AnswerClaim,
    },
    /// Acknowledge the winner of a group answer race.
    SendGroupWinner {
        username: String,
        device_key: String,
        group_id: String,
        call: String,
        ring_id: String,
        winner: AnswerClaim,
    },
    /// Queue a locked device's word of decline to a caller's call-control mailbox.
    QueueDecline { decline: LockedDecline },
    /// Post what the store's outbox holds.
    DrainOutbox,
    /// Tell this account's other devices how a call ended.
    SelfSyncTerminal { call: String, offer: String, reason: CallTerminalReason },
    /// Send a group outcome to every member.
    SendGroupTerminalEverywhere {
        group_id: String,
        call: String,
        ring_id: String,
        coordinator: GroupCoordinator,
        reason: CallTerminalReason,
    },
    /// Send a group outcome to one member's device.
    SendGroupTerminal {
        username: String,
        peer_key: String,
        group_id: String,
        call: String,
        ring_id: String,
        coordinator: GroupCoordinator,
        reason: CallTerminalReason,
    },
    /// Bring up the leg toward one member of a group call.
    EstablishLeg { call: String, peer_key: String, username: String, ticket: Option<Ticket> },
    /// Offer a member a fresh room after a grace period, unless they left.
    ReofferLeg { call: String, peer_key: String, username: String },
    /// Bring the volumes of a call back to their beginnings: nobody muted, shared sound as it
    /// comes. The volumes remembered for people stay.
    ResetVolumes,
    /// Play a peer at the volume remembered for them.
    ApplyGain { peer_key: String, username: String },
    /// End a group call nobody joins by its deadlines.
    WatchGroupAnswer { call: String },
    /// Try to finish an answer that waited for an unlock.
    ResumeUnlock,
    /// Begin resuming a dropped call.
    StartReconnect { old_call_id: String },
    /// Give up on a resumed session that does not connect in time.
    WatchResumed { call_id: String },
    /// End an unanswered 1:1 ring at its deadline.
    WatchRing { call: String, name: RingName, deadline: u64 },
    /// End an unanswered group ring at its deadline.
    WatchGroupRing { call: String, name: RingName, deadline: u64 },
    /// Stop waiting for a winner at the deadline.
    WatchClaim { claim_nonce: String, call: String, deadline: u64 },
    /// Stop waiting for a group winner at the deadline.
    WatchGroupClaim { claim_nonce: String, call: String, deadline: u64 },
    /// Abandon an answer nobody unlocked for.
    WatchUnlock { call: String, presented_as: String, deadline: u64 },
}

} // verus!
