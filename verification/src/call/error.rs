//! Why a command was refused, and what the user is told.

use super::types::CallTerminalReason;
use crate::text::{decimal, push_decimal};
use vstd::prelude::*;
use vstd::string::*;

verus! {

/// Why a command was refused.
pub enum CallError {
    AlreadyInACall,
    NoIncomingCall,
    NoIncomingGroupCall,
    NoActiveCall,
    NoActiveGroupCall,
    NotConfigured,
    Locked,
    /// A terminal outcome landed on the call.
    AlreadyEnded(CallTerminalReason),
    GroupCallExpired,
    UnknownGroup,
    NoOtherMembers,
    TooManyMembers(usize),
    NoTargetReached,
    NoMemberPrepared,
    NoMemberReached,
    Unlinked,
    KeyChanged,
    OwnAccount,
    NotWaiting,
    UnknownRoute,
    UnknownTone,
    UnknownDeviceKind,
    OneScreenOnly,
    NoSystemAudio,
    ClaimNotQueued,
    GroupClaimNotQueued,
    TerminalNotQueued,
    BusyNotQueued,
    WinnerUndelivered,
    GroupWinnerUndelivered,
    RoomNotJoined,
    AudioNotStarted,
    /// What the layer below reported.
    Other(String),
}

/// The name of an outcome as an error message spells it.
pub open spec fn reason_word(reason: CallTerminalReason) -> Seq<char> {
    match reason {
        CallTerminalReason::AnsweredHere => "AnsweredHere"@,
        CallTerminalReason::AnsweredElsewhere => "AnsweredElsewhere"@,
        CallTerminalReason::DeclinedHere => "DeclinedHere"@,
        CallTerminalReason::DeclinedElsewhere => "DeclinedElsewhere"@,
        CallTerminalReason::CallerCancelled => "CallerCancelled"@,
        CallTerminalReason::Expired => "Expired"@,
        CallTerminalReason::Busy => "Busy"@,
        CallTerminalReason::TransportError => "TransportError"@,
    }
}

/// The name of an outcome as an error message spells it.
pub fn reason_name(reason: CallTerminalReason) -> (r: &'static str)
    ensures
        r@ == reason_word(reason),
{
    match reason {
        CallTerminalReason::AnsweredHere => "AnsweredHere",
        CallTerminalReason::AnsweredElsewhere => "AnsweredElsewhere",
        CallTerminalReason::DeclinedHere => "DeclinedHere",
        CallTerminalReason::DeclinedElsewhere => "DeclinedElsewhere",
        CallTerminalReason::CallerCancelled => "CallerCancelled",
        CallTerminalReason::Expired => "Expired",
        CallTerminalReason::Busy => "Busy",
        CallTerminalReason::TransportError => "TransportError",
    }
}

impl CallError {
    /// What the user is told.
    pub open spec fn message(self) -> Seq<char> {
        match self {
            CallError::AlreadyInACall => "already in a call"@,
            CallError::NoIncomingCall => "no incoming call"@,
            CallError::NoIncomingGroupCall => "no incoming group call"@,
            CallError::NoActiveCall => "no active call"@,
            CallError::NoActiveGroupCall => "no active group call"@,
            CallError::NotConfigured => "not configured"@,
            CallError::Locked => "locked"@,
            CallError::AlreadyEnded(reason) => "call already ended ("@ + reason_word(reason) + ")"@,
            CallError::GroupCallExpired => "group call expired"@,
            CallError::UnknownGroup => "unknown group"@,
            CallError::NoOtherMembers => "this group has no other members"@,
            CallError::TooManyMembers(max) => "group calls support up to "@ + decimal(max as nat)
                + " members"@,
            CallError::NoTargetReached => "no call target could be reached"@,
            CallError::NoMemberPrepared => "no group member could be prepared"@,
            CallError::NoMemberReached => "no group member could be reached"@,
            CallError::Unlinked => "this device was unlinked from the account — relink to continue"@,
            CallError::KeyChanged => "KEY_CHANGED"@,
            CallError::OwnAccount => "that's your own account — you can't message yourself"@,
            CallError::NotWaiting => "no call is waiting to be answered"@,
            CallError::UnknownRoute => "unknown audio route"@,
            CallError::UnknownTone => "unknown tone"@,
            CallError::UnknownDeviceKind => "unknown device kind"@,
            CallError::OneScreenOnly => "Only one person can share a screen at a time"@,
            CallError::NoSystemAudio => "system audio capture is not available on this platform"@,
            CallError::ClaimNotQueued => "answer claim was not queued"@,
            CallError::GroupClaimNotQueued => "group answer claim was not queued"@,
            CallError::TerminalNotQueued => "terminal control was not queued"@,
            CallError::BusyNotQueued => "busy control was not queued"@,
            CallError::WinnerUndelivered => "winner acknowledgement could not be delivered"@,
            CallError::GroupWinnerUndelivered => "group winner acknowledgement could not be delivered"@,
            CallError::RoomNotJoined => "could not join the call room"@,
            CallError::AudioNotStarted => "the audio devices did not start"@,
            CallError::Other(text) => text@,
        }
    }

    /// What the user is told.
    pub fn text(&self) -> (r: String)
        ensures
            r@ == self.message(),
    {
        match self {
            CallError::AlreadyInACall => "already in a call".to_owned(),
            CallError::NoIncomingCall => "no incoming call".to_owned(),
            CallError::NoIncomingGroupCall => "no incoming group call".to_owned(),
            CallError::NoActiveCall => "no active call".to_owned(),
            CallError::NoActiveGroupCall => "no active group call".to_owned(),
            CallError::NotConfigured => "not configured".to_owned(),
            CallError::Locked => "locked".to_owned(),
            CallError::AlreadyEnded(reason) => {
                let mut out: String = "call already ended (".to_owned();
                out.append(reason_name(*reason));
                out.append(")");
                out
            },
            CallError::GroupCallExpired => "group call expired".to_owned(),
            CallError::UnknownGroup => "unknown group".to_owned(),
            CallError::NoOtherMembers => "this group has no other members".to_owned(),
            CallError::TooManyMembers(max) => {
                let mut out: String = "group calls support up to ".to_owned();
                push_decimal(&mut out, *max as u64);
                out.append(" members");
                out
            },
            CallError::NoTargetReached => "no call target could be reached".to_owned(),
            CallError::NoMemberPrepared => "no group member could be prepared".to_owned(),
            CallError::NoMemberReached => "no group member could be reached".to_owned(),
            CallError::Unlinked => {
                "this device was unlinked from the account — relink to continue".to_owned()
            },
            CallError::KeyChanged => "KEY_CHANGED".to_owned(),
            CallError::OwnAccount => {
                "that's your own account — you can't message yourself".to_owned()
            },
            CallError::NotWaiting => "no call is waiting to be answered".to_owned(),
            CallError::UnknownRoute => "unknown audio route".to_owned(),
            CallError::UnknownTone => "unknown tone".to_owned(),
            CallError::UnknownDeviceKind => "unknown device kind".to_owned(),
            CallError::OneScreenOnly => "Only one person can share a screen at a time".to_owned(),
            CallError::NoSystemAudio => {
                "system audio capture is not available on this platform".to_owned()
            },
            CallError::ClaimNotQueued => "answer claim was not queued".to_owned(),
            CallError::GroupClaimNotQueued => "group answer claim was not queued".to_owned(),
            CallError::TerminalNotQueued => "terminal control was not queued".to_owned(),
            CallError::BusyNotQueued => "busy control was not queued".to_owned(),
            CallError::WinnerUndelivered => "winner acknowledgement could not be delivered".to_owned(),
            CallError::GroupWinnerUndelivered => {
                "group winner acknowledgement could not be delivered".to_owned()
            },
            CallError::RoomNotJoined => "could not join the call room".to_owned(),
            CallError::AudioNotStarted => "the audio devices did not start".to_owned(),
            CallError::Other(text) => text.clone(),
        }
    }
}

} // verus!
