//! Vouching for the person who holds the device.
//!
//! Where the platform can prompt for a fingerprint, its bridge is asked and polled; what its
//! codes mean is decided here. Where it cannot, nothing can be enrolled and the check counts as
//! passed.

use vstd::prelude::*;

verus! {

/// How the device can vouch for the user.
#[derive(Clone, Copy, Debug, PartialEq, Eq, Structural)]
pub enum OsAuth {
    /// A strong biometric is enrolled.
    Biometric,
    /// No usable biometric, but a device credential is set.
    CredentialOnly,
    /// Neither.
    Neither,
}

/// How a device without such a prompt can vouch for the user: not at all.
pub fn availability() -> (r: OsAuth)
    ensures
        r == OsAuth::Neither,
{
    OsAuth::Neither
}

/// Without a prompt there is no check to fail.
pub fn presence_check() -> (r: Result<bool, String>)
    ensures
        r == Ok::<bool, String>(true),
{
    Ok(true)
}

/// Without a prompt nothing can be wrapped.
pub fn enroll(_seal_key: &[u8]) -> (r: Result<Vec<u8>, String>)
    ensures
        r matches Err(text) && text@ == "biometric unlock is only available on Android"@,
{
    Err("biometric unlock is only available on Android".to_owned())
}

/// Without a prompt nothing can be unwrapped.
pub fn unwrap(_blob: &[u8]) -> (r: Result<Vec<u8>, String>)
    ensures
        r matches Err(text) && text@ == "biometric unlock is only available on Android"@,
{
    Err("biometric unlock is only available on Android".to_owned())
}

/// Hands a secret to `zeroize::Zeroizing`, which overwrites it with zeroes when it is dropped,
/// and drops it. The secret is gone afterwards, so there is nothing to claim of it.
#[verifier::external_body]
fn scrub(secret: Vec<u8>) {
    drop(zeroize::Zeroizing::new(secret));
}

/// Wrap a seal key that was handed over for good. The copy is overwritten whatever comes of
/// it.
pub fn enroll_scrubbed(seal_key: Vec<u8>) -> (r: Result<Vec<u8>, String>)
    ensures
        r matches Err(text) && text@ == "biometric unlock is only available on Android"@,
{
    let out = enroll(seal_key.as_slice());
    scrub(seal_key);
    out
}

/// What the bridge's answer means. A bridge that could not be asked has nothing to offer.
pub fn bridge_availability(code: Option<i32>) -> (r: OsAuth)
    ensures
        r == match code {
            Some(0) => OsAuth::Biometric,
            Some(1) => OsAuth::CredentialOnly,
            _ => OsAuth::Neither,
        },
{
    match code {
        Some(c) => if c == 0 {
            OsAuth::Biometric
        } else if c == 1 {
            OsAuth::CredentialOnly
        } else {
            OsAuth::Neither
        },
        None => OsAuth::Neither,
    }
}

/// Whether there is anything to prompt with. Without it the check is skipped, which is not
/// the same as passed.
pub fn presence_needs_prompt(auth: OsAuth) -> (r: bool)
    ensures
        r == (auth != OsAuth::Neither),
{
    auth != OsAuth::Neither
}

/// The code of a prompt that is still up.
pub const PENDING: i32 = -1;

/// The code of a prompt that succeeded.
pub const OK: i32 = 0;

/// Longest wait for the user to answer a prompt.
pub const PROMPT_TIMEOUT_SECS: u64 = 120;

/// What a prompt's code asks for.
pub enum PromptStep {
    /// Look again later.
    Wait,
    /// Collect the result.
    Collect,
    /// The prompt failed.
    Failed(String),
}

/// What to do about a prompt: wait while it is up and there is time, collect its result, or
/// give up with the reason.
pub fn prompt_step(code: i32, elapsed_secs: u64) -> (r: PromptStep)
    ensures
        code == PENDING && elapsed_secs < PROMPT_TIMEOUT_SECS ==> r is Wait,
        code == PENDING && elapsed_secs >= PROMPT_TIMEOUT_SECS ==> (r matches PromptStep::Failed(text)
            && text@ == "authentication prompt timed out"@),
        code == OK ==> r is Collect,
        code == 1 ==> (r matches PromptStep::Failed(text) && text@ == "authentication was cancelled"@),
        code != PENDING && code != OK && code != 1 ==> (r matches PromptStep::Failed(text) && text@
            == "biometric hardware error"@),
{
    if code == PENDING {
        if elapsed_secs >= PROMPT_TIMEOUT_SECS {
            return PromptStep::Failed("authentication prompt timed out".to_owned());
        }
        return PromptStep::Wait;
    }
    if code == OK {
        return PromptStep::Collect;
    }
    if code == 1 {
        return PromptStep::Failed("authentication was cancelled".to_owned());
    }
    PromptStep::Failed("biometric hardware error".to_owned())
}

} // verus!
