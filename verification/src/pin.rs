//! The app PIN: its Argon2 hash (a PHC string, kept in the OS keyring by the
//! caller), checking a PIN against it, and the lock commands built on them.
use vstd::prelude::*;

use argon2::password_hash::{PasswordHash, PasswordHasher, PasswordVerifier, SaltString};
use argon2::Argon2;
use rand::rngs::OsRng;

use crate::error::MazeSshError;
use crate::profile::{pin_error, validate_pin, validation_result};
use crate::security::{
    check_pin_lockout, ensure_unlocked, lockout_left, record_pin_attempt, SecurityState,
};

verus! {

/// What checking `pin` against the stored PHC string gives with Argon2's default
/// parameters: whether it matches, or why the string could not be read.
pub uninterp spec fn pin_check(pin: Seq<char>, stored: Seq<char>) -> Result<bool, Seq<char>>;

/// `SaltString::generate` with the OS random source, then
/// `Argon2::default().hash_password`: the PHC string of the PIN's hash, or the
/// hashing error's text. The salt is random, so nothing is said of the text
/// itself; what is said is that checking the same PIN against it matches.
#[verifier::external_body]
fn hash_pin_phc(pin: &str) -> (r: Result<String, String>)
    ensures
        match r {
            Ok(h) => pin_check(pin@, h@) == Ok::<bool, Seq<char>>(true),
            Err(_) => true,
        },
{
    let salt = SaltString::generate(&mut OsRng);
    Argon2::default().hash_password(pin.as_bytes(), &salt).map(|h| h.to_string()).map_err(|e| e.to_string())
}

/// A result with its error text as characters.
pub open spec fn text_result(r: Result<bool, String>) -> Result<bool, Seq<char>> {
    match r {
        Ok(b) => Ok(b),
        Err(e) => Err(e@),
    }
}

/// `PasswordHash::new` on the stored string, then
/// `Argon2::default().verify_password` with the PIN: whether it matches, or the
/// parse error's text.
#[verifier::external_body]
fn check_pin_phc(pin: &str, stored: &str) -> (r: Result<bool, String>)
    ensures
        pin_check(pin@, stored@) == text_result(r),
{
    match PasswordHash::new(stored) {
        Err(e) => Err(e.to_string()),
        Ok(h) => Ok(Argon2::default().verify_password(pin.as_bytes(), &h).is_ok()),
    }
}

fn prefixed(p: &str, s: &String) -> (r: String)
    ensures
        r@ == p@ + s@,
{
    let mut r = p.to_string();
    r.append(s.as_str());
    r
}

/// What checking a PIN against what the keyring holds gives: no stored hash means
/// no match; an unreadable hash is an error.
pub open spec fn pin_verdict(pin: Seq<char>, stored: Option<Seq<char>>) -> Result<bool, Seq<char>> {
    match stored {
        None => Ok(false),
        Some(h) => match pin_check(pin, h) {
            Ok(b) => Ok(b),
            Err(e) => Err("Invalid stored hash: "@ + e),
        },
    }
}

pub open spec fn opt_text(o: Option<String>) -> Option<Seq<char>> {
    match o {
        Some(s) => Some(s@),
        None => None,
    }
}

/// The hash to store for a new PIN; checking the same PIN against it matches.
pub fn set_pin(pin: &str) -> (r: Result<String, MazeSshError>)
    ensures
        r matches Ok(h) ==> pin_verdict(pin@, Some(h@)) == Ok::<bool, Seq<char>>(true),
        r matches Err(e) ==> e matches MazeSshError::SecurityError(_),
{
    match hash_pin_phc(pin) {
        Ok(h) => Ok(h),
        Err(e) => Err(MazeSshError::SecurityError(prefixed("Failed to hash PIN: ", &e))),
    }
}

/// Whether the PIN matches the stored hash (`None` when no PIN is stored).
pub fn verify_pin(pin: &str, stored: &Option<String>) -> (r: Result<bool, MazeSshError>)
    ensures
        match pin_verdict(pin@, opt_text(*stored)) {
            Ok(b) => r == Ok::<bool, MazeSshError>(b),
            Err(m) => r matches Err(MazeSshError::SecurityError(x)) && x@ == m,
        },
{
    match stored {
        None => Ok(false),
        Some(h) => match check_pin_phc(pin, h.as_str()) {
            Ok(b) => Ok(b),
            Err(e) => Err(MazeSshError::SecurityError(prefixed("Invalid stored hash: ", &e))),
        },
    }
}

/// Setting up the PIN: it must be valid and no PIN may be set yet. Returns the
/// hash to store; once it is stored the PIN counts as set.
pub fn setup_pin(security: &SecurityState, pin: &str) -> (r: Result<String, MazeSshError>)
    ensures
        pin_error(pin@) is Some ==> validation_result(pin_error(pin@), match r {
            Ok(_) => Ok(()),
            Err(e) => Err(e),
        }),
        pin_error(pin@) is None && security.pin_is_set ==> (r matches Err(MazeSshError::SecurityError(m))
            && m@ == "PIN already configured"@),
        pin_error(pin@) is None && !security.pin_is_set ==> match r {
            Ok(h) => pin_verdict(pin@, Some(h@)) == Ok::<bool, Seq<char>>(true),
            Err(e) => e matches MazeSshError::SecurityError(_),
        },
{
    match validate_pin(pin) {
        Err(e) => return Err(e),
        Ok(()) => {},
    }
    if security.pin_is_set {
        return Err(MazeSshError::SecurityError("PIN already configured".to_string()));
    }
    set_pin(pin)
}

/// Unlocking with the PIN: refused while locked out; otherwise the PIN is checked
/// against the stored hash and the attempt recorded (a match unlocks the app).
/// Returns whether it matched and the audit entry's result text.
pub fn unlock_with_pin(security: &mut SecurityState, pin: &str, stored: &Option<String>, now: u64) -> (r: Result<
    (bool, String),
    MazeSshError,
>)
    requires
        old(security).failed_pin_attempts < u32::MAX,
    ensures
        lockout_left(*old(security), now) is Some ==> r is Err && *final(security) == *old(security),
        lockout_left(*old(security), now) is None ==> match pin_verdict(pin@, opt_text(*stored)) {
            Err(m) => (r matches Err(MazeSshError::SecurityError(x)) && x@ == m) && *final(security) == *old(security),
            Ok(valid) => r matches Ok((b, _)) && b == valid && (valid ==> *final(security) == (SecurityState {
                is_locked: false,
                last_activity: now,
                failed_pin_attempts: 0,
                last_failed_attempt: None,
                ..*old(security)
            })) && (!valid ==> *final(security) == (SecurityState {
                failed_pin_attempts: (old(security).failed_pin_attempts + 1) as u32,
                last_failed_attempt: Some(now),
                ..*old(security)
            })),
        },
{
    match check_pin_lockout(security, now) {
        Err(e) => return Err(e),
        Ok(()) => {},
    }
    let valid = match verify_pin(pin, stored) {
        Err(e) => return Err(e),
        Ok(v) => v,
    };
    let audit = record_pin_attempt(security, valid, now);
    Ok((valid, audit))
}

/// Changing the PIN: the app must be unlocked, the new PIN valid and the current
/// one correct. Returns the hash to store for the new PIN.
pub fn change_pin(
    security: &mut SecurityState,
    now: u64,
    old_pin: &str,
    new_pin: &str,
    stored: &Option<String>,
) -> (r: Result<String, MazeSshError>)
    ensures
        old(security).is_locked ==> (r matches Err(MazeSshError::AppLocked)) && *final(security) == *old(security),
        !old(security).is_locked ==> *final(security) == (SecurityState { last_activity: now, ..*old(security) }),
        !old(security).is_locked && pin_error(new_pin@) is Some ==> validation_result(pin_error(new_pin@), match r {
            Ok(_) => Ok(()),
            Err(e) => Err(e),
        }),
        !old(security).is_locked && pin_error(new_pin@) is None ==> match pin_verdict(old_pin@, opt_text(*stored)) {
            Err(m) => r matches Err(MazeSshError::SecurityError(x)) && x@ == m,
            Ok(false) => r matches Err(MazeSshError::SecurityError(x)) && x@ == "Current PIN is incorrect"@,
            Ok(true) => match r {
                Ok(h) => pin_verdict(new_pin@, Some(h@)) == Ok::<bool, Seq<char>>(true),
                Err(e) => e matches MazeSshError::SecurityError(_),
            },
        },
{
    match ensure_unlocked(security, now) {
        Err(e) => return Err(e),
        Ok(()) => {},
    }
    match validate_pin(new_pin) {
        Err(e) => return Err(e),
        Ok(()) => {},
    }
    let valid = match verify_pin(old_pin, stored) {
        Err(e) => return Err(e),
        Ok(v) => v,
    };
    if !valid {
        return Err(MazeSshError::SecurityError("Current PIN is incorrect".to_string()));
    }
    set_pin(new_pin)
}

/// Checking the PIN before it is removed: the app must be unlocked and the PIN
/// correct. Once the stored hash is deleted, `pin_removed` records it.
pub fn remove_pin(security: &mut SecurityState, now: u64, pin: &str, stored: &Option<String>) -> (r: Result<(), MazeSshError>)
    ensures
        old(security).is_locked ==> (r matches Err(MazeSshError::AppLocked)) && *final(security) == *old(security),
        !old(security).is_locked ==> *final(security) == (SecurityState { last_activity: now, ..*old(security) }),
        !old(security).is_locked ==> match pin_verdict(pin@, opt_text(*stored)) {
            Err(m) => r matches Err(MazeSshError::SecurityError(x)) && x@ == m,
            Ok(false) => r matches Err(MazeSshError::SecurityError(x)) && x@ == "PIN is incorrect"@,
            Ok(true) => r is Ok,
        },
{
    match ensure_unlocked(security, now) {
        Err(e) => return Err(e),
        Ok(()) => {},
    }
    let valid = match verify_pin(pin, stored) {
        Err(e) => return Err(e),
        Ok(v) => v,
    };
    if !valid {
        return Err(MazeSshError::SecurityError("PIN is incorrect".to_string()));
    }
    Ok(())
}

/// Records that the PIN is gone: no PIN is set and the app is unlocked.
pub fn pin_removed(security: &mut SecurityState)
    ensures
        *final(security) == (SecurityState { pin_is_set: false, is_locked: false, ..*old(security) }),
{
    security.pin_is_set = false;
    security.is_locked = false;
}

/// Locks the app; returns whether it was unlocked before (only then is the rest
/// of the locking, clearing the vault session and the agent, done).
pub fn do_lock(security: &mut SecurityState) -> (r: bool)
    ensures
        r == !old(security).is_locked,
        *final(security) == (SecurityState { is_locked: true, ..*old(security) }),
{
    if security.is_locked {
        return false;
    }
    security.is_locked = true;
    true
}

/// Locking on request: refused when no PIN is set.
pub fn lock_app(security: &mut SecurityState) -> (r: Result<bool, MazeSshError>)
    ensures
        !old(security).pin_is_set ==> (r matches Err(MazeSshError::PinNotSet)) && *final(security) == *old(security),
        old(security).pin_is_set ==> r == Ok::<bool, MazeSshError>(!old(security).is_locked)
            && *final(security) == (SecurityState { is_locked: true, ..*old(security) }),
{
    if !security.pin_is_set {
        return Err(MazeSshError::PinNotSet);
    }
    Ok(do_lock(security))
}

} // verus!
