//! The calls that leave the verified code: fresh identifiers, the clock and
//! the queue that carries input to a child process. Each contract here is
//! taken on trust.

use std::sync::mpsc::{Receiver, Sender};
use vstd::prelude::*;

verus! {

/// The sending half of a session's input queue.
#[verifier::external_type_specification]
#[verifier::external_body]
#[verifier::reject_recursive_types(T)]
pub struct ExSender<T>(Sender<T>);

/// The receiving half of a session's input queue.
#[verifier::external_type_specification]
#[verifier::external_body]
#[verifier::reject_recursive_types(T)]
pub struct ExReceiver<T>(Receiver<T>);

/// The length of an identifier in hyphenated form.
pub const SESSION_ID_LEN: usize = 36;

/// Calls `uuid::Uuid::new_v4` and formats the identifier with its `Display`
/// impl. Trusted: the text is in hyphenated form, which is 36 characters
/// long. Nothing is claimed of which identifier comes back.
#[verifier::external_body]
pub(crate) fn fresh_session_id() -> (id: String)
    ensures
        id@.len() == SESSION_ID_LEN,
{
    uuid::Uuid::new_v4().to_string()
}

/// Calls `chrono::Utc::now` and `DateTime::to_rfc3339` on what it returns.
/// Nothing is claimed of the text.
#[verifier::external_body]
pub(crate) fn now_rfc3339() -> (timestamp: String) {
    chrono::Utc::now().to_rfc3339()
}

/// Calls `std::sync::mpsc::channel`. Nothing is claimed of the two halves.
#[verifier::external_body]
pub(crate) fn input_channel() -> (halves: (Sender<String>, Receiver<String>)) {
    std::sync::mpsc::channel()
}

/// Calls `Sender::send`. Where the receiving half is gone the call fails,
/// and the failure comes back as the text of its `Display` impl. Nothing is
/// claimed of which of the two happens.
#[verifier::external_body]
pub(crate) fn send_text(sender: &Sender<String>, text: String) -> (sent: Result<(), String>) {
    match sender.send(text) {
        Ok(()) => Ok(()),
        Err(e) => Err(e.to_string()),
    }
}

} // verus!
