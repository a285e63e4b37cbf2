//! Best-effort enrollment notifications.
//!
//! The engine hands a rendered message to a multi-producer queue and
//! returns at once; delivery happens on an independent consumer. The only
//! contract of the hand-off is "accepted into the queue, or an explicit
//! enqueue failure".

use crate::text::concat;
use tokio::sync::mpsc::UnboundedSender;
use vstd::prelude::*;

verus! {

/// A message for the mail collaborator: recipient, subject and rendered
/// body.
pub struct Mail {
    pub to: String,
    pub subject: String,
    pub content: String,
}

#[verifier::external_type_specification]
#[verifier::external_body]
#[verifier::reject_recursive_types(T)]
pub struct ExUnboundedSender<T>(UnboundedSender<T>);

/// Relies on tokio's `UnboundedSender::send`: it never blocks, and it
/// fails exactly when the receiving half is gone. Whether that is so
/// depends on the channel's state, so nothing about the outcome is
/// promised.
#[verifier::external_body]
pub(crate) fn send_mail(tx: &UnboundedSender<Mail>, mail: Mail) -> (r: bool) {
    tx.send(mail).is_ok()
}

/// The rendered body of the enrollment-start message: a deep link into
/// the enrollment service that embeds the token identity as a query
/// parameter.
pub fn enrollment_start_mail_content(service_url: &str, token_id: &str) -> (r: String)
    ensures
        r@ == service_url@ + "?token="@ + token_id@,
{
    let head = concat(service_url, "?token=");
    concat(head.as_str(), token_id)
}

} // verus!
