//! Global onboarding configuration, resolved once per request into an
//! immutable snapshot and passed explicitly.

use vstd::prelude::*;

verus! {

/// Snapshot of the enrollment-related settings. Named lookups fail with a
/// configuration-missing error instead of reading ambient global state.
pub struct Settings {
    pub enrollment_welcome_message: Option<String>,
    pub enrollment_welcome_email: Option<String>,
    /// Reuse the welcome message as the body of the welcome email.
    pub enrollment_use_welcome_message_as_email: bool,
}

} // verus!
