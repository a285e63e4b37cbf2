//! The enrollment engine: single-use tokens that let a new user begin
//! account setup, their hard expiry, the one-shot escalation into a
//! short-lived session, and the invalidation of superseded tokens.
//!
//! All mutations go through the `TokenStore`, whose sequential semantics
//! stands for the serialization that the real store's transactions
//! provide; a "race" between two callers is two store operations in some
//! order.

use crate::mail::{enrollment_start_mail_content, send_mail, Mail};
use crate::random::{gen_alphanumeric, is_alphanumeric_seq};
use crate::settings::Settings;
use crate::store::{has_user_with_id, UserStore};
use crate::user::{clone_opt_string, same_user, User};
use tokio::sync::mpsc::UnboundedSender;
use vstd::prelude::*;

verus! {

/// Everything that can go wrong in the enrollment and credential flows.
#[derive(Debug)]
pub enum EnrollmentError {
    /// The store failed; the cause is passed through unchanged.
    DbError(String),
    /// No token with the presented identity exists.
    NotFound,
    /// The token is past its hard expiry.
    TokenExpired,
    /// The session window of a consumed token has elapsed.
    SessionExpired,
    /// The token was already consumed; it is single-use.
    TokenUsed,
    /// The token's subject row is missing: referential corruption.
    UserNotFound,
    /// The token's issuer row is missing: referential corruption.
    AdminNotFound,
    /// The subject already has a password; an activated account cannot
    /// re-enroll.
    AlreadyActive,
    /// The enrollment notification could not be enqueued.
    NotificationError(String),
    WelcomeMsgNotConfigured,
    WelcomeEmailNotConfigured,
}

/// Transport status classes for the error mapping.
#[derive(Clone, Copy, Debug, PartialEq, Eq, Structural)]
pub enum StatusCode {
    Internal,
    Unauthenticated,
    InvalidArgument,
}

impl EnrollmentError {
    /// The status class of each error: token-validity failures are an
    /// authentication failure, re-enrolling an active account a client
    /// error, everything else an opaque internal failure.
    pub open spec fn spec_status_code(&self) -> StatusCode {
        match self {
            EnrollmentError::NotFound
            | EnrollmentError::TokenExpired
            | EnrollmentError::SessionExpired
            | EnrollmentError::TokenUsed => StatusCode::Unauthenticated,
            EnrollmentError::AlreadyActive => StatusCode::InvalidArgument,
            _ => StatusCode::Internal,
        }
    }

    /// The user-visible message: one generic text per class, so a caller
    /// cannot tell which validity check failed (anti-enumeration).
    pub open spec fn spec_status_message(&self) -> Seq<char> {
        match self.spec_status_code() {
            StatusCode::Unauthenticated => "invalid token"@,
            StatusCode::InvalidArgument => "already active"@,
            StatusCode::Internal => "unexpected error"@,
        }
    }

    /// Map this error to its transport status class and generic message.
    pub fn status(&self) -> (r: (StatusCode, String))
        ensures
            r.0 == self.spec_status_code(),
            r.1@ == self.spec_status_message(),
    {
        match self {
            EnrollmentError::NotFound
            | EnrollmentError::TokenExpired
            | EnrollmentError::SessionExpired
            | EnrollmentError::TokenUsed => (StatusCode::Unauthenticated, "invalid token".to_owned()),
            EnrollmentError::AlreadyActive => (
                StatusCode::InvalidArgument,
                "already active".to_owned(),
            ),
            _ => (StatusCode::Internal, "unexpected error".to_owned()),
        }
    }
}

/// A single-use enrollment token; its random identity is both primary
/// key and bearer credential.
pub struct Enrollment {
    pub id: String,
    pub user_id: i64,
    pub admin_id: i64,
    /// Captured at issuance, decoupled from the user's profile email.
    pub email: Option<String>,
    pub created_at: i64,
    pub expires_at: i64,
    /// Absent until the token is consumed; once set, never cleared.
    pub used_at: Option<i64>,
}

impl Enrollment {
    /// A well-formed token identity: 32 random alphanumeric characters.
    pub open spec fn wf(&self) -> bool {
        self.id@.len() == 32 && is_alphanumeric_seq(self.id@)
    }

    /// The defining invariant of the lifecycle: a token can open a
    /// session exactly while it is within its hard expiry and has never
    /// been consumed.
    pub open spec fn usable(&self, now: i64) -> bool {
        now < self.expires_at && self.used_at is None
    }

    pub open spec fn spec_is_expired(&self, now: i64) -> bool {
        self.expires_at < now
    }

    /// The session opened by consuming this token is valid at `now`.
    pub open spec fn spec_session_valid(&self, now: i64, session_timeout_seconds: u64) -> bool {
        match self.used_at {
            Some(u) => now < u + session_timeout_seconds,
            None => false,
        }
    }

    /// Mint a token for `user_id`, issued by `admin_id` at `now`, with a
    /// fresh random identity and a hard expiry `token_timeout_seconds`
    /// ahead.
    pub fn new(
        user_id: i64,
        admin_id: i64,
        email: Option<String>,
        token_timeout_seconds: u64,
        now: i64,
    ) -> (r: Self)
        requires
            token_timeout_seconds <= i64::MAX,
            now + token_timeout_seconds <= i64::MAX,
        ensures
            r.wf(),
            r.user_id == user_id,
            r.admin_id == admin_id,
            r.email == email,
            r.created_at == now,
            r.expires_at == now + token_timeout_seconds,
            r.used_at is None,
    {
        Enrollment {
            id: gen_alphanumeric(32),
            user_id,
            admin_id,
            email,
            created_at: now,
            expires_at: now + (token_timeout_seconds as i64),
            used_at: None,
        }
    }

    /// The token is past its hard expiry.
    pub fn is_expired(&self, now: i64) -> (r: bool)
        ensures
            r == self.spec_is_expired(now),
    {
        self.expires_at < now
    }

    /// The token has been consumed.
    pub fn is_used(&self) -> (r: bool)
        ensures
            r == (self.used_at is Some),
    {
        self.used_at.is_some()
    }

    /// Whether the enrollment session is still open at `now`. Every
    /// onboarding step re-checks this against the current time; the
    /// session can expire mid-flow.
    pub fn is_session_valid(&self, now: i64, session_timeout_seconds: u64) -> (r: bool)
        ensures
            r == self.spec_session_valid(now, session_timeout_seconds),
    {
        if let Some(used_at) = self.used_at {
            (now as i128) < (used_at as i128) + (session_timeout_seconds as i128)
        } else {
            false
        }
    }

    /// Consume the token: the only mutation a token ever sees. Fails if
    /// the token is expired or already used; on success stamps `used_at`
    /// and returns the session deadline.
    pub fn start_session(&mut self, now: i64, session_timeout_seconds: u64) -> (r: Result<
        i64,
        EnrollmentError,
    >)
        requires
            session_timeout_seconds <= i64::MAX,
            now + session_timeout_seconds <= i64::MAX,
        ensures
            old(self).spec_is_expired(now) ==> r == Err::<i64, EnrollmentError>(
                EnrollmentError::TokenExpired,
            ) && *final(self) == *old(self),
            !old(self).spec_is_expired(now) && old(self).used_at is Some ==> r == Err::<
                i64,
                EnrollmentError,
            >(EnrollmentError::TokenUsed) && *final(self) == *old(self),
            !old(self).spec_is_expired(now) && old(self).used_at is None ==> r == Ok::<
                i64,
                EnrollmentError,
            >((now + session_timeout_seconds) as i64) && *final(self) == (Enrollment {
                used_at: Some(now),
                ..*old(self)
            }),
    {
        if self.is_expired(now) {
            return Err(EnrollmentError::TokenExpired);
        }
        if self.is_used() {
            return Err(EnrollmentError::TokenUsed);
        }
        self.used_at = Some(now);
        Ok(now + (session_timeout_seconds as i64))
    }

    /// A copy of the token row.
    pub fn duplicate(&self) -> (r: Self)
        ensures
            r == *self,
    {
        Enrollment {
            id: self.id.clone(),
            user_id: self.user_id,
            admin_id: self.admin_id,
            email: clone_opt_string(&self.email),
            created_at: self.created_at,
            expires_at: self.expires_at,
            used_at: self.used_at,
        }
    }

    /// Resolve the token's subject; a missing row is referential
    /// corruption, an internal fault rather than a client error.
    pub fn fetch_user(&self, store: &UserStore) -> (r: Result<User, EnrollmentError>)
        ensures
            has_user_with_id(store.users@, self.user_id) <==> r is Ok,
            !has_user_with_id(store.users@, self.user_id) ==> r == Err::<User, EnrollmentError>(
                EnrollmentError::UserNotFound,
            ),
            r matches Ok(u) ==> exists|j: int|
                0 <= j < store.users@.len() && (#[trigger] store.users@[j]).id == Some(self.user_id)
                    && same_user(u, store.users@[j]),
    {
        match User::find_by_id(store, self.user_id) {
            Some(user) => Ok(user),
            None => Err(EnrollmentError::UserNotFound),
        }
    }

    /// Resolve the token's issuing admin; as with the subject, absence
    /// is an internal consistency fault.
    pub fn fetch_admin(&self, store: &UserStore) -> (r: Result<User, EnrollmentError>)
        ensures
            has_user_with_id(store.users@, self.admin_id) <==> r is Ok,
            !has_user_with_id(store.users@, self.admin_id) ==> r == Err::<User, EnrollmentError>(
                EnrollmentError::AdminNotFound,
            ),
            r matches Ok(u) ==> exists|j: int|
                0 <= j < store.users@.len() && (#[trigger] store.users@[j]).id == Some(
                    self.admin_id,
                ) && same_user(u, store.users@[j]),
    {
        match User::find_by_id(store, self.admin_id) {
            Some(user) => Ok(user),
            None => Err(EnrollmentError::AdminNotFound),
        }
    }
}

/// Some token carries this identity.
pub open spec fn has_token(tokens: Seq<Enrollment>, id: Seq<char>) -> bool {
    exists|i: int| 0 <= i < tokens.len() && (#[trigger] tokens[i]).id@ == id
}

/// The position of the token carrying this identity.
pub open spec fn token_index(tokens: Seq<Enrollment>, id: Seq<char>) -> int {
    choose|i: int| 0 <= i < tokens.len() && (#[trigger] tokens[i]).id@ == id
}

/// Token identities are pairwise distinct.
pub open spec fn unique_token_ids(tokens: Seq<Enrollment>) -> bool {
    forall|i: int, j: int|
        0 <= i < j < tokens.len() ==> (#[trigger] tokens[i]).id@ != (#[trigger] tokens[j]).id@
}

/// A token that survives "delete the unconsumed tokens of `user_id`":
/// it belongs to someone else, or it was already consumed.
pub open spec fn keeps_for_user(t: Enrollment, user_id: i64) -> bool {
    t.user_id != user_id || t.used_at is Some
}

/// The table without the unconsumed tokens of `user_id`.
pub open spec fn without_unused_for(tokens: Seq<Enrollment>, user_id: i64) -> Seq<Enrollment>
    decreases tokens.len(),
{
    if tokens.len() == 0 {
        Seq::empty()
    } else {
        let rest = without_unused_for(tokens.drop_last(), user_id);
        if keeps_for_user(tokens.last(), user_id) {
            rest.push(tokens.last())
        } else {
            rest
        }
    }
}

/// How many unconsumed tokens of `user_id` the table holds.
pub open spec fn count_unused_for(tokens: Seq<Enrollment>, user_id: i64) -> nat
    decreases tokens.len(),
{
    if tokens.len() == 0 {
        0
    } else {
        count_unused_for(tokens.drop_last(), user_id) + if keeps_for_user(
            tokens.last(),
            user_id,
        ) {
            0nat
        } else {
            1nat
        }
    }
}

/// Law behind superseded-token deletion: afterwards no unconsumed token
/// of the subject remains, every surviving token was there before, and
/// everything that should survive does; distinct identities stay
/// distinct.
pub proof fn lemma_without_unused_for(tokens: Seq<Enrollment>, user_id: i64)
    ensures
        count_unused_for(without_unused_for(tokens, user_id), user_id) == 0,
        forall|x: Enrollment| #[trigger]
            without_unused_for(tokens, user_id).contains(x) <==> tokens.contains(x)
                && keeps_for_user(x, user_id),
        unique_token_ids(tokens) ==> unique_token_ids(without_unused_for(tokens, user_id)),
    decreases tokens.len(),
{
    let out = without_unused_for(tokens, user_id);
    if tokens.len() == 0 {
    } else {
        let prefix = tokens.drop_last();
        lemma_without_unused_for(prefix, user_id);
        let sub = without_unused_for(prefix, user_id);
        assert(unique_token_ids(tokens) ==> unique_token_ids(prefix));
        if keeps_for_user(tokens.last(), user_id) {
            assert(out.drop_last() =~= sub);
            assert(count_unused_for(out, user_id) == count_unused_for(sub, user_id));
        }
        assert forall|x: Enrollment| #[trigger] out.contains(x) implies tokens.contains(x)
            && keeps_for_user(x, user_id) by {
            if sub.contains(x) {
                let i = choose|i: int| 0 <= i < prefix.len() && prefix[i] == x;
                assert(tokens[i] == x);
            } else {
                assert(x == tokens.last());
                assert(tokens[tokens.len() - 1] == x);
            }
        }
        assert forall|x: Enrollment| tokens.contains(x) && keeps_for_user(x, user_id)
            implies #[trigger] out.contains(x) by {
            let i = choose|i: int| 0 <= i < tokens.len() && tokens[i] == x;
            if i < tokens.len() - 1 {
                assert(prefix[i] == x);
                assert(sub.contains(x));
                if keeps_for_user(tokens.last(), user_id) {
                    let j = choose|j: int| 0 <= j < sub.len() && sub[j] == x;
                    assert(out[j] == x);
                }
            } else {
                assert(x == tokens.last());
                assert(out[out.len() - 1] == x);
            }
        }
        if unique_token_ids(tokens) {
            assert forall|i: int, j: int| 0 <= i < j < out.len() implies (#[trigger] out[i]).id@
                != (#[trigger] out[j]).id@ by {
                if keeps_for_user(tokens.last(), user_id) && j == out.len() - 1 {
                    assert(out[j] == tokens.last());
                    assert(sub.contains(out[i]));
                    let k = choose|k: int| 0 <= k < prefix.len() && prefix[k] == out[i];
                    assert(tokens[k] == out[i]);
                    assert(tokens[k].id@ != tokens[tokens.len() - 1].id@);
                } else {
                    assert(sub[i] == out[i] && sub[j] == out[j]);
                }
            }
        }
    }
}

/// The exact outcome of an attempt to consume the token `id` at `now`,
/// checked in order: the token must exist, must not be past its hard
/// expiry, and must not have been consumed already.
pub open spec fn spec_begin_outcome(tokens: Seq<Enrollment>, id: Seq<char>, now: i64) -> Result<
    (),
    EnrollmentError,
> {
    if !has_token(tokens, id) {
        Err(EnrollmentError::NotFound)
    } else {
        let t = tokens[token_index(tokens, id)];
        if t.spec_is_expired(now) {
            Err(EnrollmentError::TokenExpired)
        } else if t.used_at is Some {
            Err(EnrollmentError::TokenUsed)
        } else {
            Ok(())
        }
    }
}

/// The table of enrollment tokens.
pub struct TokenStore {
    pub tokens: Vec<Enrollment>,
}

impl TokenStore {
    /// Identities are primary keys: pairwise distinct.
    pub open spec fn wf(&self) -> bool {
        unique_token_ids(self.tokens@)
    }

    pub fn new() -> (r: Self)
        ensures
            r.tokens@.len() == 0,
            r.wf(),
    {
        TokenStore { tokens: Vec::new() }
    }

    /// Persist a freshly minted token. A colliding identity is a
    /// primary-key violation and leaves the table untouched.
    #[verifier::loop_isolation(false)]
    pub fn save(&mut self, token: Enrollment) -> (r: Result<(), EnrollmentError>)
        requires
            old(self).wf(),
        ensures
            final(self).wf(),
            has_token(old(self).tokens@, token.id@) ==> (r matches Err(e) && e is DbError)
                && *final(self) == *old(self),
            !has_token(old(self).tokens@, token.id@) ==> r == Ok::<(), EnrollmentError>(())
                && final(self).tokens@ == old(self).tokens@.push(token),
    {
        let mut i: usize = 0;
        while i < self.tokens.len()
            invariant
                0 <= i as int <= self.tokens@.len(),
                forall|j: int| 0 <= j < i as int ==> (#[trigger] self.tokens@[j]).id@ != token.id@,
                *self == *old(self),
            decreases self.tokens@.len() - i as int,
        {
            if self.tokens[i].id == token.id {
                return Err(EnrollmentError::DbError("duplicate enrollment token id".to_owned()));
            }
            i += 1;
        }
        self.tokens.push(token);
        proof {
            assert forall|i: int, j: int| 0 <= i < j < self.tokens@.len() implies (
            #[trigger] self.tokens@[i]).id@ != (#[trigger] self.tokens@[j]).id@ by {
                if j == self.tokens@.len() - 1 {
                    assert(self.tokens@[i] == old(self).tokens@[i]);
                }
            }
        }
        Ok(())
    }

    /// Look a token up by its identity.
    #[verifier::loop_isolation(false)]
    pub fn find_by_id(&self, id: &str) -> (r: Result<Enrollment, EnrollmentError>)
        requires
            self.wf(),
        ensures
            !has_token(self.tokens@, id@) ==> r == Err::<Enrollment, EnrollmentError>(
                EnrollmentError::NotFound,
            ),
            has_token(self.tokens@, id@) ==> (r matches Ok(t) && t == self.tokens@[token_index(
                self.tokens@,
                id@,
            )]),
    {
        let needle = id.to_owned();
        let mut i: usize = 0;
        while i < self.tokens.len()
            invariant
                0 <= i as int <= self.tokens@.len(),
                needle@ == id@,
                forall|j: int| 0 <= j < i as int ==> (#[trigger] self.tokens@[j]).id@ != id@,
            decreases self.tokens@.len() - i as int,
        {
            if self.tokens[i].id == needle {
                proof {
                    let k = token_index(self.tokens@, id@);
                    assert(self.tokens@[i as int].id@ == id@);
                    assert(0 <= k < self.tokens@.len() && self.tokens@[k].id@ == id@);
                    if k != i as int {
                        assert(self.tokens@[k].id@ != self.tokens@[i as int].id@);
                    }
                }
                return Ok(self.tokens[i].duplicate());
            }
            i += 1;
        }
        Err(EnrollmentError::NotFound)
    }

    /// Every token in the table, in table order.
    #[verifier::loop_isolation(false)]
    pub fn fetch_all(&self) -> (r: Vec<Enrollment>)
        ensures
            r@ == self.tokens@,
    {
        let mut r: Vec<Enrollment> = Vec::new();
        let mut i: usize = 0;
        while i < self.tokens.len()
            invariant
                0 <= i as int <= self.tokens@.len(),
                r@ =~= self.tokens@.take(i as int),
            decreases self.tokens@.len() - i as int,
        {
            r.push(self.tokens[i].duplicate());
            i += 1;
        }
        proof {
            assert(self.tokens@.take(self.tokens@.len() as int) =~= self.tokens@);
        }
        r
    }

    /// Hard-delete every unconsumed token of `user_id`, so that no
    /// superseded token remains usable.
    #[verifier::loop_isolation(false)]
    pub fn delete_unused_user_tokens(&mut self, user_id: i64)
        requires
            old(self).wf(),
        ensures
            final(self).wf(),
            final(self).tokens@ == without_unused_for(old(self).tokens@, user_id),
            count_unused_for(final(self).tokens@, user_id) == 0,
    {
        let ghost orig = self.tokens@;
        let mut i: usize = 0;
        let ghost mut j: int = 0;
        while i < self.tokens.len()
            invariant
                0 <= j <= orig.len(),
                i as int == without_unused_for(orig.take(j), user_id).len(),
                self.tokens@ == without_unused_for(orig.take(j), user_id) + orig.skip(j),
            decreases orig.len() - j,
        {
            proof {
                assert(orig.skip(j).len() > 0);
                assert(self.tokens@[i as int] == orig.skip(j)[0]);
                assert(orig.skip(j)[0] == orig[j]);
                assert(orig.take(j + 1).drop_last() =~= orig.take(j));
                assert(orig.take(j + 1).last() == orig[j]);
            }
            let unused = self.tokens[i].used_at.is_none();
            if unused && self.tokens[i].user_id == user_id {
                self.tokens.remove(i);
                proof {
                    assert(self.tokens@ =~= without_unused_for(orig.take(j + 1), user_id)
                        + orig.skip(j + 1));
                    j = j + 1;
                }
            } else {
                i += 1;
                proof {
                    assert(self.tokens@ =~= without_unused_for(orig.take(j + 1), user_id)
                        + orig.skip(j + 1));
                    j = j + 1;
                }
            }
        }
        proof {
            assert(orig.skip(j).len() == 0);
            assert(j == orig.len());
            assert(orig.take(j) =~= orig);
            assert(self.tokens@ =~= without_unused_for(orig, user_id));
            lemma_without_unused_for(orig, user_id);
        }
    }

    /// The transactional spend operation: find the token, check in order
    /// that it exists, is within its expiry and was never consumed, then
    /// atomically stamp `used_at = now` and return the session deadline.
    /// Of racing callers, serialized here, exactly the first can see
    /// `Ok`; every later one finds the token consumed.
    #[verifier::loop_isolation(false)]
    pub fn begin_session(&mut self, id: &str, now: i64, session_timeout_seconds: u64) -> (r:
        Result<i64, EnrollmentError>)
        requires
            old(self).wf(),
            session_timeout_seconds <= i64::MAX,
            now + session_timeout_seconds <= i64::MAX,
        ensures
            final(self).wf(),
            spec_begin_outcome(old(self).tokens@, id@, now) matches Err(e) ==> r == Err::<
                i64,
                EnrollmentError,
            >(e) && *final(self) == *old(self),
            spec_begin_outcome(old(self).tokens@, id@, now) matches Ok(_) ==> r == Ok::<
                i64,
                EnrollmentError,
            >((now + session_timeout_seconds) as i64) && final(self).tokens@ == old(self).tokens@.update(
                token_index(old(self).tokens@, id@),
                Enrollment {
                    used_at: Some(now),
                    ..old(self).tokens@[token_index(old(self).tokens@, id@)]
                },
            ),
    {
        let needle = id.to_owned();
        let mut i: usize = 0;
        while i < self.tokens.len()
            invariant
                0 <= i as int <= self.tokens@.len(),
                needle@ == id@,
                forall|j: int| 0 <= j < i as int ==> (#[trigger] self.tokens@[j]).id@ != id@,
                *self == *old(self),
            decreases self.tokens@.len() - i as int,
        {
            if self.tokens[i].id == needle {
                proof {
                    let k = token_index(self.tokens@, id@);
                    assert(self.tokens@[i as int].id@ == id@);
                    assert(0 <= k < self.tokens@.len() && self.tokens@[k].id@ == id@);
                    if k != i as int {
                        assert(self.tokens@[k].id@ != self.tokens@[i as int].id@);
                    }
                }
                if self.tokens[i].expires_at < now {
                    return Err(EnrollmentError::TokenExpired);
                }
                if self.tokens[i].used_at.is_some() {
                    return Err(EnrollmentError::TokenUsed);
                }
                self.tokens[i].used_at = Some(now);
                proof {
                    assert forall|a: int, b: int| 0 <= a < b < self.tokens@.len() implies (
                    #[trigger] self.tokens@[a]).id@ != (#[trigger] self.tokens@[b]).id@ by {
                        assert(self.tokens@[a].id@ == old(self).tokens@[a].id@);
                        assert(self.tokens@[b].id@ == old(self).tokens@[b].id@);
                    }
                }
                return Ok(now + (session_timeout_seconds as i64));
            }
            i += 1;
        }
        Err(EnrollmentError::NotFound)
    }
}

/// Law: a freshly minted token is usable, and stays usable exactly until
/// its hard expiry.
pub proof fn lemma_new_token_usable(t: Enrollment, at: i64)
    requires
        t.used_at is None,
    ensures
        t.usable(at) <==> at < t.expires_at,
{
}

/// Law: once consumed — `used_at` is set and is never cleared again —
/// a token is unusable at every time, forever.
pub proof fn lemma_used_token_never_usable(t: Enrollment, at: i64)
    requires
        t.used_at is Some,
    ensures
        !t.usable(at),
{
}

/// Law: of racing spend attempts, serialized by the store, exactly one
/// succeeds. After a successful consumption of `id` at `now`, a second
/// attempt at any time `later` never succeeds and, while the token is
/// within its hard expiry, reports precisely that the token was used.
pub proof fn lemma_begin_session_single_success(
    tokens: Seq<Enrollment>,
    id: Seq<char>,
    now: i64,
    later: i64,
)
    requires
        unique_token_ids(tokens),
        spec_begin_outcome(tokens, id, now) == Ok::<(), EnrollmentError>(()),
    ensures
        ({
            let idx = token_index(tokens, id);
            let spent = tokens.update(idx, Enrollment { used_at: Some(now), ..tokens[idx] });
            &&& spec_begin_outcome(spent, id, later) != Ok::<(), EnrollmentError>(())
            &&& !tokens[idx].spec_is_expired(later) ==> spec_begin_outcome(spent, id, later)
                == Err::<(), EnrollmentError>(EnrollmentError::TokenUsed)
        }),
{
    let idx = token_index(tokens, id);
    assert(0 <= idx < tokens.len() && tokens[idx].id@ == id);
    let spent = tokens.update(idx, Enrollment { used_at: Some(now), ..tokens[idx] });
    assert(spent[idx].id@ == id);
    assert(has_token(spent, id));
    let k = token_index(spent, id);
    assert(0 <= k < spent.len() && spent[k].id@ == id);
    if k != idx {
        assert(spent[k] == tokens[k]);
        assert(tokens[k].id@ != tokens[idx].id@);
    }
    assert(k == idx);
    assert(spent[idx].used_at is Some);
}

impl User {
    /// Start the enrollment of `self`, authorized by `admin`, inside one
    /// logical store action: refuse if the account is already activated;
    /// purge the subject's superseded unconsumed tokens; mint and
    /// persist a fresh token valid for `token_timeout_seconds`; and, if
    /// asked and an address is present, enqueue a best-effort
    /// notification whose body deep-links the token identity. An enqueue
    /// failure aborts the action: on any error the table is unchanged.
    /// Returns the token identity for out-of-band delivery.
    pub fn start_enrollment(
        &self,
        store: &mut TokenStore,
        admin: &User,
        email: Option<String>,
        token_timeout_seconds: u64,
        enrollment_service_url: &str,
        send_user_notification: bool,
        mail_tx: &UnboundedSender<Mail>,
        now: i64,
    ) -> (r: Result<String, EnrollmentError>)
        requires
            old(store).wf(),
            self.id is Some,
            admin.id is Some,
            token_timeout_seconds <= i64::MAX,
            now + token_timeout_seconds <= i64::MAX,
        ensures
            final(store).wf(),
            r matches Err(e) ==> *final(store) == *old(store) && (e is AlreadyActive
                <==> self.spec_has_password()) && (e is AlreadyActive || e is NotificationError
                || e is DbError),
            !(send_user_notification && email is Some) ==> !(r matches Err(e)
                && e is NotificationError),
            r matches Ok(token_id) ==> ({
                let uid = self.id.unwrap();
                let t = final(store).tokens@.last();
                &&& !self.spec_has_password()
                &&& final(store).tokens@ == without_unused_for(old(store).tokens@, uid).push(t)
                &&& t.wf()
                &&& t.id@ == token_id@
                &&& t.user_id == uid
                &&& t.admin_id == admin.id.unwrap()
                &&& t.email == email
                &&& t.created_at == now
                &&& t.expires_at == now + token_timeout_seconds
                &&& t.used_at is None
                &&& count_unused_for(final(store).tokens@, uid) == 1
            }),
    {
        if self.has_password() {
            return Err(EnrollmentError::AlreadyActive);
        }
        let user_id = self.id.unwrap();
        let admin_id = admin.id.unwrap();

        let token_email = clone_opt_string(&email);
        let enrollment = Enrollment::new(user_id, admin_id, token_email, token_timeout_seconds, now);

        if store.has_conflicting_token(enrollment.id.as_str(), user_id) {
            return Err(EnrollmentError::DbError("duplicate enrollment token id".to_owned()));
        }

        if send_user_notification {
            if let Some(address) = email {
                let mail = Mail {
                    to: address,
                    subject: "Defguard user enrollment".to_owned(),
                    content: enrollment_start_mail_content(
                        enrollment_service_url,
                        enrollment.id.as_str(),
                    ),
                };
                if !send_mail(mail_tx, mail) {
                    return Err(EnrollmentError::NotificationError("channel closed".to_owned()));
                }
            }
        }

        let token_id = enrollment.id.clone();
        let ghost pre = store.tokens@;
        self.clear_unused_enrollment_tokens(store);
        proof {
            lemma_without_unused_for(pre, user_id);
            assert forall|j: int| 0 <= j < store.tokens@.len() implies (
            #[trigger] store.tokens@[j]).id@ != token_id@ by {
                assert(store.tokens@.contains(store.tokens@[j]));
                assert(pre.contains(store.tokens@[j]) && keeps_for_user(
                    store.tokens@[j],
                    user_id,
                ));
                let k = choose|k: int| 0 <= k < pre.len() && pre[k] == store.tokens@[j];
            }
            assert(!has_token(store.tokens@, token_id@));
        }
        let ghost cleaned = store.tokens@;
        match store.save(enrollment) {
            Ok(_) => {
                proof {
                    lemma_without_unused_for(pre, user_id);
                    let t = store.tokens@.last();
                    assert(store.tokens@ == cleaned.push(t));
                    assert(store.tokens@.push(t).drop_last() =~= store.tokens@);
                    assert(cleaned.push(t).drop_last() =~= cleaned);
                    assert(count_unused_for(store.tokens@, user_id) == count_unused_for(
                        cleaned,
                        user_id,
                    ) + 1);
                }
                Ok(token_id)
            },
            Err(e) => {
                proof {
                    assert(false);
                }
                Err(e)
            },
        }
    }

    /// Purge the subject's unconsumed enrollment tokens when a new
    /// enrollment is triggered.
    pub fn clear_unused_enrollment_tokens(&self, store: &mut TokenStore)
        requires
            old(store).wf(),
            self.id is Some,
        ensures
            final(store).wf(),
            final(store).tokens@ == without_unused_for(old(store).tokens@, self.id.unwrap()),
            count_unused_for(final(store).tokens@, self.id.unwrap()) == 0,
    {
        store.delete_unused_user_tokens(self.id.unwrap());
    }
}

impl TokenStore {
    /// Whether persisting a fresh token with identity `id` for `user_id`
    /// would collide: some token carries the identity and would survive
    /// the purge of `user_id`'s unconsumed tokens.
    #[verifier::loop_isolation(false)]
    pub fn has_conflicting_token(&self, id: &str, user_id: i64) -> (r: bool)
        ensures
            r == exists|j: int|
                0 <= j < self.tokens@.len() && (#[trigger] self.tokens@[j]).id@ == id@
                    && keeps_for_user(self.tokens@[j], user_id),
    {
        let needle = id.to_owned();
        let mut i: usize = 0;
        while i < self.tokens.len()
            invariant
                0 <= i as int <= self.tokens@.len(),
                needle@ == id@,
                forall|j: int|
                    0 <= j < i as int ==> !((#[trigger] self.tokens@[j]).id@ == id@
                        && keeps_for_user(self.tokens@[j], user_id)),
            decreases self.tokens@.len() - i as int,
        {
            let keeps = self.tokens[i].user_id != user_id || self.tokens[i].used_at.is_some();
            if keeps && self.tokens[i].id == needle {
                return true;
            }
            i += 1;
        }
        false
    }
}

impl Settings {
    /// The configured onboarding welcome message, or a
    /// configuration-missing error.
    pub fn enrollment_welcome_message(&self) -> (r: Result<String, EnrollmentError>)
        ensures
            match self.enrollment_welcome_message {
                Some(m) => r matches Ok(s) && s == m,
                None => r == Err::<String, EnrollmentError>(
                    EnrollmentError::WelcomeMsgNotConfigured,
                ),
            },
    {
        match &self.enrollment_welcome_message {
            Some(m) => Ok(m.clone()),
            None => Err(EnrollmentError::WelcomeMsgNotConfigured),
        }
    }

    /// The configured onboarding welcome email body; when so configured,
    /// the welcome message doubles as the email.
    pub fn enrollment_welcome_email(&self) -> (r: Result<String, EnrollmentError>)
        ensures
            self.enrollment_use_welcome_message_as_email ==> match self.enrollment_welcome_message {
                Some(m) => r matches Ok(s) && s == m,
                None => r == Err::<String, EnrollmentError>(
                    EnrollmentError::WelcomeMsgNotConfigured,
                ),
            },
            !self.enrollment_use_welcome_message_as_email ==> match self.enrollment_welcome_email {
                Some(m) => r matches Ok(s) && s == m,
                None => r == Err::<String, EnrollmentError>(
                    EnrollmentError::WelcomeEmailNotConfigured,
                ),
            },
    {
        if self.enrollment_use_welcome_message_as_email {
            return self.enrollment_welcome_message();
        }
        match &self.enrollment_welcome_email {
            Some(m) => Ok(m.clone()),
            None => Err(EnrollmentError::WelcomeEmailNotConfigured),
        }
    }
}

} // verus!
