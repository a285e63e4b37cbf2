//! The user aggregate and the credential engine: password hash, TOTP
//! secret, recovery codes and MFA aggregation across local and external
//! factors.

use crate::password::{
    check_password, hash_password, parses_as_hash, password_matches, MAX_PASSWORD_CHARS,
};
use crate::random::{gen_alphanumeric, gen_secret_bytes, is_alphanumeric_seq};
use crate::ssh_keys::spec_is_member;
use crate::store::{
    has_security_key, has_user_with_id, has_user_with_name, has_wallet_mfa, rows_written,
    same_collaborator_tables, wallet_without_mfa, without_webauthn_of, Device, Group,
    SecurityKey, UserStore, Wallet, WalletInfo, WebAuthnKey,
};
use crate::totp::{base32_encoding, totp_base32_secret, totp_code_matches, totp_verify,
    TOTP_CODE_VALIDITY_PERIOD};
use vstd::prelude::*;

verus! {

/// How many single-use recovery codes a fresh set holds.
pub const RECOVERY_CODES_COUNT: usize = 8;

/// Advisory tag of the user's primary second factor; not authoritative
/// for whether MFA is actually enforced (see `User::mfa_enabled`).
#[derive(Clone, Copy, Debug, PartialEq, Eq, Structural)]
pub enum MFAMethod {
    NoMfa,
    OneTimePassword,
    WebAuthn,
    Web3,
}

/// Outcome of a password verification.
#[derive(Clone, Copy, Debug, PartialEq, Eq, Structural)]
pub enum PasswordError {
    /// No password has ever been set for this account.
    MissingHash,
    /// The stored hash does not parse; an internal fault, not a wrong
    /// password.
    MalformedHash,
    /// The password does not match the stored hash.
    Mismatch,
}

pub struct User {
    pub id: Option<i64>,
    pub username: String,
    /// Present once an initial password is set; its presence signals that
    /// the account is activated.
    pub password_hash: Option<String>,
    pub last_name: String,
    pub first_name: String,
    pub email: String,
    pub phone: Option<String>,
    pub ssh_key: Option<String>,
    pub pgp_key: Option<String>,
    pub pgp_cert_id: Option<String>,
    /// The secret has been confirmed and TOTP codes are accepted.
    pub totp_enabled: bool,
    pub totp_secret: Option<Vec<u8>>,
    pub mfa_method: MFAMethod,
    /// Single-use backup codes; membership and count are what matter,
    /// the order carries no meaning.
    pub recovery_codes: Vec<String>,
}

/// Both are absent, or both hold the same bytes.
pub open spec fn same_opt_bytes(a: Option<Vec<u8>>, b: Option<Vec<u8>>) -> bool {
    match (a, b) {
        (Some(x), Some(y)) => x@ == y@,
        (Option::<Vec<u8>>::None, Option::<Vec<u8>>::None) => true,
        _ => false,
    }
}

/// `a` carries the same record as `b`: every column agrees, with vectors
/// compared by their contents.
pub open spec fn same_user(a: User, b: User) -> bool {
    &&& a.id == b.id
    &&& a.username == b.username
    &&& a.password_hash == b.password_hash
    &&& a.last_name == b.last_name
    &&& a.first_name == b.first_name
    &&& a.email == b.email
    &&& a.phone == b.phone
    &&& a.ssh_key == b.ssh_key
    &&& a.pgp_key == b.pgp_key
    &&& a.pgp_cert_id == b.pgp_cert_id
    &&& a.totp_enabled == b.totp_enabled
    &&& same_opt_bytes(a.totp_secret, b.totp_secret)
    &&& a.mfa_method == b.mfa_method
    &&& a.recovery_codes@ == b.recovery_codes@
}

/// Some code in the sequence reads as `x`.
pub open spec fn contains_code(codes: Seq<String>, x: Seq<char>) -> bool {
    exists|i: int| 0 <= i < codes.len() && (#[trigger] codes[i])@ == x
}

/// No two codes read the same.
pub open spec fn unique_code_views(codes: Seq<String>) -> bool {
    forall|i: int, j: int|
        0 <= i < j < codes.len() ==> (#[trigger] codes[i])@ != (#[trigger] codes[j])@
}

/// Whether any second factor is on: local TOTP, a wallet flagged for MFA,
/// or a registered security key. Computed against one consistent store
/// state, never from the advisory `mfa_method` field.
pub open spec fn spec_mfa_enabled(u: User, store: UserStore) -> bool {
    u.totp_enabled || (match u.id {
        Some(id) => has_wallet_mfa(store.wallets@, id) || has_security_key(
            store.webauthn_keys@,
            id,
        ),
        None => false,
    })
}

/// Copy a byte vector.
#[verifier::loop_isolation(false)]
fn clone_bytes(v: &Vec<u8>) -> (r: Vec<u8>)
    ensures
        r@ == v@,
{
    let mut r: Vec<u8> = Vec::new();
    let mut i: usize = 0;
    while i < v.len()
        invariant
            0 <= i as int <= v@.len(),
            r@ =~= v@.take(i as int),
        decreases v@.len() - i as int,
    {
        r.push(v[i]);
        i += 1;
    }
    proof {
        assert(v@.take(v@.len() as int) =~= v@);
    }
    r
}

/// Copy an optional byte vector.
pub(crate) fn clone_opt_bytes(o: &Option<Vec<u8>>) -> (r: Option<Vec<u8>>)
    ensures
        same_opt_bytes(r, *o),
{
    match o {
        Some(v) => Some(clone_bytes(v)),
        None => None,
    }
}

/// Copy an optional string; string clones keep their value.
pub(crate) fn clone_opt_string(o: &Option<String>) -> (r: Option<String>)
    ensures
        r == *o,
{
    match o {
        Some(s) => Some(s.clone()),
        None => None,
    }
}

/// Copy a vector of strings, keeping the contents.
#[verifier::loop_isolation(false)]
pub(crate) fn clone_string_vec(v: &Vec<String>) -> (r: Vec<String>)
    ensures
        r@ == v@,
{
    let mut r: Vec<String> = Vec::new();
    let mut i: usize = 0;
    while i < v.len()
        invariant
            0 <= i as int <= v@.len(),
            r@ =~= v@.take(i as int),
        decreases v@.len() - i as int,
    {
        r.push(v[i].clone());
        i += 1;
    }
    proof {
        assert(v@.take(v@.len() as int) =~= v@);
    }
    r
}

impl User {
    /// The stored hash, when present, is a well-formed PHC string: every
    /// constructor establishes this and every method keeps it.
    pub open spec fn wf(&self) -> bool {
        match self.password_hash {
            Some(h) => parses_as_hash(h@),
            None => true,
        }
    }

    /// The account is activated: an initial password has been set.
    pub open spec fn spec_has_password(&self) -> bool {
        self.password_hash is Some
    }

    pub fn has_password(&self) -> (r: bool)
        ensures
            r == self.spec_has_password(),
    {
        self.password_hash.is_some()
    }

    #[must_use]
    pub fn new(
        username: String,
        password: &str,
        last_name: String,
        first_name: String,
        email: String,
        phone: Option<String>,
    ) -> (r: Self)
        requires
            password@.len() <= MAX_PASSWORD_CHARS,
        ensures
            r.id is None,
            r.username == username,
            r.password_hash matches Some(h) && parses_as_hash(h@) && password_matches(
                h@,
                password@,
            ),
            r.last_name == last_name,
            r.first_name == first_name,
            r.email == email,
            r.phone == phone,
            r.ssh_key is None,
            r.pgp_key is None,
            r.pgp_cert_id is None,
            r.totp_enabled == false,
            r.totp_secret is None,
            r.mfa_method == MFAMethod::NoMfa,
            r.recovery_codes@.len() == 0,
            r.wf(),
    {
        User {
            id: None,
            username,
            password_hash: Some(hash_password(password)),
            last_name,
            first_name,
            email,
            phone,
            ssh_key: None,
            pgp_key: None,
            pgp_cert_id: None,
            totp_enabled: false,
            totp_secret: None,
            mfa_method: MFAMethod::NoMfa,
            recovery_codes: Vec::new(),
        }
    }

    /// A not-yet-activated account: no password hash, so enrollment may
    /// be started for it.
    #[must_use]
    pub fn new_inactive(
        username: String,
        last_name: String,
        first_name: String,
        email: String,
        phone: Option<String>,
    ) -> (r: Self)
        ensures
            r.id is None,
            r.username == username,
            r.password_hash is None,
            r.last_name == last_name,
            r.first_name == first_name,
            r.email == email,
            r.phone == phone,
            r.ssh_key is None,
            r.pgp_key is None,
            r.pgp_cert_id is None,
            r.totp_enabled == false,
            r.totp_secret is None,
            r.mfa_method == MFAMethod::NoMfa,
            r.recovery_codes@.len() == 0,
            r.wf(),
    {
        User {
            id: None,
            username,
            password_hash: None,
            last_name,
            first_name,
            email,
            phone,
            ssh_key: None,
            pgp_key: None,
            pgp_cert_id: None,
            totp_enabled: false,
            totp_secret: None,
            mfa_method: MFAMethod::NoMfa,
            recovery_codes: Vec::new(),
        }
    }

    /// A copy of the record.
    pub fn duplicate(&self) -> (r: Self)
        ensures
            same_user(r, *self),
    {
        User {
            id: self.id,
            username: self.username.clone(),
            password_hash: clone_opt_string(&self.password_hash),
            last_name: self.last_name.clone(),
            first_name: self.first_name.clone(),
            email: self.email.clone(),
            phone: clone_opt_string(&self.phone),
            ssh_key: clone_opt_string(&self.ssh_key),
            pgp_key: clone_opt_string(&self.pgp_key),
            pgp_cert_id: clone_opt_string(&self.pgp_cert_id),
            totp_enabled: self.totp_enabled,
            totp_secret: clone_opt_bytes(&self.totp_secret),
            mfa_method: self.mfa_method,
            recovery_codes: clone_string_vec(&self.recovery_codes),
        }
    }

    /// Replace the stored hash with a salted, memory-hard hash of
    /// `password`; the salt is regenerated on every call and the
    /// plaintext is never kept.
    pub fn set_password(&mut self, password: &str)
        requires
            password@.len() <= MAX_PASSWORD_CHARS,
        ensures
            final(self).password_hash matches Some(h) && parses_as_hash(h@) && password_matches(
                h@,
                password@,
            ),
            final(self).wf(),
            final(self).id == old(self).id,
            final(self).username == old(self).username,
            final(self).last_name == old(self).last_name,
            final(self).first_name == old(self).first_name,
            final(self).email == old(self).email,
            final(self).phone == old(self).phone,
            final(self).ssh_key == old(self).ssh_key,
            final(self).pgp_key == old(self).pgp_key,
            final(self).pgp_cert_id == old(self).pgp_cert_id,
            final(self).totp_enabled == old(self).totp_enabled,
            final(self).totp_secret == old(self).totp_secret,
            final(self).mfa_method == old(self).mfa_method,
            final(self).recovery_codes == old(self).recovery_codes,
    {
        self.password_hash = Some(hash_password(password));
    }

    /// The exact outcome of verifying `password` against this record.
    pub open spec fn spec_verify_password(&self, password: Seq<char>) -> Result<
        (),
        PasswordError,
    > {
        match self.password_hash {
            None => Err(PasswordError::MissingHash),
            Some(h) => if !parses_as_hash(h@) {
                Err(PasswordError::MalformedHash)
            } else if password_matches(h@, password) {
                Ok(())
            } else {
                Err(PasswordError::Mismatch)
            },
        }
    }

    /// Recompute the hash of `password` with the stored salt and compare.
    /// A malformed stored hash is an internal error, not a wrong
    /// password.
    pub fn verify_password(&self, password: &str) -> (r: Result<(), PasswordError>)
        ensures
            r == self.spec_verify_password(password@),
    {
        match &self.password_hash {
            None => Err(PasswordError::MissingHash),
            Some(h) => match check_password(h.as_str(), password) {
                None => Err(PasswordError::MalformedHash),
                Some(true) => Ok(()),
                Some(false) => Err(PasswordError::Mismatch),
            },
        }
    }
    /// The columns that only `set_password`, `new_secret`, `enable_totp`,
    /// `disable_totp`, `enable_mfa`, `disable_mfa` and
    /// `verify_recovery_code` may touch all kept their values.
    pub open spec fn same_identity(a: User, b: User) -> bool {
        &&& a.id == b.id
        &&& a.username == b.username
        &&& a.last_name == b.last_name
        &&& a.first_name == b.first_name
        &&& a.email == b.email
        &&& a.phone == b.phone
        &&& a.ssh_key == b.ssh_key
        &&& a.pgp_key == b.pgp_key
        &&& a.pgp_cert_id == b.pgp_cert_id
    }

    /// The aggregate MFA question: local TOTP on, or a wallet flagged for
    /// MFA, or a registered security key — answered against one
    /// consistent store state, never from the advisory `mfa_method`.
    pub fn mfa_enabled(&self, store: &UserStore) -> (r: bool)
        ensures
            r == spec_mfa_enabled(*self, *store),
    {
        if self.totp_enabled {
            return true;
        }
        match self.id {
            Some(id) => {
                if store.any_wallet_mfa(id) {
                    true
                } else {
                    store.any_security_key(id)
                }
            },
            None => false,
        }
    }

    /// Generate a fresh twenty-byte TOTP secret, persist it, and return
    /// its base32 encoding for provisioning display. TOTP stays disabled
    /// until the secret is confirmed through `enable_totp`.
    pub fn new_secret(&mut self, store: &mut UserStore) -> (r: String)
        requires
            old(self).wf(),
        ensures
            final(self).wf(),
            final(self).totp_secret matches Some(s) && s@.len() == 20 && r@ == base32_encoding(s@),
            r@.len() == 32,
            User::same_identity(*final(self), *old(self)),
            final(self).password_hash == old(self).password_hash,
            final(self).totp_enabled == old(self).totp_enabled,
            final(self).mfa_method == old(self).mfa_method,
            final(self).recovery_codes == old(self).recovery_codes,
            same_collaborator_tables(*final(store), *old(store)),
            match old(self).id {
                Some(uid) => rows_written(
                    final(store).users@,
                    old(store).users@,
                    uid,
                    *final(self),
                ),
                None => *final(store) == *old(store),
            },
    {
        let secret = gen_secret_bytes();
        let encoded = totp_base32_secret(&secret);
        self.totp_secret = Some(secret);
        if let Some(id) = self.id {
            store.write_security_columns(id, self);
        }
        encoded
    }

    /// Whether `code` is this user's current TOTP code: a secret must be
    /// present, TOTP must be enabled, and the code must match in the
    /// window containing `timestamp`. No secret material leaves.
    pub open spec fn spec_verify_code(&self, code: u32, timestamp: u64) -> bool {
        match self.totp_secret {
            Some(s) => self.totp_enabled && totp_code_matches(
                s@,
                code,
                TOTP_CODE_VALIDITY_PERIOD,
                timestamp,
            ),
            None => false,
        }
    }

    pub fn verify_code(&self, code: u32, timestamp: u64) -> (r: bool)
        ensures
            r == self.spec_verify_code(code, timestamp),
    {
        if !self.totp_enabled {
            return false;
        }
        match &self.totp_secret {
            Some(secret) => totp_verify(secret, code, TOTP_CODE_VALIDITY_PERIOD, timestamp),
            None => false,
        }
    }

    /// Mark the TOTP secret as confirmed: codes are accepted from now on.
    pub fn enable_totp(&mut self, store: &mut UserStore)
        requires
            old(self).wf(),
        ensures
            final(self).wf(),
            final(self).totp_enabled == true,
            User::same_identity(*final(self), *old(self)),
            final(self).password_hash == old(self).password_hash,
            final(self).totp_secret == old(self).totp_secret,
            final(self).mfa_method == old(self).mfa_method,
            final(self).recovery_codes == old(self).recovery_codes,
            old(self).totp_enabled ==> *final(self) == *old(self) && *final(store) == *old(store),
            !old(self).totp_enabled ==> same_collaborator_tables(*final(store), *old(store))
                && match old(self).id {
                Some(uid) => rows_written(
                    final(store).users@,
                    old(store).users@,
                    uid,
                    *final(self),
                ),
                None => *final(store) == *old(store),
            },
    {
        if !self.totp_enabled {
            self.totp_enabled = true;
            if let Some(id) = self.id {
                store.write_security_columns(id, self);
            }
        }
    }

    /// Turn TOTP off and discard the secret; registered security keys of
    /// the user are dropped with it.
    pub fn disable_totp(&mut self, store: &mut UserStore)
        requires
            old(self).wf(),
        ensures
            final(self).wf(),
            final(self).totp_enabled == false,
            User::same_identity(*final(self), *old(self)),
            final(self).password_hash == old(self).password_hash,
            final(self).mfa_method == old(self).mfa_method,
            final(self).recovery_codes == old(self).recovery_codes,
            !old(self).totp_enabled ==> *final(self) == *old(self) && *final(store) == *old(
                store,
            ),
            old(self).totp_enabled ==> {
                &&& final(self).totp_secret is None
                &&& match old(self).id {
                    Some(uid) => {
                        &&& rows_written(final(store).users@, old(store).users@, uid, *final(self))
                        &&& final(store).webauthn_keys@ == without_webauthn_of(
                            old(store).webauthn_keys@,
                            uid,
                        )
                        &&& final(store).wallets == old(store).wallets
                        &&& final(store).devices == old(store).devices
                        &&& final(store).groups == old(store).groups
                        &&& final(store).memberships == old(store).memberships
                        &&& final(store).next_user_id == old(store).next_user_id
                    },
                    None => *final(store) == *old(store),
                }
            },
    {
        if self.totp_enabled {
            self.totp_enabled = false;
            self.totp_secret = None;
            if let Some(id) = self.id {
                store.write_security_columns(id, self);
                store.delete_webauthn_for_user(id);
            }
        }
    }

    /// Turn MFA on: a no-op when some factor is already active, otherwise
    /// a fresh fixed-size set of single-use recovery codes replaces the
    /// prior set in full, and the plaintext codes are returned exactly
    /// once for display.
    #[verifier::loop_isolation(false)]
    pub fn enable_mfa(&mut self, store: &mut UserStore) -> (r: Option<Vec<String>>)
        requires
            old(self).wf(),
        ensures
            final(self).wf(),
            spec_mfa_enabled(*old(self), *old(store)) ==> r is None && *final(self) == *old(self)
                && *final(store) == *old(store),
            !spec_mfa_enabled(*old(self), *old(store)) ==> {
                &&& r matches Some(codes) && codes@ == final(self).recovery_codes@
                &&& final(self).recovery_codes@.len() == RECOVERY_CODES_COUNT
                &&& forall|k: int|
                    0 <= k < final(self).recovery_codes@.len() ==> (
                    #[trigger] final(self).recovery_codes@[k])@.len() == 16
                        && is_alphanumeric_seq(final(self).recovery_codes@[k]@)
                &&& User::same_identity(*final(self), *old(self))
                &&& final(self).password_hash == old(self).password_hash
                &&& final(self).totp_enabled == old(self).totp_enabled
                &&& final(self).totp_secret == old(self).totp_secret
                &&& final(self).mfa_method == old(self).mfa_method
                &&& same_collaborator_tables(*final(store), *old(store))
                &&& match old(self).id {
                    Some(uid) => rows_written(
                        final(store).users@,
                        old(store).users@,
                        uid,
                        *final(self),
                    ),
                    None => *final(store) == *old(store),
                }
            },
    {
        if self.mfa_enabled(store) {
            return None;
        }
        self.recovery_codes.clear();
        let mut n: usize = 0;
        while n < RECOVERY_CODES_COUNT
            invariant
                n == self.recovery_codes@.len(),
                n <= RECOVERY_CODES_COUNT,
                forall|k: int|
                    0 <= k < self.recovery_codes@.len() ==> (#[trigger] self.recovery_codes@[k])@.len()
                        == 16 && is_alphanumeric_seq(self.recovery_codes@[k]@),
                self.id == old(self).id,
                self.username == old(self).username,
                self.password_hash == old(self).password_hash,
                self.last_name == old(self).last_name,
                self.first_name == old(self).first_name,
                self.email == old(self).email,
                self.phone == old(self).phone,
                self.ssh_key == old(self).ssh_key,
                self.pgp_key == old(self).pgp_key,
                self.pgp_cert_id == old(self).pgp_cert_id,
                self.totp_enabled == old(self).totp_enabled,
                self.totp_secret == old(self).totp_secret,
                self.mfa_method == old(self).mfa_method,
                *store == *old(store),
            decreases RECOVERY_CODES_COUNT - n,
        {
            let code = gen_alphanumeric(16);
            self.recovery_codes.push(code);
            n += 1;
        }
        if let Some(id) = self.id {
            store.write_security_columns(id, self);
        }
        Some(clone_string_vec(&self.recovery_codes))
    }

    /// Turn MFA off in one operation: clear the TOTP secret and its
    /// confirmation, clear all recovery codes, drop the MFA flag of the
    /// user's wallets and delete the user's security keys. Afterwards no
    /// factor remains.
    pub fn disable_mfa(&mut self, store: &mut UserStore)
        requires
            old(self).wf(),
        ensures
            final(self).wf(),
            final(self).totp_enabled == false,
            final(self).totp_secret is None,
            final(self).recovery_codes@.len() == 0,
            User::same_identity(*final(self), *old(self)),
            final(self).password_hash == old(self).password_hash,
            final(self).mfa_method == old(self).mfa_method,
            !spec_mfa_enabled(*final(self), *final(store)),
            match old(self).id {
                Some(uid) => {
                    &&& rows_written(final(store).users@, old(store).users@, uid, *final(self))
                    &&& final(store).wallets@.len() == old(store).wallets@.len()
                    &&& forall|j: int|
                        0 <= j < final(store).wallets@.len() ==> final(store).wallets@[j]
                            == wallet_without_mfa(old(store).wallets@[j], uid)
                    &&& final(store).webauthn_keys@ == without_webauthn_of(
                        old(store).webauthn_keys@,
                        uid,
                    )
                    &&& final(store).devices == old(store).devices
                    &&& final(store).groups == old(store).groups
                    &&& final(store).memberships == old(store).memberships
                    &&& final(store).next_user_id == old(store).next_user_id
                },
                None => *final(store) == *old(store),
            },
    {
        self.totp_enabled = false;
        self.totp_secret = None;
        self.recovery_codes.clear();
        if let Some(id) = self.id {
            store.write_security_columns(id, self);
            store.disable_wallet_mfa_for_user(id);
            store.delete_webauthn_for_user(id);
        }
    }

    /// Check a recovery code by exact match; a matching code is removed
    /// from the set before success is reported, so it cannot be replayed.
    /// No match leaves the set untouched — a negative result, not an
    /// error.
    #[verifier::loop_isolation(false)]
    pub fn verify_recovery_code(&mut self, store: &mut UserStore, code: &str) -> (r: bool)
        requires
            old(self).wf(),
        ensures
            final(self).wf(),
            r == contains_code(old(self).recovery_codes@, code@),
            !r ==> *final(self) == *old(self) && *final(store) == *old(store),
            r ==> {
                &&& exists|i: int|
                    {
                        &&& 0 <= i < old(self).recovery_codes@.len()
                        &&& (#[trigger] old(self).recovery_codes@[i])@ == code@
                        &&& forall|j: int|
                            0 <= j < i ==> (#[trigger] old(self).recovery_codes@[j])@ != code@
                        &&& final(self).recovery_codes@ == old(self).recovery_codes@.remove(i)
                    }
                &&& final(self).recovery_codes@.len() + 1 == old(self).recovery_codes@.len()
                &&& User::same_identity(*final(self), *old(self))
                &&& final(self).password_hash == old(self).password_hash
                &&& final(self).totp_enabled == old(self).totp_enabled
                &&& final(self).totp_secret == old(self).totp_secret
                &&& final(self).mfa_method == old(self).mfa_method
                &&& same_collaborator_tables(*final(store), *old(store))
                &&& match old(self).id {
                    Some(uid) => rows_written(
                        final(store).users@,
                        old(store).users@,
                        uid,
                        *final(self),
                    ),
                    None => *final(store) == *old(store),
                }
            },
    {
        let needle = code.to_owned();
        let mut i: usize = 0;
        while i < self.recovery_codes.len()
            invariant
                0 <= i as int <= self.recovery_codes@.len(),
                forall|j: int|
                    0 <= j < i as int ==> (#[trigger] self.recovery_codes@[j])@ != code@,
                *self == *old(self),
                *store == *old(store),
                needle@ == code@,
            decreases self.recovery_codes@.len() - i as int,
        {
            if self.recovery_codes[i] == needle {
                self.recovery_codes.remove(i);
                if let Some(id) = self.id {
                    store.write_security_columns(id, self);
                }
                return true;
            }
            i += 1;
        }
        false
    }
}

impl User {
    /// Look a user up by row id; a clone of some row carrying the id.
    #[verifier::loop_isolation(false)]
    pub fn find_by_id(store: &UserStore, id: i64) -> (r: Option<User>)
        ensures
            r is Some <==> has_user_with_id(store.users@, id),
            r matches Some(u) ==> exists|j: int|
                0 <= j < store.users@.len() && (#[trigger] store.users@[j]).id == Some(id)
                    && same_user(u, store.users@[j]),
    {
        let mut i: usize = 0;
        while i < store.users.len()
            invariant
                0 <= i as int <= store.users@.len(),
                forall|j: int| 0 <= j < i as int ==> (#[trigger] store.users@[j]).id != Some(id),
            decreases store.users@.len() - i as int,
        {
            let found = match store.users[i].id {
                Some(x) => x == id,
                None => false,
            };
            if found {
                return Some(store.users[i].duplicate());
            }
            i += 1;
        }
        None
    }

    /// Look a user up by username; a clone of the first row carrying it.
    #[verifier::loop_isolation(false)]
    pub fn find_by_username(store: &UserStore, username: &str) -> (r: Option<User>)
        ensures
            r is Some <==> has_user_with_name(store.users@, username@),
            r matches Some(u) ==> exists|j: int|
                {
                    &&& 0 <= j < store.users@.len()
                    &&& (#[trigger] store.users@[j]).username@ == username@
                    &&& same_user(u, store.users@[j])
                    &&& forall|k: int| 0 <= k < j ==> (#[trigger] store.users@[k]).username@ != username@
                },
    {
        let needle = username.to_owned();
        let mut i: usize = 0;
        while i < store.users.len()
            invariant
                0 <= i as int <= store.users@.len(),
                needle@ == username@,
                forall|k: int|
                    0 <= k < i as int ==> (#[trigger] store.users@[k]).username@ != username@,
            decreases store.users@.len() - i as int,
        {
            if store.users[i].username == needle {
                return Some(store.users[i].duplicate());
            }
            i += 1;
        }
        None
    }
}

/// The user table without the rows of `user_id`.
pub open spec fn without_user_rows(users: Seq<User>, user_id: i64) -> Seq<User>
    decreases users.len(),
{
    if users.len() == 0 {
        Seq::empty()
    } else {
        let rest = without_user_rows(users.drop_last(), user_id);
        if users.last().id == Some(user_id) {
            rest
        } else {
            rest.push(users.last())
        }
    }
}

/// The names of the groups the user belongs to, in group-table order.
pub open spec fn member_group_names(
    groups: Seq<Group>,
    memberships: Seq<(i64, i64)>,
    user_id: i64,
) -> Seq<String>
    decreases groups.len(),
{
    if groups.len() == 0 {
        Seq::empty()
    } else {
        let rest = member_group_names(groups.drop_last(), memberships, user_id);
        if spec_is_member(memberships, groups.last().id, Some(user_id)) {
            rest.push(groups.last().name)
        } else {
            rest
        }
    }
}

/// The validated wallets of the user, projected for callers.
pub open spec fn wallet_infos_of(ws: Seq<Wallet>, user_id: i64) -> Seq<WalletInfo>
    decreases ws.len(),
{
    if ws.len() == 0 {
        Seq::empty()
    } else {
        let rest = wallet_infos_of(ws.drop_last(), user_id);
        let w = ws.last();
        if w.user_id == user_id && w.validated {
            rest.push(
                WalletInfo {
                    address: w.address,
                    name: w.name,
                    chain_id: w.chain_id,
                    use_for_mfa: w.use_for_mfa,
                },
            )
        } else {
            rest
        }
    }
}

/// The security keys of the user, projected for callers.
pub open spec fn security_keys_of(ks: Seq<WebAuthnKey>, user_id: i64) -> Seq<SecurityKey>
    decreases ks.len(),
{
    if ks.len() == 0 {
        Seq::empty()
    } else {
        let rest = security_keys_of(ks.drop_last(), user_id);
        let k = ks.last();
        if k.user_id == user_id {
            rest.push(SecurityKey { id: k.id, name: k.name })
        } else {
            rest
        }
    }
}

/// The device rows of the user.
pub open spec fn devices_of(ds: Seq<Device>, user_id: i64) -> Seq<Device>
    decreases ds.len(),
{
    if ds.len() == 0 {
        Seq::empty()
    } else {
        let rest = devices_of(ds.drop_last(), user_id);
        if ds.last().user_id == user_id {
            rest.push(ds.last())
        } else {
            rest
        }
    }
}

impl User {
    /// Persist this record: a first save assigns the next id and inserts
    /// a row, a later save overwrites the rows carrying the id.
    #[verifier::loop_isolation(false)]
    pub fn save(&mut self, store: &mut UserStore)
        requires
            old(store).next_user_id < i64::MAX,
        ensures
            final(store).wallets == old(store).wallets,
            final(store).webauthn_keys == old(store).webauthn_keys,
            final(store).devices == old(store).devices,
            final(store).groups == old(store).groups,
            final(store).memberships == old(store).memberships,
            old(self).id is None ==> ({
                &&& *final(self) == (User { id: Some(old(store).next_user_id), ..*old(self) })
                &&& final(store).users@.len() == old(store).users@.len() + 1
                &&& forall|j: int|
                    0 <= j < old(store).users@.len() ==> final(store).users@[j] == old(
                        store,
                    ).users@[j]
                &&& same_user(final(store).users@.last(), *final(self))
                &&& final(store).next_user_id == old(store).next_user_id + 1
            }),
            old(self).id matches Some(uid) ==> ({
                &&& *final(self) == *old(self)
                &&& final(store).users@.len() == old(store).users@.len()
                &&& forall|j: int|
                    0 <= j < final(store).users@.len() ==> if old(store).users@[j].id == Some(
                        uid,
                    ) {
                        same_user(#[trigger] final(store).users@[j], *old(self))
                    } else {
                        final(store).users@[j] == old(store).users@[j]
                    }
                &&& final(store).next_user_id == old(store).next_user_id
            }),
    {
        let has_id = self.id.is_some();
        if has_id {
            let uid = self.id.unwrap();
            let mut j: usize = 0;
            while j < store.users.len()
                invariant
                    0 <= j as int <= store.users@.len(),
                    store.users@.len() == old(store).users@.len(),
                    *self == *old(self),
                    forall|k: int|
                        0 <= k < j as int ==> if old(store).users@[k].id == Some(uid) {
                            same_user(#[trigger] store.users@[k], *self)
                        } else {
                            store.users@[k] == old(store).users@[k]
                        },
                    forall|k: int|
                        j as int <= k < store.users@.len() ==> store.users@[k] == old(
                            store,
                        ).users@[k],
                    store.wallets == old(store).wallets,
                    store.webauthn_keys == old(store).webauthn_keys,
                    store.devices == old(store).devices,
                    store.groups == old(store).groups,
                    store.memberships == old(store).memberships,
                    store.next_user_id == old(store).next_user_id,
                decreases store.users@.len() - j as int,
            {
                let row_matches = match store.users[j].id {
                    Some(x) => x == uid,
                    None => false,
                };
                if row_matches {
                    store.users[j] = self.duplicate();
                }
                j += 1;
            }
        } else {
            let id = store.next_user_id;
            self.id = Some(id);
            store.users.push(self.duplicate());
            store.next_user_id = id + 1;
        }
    }

    /// Delete the rows carrying this record's id; a record never saved
    /// has no rows to delete.
    #[verifier::loop_isolation(false)]
    pub fn delete(self, store: &mut UserStore)
        ensures
            final(store).wallets == old(store).wallets,
            final(store).webauthn_keys == old(store).webauthn_keys,
            final(store).devices == old(store).devices,
            final(store).groups == old(store).groups,
            final(store).memberships == old(store).memberships,
            final(store).next_user_id == old(store).next_user_id,
            self.id is None ==> final(store).users == old(store).users,
            self.id matches Some(uid) ==> final(store).users@ == without_user_rows(
                old(store).users@,
                uid,
            ),
    {
        let uid = match self.id {
            Some(uid) => uid,
            None => {
                return ;
            },
        };
        let ghost orig = store.users@;
        let mut i: usize = 0;
        let ghost mut j: int = 0;
        while i < store.users.len()
            invariant
                0 <= j <= orig.len(),
                i as int == without_user_rows(orig.take(j), uid).len(),
                store.users@ == without_user_rows(orig.take(j), uid) + orig.skip(j),
                store.wallets == old(store).wallets,
                store.webauthn_keys == old(store).webauthn_keys,
                store.devices == old(store).devices,
                store.groups == old(store).groups,
                store.memberships == old(store).memberships,
                store.next_user_id == old(store).next_user_id,
            decreases orig.len() - j,
        {
            proof {
                assert(orig.skip(j).len() > 0);
                assert(store.users@[i as int] == orig.skip(j)[0]);
                assert(orig.skip(j)[0] == orig[j]);
                assert(orig.take(j + 1).drop_last() =~= orig.take(j));
                assert(orig.take(j + 1).last() == orig[j]);
            }
            let row_matches = match store.users[i].id {
                Some(x) => x == uid,
                None => false,
            };
            if row_matches {
                store.users.remove(i);
                proof {
                    assert(store.users@ =~= without_user_rows(orig.take(j + 1), uid) + orig.skip(
                        j + 1,
                    ));
                    j = j + 1;
                }
            } else {
                i += 1;
                proof {
                    assert(store.users@ =~= without_user_rows(orig.take(j + 1), uid) + orig.skip(
                        j + 1,
                    ));
                    j = j + 1;
                }
            }
        }
        proof {
            assert(orig.skip(j).len() == 0);
            assert(j == orig.len());
            assert(orig.take(j) =~= orig);
            assert(store.users@ =~= without_user_rows(orig, uid));
        }
    }

    /// Every user row, in table order.
    #[verifier::loop_isolation(false)]
    pub fn all(store: &UserStore) -> (r: Vec<User>)
        ensures
            r@.len() == store.users@.len(),
            forall|j: int| 0 <= j < r@.len() ==> same_user(#[trigger] r@[j], store.users@[j]),
    {
        let mut r: Vec<User> = Vec::new();
        let mut i: usize = 0;
        while i < store.users.len()
            invariant
                0 <= i as int <= store.users@.len(),
                r@.len() == i as int,
                forall|j: int| 0 <= j < r@.len() ==> same_user(#[trigger] r@[j], store.users@[j]),
            decreases store.users@.len() - i as int,
        {
            r.push(store.users[i].duplicate());
            i += 1;
        }
        r
    }

    /// The names of the groups this user belongs to.
    #[verifier::loop_isolation(false)]
    pub fn member_of(&self, store: &UserStore) -> (r: Vec<String>)
        ensures
            self.id matches Some(uid) ==> r@ == member_group_names(
                store.groups@,
                store.memberships@,
                uid,
            ),
            self.id is None ==> r@.len() == 0,
    {
        let mut r: Vec<String> = Vec::new();
        let uid = match self.id {
            Some(uid) => uid,
            None => {
                return r;
            },
        };
        let mut i: usize = 0;
        while i < store.groups.len()
            invariant
                0 <= i as int <= store.groups@.len(),
                r@ =~= member_group_names(store.groups@.take(i as int), store.memberships@, uid),
            decreases store.groups@.len() - i as int,
        {
            proof {
                assert(store.groups@.take(i as int + 1).drop_last() =~= store.groups@.take(
                    i as int,
                ));
                assert(store.groups@.take(i as int + 1).last() == store.groups@[i as int]);
            }
            if member_pair(store, store.groups[i].id, uid) {
                r.push(store.groups[i].name.clone());
            }
            i += 1;
        }
        proof {
            assert(store.groups@.take(store.groups@.len() as int) =~= store.groups@);
        }
        r
    }

    /// The user's validated wallets, projected for callers.
    #[verifier::loop_isolation(false)]
    pub fn wallets(&self, store: &UserStore) -> (r: Vec<WalletInfo>)
        ensures
            self.id matches Some(uid) ==> r@ == wallet_infos_of(store.wallets@, uid),
            self.id is None ==> r@.len() == 0,
    {
        let mut r: Vec<WalletInfo> = Vec::new();
        let uid = match self.id {
            Some(uid) => uid,
            None => {
                return r;
            },
        };
        let mut i: usize = 0;
        while i < store.wallets.len()
            invariant
                0 <= i as int <= store.wallets@.len(),
                r@ =~= wallet_infos_of(store.wallets@.take(i as int), uid),
            decreases store.wallets@.len() - i as int,
        {
            proof {
                assert(store.wallets@.take(i as int + 1).drop_last() =~= store.wallets@.take(
                    i as int,
                ));
                assert(store.wallets@.take(i as int + 1).last() == store.wallets@[i as int]);
            }
            if store.wallets[i].user_id == uid && store.wallets[i].validated {
                r.push(
                    WalletInfo {
                        address: store.wallets[i].address.clone(),
                        name: store.wallets[i].name.clone(),
                        chain_id: store.wallets[i].chain_id,
                        use_for_mfa: store.wallets[i].use_for_mfa,
                    },
                );
            }
            i += 1;
        }
        proof {
            assert(store.wallets@.take(store.wallets@.len() as int) =~= store.wallets@);
        }
        r
    }

    /// The user's registered security keys, projected for callers.
    #[verifier::loop_isolation(false)]
    pub fn security_keys(&self, store: &UserStore) -> (r: Vec<SecurityKey>)
        ensures
            self.id matches Some(uid) ==> r@ == security_keys_of(store.webauthn_keys@, uid),
            self.id is None ==> r@.len() == 0,
    {
        let mut r: Vec<SecurityKey> = Vec::new();
        let uid = match self.id {
            Some(uid) => uid,
            None => {
                return r;
            },
        };
        let mut i: usize = 0;
        while i < store.webauthn_keys.len()
            invariant
                0 <= i as int <= store.webauthn_keys@.len(),
                r@ =~= security_keys_of(store.webauthn_keys@.take(i as int), uid),
            decreases store.webauthn_keys@.len() - i as int,
        {
            proof {
                assert(store.webauthn_keys@.take(i as int + 1).drop_last()
                    =~= store.webauthn_keys@.take(i as int));
                assert(store.webauthn_keys@.take(i as int + 1).last()
                    == store.webauthn_keys@[i as int]);
            }
            if store.webauthn_keys[i].user_id == uid {
                r.push(
                    SecurityKey {
                        id: store.webauthn_keys[i].id,
                        name: store.webauthn_keys[i].name.clone(),
                    },
                );
            }
            i += 1;
        }
        proof {
            assert(store.webauthn_keys@.take(store.webauthn_keys@.len() as int)
                =~= store.webauthn_keys@);
        }
        r
    }

    /// The user's device rows.
    #[verifier::loop_isolation(false)]
    pub fn devices(&self, store: &UserStore) -> (r: Vec<Device>)
        ensures
            self.id matches Some(uid) ==> r@ == devices_of(store.devices@, uid),
            self.id is None ==> r@.len() == 0,
    {
        let mut r: Vec<Device> = Vec::new();
        let uid = match self.id {
            Some(uid) => uid,
            None => {
                return r;
            },
        };
        let mut i: usize = 0;
        while i < store.devices.len()
            invariant
                0 <= i as int <= store.devices@.len(),
                r@ =~= devices_of(store.devices@.take(i as int), uid),
            decreases store.devices@.len() - i as int,
        {
            proof {
                assert(store.devices@.take(i as int + 1).drop_last() =~= store.devices@.take(
                    i as int,
                ));
                assert(store.devices@.take(i as int + 1).last() == store.devices@[i as int]);
            }
            if store.devices[i].user_id == uid {
                let d = &store.devices[i];
                r.push(
                    Device {
                        id: d.id,
                        name: d.name.clone(),
                        wireguard_ip: d.wireguard_ip.clone(),
                        wireguard_pubkey: d.wireguard_pubkey.clone(),
                        user_id: d.user_id,
                        created: d.created,
                    },
                );
            }
            i += 1;
        }
        proof {
            assert(store.devices@.take(store.devices@.len() as int) =~= store.devices@);
        }
        r
    }

    /// Record membership of the group; doing so twice changes nothing.
    #[verifier::loop_isolation(false)]
    pub fn add_to_group(&self, store: &mut UserStore, group: &Group)
        ensures
            final(store).users == old(store).users,
            final(store).wallets == old(store).wallets,
            final(store).webauthn_keys == old(store).webauthn_keys,
            final(store).devices == old(store).devices,
            final(store).groups == old(store).groups,
            final(store).next_user_id == old(store).next_user_id,
            self.id is None ==> final(store).memberships == old(store).memberships,
            self.id matches Some(uid) ==> final(store).memberships@ == if spec_is_member(
                old(store).memberships@,
                group.id,
                Some(uid),
            ) {
                old(store).memberships@
            } else {
                old(store).memberships@.push((group.id, uid))
            },
    {
        let uid = match self.id {
            Some(uid) => uid,
            None => {
                return ;
            },
        };
        if !member_pair(store, group.id, uid) {
            store.memberships.push((group.id, uid));
        }
    }

    /// Drop every membership row pairing this user with the group.
    #[verifier::loop_isolation(false)]
    pub fn remove_from_group(&self, store: &mut UserStore, group: &Group)
        ensures
            final(store).users == old(store).users,
            final(store).wallets == old(store).wallets,
            final(store).webauthn_keys == old(store).webauthn_keys,
            final(store).devices == old(store).devices,
            final(store).groups == old(store).groups,
            final(store).next_user_id == old(store).next_user_id,
            self.id is None ==> final(store).memberships == old(store).memberships,
            self.id matches Some(uid) ==> final(store).memberships@ == without_pair(
                old(store).memberships@,
                group.id,
                uid,
            ),
    {
        let uid = match self.id {
            Some(uid) => uid,
            None => {
                return ;
            },
        };
        let gid = group.id;
        let ghost orig = store.memberships@;
        let mut i: usize = 0;
        let ghost mut j: int = 0;
        while i < store.memberships.len()
            invariant
                0 <= j <= orig.len(),
                i as int == without_pair(orig.take(j), gid, uid).len(),
                store.memberships@ == without_pair(orig.take(j), gid, uid) + orig.skip(j),
                store.users == old(store).users,
                store.wallets == old(store).wallets,
                store.webauthn_keys == old(store).webauthn_keys,
                store.devices == old(store).devices,
                store.groups == old(store).groups,
                store.next_user_id == old(store).next_user_id,
            decreases orig.len() - j,
        {
            proof {
                assert(orig.skip(j).len() > 0);
                assert(store.memberships@[i as int] == orig.skip(j)[0]);
                assert(orig.skip(j)[0] == orig[j]);
                assert(orig.take(j + 1).drop_last() =~= orig.take(j));
                assert(orig.take(j + 1).last() == orig[j]);
            }
            let m = store.memberships[i];
            if m.0 == gid && m.1 == uid {
                store.memberships.remove(i);
                proof {
                    assert(store.memberships@ =~= without_pair(orig.take(j + 1), gid, uid)
                        + orig.skip(j + 1));
                    j = j + 1;
                }
            } else {
                i += 1;
                proof {
                    assert(store.memberships@ =~= without_pair(orig.take(j + 1), gid, uid)
                        + orig.skip(j + 1));
                    j = j + 1;
                }
            }
        }
        proof {
            assert(orig.skip(j).len() == 0);
            assert(j == orig.len());
            assert(orig.take(j) =~= orig);
            assert(store.memberships@ =~= without_pair(orig, gid, uid));
        }
    }
}

/// The membership table without the rows pairing this group and user.
pub open spec fn without_pair(memberships: Seq<(i64, i64)>, group_id: i64, user_id: i64) -> Seq<
    (i64, i64),
>
    decreases memberships.len(),
{
    if memberships.len() == 0 {
        Seq::empty()
    } else {
        let rest = without_pair(memberships.drop_last(), group_id, user_id);
        if memberships.last() == (group_id, user_id) {
            rest
        } else {
            rest.push(memberships.last())
        }
    }
}

/// Whether a membership row pairs this group and user.
#[verifier::loop_isolation(false)]
fn member_pair(store: &UserStore, group_id: i64, user_id: i64) -> (r: bool)
    ensures
        r == spec_is_member(store.memberships@, group_id, Some(user_id)),
{
    let mut i: usize = 0;
    while i < store.memberships.len()
        invariant
            0 <= i as int <= store.memberships@.len(),
            forall|j: int|
                0 <= j < i as int ==> #[trigger] store.memberships@[j] != (group_id, user_id),
        decreases store.memberships@.len() - i as int,
    {
        let m = store.memberships[i];
        if m.0 == group_id && m.1 == user_id {
            return true;
        }
        i += 1;
    }
    false
}

/// Law: a consumed recovery code never verifies again. When the codes
/// are pairwise distinct — duplicates in a freshly generated random set
/// are possible in principle, so distinctness is assumed here — removing
/// the matching code leaves no code that reads the same, and a later
/// check of the same code is negative.
pub proof fn lemma_consumed_code_stays_consumed(codes: Seq<String>, i: int, x: Seq<char>)
    requires
        unique_code_views(codes),
        0 <= i < codes.len(),
        codes[i]@ == x,
    ensures
        !contains_code(codes.remove(i), x),
{
    let rest = codes.remove(i);
    assert forall|k: int| 0 <= k < rest.len() implies (#[trigger] rest[k])@ != x by {
        if k < i {
            assert(rest[k] == codes[k]);
        } else {
            assert(rest[k] == codes[k + 1]);
        }
    }
}

/// Law: the password round trip. A hash freshly computed from a password
/// — as `set_password` and `User::new` store it — verifies against that
/// same password.
pub proof fn lemma_password_round_trip(u: User, password: Seq<char>)
    requires
        u.password_hash matches Some(h) && parses_as_hash(h@) && password_matches(h@, password),
    ensures
        u.spec_verify_password(password) == Ok::<(), PasswordError>(()),
{
}

} // verus!
