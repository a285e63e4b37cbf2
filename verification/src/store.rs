//! The relational store, modelled in memory.
//!
//! Every mutating engine operation runs against this store inside one
//! logical action; the sequential semantics here stands for the
//! serialization that the real store's transactions provide. Rows are
//! plain values; the accessor methods carry the exact row-level effect of
//! the statements they stand for.

use crate::user::{same_opt_bytes, User};
use vstd::prelude::*;

verus! {

/// A wallet row; `validated` stands for a non-null validation timestamp.
pub struct Wallet {
    pub user_id: i64,
    pub address: String,
    pub name: String,
    pub chain_id: i64,
    pub use_for_mfa: bool,
    pub validated: bool,
}

/// Projection of a validated wallet handed to callers.
pub struct WalletInfo {
    pub address: String,
    pub name: String,
    pub chain_id: i64,
    pub use_for_mfa: bool,
}

/// A registered WebAuthn credential row.
pub struct WebAuthnKey {
    pub id: i64,
    pub user_id: i64,
    pub name: String,
}

/// Projection of a WebAuthn credential handed to callers.
pub struct SecurityKey {
    pub id: i64,
    pub name: String,
}

/// A WireGuard device row.
pub struct Device {
    pub id: i64,
    pub name: String,
    pub wireguard_ip: String,
    pub wireguard_pubkey: String,
    pub user_id: i64,
    pub created: i64,
}

pub struct Group {
    pub id: i64,
    pub name: String,
}

/// The user-facing tables: user rows, the external-factor collaborators
/// (wallets, WebAuthn credentials), devices, groups and memberships.
pub struct UserStore {
    pub users: Vec<User>,
    pub wallets: Vec<Wallet>,
    pub webauthn_keys: Vec<WebAuthnKey>,
    pub devices: Vec<Device>,
    pub groups: Vec<Group>,
    /// Membership rows, each a pair of group id and user id.
    pub memberships: Vec<(i64, i64)>,
    /// The next value of the user-id sequence.
    pub next_user_id: i64,
}

/// Some wallet of this user is flagged for use as a second factor.
pub open spec fn has_wallet_mfa(wallets: Seq<Wallet>, user_id: i64) -> bool {
    exists|i: int|
        0 <= i < wallets.len() && (#[trigger] wallets[i]).user_id == user_id
            && wallets[i].use_for_mfa
}

/// Some WebAuthn credential is registered for this user.
pub open spec fn has_security_key(keys: Seq<WebAuthnKey>, user_id: i64) -> bool {
    exists|i: int| 0 <= i < keys.len() && (#[trigger] keys[i]).user_id == user_id
}

/// The wallet row after the MFA flag of `user_id`'s wallets is dropped.
pub open spec fn wallet_without_mfa(w: Wallet, user_id: i64) -> Wallet {
    if w.user_id == user_id {
        Wallet { use_for_mfa: false, ..w }
    } else {
        w
    }
}

/// The WebAuthn table without the rows of `user_id`.
pub open spec fn without_webauthn_of(keys: Seq<WebAuthnKey>, user_id: i64) -> Seq<WebAuthnKey>
    decreases keys.len(),
{
    if keys.len() == 0 {
        Seq::empty()
    } else {
        let rest = without_webauthn_of(keys.drop_last(), user_id);
        if keys.last().user_id == user_id {
            rest
        } else {
            rest.push(keys.last())
        }
    }
}

/// After deleting the rows of `user_id`, none remain, and rows of other
/// users are exactly the ones that were there.
pub proof fn lemma_without_webauthn_of(keys: Seq<WebAuthnKey>, user_id: i64)
    ensures
        !has_security_key(without_webauthn_of(keys, user_id), user_id),
        forall|x: WebAuthnKey| #[trigger]
            without_webauthn_of(keys, user_id).contains(x) <==> keys.contains(x) && x.user_id
                != user_id,
    decreases keys.len(),
{
    let out = without_webauthn_of(keys, user_id);
    if keys.len() == 0 {
    } else {
        let prefix = keys.drop_last();
        lemma_without_webauthn_of(prefix, user_id);
        let sub = without_webauthn_of(prefix, user_id);
        assert forall|x: WebAuthnKey| #[trigger] out.contains(x) implies keys.contains(x)
            && x.user_id != user_id by {
            if sub.contains(x) {
                let i = choose|i: int| 0 <= i < prefix.len() && prefix[i] == x;
                assert(keys[i] == x);
            } else {
                assert(x == keys.last());
                assert(keys[keys.len() - 1] == x);
            }
        }
        assert forall|x: WebAuthnKey| keys.contains(x) && x.user_id != user_id implies #[trigger]
            out.contains(x) by {
            let i = choose|i: int| 0 <= i < keys.len() && keys[i] == x;
            if i < keys.len() - 1 {
                assert(prefix[i] == x);
                assert(sub.contains(x));
                if keys.last().user_id == user_id {
                } else {
                    let j = choose|j: int| 0 <= j < sub.len() && sub[j] == x;
                    assert(out[j] == x);
                }
            } else {
                assert(x == keys.last());
                assert(out[out.len() - 1] == x);
            }
        }
        assert forall|i: int| 0 <= i < out.len() implies (#[trigger] out[i]).user_id
            != user_id by {
            assert(out.contains(out[i]));
        }
    }
}

/// The row `a` is `b` with the authentication-secret columns replaced by
/// those of `u`: identity and profile columns keep their values, the
/// secret columns carry what `u` holds.
pub open spec fn security_written(a: User, b: User, u: User) -> bool {
    &&& a.id == b.id
    &&& a.username == b.username
    &&& a.last_name == b.last_name
    &&& a.first_name == b.first_name
    &&& a.email == b.email
    &&& a.phone == b.phone
    &&& a.ssh_key == b.ssh_key
    &&& a.pgp_key == b.pgp_key
    &&& a.pgp_cert_id == b.pgp_cert_id
    &&& a.password_hash == u.password_hash
    &&& a.totp_enabled == u.totp_enabled
    &&& same_opt_bytes(a.totp_secret, u.totp_secret)
    &&& a.mfa_method == u.mfa_method
    &&& a.recovery_codes@ == u.recovery_codes@
}

/// Every row of `user_id` had its secret columns replaced by those of
/// `u`; every other row kept its value.
pub open spec fn rows_written(
    new_users: Seq<User>,
    old_users: Seq<User>,
    user_id: i64,
    u: User,
) -> bool {
    &&& new_users.len() == old_users.len()
    &&& forall|j: int|
        0 <= j < new_users.len() ==> if old_users[j].id == Some(user_id) {
            security_written(#[trigger] new_users[j], old_users[j], u)
        } else {
            new_users[j] == old_users[j]
        }
}

/// Some user row carries this id.
pub open spec fn has_user_with_id(users: Seq<User>, id: i64) -> bool {
    exists|j: int| 0 <= j < users.len() && (#[trigger] users[j]).id == Some(id)
}

/// Some user row carries this username.
pub open spec fn has_user_with_name(users: Seq<User>, name: Seq<char>) -> bool {
    exists|j: int| 0 <= j < users.len() && (#[trigger] users[j]).username@ == name
}

/// The non-user tables and the id sequence agree.
pub open spec fn same_collaborator_tables(a: UserStore, b: UserStore) -> bool {
    &&& a.wallets == b.wallets
    &&& a.webauthn_keys == b.webauthn_keys
    &&& a.devices == b.devices
    &&& a.groups == b.groups
    &&& a.memberships == b.memberships
    &&& a.next_user_id == b.next_user_id
}

impl UserStore {
    /// Usernames and assigned ids are unique across user rows, and so
    /// are group ids and names.
    pub open spec fn wf(&self) -> bool {
        &&& forall|i: int, j: int|
            0 <= i < j < self.users@.len() ==> (#[trigger] self.users@[i]).username@ != (
            #[trigger] self.users@[j]).username@
        &&& forall|i: int, j: int|
            0 <= i < j < self.users@.len() ==> ((#[trigger] self.users@[i]).id is Some && (
            #[trigger] self.users@[j]).id is Some ==> self.users@[i].id != self.users@[j].id)
        &&& forall|i: int, j: int|
            0 <= i < j < self.groups@.len() ==> (#[trigger] self.groups@[i]).id != (
            #[trigger] self.groups@[j]).id && self.groups@[i].name@ != self.groups@[j].name@
    }

    /// An empty store; the id sequence starts at one.
    pub fn new() -> (r: Self)
        ensures
            r.users@.len() == 0,
            r.wallets@.len() == 0,
            r.webauthn_keys@.len() == 0,
            r.devices@.len() == 0,
            r.groups@.len() == 0,
            r.memberships@.len() == 0,
            r.next_user_id == 1,
    {
        UserStore {
            users: Vec::new(),
            wallets: Vec::new(),
            webauthn_keys: Vec::new(),
            devices: Vec::new(),
            groups: Vec::new(),
            memberships: Vec::new(),
            next_user_id: 1,
        }
    }

    /// Drop the MFA flag of every wallet of `user_id`; wallets of other
    /// users and the other tables stay untouched.
    #[verifier::loop_isolation(false)]
    pub fn disable_wallet_mfa_for_user(&mut self, user_id: i64)
        ensures
            final(self).wallets@.len() == old(self).wallets@.len(),
            forall|j: int|
                0 <= j < final(self).wallets@.len() ==> final(self).wallets@[j]
                    == wallet_without_mfa(old(self).wallets@[j], user_id),
            !has_wallet_mfa(final(self).wallets@, user_id),
            final(self).users == old(self).users,
            final(self).webauthn_keys == old(self).webauthn_keys,
            final(self).devices == old(self).devices,
            final(self).groups == old(self).groups,
            final(self).memberships == old(self).memberships,
            final(self).next_user_id == old(self).next_user_id,
    {
        let mut i: usize = 0;
        while i < self.wallets.len()
            invariant
                0 <= i as int <= self.wallets@.len(),
                self.wallets@.len() == old(self).wallets@.len(),
                forall|j: int|
                    0 <= j < i as int ==> self.wallets@[j] == wallet_without_mfa(
                        old(self).wallets@[j],
                        user_id,
                    ),
                forall|j: int|
                    i as int <= j < self.wallets@.len() ==> self.wallets@[j] == old(
                        self,
                    ).wallets@[j],
                self.users == old(self).users,
                self.webauthn_keys == old(self).webauthn_keys,
                self.devices == old(self).devices,
                self.groups == old(self).groups,
                self.memberships == old(self).memberships,
                self.next_user_id == old(self).next_user_id,
            decreases self.wallets@.len() - i as int,
        {
            if self.wallets[i].user_id == user_id {
                self.wallets[i].use_for_mfa = false;
            }
            i += 1;
        }
    }

    /// Delete every WebAuthn credential row of `user_id`; everything else
    /// stays untouched.
    #[verifier::loop_isolation(false)]
    pub fn delete_webauthn_for_user(&mut self, user_id: i64)
        ensures
            final(self).webauthn_keys@ == without_webauthn_of(old(self).webauthn_keys@, user_id),
            !has_security_key(final(self).webauthn_keys@, user_id),
            final(self).users == old(self).users,
            final(self).wallets == old(self).wallets,
            final(self).devices == old(self).devices,
            final(self).groups == old(self).groups,
            final(self).memberships == old(self).memberships,
            final(self).next_user_id == old(self).next_user_id,
    {
        let ghost orig = self.webauthn_keys@;
        let mut i: usize = 0;
        let ghost mut j: int = 0;
        while i < self.webauthn_keys.len()
            invariant
                0 <= j <= orig.len(),
                i as int == without_webauthn_of(orig.take(j), user_id).len(),
                self.webauthn_keys@ == without_webauthn_of(orig.take(j), user_id) + orig.skip(j),
                self.users == old(self).users,
                self.wallets == old(self).wallets,
                self.devices == old(self).devices,
                self.groups == old(self).groups,
                self.memberships == old(self).memberships,
                self.next_user_id == old(self).next_user_id,
            decreases orig.len() - j,
        {
            proof {
                assert(orig.skip(j).len() > 0);
                assert(self.webauthn_keys@[i as int] == orig.skip(j)[0]);
                assert(orig.skip(j)[0] == orig[j]);
                assert(orig.take(j + 1).drop_last() =~= orig.take(j));
                assert(orig.take(j + 1).last() == orig[j]);
            }
            if self.webauthn_keys[i].user_id == user_id {
                self.webauthn_keys.remove(i);
                proof {
                    assert(self.webauthn_keys@ =~= without_webauthn_of(orig.take(j + 1), user_id)
                        + orig.skip(j + 1));
                    j = j + 1;
                }
            } else {
                i += 1;
                proof {
                    assert(self.webauthn_keys@ =~= without_webauthn_of(orig.take(j + 1), user_id)
                        + orig.skip(j + 1));
                    j = j + 1;
                }
            }
        }
        proof {
            assert(orig.skip(j).len() == 0);
            assert(j == orig.len());
            assert(orig.take(j) =~= orig);
            assert(self.webauthn_keys@ =~= without_webauthn_of(orig, user_id));
            lemma_without_webauthn_of(orig, user_id);
        }
    }

    /// Whether some wallet of this user is flagged for MFA use.
    #[verifier::loop_isolation(false)]
    pub fn any_wallet_mfa(&self, user_id: i64) -> (r: bool)
        ensures
            r == has_wallet_mfa(self.wallets@, user_id),
    {
        let mut i: usize = 0;
        while i < self.wallets.len()
            invariant
                0 <= i as int <= self.wallets@.len(),
                forall|j: int|
                    0 <= j < i as int ==> !((#[trigger] self.wallets@[j]).user_id == user_id
                        && self.wallets@[j].use_for_mfa),
            decreases self.wallets@.len() - i as int,
        {
            if self.wallets[i].user_id == user_id && self.wallets[i].use_for_mfa {
                return true;
            }
            i += 1;
        }
        false
    }

    /// Whether some WebAuthn credential is registered for this user.
    #[verifier::loop_isolation(false)]
    pub fn any_security_key(&self, user_id: i64) -> (r: bool)
        ensures
            r == has_security_key(self.webauthn_keys@, user_id),
    {
        let mut i: usize = 0;
        while i < self.webauthn_keys.len()
            invariant
                0 <= i as int <= self.webauthn_keys@.len(),
                forall|j: int|
                    0 <= j < i as int ==> (#[trigger] self.webauthn_keys@[j]).user_id != user_id,
            decreases self.webauthn_keys@.len() - i as int,
        {
            if self.webauthn_keys[i].user_id == user_id {
                return true;
            }
            i += 1;
        }
        false
    }

    /// Write the authentication-secret columns of `u` into every user row
    /// of `user_id`; identity columns and the other tables stay as they
    /// were. This is the store accessor's whole write path for secrets.
    #[verifier::loop_isolation(false)]
    pub fn write_security_columns(&mut self, user_id: i64, u: &User)
        ensures
            rows_written(final(self).users@, old(self).users@, user_id, *u),
            same_collaborator_tables(*final(self), *old(self)),
    {
        let mut i: usize = 0;
        while i < self.users.len()
            invariant
                0 <= i as int <= self.users@.len(),
                self.users@.len() == old(self).users@.len(),
                forall|j: int|
                    0 <= j < i as int ==> if old(self).users@[j].id == Some(user_id) {
                        security_written(#[trigger] self.users@[j], old(self).users@[j], *u)
                    } else {
                        self.users@[j] == old(self).users@[j]
                    },
                forall|j: int|
                    i as int <= j < self.users@.len() ==> self.users@[j] == old(self).users@[j],
                same_collaborator_tables(*self, *old(self)),
            decreases self.users@.len() - i as int,
        {
            let id_matches = match self.users[i].id {
                Some(x) => x == user_id,
                None => false,
            };
            if id_matches {
                self.users[i].password_hash = crate::user::clone_opt_string(&u.password_hash);
                self.users[i].totp_enabled = u.totp_enabled;
                self.users[i].totp_secret = crate::user::clone_opt_bytes(&u.totp_secret);
                self.users[i].mfa_method = u.mfa_method;
                self.users[i].recovery_codes = crate::user::clone_string_vec(&u.recovery_codes);
            }
            i += 1;
        }
    }
}

} // verus!
