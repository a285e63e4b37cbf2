//! Authentication keys (SSH and GPG public keys) and YubiKeys: the rows
//! and the table they live in.

use vstd::prelude::*;

verus! {

#[derive(Clone, Copy, Debug, PartialEq, Eq, Structural)]
pub enum AuthenticationKeyType {
    Ssh,
    Gpg,
}

/// A stored public key; `yubikey_id` links keys that were provisioned
/// onto a hardware token.
pub struct AuthenticationKey {
    pub id: i64,
    pub user_id: i64,
    pub key: String,
    pub name: Option<String>,
    pub key_type: AuthenticationKeyType,
    pub yubikey_id: Option<i64>,
}

/// A provisioned hardware token.
pub struct YubiKey {
    pub id: i64,
    pub user_id: i64,
    pub name: String,
    pub serial: String,
}

/// The authentication-key and YubiKey tables.
pub struct KeyStore {
    pub keys: Vec<AuthenticationKey>,
    pub yubikeys: Vec<YubiKey>,
    /// The next value of the key-id sequence.
    pub next_key_id: i64,
}

/// Some key row carries this id.
pub open spec fn has_key_with_id(keys: Seq<AuthenticationKey>, id: i64) -> bool {
    exists|i: int| 0 <= i < keys.len() && (#[trigger] keys[i]).id == id
}

/// The position of the key row carrying this id.
pub open spec fn key_index(keys: Seq<AuthenticationKey>, id: i64) -> int {
    choose|i: int| 0 <= i < keys.len() && (#[trigger] keys[i]).id == id
}

/// Some yubikey row carries this id.
pub open spec fn has_yubikey_with_id(yks: Seq<YubiKey>, id: i64) -> bool {
    exists|i: int| 0 <= i < yks.len() && (#[trigger] yks[i]).id == id
}

/// The position of the yubikey row carrying this id.
pub open spec fn yubikey_index(yks: Seq<YubiKey>, id: i64) -> int {
    choose|i: int| 0 <= i < yks.len() && (#[trigger] yks[i]).id == id
}

/// This user already stores this key material.
pub open spec fn has_user_key(keys: Seq<AuthenticationKey>, user_id: i64, key: Seq<char>) -> bool {
    exists|i: int|
        0 <= i < keys.len() && (#[trigger] keys[i]).user_id == user_id && keys[i].key@ == key
}

impl KeyStore {
    /// Ids are primary keys: pairwise distinct, and key ids stay below
    /// the id sequence.
    pub open spec fn wf(&self) -> bool {
        &&& forall|i: int, j: int|
            0 <= i < j < self.keys@.len() ==> (#[trigger] self.keys@[i]).id != (
            #[trigger] self.keys@[j]).id
        &&& forall|i: int| 0 <= i < self.keys@.len() ==> (#[trigger] self.keys@[i]).id < self.next_key_id
        &&& forall|i: int, j: int|
            0 <= i < j < self.yubikeys@.len() ==> (#[trigger] self.yubikeys@[i]).id != (
            #[trigger] self.yubikeys@[j]).id
    }

    /// An empty table; the id sequence starts at one.
    pub fn new() -> (r: Self)
        ensures
            r.keys@.len() == 0,
            r.yubikeys@.len() == 0,
            r.next_key_id == 1,
            r.wf(),
    {
        KeyStore { keys: Vec::new(), yubikeys: Vec::new(), next_key_id: 1 }
    }

    /// Insert a new key row with a fresh id, and return that id.
    pub fn insert_key(
        &mut self,
        user_id: i64,
        key: String,
        name: Option<String>,
        key_type: AuthenticationKeyType,
        yubikey_id: Option<i64>,
    ) -> (r: i64)
        requires
            old(self).wf(),
            old(self).next_key_id < i64::MAX,
        ensures
            final(self).wf(),
            r == old(self).next_key_id,
            final(self).keys@ == old(self).keys@.push(
                AuthenticationKey {
                    id: old(self).next_key_id,
                    user_id,
                    key,
                    name,
                    key_type,
                    yubikey_id,
                },
            ),
            final(self).yubikeys == old(self).yubikeys,
            final(self).next_key_id == old(self).next_key_id + 1,
    {
        let id = self.next_key_id;
        self.keys.push(AuthenticationKey { id, user_id, key, name, key_type, yubikey_id });
        self.next_key_id = id + 1;
        id
    }

    /// Whether this user already stores this key material.
    #[verifier::loop_isolation(false)]
    pub fn has_key_for_user(&self, user_id: i64, key: &str) -> (r: bool)
        ensures
            r == has_user_key(self.keys@, user_id, key@),
    {
        let needle = key.to_owned();
        let mut i: usize = 0;
        while i < self.keys.len()
            invariant
                0 <= i as int <= self.keys@.len(),
                needle@ == key@,
                forall|j: int|
                    0 <= j < i as int ==> !((#[trigger] self.keys@[j]).user_id == user_id
                        && self.keys@[j].key@ == key@),
            decreases self.keys@.len() - i as int,
        {
            if self.keys[i].user_id == user_id && self.keys[i].key == needle {
                return true;
            }
            i += 1;
        }
        false
    }
}

} // verus!
