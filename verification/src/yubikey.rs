//! YubiKey management: deleting and renaming provisioned hardware
//! tokens, guarded by the admin-or-owner rule.

use crate::keys::{has_yubikey_with_id, yubikey_index, KeyStore, YubiKey};
use crate::ssh_keys::WebError;
use vstd::prelude::*;

verus! {

/// Payload for renaming a YubiKey.
pub struct RenameRequest {
    pub name: String,
}

impl YubiKey {
    /// A copy of the row.
    pub fn duplicate(&self) -> (r: Self)
        ensures
            r == *self,
    {
        YubiKey {
            id: self.id,
            user_id: self.user_id,
            name: self.name.clone(),
            serial: self.serial.clone(),
        }
    }
}

/// Delete a YubiKey by id: only an admin, or the owner acting on their
/// own account, may delete it.
#[verifier::loop_isolation(false)]
pub fn delete_yubikey(
    store: &mut KeyStore,
    is_admin: bool,
    acting_user_id: i64,
    key_id: i64,
) -> (r: Result<(), WebError>)
    requires
        old(store).wf(),
    ensures
        final(store).wf(),
        !has_yubikey_with_id(old(store).yubikeys@, key_id) ==> (r matches Err(e) && e matches
            WebError::ObjectNotFound(m) && m@ == "YubiKey not found"@) && *final(store) == *old(
            store,
        ),
        has_yubikey_with_id(old(store).yubikeys@, key_id) ==> ({
            let idx = yubikey_index(old(store).yubikeys@, key_id);
            let yk = old(store).yubikeys@[idx];
            &&& (!is_admin && yk.user_id != acting_user_id) ==> (r matches Err(e)
                && e is Forbidden) && *final(store) == *old(store)
            &&& (is_admin || yk.user_id == acting_user_id) ==> (r matches Ok(_))
                && final(store).yubikeys@ == old(store).yubikeys@.remove(idx)
                && final(store).keys == old(store).keys
                && final(store).next_key_id == old(store).next_key_id
        }),
{
    let mut i: usize = 0;
    while i < store.yubikeys.len()
        invariant
            0 <= i as int <= store.yubikeys@.len(),
            forall|j: int| 0 <= j < i as int ==> (#[trigger] store.yubikeys@[j]).id != key_id,
            *store == *old(store),
        decreases store.yubikeys@.len() - i as int,
    {
        if store.yubikeys[i].id == key_id {
            proof {
                let k = yubikey_index(store.yubikeys@, key_id);
                assert(store.yubikeys@[i as int].id == key_id);
                assert(0 <= k < store.yubikeys@.len() && store.yubikeys@[k].id == key_id);
                if k != i as int {
                    assert(store.yubikeys@[k].id != store.yubikeys@[i as int].id);
                }
            }
            if !is_admin && store.yubikeys[i].user_id != acting_user_id {
                return Err(WebError::Forbidden("Not allowed to delete YubiKey".to_owned()));
            }
            store.yubikeys.remove(i);
            return Ok(());
        }
        i += 1;
    }
    Err(WebError::ObjectNotFound("YubiKey not found".to_owned()))
}

/// Rename a YubiKey by id under the admin-or-owner rule; the renamed
/// row is returned.
#[verifier::loop_isolation(false)]
pub fn rename_yubikey(
    store: &mut KeyStore,
    is_admin: bool,
    acting_user_id: i64,
    key_id: i64,
    data: RenameRequest,
) -> (r: Result<YubiKey, WebError>)
    requires
        old(store).wf(),
    ensures
        final(store).wf(),
        !has_yubikey_with_id(old(store).yubikeys@, key_id) ==> (r matches Err(e)
            && e is ObjectNotFound) && *final(store) == *old(store),
        has_yubikey_with_id(old(store).yubikeys@, key_id) ==> ({
            let idx = yubikey_index(old(store).yubikeys@, key_id);
            let yk = old(store).yubikeys@[idx];
            &&& (!is_admin && yk.user_id != acting_user_id) ==> (r matches Err(e)
                && e is Forbidden) && *final(store) == *old(store)
            &&& (is_admin || yk.user_id == acting_user_id) ==> (r matches Ok(out) && out
                == (YubiKey { name: data.name, ..yk }))
                && final(store).yubikeys@ == old(store).yubikeys@.update(
                idx,
                YubiKey { name: data.name, ..yk },
            ) && final(store).keys == old(store).keys && final(store).next_key_id == old(
                store,
            ).next_key_id
        }),
{
    let mut i: usize = 0;
    while i < store.yubikeys.len()
        invariant
            0 <= i as int <= store.yubikeys@.len(),
            forall|j: int| 0 <= j < i as int ==> (#[trigger] store.yubikeys@[j]).id != key_id,
            *store == *old(store),
        decreases store.yubikeys@.len() - i as int,
    {
        if store.yubikeys[i].id == key_id {
            proof {
                let k = yubikey_index(store.yubikeys@, key_id);
                assert(store.yubikeys@[i as int].id == key_id);
                assert(0 <= k < store.yubikeys@.len() && store.yubikeys@[k].id == key_id);
                if k != i as int {
                    assert(store.yubikeys@[k].id != store.yubikeys@[i as int].id);
                }
            }
            if !is_admin && store.yubikeys[i].user_id != acting_user_id {
                return Err(WebError::Forbidden(String::new()));
            }
            store.yubikeys[i].name = data.name;
            proof {
                assert forall|a: int, b: int| 0 <= a < b < store.yubikeys@.len() implies (
                #[trigger] store.yubikeys@[a]).id != (#[trigger] store.yubikeys@[b]).id by {
                    assert(store.yubikeys@[a].id == old(store).yubikeys@[a].id);
                    assert(store.yubikeys@[b].id == old(store).yubikeys@[b].id);
                }
            }
            return Ok(store.yubikeys[i].duplicate());
        }
        i += 1;
    }
    Err(WebError::ObjectNotFound(String::new()))
}

} // verus!
