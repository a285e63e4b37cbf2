//! OpenID provider configuration rows: at most one provider is current;
//! an upsert updates the current row in place or inserts the first one.

use crate::user::clone_opt_string;
use vstd::prelude::*;

verus! {

/// An external OpenID provider configuration.
pub struct OpenIdProvider {
    /// Absent until the row is persisted.
    pub id: Option<i64>,
    pub name: String,
    pub base_url: String,
    pub client_id: String,
    pub client_secret: String,
    pub display_name: Option<String>,
}

/// The provider table.
pub struct ProviderStore {
    pub providers: Vec<OpenIdProvider>,
    /// The next value of the provider-id sequence.
    pub next_id: i64,
}

/// Some provider row carries this name.
pub open spec fn has_provider_named(rows: Seq<OpenIdProvider>, name: Seq<char>) -> bool {
    exists|i: int| 0 <= i < rows.len() && (#[trigger] rows[i]).name@ == name
}

impl OpenIdProvider {
    /// A fresh, not-yet-persisted configuration.
    #[must_use]
    pub fn new(
        name: String,
        base_url: String,
        client_id: String,
        client_secret: String,
        display_name: Option<String>,
    ) -> (r: Self)
        ensures
            r.id is None,
            r.name == name,
            r.base_url == base_url,
            r.client_id == client_id,
            r.client_secret == client_secret,
            r.display_name == display_name,
    {
        OpenIdProvider { id: None, name, base_url, client_id, client_secret, display_name }
    }

    /// A copy of the row.
    pub fn duplicate(&self) -> (r: Self)
        ensures
            r == *self,
    {
        OpenIdProvider {
            id: self.id,
            name: self.name.clone(),
            base_url: self.base_url.clone(),
            client_id: self.client_id.clone(),
            client_secret: self.client_secret.clone(),
            display_name: clone_opt_string(&self.display_name),
        }
    }

    /// Make `self` the current provider: when a current row exists, its
    /// configuration is overwritten in place and the previous current
    /// row — as it stood, with its id — is returned; otherwise `self`
    /// is inserted with a fresh id and returned.
    pub fn upsert(self, store: &mut ProviderStore) -> (r: OpenIdProvider)
        requires
            old(store).next_id < i64::MAX,
        ensures
            final(store).next_id >= old(store).next_id,
            old(store).providers@.len() > 0 ==> ({
                let cur = old(store).providers@[0];
                &&& r == cur
                &&& final(store).providers@ == old(store).providers@.update(
                    0,
                    OpenIdProvider {
                        id: cur.id,
                        name: self.name,
                        base_url: self.base_url,
                        client_id: self.client_id,
                        client_secret: self.client_secret,
                        display_name: self.display_name,
                    },
                )
                &&& final(store).next_id == old(store).next_id
            }),
            old(store).providers@.len() == 0 ==> ({
                &&& r == (OpenIdProvider { id: Some(old(store).next_id), ..self })
                &&& final(store).providers@.len() == 1
                &&& final(store).providers@[0] == (OpenIdProvider {
                    id: Some(old(store).next_id),
                    ..self
                })
                &&& final(store).next_id == old(store).next_id + 1
            }),
    {
        if store.providers.len() > 0 {
            let previous = store.providers[0].duplicate();
            let keep_id = previous.id;
            store.providers[0] = OpenIdProvider {
                id: keep_id,
                name: self.name,
                base_url: self.base_url,
                client_id: self.client_id,
                client_secret: self.client_secret,
                display_name: self.display_name,
            };
            previous
        } else {
            let id = store.next_id;
            let row = OpenIdProvider { id: Some(id), ..self };
            let out = row.duplicate();
            store.providers.push(row);
            store.next_id = id + 1;
            out
        }
    }

    /// Look a provider up by name.
    #[verifier::loop_isolation(false)]
    pub fn find_by_name(store: &ProviderStore, name: &str) -> (r: Option<OpenIdProvider>)
        ensures
            r is Some <==> has_provider_named(store.providers@, name@),
            r matches Some(p) ==> exists|i: int|
                0 <= i < store.providers@.len() && (#[trigger] store.providers@[i]).name@ == name@
                    && p == store.providers@[i],
    {
        let needle = name.to_owned();
        let mut i: usize = 0;
        while i < store.providers.len()
            invariant
                0 <= i as int <= store.providers@.len(),
                needle@ == name@,
                forall|j: int| 0 <= j < i as int ==> (#[trigger] store.providers@[j]).name@ != name@,
            decreases store.providers@.len() - i as int,
        {
            if store.providers[i].name == needle {
                return Some(store.providers[i].duplicate());
            }
            i += 1;
        }
        None
    }

    /// The current provider: the first row, if any.
    pub fn get_current(store: &ProviderStore) -> (r: Option<OpenIdProvider>)
        ensures
            r is Some <==> store.providers@.len() > 0,
            r matches Some(p) ==> p == store.providers@[0],
    {
        if store.providers.len() > 0 {
            Some(store.providers[0].duplicate())
        } else {
            None
        }
    }
}

} // verus!
