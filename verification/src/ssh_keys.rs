//! Authentication-key management: listing a user's keys joined with
//! their YubiKey provenance, the `sshd AuthorizedKeysCommand` feed, and
//! adding, deleting and renaming keys.

use crate::keys::{
    has_key_with_id, has_user_key, has_yubikey_with_id, key_index, yubikey_index,
    AuthenticationKey, AuthenticationKeyType, KeyStore,
};
use crate::store::{Group, UserStore};
use crate::text::{concat, trim_crlf, trim_crlf_seq};
use crate::user::{clone_opt_string, same_user, User};
use vstd::prelude::*;

verus! {

/// Whether the string parses as an OpenSSH public key. Names the outcome
/// of ssh_key's `PublicKey` parser, a function of the string alone.
pub uninterp spec fn ssh_parses(s: Seq<char>) -> bool;

/// Relies on ssh_key's `PublicKey::from_openssh` (via `FromStr`):
/// deterministic in the presented string.
#[verifier::external_body]
pub(crate) fn ssh_key_valid(s: &str) -> (r: bool)
    ensures
        r == ssh_parses(s@),
{
    s.parse::<ssh_key::PublicKey>().is_ok()
}

/// Optional filters of the authorized-keys feed.
pub struct SshKeysRequestParams {
    pub username: Option<String>,
    pub group: Option<String>,
}

/// Payload for adding a key.
pub struct AddAuthenticationKeyData {
    pub key: String,
    pub name: String,
    pub key_type: AuthenticationKeyType,
}

/// Payload for renaming a key.
pub struct RenameRequest {
    pub name: String,
}

/// Client-visible failures of the key-management handlers.
#[derive(Debug)]
pub enum WebError {
    BadRequest(String),
    Forbidden(String),
    ObjectNotFound(String),
}

/// A key row joined with the name and serial of the YubiKey it was
/// provisioned onto, if any.
pub struct AuthenticationKeyInfo {
    pub id: i64,
    pub name: Option<String>,
    pub key_type: AuthenticationKeyType,
    pub key: String,
    pub user_id: i64,
    pub yubikey_serial: Option<String>,
    pub yubikey_id: Option<i64>,
    pub yubikey_name: Option<String>,
}

/// The key rows of this user, in table order.
pub open spec fn keys_of_user(keys: Seq<AuthenticationKey>, user_id: i64) -> Seq<
    AuthenticationKey,
>
    decreases keys.len(),
{
    if keys.len() == 0 {
        Seq::empty()
    } else {
        let rest = keys_of_user(keys.drop_last(), user_id);
        if keys.last().user_id == user_id {
            rest.push(keys.last())
        } else {
            rest
        }
    }
}

/// The SSH key material of this user, in table order.
pub open spec fn ssh_key_views_of(keys: Seq<AuthenticationKey>, user_id: i64) -> Seq<Seq<char>>
    decreases keys.len(),
{
    if keys.len() == 0 {
        Seq::empty()
    } else {
        let rest = ssh_key_views_of(keys.drop_last(), user_id);
        if keys.last().user_id == user_id && keys.last().key_type
            == AuthenticationKeyType::Ssh {
            rest.push(keys.last().key@)
        } else {
            rest
        }
    }
}

/// `info` is the left join of the key row `k` with the yubikey table.
pub open spec fn info_matches(
    info: AuthenticationKeyInfo,
    k: AuthenticationKey,
    yks: Seq<crate::keys::YubiKey>,
) -> bool {
    &&& info.id == k.id
    &&& info.user_id == k.user_id
    &&& info.key == k.key
    &&& info.name == k.name
    &&& info.key_type == k.key_type
    &&& info.yubikey_id == k.yubikey_id
    &&& match k.yubikey_id {
        Some(yid) => if has_yubikey_with_id(yks, yid) {
            info.yubikey_name == Some(yks[yubikey_index(yks, yid)].name)
                && info.yubikey_serial == Some(yks[yubikey_index(yks, yid)].serial)
        } else {
            info.yubikey_name is None && info.yubikey_serial is None
        },
        None => info.yubikey_name is None && info.yubikey_serial is None,
    }
}

impl AuthenticationKeyInfo {
    /// Every key of the user, each joined with its YubiKey's name and
    /// serial where one is linked.
    #[verifier::loop_isolation(false)]
    pub fn find_by_user_id(store: &KeyStore, user_id: i64) -> (r: Vec<AuthenticationKeyInfo>)
        requires
            store.wf(),
        ensures
            r@.len() == keys_of_user(store.keys@, user_id).len(),
            forall|i: int|
                0 <= i < r@.len() ==> info_matches(
                    #[trigger] r@[i],
                    keys_of_user(store.keys@, user_id)[i],
                    store.yubikeys@,
                ),
    {
        let mut out: Vec<AuthenticationKeyInfo> = Vec::new();
        let mut i: usize = 0;
        while i < store.keys.len()
            invariant
                0 <= i as int <= store.keys@.len(),
                out@.len() == keys_of_user(store.keys@.take(i as int), user_id).len(),
                forall|k: int|
                    0 <= k < out@.len() ==> info_matches(
                        #[trigger] out@[k],
                        keys_of_user(store.keys@.take(i as int), user_id)[k],
                        store.yubikeys@,
                    ),
            decreases store.keys@.len() - i as int,
        {
            proof {
                assert(store.keys@.take(i as int + 1).drop_last() =~= store.keys@.take(i as int));
                assert(store.keys@.take(i as int + 1).last() == store.keys@[i as int]);
            }
            if store.keys[i].user_id == user_id {
                let (yname, yserial) = match store.keys[i].yubikey_id {
                    Some(yid) => yubikey_fields(store, yid),
                    None => (None, None),
                };
                out.push(
                    AuthenticationKeyInfo {
                        id: store.keys[i].id,
                        name: clone_opt_string(&store.keys[i].name),
                        key_type: store.keys[i].key_type,
                        key: store.keys[i].key.clone(),
                        user_id: store.keys[i].user_id,
                        yubikey_serial: yserial,
                        yubikey_id: store.keys[i].yubikey_id,
                        yubikey_name: yname,
                    },
                );
            }
            i += 1;
        }
        proof {
            assert(store.keys@.take(store.keys@.len() as int) =~= store.keys@);
        }
        out
    }
}

/// The name and serial of the yubikey row with this id, if present.
#[verifier::loop_isolation(false)]
fn yubikey_fields(store: &KeyStore, yid: i64) -> (r: (Option<String>, Option<String>))
    requires
        store.wf(),
    ensures
        has_yubikey_with_id(store.yubikeys@, yid) ==> r.0 == Some(
            store.yubikeys@[yubikey_index(store.yubikeys@, yid)].name,
        ) && r.1 == Some(store.yubikeys@[yubikey_index(store.yubikeys@, yid)].serial),
        !has_yubikey_with_id(store.yubikeys@, yid) ==> r.0 is None && r.1 is None,
{
    let mut i: usize = 0;
    while i < store.yubikeys.len()
        invariant
            0 <= i as int <= store.yubikeys@.len(),
            forall|j: int| 0 <= j < i as int ==> (#[trigger] store.yubikeys@[j]).id != yid,
        decreases store.yubikeys@.len() - i as int,
    {
        if store.yubikeys[i].id == yid {
            proof {
                let k = yubikey_index(store.yubikeys@, yid);
                assert(store.yubikeys@[i as int].id == yid);
                assert(0 <= k < store.yubikeys@.len() && store.yubikeys@[k].id == yid);
                if k != i as int {
                    assert(store.yubikeys@[k].id != store.yubikeys@[i as int].id);
                }
            }
            return (
                Some(store.yubikeys[i].name.clone()),
                Some(store.yubikeys[i].serial.clone()),
            );
        }
        i += 1;
    }
    (None, None)
}

/// The views of the strings, element by element.
pub open spec fn views_of(v: Seq<String>) -> Seq<Seq<char>> {
    Seq::new(v.len(), |i: int| v[i]@)
}

/// The parts joined with a line feed between consecutive parts.
pub open spec fn join_newlines(parts: Seq<Seq<char>>) -> Seq<char>
    decreases parts.len(),
{
    if parts.len() == 0 {
        Seq::empty()
    } else if parts.len() == 1 {
        parts[0]
    } else {
        join_newlines(parts.drop_last()) + "\n"@ + parts.last()
    }
}

#[verifier::loop_isolation(false)]
fn join_newlines_exec(parts: &Vec<String>) -> (r: String)
    ensures
        r@ == join_newlines(views_of(parts@)),
{
    if parts.len() == 0 {
        proof {
            assert(views_of(parts@).len() == 0);
        }
        return String::new();
    }
    let mut out: String = parts[0].clone();
    proof {
        assert(views_of(parts@).take(1).len() == 1);
        assert(views_of(parts@).take(1)[0] == parts@[0]@);
        assert(out@ == join_newlines(views_of(parts@).take(1)));
    }
    let mut i: usize = 1;
    while i < parts.len()
        invariant
            1 <= i as int <= parts@.len(),
            out@ == join_newlines(views_of(parts@).take(i as int)),
        decreases parts@.len() - i as int,
    {
        let with_sep = concat(out.as_str(), "\n");
        let next = concat(with_sep.as_str(), parts[i].as_str());
        proof {
            let vs = views_of(parts@);
            assert(vs.take(i as int + 1).drop_last() =~= vs.take(i as int));
            assert(vs.take(i as int + 1).last() == parts@[i as int]@);
            assert(vs.take(i as int + 1).len() >= 2);
        }
        out = next;
        i += 1;
    }
    proof {
        assert(views_of(parts@).take(parts@.len() as int) =~= views_of(parts@));
    }
    out
}

/// Some group row carries this name.
pub open spec fn spec_has_group(groups: Seq<Group>, name: Seq<char>) -> bool {
    exists|i: int| 0 <= i < groups.len() && (#[trigger] groups[i]).name@ == name
}

/// The position of the group row carrying this name.
pub open spec fn group_index_by_name(groups: Seq<Group>, name: Seq<char>) -> int {
    choose|i: int| 0 <= i < groups.len() && (#[trigger] groups[i]).name@ == name
}

/// The position of the user row carrying this username.
pub open spec fn user_index_by_name(users: Seq<User>, name: Seq<char>) -> int {
    choose|i: int| 0 <= i < users.len() && (#[trigger] users[i]).username@ == name
}

/// The user belongs to the group: a membership row pairs them.
pub open spec fn spec_is_member(
    memberships: Seq<(i64, i64)>,
    group_id: i64,
    user_id: Option<i64>,
) -> bool {
    match user_id {
        Some(uid) => exists|i: int|
            0 <= i < memberships.len() && #[trigger] memberships[i] == (group_id, uid),
        None => false,
    }
}

/// The SSH keys of every member of the group, walking user rows in
/// table order.
pub open spec fn group_members_ssh_keys(
    users: Seq<User>,
    memberships: Seq<(i64, i64)>,
    keys: Seq<AuthenticationKey>,
    group_id: i64,
) -> Seq<Seq<char>>
    decreases users.len(),
{
    if users.len() == 0 {
        Seq::empty()
    } else {
        let rest = group_members_ssh_keys(users.drop_last(), memberships, keys, group_id);
        if spec_is_member(memberships, group_id, users.last().id) {
            rest + ssh_key_views_of(keys, users.last().id.unwrap())
        } else {
            rest
        }
    }
}

/// What the authorized-keys feed serves for these filters: nothing
/// without a filter or when the named group or user does not exist; a
/// user's SSH keys when a user is named (and, with a group filter, is a
/// member); every member's SSH keys when only a group is named.
pub open spec fn spec_collected_keys(
    us: UserStore,
    ks: KeyStore,
    params: SshKeysRequestParams,
) -> Seq<Seq<char>> {
    match params.group {
        Some(gname) => if !spec_has_group(us.groups@, gname@) {
            Seq::empty()
        } else {
            let gid = us.groups@[group_index_by_name(us.groups@, gname@)].id;
            match params.username {
                Some(uname) => if !crate::store::has_user_with_name(us.users@, uname@) {
                    Seq::empty()
                } else {
                    let u = us.users@[user_index_by_name(us.users@, uname@)];
                    if spec_is_member(us.memberships@, gid, u.id) {
                        ssh_key_views_of(ks.keys@, u.id.unwrap())
                    } else {
                        Seq::empty()
                    }
                },
                None => group_members_ssh_keys(us.users@, us.memberships@, ks.keys@, gid),
            }
        },
        None => match params.username {
            Some(uname) => if !crate::store::has_user_with_name(us.users@, uname@) {
                Seq::empty()
            } else {
                let u = us.users@[user_index_by_name(us.users@, uname@)];
                match u.id {
                    Some(uid) => ssh_key_views_of(ks.keys@, uid),
                    None => Seq::empty(),
                }
            },
            None => Seq::empty(),
        },
    }
}

/// The id of the group with this name, if one exists.
#[verifier::loop_isolation(false)]
fn find_group_id(us: &UserStore, name: &str) -> (r: Option<i64>)
    requires
        us.wf(),
    ensures
        r is Some <==> spec_has_group(us.groups@, name@),
        r matches Some(g) ==> g == us.groups@[group_index_by_name(us.groups@, name@)].id,
{
    let needle = name.to_owned();
    let mut i: usize = 0;
    while i < us.groups.len()
        invariant
            0 <= i as int <= us.groups@.len(),
            needle@ == name@,
            forall|j: int| 0 <= j < i as int ==> (#[trigger] us.groups@[j]).name@ != name@,
        decreases us.groups@.len() - i as int,
    {
        if us.groups[i].name == needle {
            proof {
                let k = group_index_by_name(us.groups@, name@);
                assert(us.groups@[i as int].name@ == name@);
                assert(0 <= k < us.groups@.len() && us.groups@[k].name@ == name@);
                if k != i as int {
                    assert(us.groups@[k].name@ != us.groups@[i as int].name@);
                }
            }
            return Some(us.groups[i].id);
        }
        i += 1;
    }
    None
}

/// Whether a membership row pairs this group and user.
#[verifier::loop_isolation(false)]
fn is_member_pair(us: &UserStore, group_id: i64, user_id: i64) -> (r: bool)
    ensures
        r == spec_is_member(us.memberships@, group_id, Some(user_id)),
{
    let mut i: usize = 0;
    while i < us.memberships.len()
        invariant
            0 <= i as int <= us.memberships@.len(),
            forall|j: int|
                0 <= j < i as int ==> #[trigger] us.memberships@[j] != (group_id, user_id),
        decreases us.memberships@.len() - i as int,
    {
        let m = us.memberships[i];
        if m.0 == group_id && m.1 == user_id {
            return true;
        }
        i += 1;
    }
    false
}

/// Append the user's SSH keys to the list, in key-table order.
#[verifier::loop_isolation(false)]
pub fn add_user_ssh_keys_to_list(
    key_store: &KeyStore,
    user: &User,
    ssh_keys: &mut Vec<String>,
)
    ensures
        views_of(final(ssh_keys)@) == views_of(old(ssh_keys)@) + (match user.id {
            Some(uid) => ssh_key_views_of(key_store.keys@, uid),
            None => Seq::<Seq<char>>::empty(),
        }),
{
    let uid = match user.id {
        Some(uid) => uid,
        None => {
            proof {
                assert(views_of(ssh_keys@) =~= views_of(ssh_keys@) + Seq::<Seq<char>>::empty());
            }
            return ;
        },
    };
    let mut i: usize = 0;
    while i < key_store.keys.len()
        invariant
            0 <= i as int <= key_store.keys@.len(),
            views_of(ssh_keys@) =~= views_of(old(ssh_keys)@) + ssh_key_views_of(
                key_store.keys@.take(i as int),
                uid,
            ),
        decreases key_store.keys@.len() - i as int,
    {
        proof {
            assert(key_store.keys@.take(i as int + 1).drop_last() =~= key_store.keys@.take(
                i as int,
            ));
            assert(key_store.keys@.take(i as int + 1).last() == key_store.keys@[i as int]);
        }
        let is_ssh = match key_store.keys[i].key_type {
            AuthenticationKeyType::Ssh => true,
            AuthenticationKeyType::Gpg => false,
        };
        let ghost prev = views_of(ssh_keys@);
        if key_store.keys[i].user_id == uid && is_ssh {
            ssh_keys.push(key_store.keys[i].key.clone());
            proof {
                assert(views_of(ssh_keys@) =~= prev.push(key_store.keys@[i as int].key@));
                assert(views_of(ssh_keys@) =~= views_of(old(ssh_keys)@) + ssh_key_views_of(
                    key_store.keys@.take(i as int + 1),
                    uid,
                ));
            }
        } else {
            proof {
                assert(views_of(ssh_keys@) =~= views_of(old(ssh_keys)@) + ssh_key_views_of(
                    key_store.keys@.take(i as int + 1),
                    uid,
                ));
            }
        }
        i += 1;
    }
    proof {
        assert(key_store.keys@.take(key_store.keys@.len() as int) =~= key_store.keys@);
        assert(views_of(ssh_keys@) =~= views_of(old(ssh_keys)@) + ssh_key_views_of(
            key_store.keys@,
            uid,
        ));
    }
}

/// The `sshd AuthorizedKeysCommand` feed: public SSH keys selected by
/// the optional user and group filters, one per line. It always answers,
/// to partially mitigate user enumeration; with no filter the answer is
/// empty.
#[verifier::loop_isolation(false)]
pub fn get_authorized_keys(
    user_store: &UserStore,
    key_store: &KeyStore,
    params: &SshKeysRequestParams,
) -> (r: String)
    requires
        user_store.wf(),
    ensures
        r@ == join_newlines(spec_collected_keys(*user_store, *key_store, *params)),
{
    let mut ssh_keys: Vec<String> = Vec::new();
    match &params.group {
        Some(group_name) => {
            if let Some(gid) = find_group_id(user_store, group_name.as_str()) {
                match &params.username {
                    Some(username) => {
                        if let Some(user) = User::find_by_username(user_store, username.as_str()) {
                            proof {
                                let j = choose|j: int|
                                    0 <= j < user_store.users@.len() && (
                                    #[trigger] user_store.users@[j]).username@ == username@
                                        && same_user(user, user_store.users@[j]);
                                let k = user_index_by_name(user_store.users@, username@);
                                if k != j {
                                    assert(user_store.users@[k].username@
                                        != user_store.users@[j].username@);
                                }
                                assert(user.id == user_store.users@[k].id);
                            }
                            let member = match user.id {
                                Some(uid) => is_member_pair(user_store, gid, uid),
                                None => false,
                            };
                            if member {
                                add_user_ssh_keys_to_list(key_store, &user, &mut ssh_keys);
                            }
                        }
                    },
                    None => {
                        let ghost us = user_store.users@;
                        let mut i: usize = 0;
                        while i < user_store.users.len()
                            invariant
                                0 <= i as int <= us.len(),
                                views_of(ssh_keys@) =~= group_members_ssh_keys(
                                    us.take(i as int),
                                    user_store.memberships@,
                                    key_store.keys@,
                                    gid,
                                ),
                            decreases us.len() - i as int,
                        {
                            proof {
                                assert(us.take(i as int + 1).drop_last() =~= us.take(i as int));
                                assert(us.take(i as int + 1).last() == us[i as int]);
                            }
                            let member = match user_store.users[i].id {
                                Some(uid) => is_member_pair(user_store, gid, uid),
                                None => false,
                            };
                            if member {
                                let mut j: usize = 0;
                                let uid = user_store.users[i].id.unwrap();
                                let ghost before = views_of(ssh_keys@);
                                while j < key_store.keys.len()
                                    invariant
                                        0 <= j as int <= key_store.keys@.len(),
                                        views_of(ssh_keys@) =~= before + ssh_key_views_of(
                                            key_store.keys@.take(j as int),
                                            uid,
                                        ),
                                    decreases key_store.keys@.len() - j as int,
                                {
                                    proof {
                                        assert(key_store.keys@.take(j as int + 1).drop_last()
                                            =~= key_store.keys@.take(j as int));
                                        assert(key_store.keys@.take(j as int + 1).last()
                                            == key_store.keys@[j as int]);
                                    }
                                    let is_ssh = match key_store.keys[j].key_type {
                                        AuthenticationKeyType::Ssh => true,
                                        AuthenticationKeyType::Gpg => false,
                                    };
                                    let ghost prev = views_of(ssh_keys@);
                                    if key_store.keys[j].user_id == uid && is_ssh {
                                        ssh_keys.push(key_store.keys[j].key.clone());
                                        proof {
                                            assert(views_of(ssh_keys@) =~= prev.push(
                                                key_store.keys@[j as int].key@,
                                            ));
                                            assert(views_of(ssh_keys@) =~= before
                                                + ssh_key_views_of(
                                                key_store.keys@.take(j as int + 1),
                                                uid,
                                            ));
                                        }
                                    } else {
                                        proof {
                                            assert(views_of(ssh_keys@) =~= before
                                                + ssh_key_views_of(
                                                key_store.keys@.take(j as int + 1),
                                                uid,
                                            ));
                                        }
                                    }
                                    j += 1;
                                }
                                proof {
                                    assert(key_store.keys@.take(key_store.keys@.len() as int)
                                        =~= key_store.keys@);
                                }
                            }
                            i += 1;
                        }
                        proof {
                            assert(us.take(us.len() as int) =~= us);
                        }
                    },
                }
            }
        },
        None => {
            if let Some(username) = &params.username {
                if let Some(user) = User::find_by_username(user_store, username.as_str()) {
                    proof {
                        let j = choose|j: int|
                            0 <= j < user_store.users@.len() && (
                            #[trigger] user_store.users@[j]).username@ == username@ && same_user(
                                user,
                                user_store.users@[j],
                            );
                        let k = user_index_by_name(user_store.users@, username@);
                        if k != j {
                            assert(user_store.users@[k].username@
                                != user_store.users@[j].username@);
                        }
                        assert(user.id == user_store.users@[k].id);
                    }
                    add_user_ssh_keys_to_list(key_store, &user, &mut ssh_keys);
                }
            }
        },
    }
    join_newlines_exec(&ssh_keys)
}

/// Add a key for the user: the key material is stripped of trailing
/// newlines, an SSH key must parse, and a byte-identical key of the same
/// user is refused; otherwise a new row is inserted.
pub fn add_authentication_key(
    store: &mut KeyStore,
    user_id: i64,
    data: AddAuthenticationKeyData,
) -> (r: Result<(), WebError>)
    requires
        old(store).wf(),
        old(store).next_key_id < i64::MAX,
    ensures
        final(store).wf(),
        ({
            let tk = trim_crlf_seq(data.key@);
            &&& (data.key_type == AuthenticationKeyType::Ssh && !ssh_parses(tk)) ==> (r matches
                Err(e) && e matches WebError::BadRequest(m) && m@ == "SSH key failed verification."@)
                && *final(store) == *old(store)
            &&& (!(data.key_type == AuthenticationKeyType::Ssh && !ssh_parses(tk))
                && has_user_key(old(store).keys@, user_id, tk)) ==> (r matches Err(e)
                && e matches WebError::BadRequest(m) && m@ == "Key already exists."@)
                && *final(store) == *old(store)
            &&& (!(data.key_type == AuthenticationKeyType::Ssh && !ssh_parses(tk))
                && !has_user_key(old(store).keys@, user_id, tk)) ==> (r matches Ok(_)) && ({
                let added = final(store).keys@.last();
                &&& final(store).keys@ == old(store).keys@.push(added)
                &&& added.id == old(store).next_key_id
                &&& added.user_id == user_id
                &&& added.key@ == tk
                &&& added.name == Some(data.name)
                &&& added.key_type == data.key_type
                &&& added.yubikey_id is None
                &&& final(store).next_key_id == old(store).next_key_id + 1
                &&& final(store).yubikeys == old(store).yubikeys
            })
        }),
{
    let trimmed = trim_crlf(data.key.as_str());
    let is_ssh = match data.key_type {
        AuthenticationKeyType::Ssh => true,
        AuthenticationKeyType::Gpg => false,
    };
    if is_ssh && !ssh_key_valid(trimmed) {
        return Err(WebError::BadRequest("SSH key failed verification.".to_owned()));
    }
    if store.has_key_for_user(user_id, trimmed) {
        return Err(WebError::BadRequest("Key already exists.".to_owned()));
    }
    let owned = trimmed.to_owned();
    store.insert_key(user_id, owned, Some(data.name), data.key_type, None);
    Ok(())
}

/// Every key of the user joined with its YubiKey provenance; what the
/// listing endpoint serves.
pub fn fetch_authentication_keys(store: &KeyStore, user_id: i64) -> (r: Vec<
    AuthenticationKeyInfo,
>)
    requires
        store.wf(),
    ensures
        r@.len() == keys_of_user(store.keys@, user_id).len(),
        forall|i: int|
            0 <= i < r@.len() ==> info_matches(
                #[trigger] r@[i],
                keys_of_user(store.keys@, user_id)[i],
                store.yubikeys@,
            ),
{
    AuthenticationKeyInfo::find_by_user_id(store, user_id)
}

/// Delete a key by id: only an admin, or the key's owner acting on
/// their own account, may delete it.
#[verifier::loop_isolation(false)]
pub fn delete_authentication_key(
    store: &mut KeyStore,
    is_admin: bool,
    acting_user_id: i64,
    key_id: i64,
) -> (r: Result<(), WebError>)
    requires
        old(store).wf(),
    ensures
        final(store).wf(),
        !has_key_with_id(old(store).keys@, key_id) ==> (r matches Err(e) && e matches
            WebError::BadRequest(m) && m@ == "Key not found"@) && *final(store) == *old(store),
        has_key_with_id(old(store).keys@, key_id) ==> ({
            let idx = key_index(old(store).keys@, key_id);
            let k = old(store).keys@[idx];
            &&& (!is_admin && acting_user_id != k.user_id) ==> (r matches Err(e)
                && e is Forbidden) && *final(store) == *old(store)
            &&& (is_admin || acting_user_id == k.user_id) ==> (r matches Ok(_))
                && final(store).keys@ == old(store).keys@.remove(idx)
                && final(store).yubikeys == old(store).yubikeys
                && final(store).next_key_id == old(store).next_key_id
        }),
{
    let mut i: usize = 0;
    while i < store.keys.len()
        invariant
            0 <= i as int <= store.keys@.len(),
            forall|j: int| 0 <= j < i as int ==> (#[trigger] store.keys@[j]).id != key_id,
            *store == *old(store),
        decreases store.keys@.len() - i as int,
    {
        if store.keys[i].id == key_id {
            proof {
                let k = key_index(store.keys@, key_id);
                assert(store.keys@[i as int].id == key_id);
                assert(0 <= k < store.keys@.len() && store.keys@[k].id == key_id);
                if k != i as int {
                    assert(store.keys@[k].id != store.keys@[i as int].id);
                }
            }
            if !is_admin && acting_user_id != store.keys[i].user_id {
                return Err(WebError::Forbidden(String::new()));
            }
            store.keys.remove(i);
            return Ok(());
        }
        i += 1;
    }
    Err(WebError::BadRequest("Key not found".to_owned()))
}

/// Rename a key by id: hardware-provisioned keys are renamed through
/// their YubiKey instead, and only an admin or the owner may rename.
#[verifier::loop_isolation(false)]
pub fn rename_authentication_key(
    store: &mut KeyStore,
    is_admin: bool,
    acting_user_id: i64,
    key_id: i64,
    data: RenameRequest,
) -> (r: Result<(), WebError>)
    requires
        old(store).wf(),
    ensures
        final(store).wf(),
        !has_key_with_id(old(store).keys@, key_id) ==> (r matches Err(e) && e is ObjectNotFound)
            && *final(store) == *old(store),
        has_key_with_id(old(store).keys@, key_id) ==> ({
            let idx = key_index(old(store).keys@, key_id);
            let k = old(store).keys@[idx];
            &&& k.yubikey_id is Some ==> (r matches Err(e) && e matches WebError::BadRequest(m)
                && m@ == "Rename yubikey instead."@) && *final(store) == *old(store)
            &&& (k.yubikey_id is None && !is_admin && acting_user_id != k.user_id) ==> (r matches
                Err(e) && e is Forbidden) && *final(store) == *old(store)
            &&& (k.yubikey_id is None && (is_admin || acting_user_id == k.user_id)) ==> (
            r matches Ok(_)) && final(store).keys@ == old(store).keys@.update(
                idx,
                AuthenticationKey { name: Some(data.name), ..k },
            ) && final(store).yubikeys == old(store).yubikeys
                && final(store).next_key_id == old(store).next_key_id
        }),
{
    let mut i: usize = 0;
    while i < store.keys.len()
        invariant
            0 <= i as int <= store.keys@.len(),
            forall|j: int| 0 <= j < i as int ==> (#[trigger] store.keys@[j]).id != key_id,
            *store == *old(store),
        decreases store.keys@.len() - i as int,
    {
        if store.keys[i].id == key_id {
            proof {
                let k = key_index(store.keys@, key_id);
                assert(store.keys@[i as int].id == key_id);
                assert(0 <= k < store.keys@.len() && store.keys@[k].id == key_id);
                if k != i as int {
                    assert(store.keys@[k].id != store.keys@[i as int].id);
                }
            }
            if store.keys[i].yubikey_id.is_some() {
                return Err(WebError::BadRequest("Rename yubikey instead.".to_owned()));
            }
            if !is_admin && acting_user_id != store.keys[i].user_id {
                return Err(WebError::Forbidden(String::new()));
            }
            store.keys[i].name = Some(data.name);
            proof {
                assert forall|a: int, b: int| 0 <= a < b < store.keys@.len() implies (
                #[trigger] store.keys@[a]).id != (#[trigger] store.keys@[b]).id by {
                    assert(store.keys@[a].id == old(store).keys@[a].id);
                    assert(store.keys@[b].id == old(store).keys@[b].id);
                }
                assert forall|a: int| 0 <= a < store.keys@.len() implies (
                #[trigger] store.keys@[a]).id < store.next_key_id by {
                    assert(store.keys@[a].id == old(store).keys@[a].id);
                }
            }
            return Ok(());
        }
        i += 1;
    }
    Err(WebError::ObjectNotFound(String::new()))
}

} // verus!
