//! The secret store, for administrators.
//!
//! Every answer but a refusal is a document that says whether it worked. Values
//! never leave: a record goes out masked.
use crate::collections::StrMap;
use crate::item::{Item, ItemView, ProcessResult};
use crate::server::auth_config;
use crate::server::user_control;
use crate::server::user_control::check_role;
use crate::state::secrets;
use crate::state::secrets::{SecretStore, SecretsView};
use crate::text;
use crate::text::{cat, decimal_string, owned};
use vstd::prelude::*;

verus! {

/// A request that names a secret by its id.
pub struct SecretIdReq {
    pub id: u64,
}

/// What a request about secrets is answered.
pub enum Answer {
    /// The caller is not an administrator.
    Forbidden,
    /// An outcome, at an HTTP status.
    Outcome(u16, ProcessResult),
    /// A masked record.
    Record(Item),
    /// The ids and names of all secrets.
    Names(Vec<(u64, String)>),
}

/// Whether somebody is an administrator here.
pub open spec fn is_admin(internals: ItemView, user: Option<Item>) -> bool {
    user is Some && user_control::granted(
        user->Some_0@,
        user_control::role_prefix(internals),
        "admin"@,
    )
}

/// Whether somebody is an administrator here.
pub fn ensure_admin(internals: &Item, user: &Option<Item>) -> (r: bool)
    ensures
        r == is_admin(internals@, *user),
{
    check_role(internals, user, "admin")
}

/// A failure at a chosen status. It has a document like every other answer.
pub fn proc_err_status(status: u16, msg: &str) -> (r: Answer)
    ensures
        r matches Answer::Outcome(s, p) && s == status && auth_config::fails(p, msg@),
{
    Answer::Outcome(status, ProcessResult::plain(false, msg))
}

/// An ordinary failure.
pub fn proc_err(msg: &str) -> (r: Answer)
    ensures
        r matches Answer::Outcome(s, p) && s == 200 && auth_config::fails(p, msg@),
{
    proc_err_status(200, msg)
}

/// Success, with the id that it was about.
pub fn proc_ok_with_id(id: u64) -> (r: Answer)
    ensures
        r matches Answer::Outcome(s, p) && s == 200 && p.succeeded && p.error@.len() == 0 && p.data@
            == Map::<Seq<char>, Seq<char>>::empty().insert("id"@, text::decimal(id as nat)),
{
    let mut data: StrMap<String> = StrMap::new();
    data.insert(owned("id"), decimal_string(id));
    Answer::Outcome(200, ProcessResult { succeeded: true, error: String::new(), data })
}

/// Success.
pub fn proc_ok() -> (r: Answer)
    ensures
        r matches Answer::Outcome(s, p) && s == 200 && auth_config::works(p),
{
    proof {
        reveal_strlit("");
    }
    Answer::Outcome(200, ProcessResult::plain(true, ""))
}

/// Whether an answer is a failure at a status.
pub open spec fn failure(r: Answer, status: u16, why: Seq<char>) -> bool {
    r matches Answer::Outcome(s, p) && s == status && auth_config::fails(p, why)
}

/// Stores a secret. Fields that the record does not have keep their values, so
/// a masked record can be sent back as it came.
pub fn secret_edit(
    internals: &Item,
    user: &Option<Item>,
    store: &mut Option<SecretStore>,
    body: &Item,
) -> (r: Answer)
    requires
        auth_config::sound(*old(store)),
    ensures
        auth_config::sound(*final(store)),
        if !is_admin(internals@, *user) {
            r is Forbidden && auth_config::held(*final(store)) == auth_config::held(*old(store))
        } else {
            match *old(store) {
                None => failure(r, 200, "secret store is not initialized"@) && *final(store) is None,
                Some(s) => *final(store) is Some && if s@.refusal(body@, true) is None {
                    &&& final(store)->Some_0@ == s@.after_set(body@, true)
                    &&& r matches Answer::Outcome(st, p)
                    &&& st == 200
                    &&& p.succeeded
                    &&& p.error@.len() == 0
                    &&& p.data@ == Map::<Seq<char>, Seq<char>>::empty().insert(
                        "id"@,
                        text::decimal(s@.target(body@) as nat),
                    )
                } else {
                    &&& final(store)->Some_0@ == s@
                    &&& failure(
                        r,
                        200,
                        "failed to write secret: "@ + auth_config::store_says(s@, body@),
                    )
                },
            }
        },
{
    if !ensure_admin(internals, user) {
        return Answer::Forbidden;
    }
    match store {
        None => proc_err("secret store is not initialized"),
        Some(s) => match s.set(body, true) {
            Ok(id) => proc_ok_with_id(id),
            Err(e) => proc_err(cat("failed to write secret: ", e.message.as_str()).as_str()),
        },
    }
}

/// Reads a secret, masked.
pub fn secret_get(
    internals: &Item,
    user: &Option<Item>,
    store: &Option<SecretStore>,
    body: &SecretIdReq,
) -> (r: Answer)
    ensures
        if !is_admin(internals@, *user) {
            r is Forbidden
        } else {
            match *store {
                None => failure(r, 200, "secret store is not initialized"@),
                Some(s) => if s@.entries.contains_key(body.id) {
                    r matches Answer::Record(v) && v@ == (ItemView {
                        strs: secrets::masked(s@.entries[body.id].strs),
                        ..s@.entries[body.id]
                    })
                } else {
                    failure(r, 404, "no such secret"@)
                },
            }
        },
{
    if !ensure_admin(internals, user) {
        return Answer::Forbidden;
    }
    match store {
        None => proc_err("secret store is not initialized"),
        Some(s) => match s.get_masked(body.id) {
            Some(item) => Answer::Record(item),
            None => proc_err_status(404, "no such secret"),
        },
    }
}

/// Deletes a secret, and says whether there was one.
pub fn secret_del(
    internals: &Item,
    user: &Option<Item>,
    store: &mut Option<SecretStore>,
    body: &SecretIdReq,
) -> (r: Answer)
    requires
        auth_config::sound(*old(store)),
    ensures
        auth_config::sound(*final(store)),
        if !is_admin(internals@, *user) {
            r is Forbidden && auth_config::held(*final(store)) == auth_config::held(*old(store))
        } else {
            match *old(store) {
                None => failure(r, 200, "secret store is not initialized"@) && *final(store) is None,
                Some(s) => *final(store) is Some && if s@.entries.contains_key(body.id) {
                    &&& final(store)->Some_0@ == s@.after_del(body.id)
                    &&& r matches Answer::Outcome(st, p)
                    &&& st == 200
                    &&& auth_config::works(p)
                } else {
                    &&& final(store)->Some_0@ == s@
                    &&& failure(r, 404, "no such secret"@)
                },
            }
        },
{
    if !ensure_admin(internals, user) {
        return Answer::Forbidden;
    }
    match store {
        None => proc_err("secret store is not initialized"),
        Some(s) => if s.del(body.id) {
            proc_ok()
        } else {
            proc_err_status(404, "no such secret")
        },
    }
}

/// Whether a list holds the id and the name of every secret, each once, in the
/// order of the names.
pub open spec fn lists_all(names: Seq<(u64, String)>, s: SecretsView) -> bool {
    &&& names.len() == s.entries.dom().len()
    &&& forall|i: int|
        0 <= i < names.len() ==> s.entries.contains_key((#[trigger] names[i]).0) && names[i].1@
            == secrets::name_of(s.entries[names[i].0])
    &&& forall|i: int, j: int|
        #![trigger names[i], names[j]]
        0 <= i < j < names.len() ==> names[i].0 != names[j].0 && !text::precedes(
            names[j].1@,
            names[i].1@,
        )
}

/// Lists the secrets by id and name.
pub fn secret_list(
    internals: &Item,
    user: &Option<Item>,
    store: &Option<SecretStore>,
) -> (r: Answer)
    requires
        auth_config::sound(*store),
    ensures
        if !is_admin(internals@, *user) {
            r is Forbidden
        } else {
            match *store {
                None => failure(r, 200, "secret store is not initialized"@),
                Some(s) => r matches Answer::Names(names) && lists_all(names@, s@),
            }
        },
{
    if !ensure_admin(internals, user) {
        return Answer::Forbidden;
    }
    match store {
        None => proc_err("secret store is not initialized"),
        Some(s) => Answer::Names(s.list()),
    }
}

/// An administrator is somebody who is signed in, whose account is on, and who holds the
/// role.
pub proof fn who_is_an_administrator(internals: ItemView, user: Item)
    ensures
        !is_admin(internals, None),
        is_admin(internals, Some(user)) <==> user@.bools.get("role_is_active"@) == Some(true)
            && user@.bools.get(internals.str("user_role_prefix"@, "role_is_"@) + "admin"@) == Some(
            true,
        ),
{
}

/// A failure is an outcome at its status that did not succeed, for its reason.
pub proof fn what_a_failure_is(r: Answer, status: u16, why: Seq<char>)
    requires
        failure(r, status, why),
    ensures
        r matches Answer::Outcome(s, p) && s == status && !p.succeeded && p.error@ == why,
{
}

/// A list of secrets names each one once, by its own name, in the order of the names.
pub proof fn what_a_list_of_secrets_holds(
    names: Seq<(u64, String)>,
    s: SecretsView,
    i: int,
    j: int,
)
    requires
        lists_all(names, s),
    ensures
        names.len() == s.entries.dom().len(),
        0 <= i < names.len() ==> s.entries.contains_key(names[i].0) && names[i].1@
            == s.entries[names[i].0].str("name"@, Seq::empty()),
        0 <= i < j < names.len() ==> names[i].0 != names[j].0 && !text::precedes(
            names[j].1@,
            names[i].1@,
        ),
{
}

} // verus!
