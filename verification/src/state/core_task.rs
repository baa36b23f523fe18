//! What plugins ask of the server.
use crate::item::{Item, ListResult, ProcessResult};
use crate::notif::email;
use crate::notif::email::{send_email, Email};
use crate::server::user_control;
use crate::server::user_control::check_role;
use crate::state::paging;
use crate::state::secrets::SecretStore;
use crate::state::store_memory;
use crate::state::store_memory::{StoreMemory, StoreView};
use crate::text::owned;
use vstd::prelude::*;

verus! {

/// What a plugin asks for.
pub enum CoreMessage {
    DbGetAllItems { collection: String, sort_key: String, filter: String },
    DbGetItems {
        collection: String,
        id_min: u64,
        id_max: u64,
        sort_key: String,
        filter: String,
        skip: u64,
        limit: u64,
    },
    DbGetItem { collection: String, id: u64 },
    DbSetItem { collection: String, item: Item, merge: bool },
    DbDelItem { collection: String, id: u64 },
    GlobalsGetPublicUrl,
    GlobalsGetDataPath,
    GlobalsGetSettings,
    GlobalsSetSettings { item: Item },
    AuthCheckRole { user: Option<Item>, role: String },
    AuthGetNewSalt,
    AuthGetPasswordHash { password: String, salt: String },
    AuthVerifyPassword { password: String, hash: String },
    AuthLogin,
    AuthLogout,
    AuthRegister,
    AuthGenOtp,
    SendEmail { to: String, subject: String, body: String },
    InitGoogle,
    SyncWithGoogle { add: bool, name: String, date_time: String },
    SecretGet { id: u64 },
}

/// What a store is asked for.
pub enum StoreRequest {
    AllItems { collection: String, sort_key: String, filter: String },
    Items {
        collection: String,
        id_min: u64,
        id_max: u64,
        sort_key: String,
        filter: String,
        skip: u64,
        limit: u64,
    },
    Item { collection: String, id: u64 },
    SetItem { collection: String, item: Item, merge: bool },
    DelItem { collection: String, id: u64 },
    Settings,
    SetSettings { item: Item },
}

/// What a plugin is answered.
pub enum CoreReply {
    Page(ListResult),
    Record(Option<Item>),
    Id(u64),
    Flag(bool),
    Text(String),
    Settings(Item),
    Outcome(ProcessResult),
    /// The plugin expects no answer.
    Nothing,
}

/// What a message comes to.
pub enum CoreStep {
    Reply(CoreReply),
    /// The store is asked, and its answer is the reply.
    Store(StoreRequest),
    /// A mail is sent, where one can be.
    Mail(Option<Email>),
    NewSalt,
    Hash { password: String, salt: String },
    Verify { password: String, hash: String },
    InitGoogle,
    SyncWithGoogle { add: bool, name: String, date_time: String },
}

/// Whether a step answers that something is not to be had this way.
pub open spec fn failed_with(step: CoreStep, reason: Seq<char>) -> bool {
    step matches CoreStep::Reply(CoreReply::Outcome(p)) && !p.succeeded && p.error@ == reason
        && p.data@ == Map::<Seq<char>, Seq<char>>::empty()
}

fn stub_failure(reason: &str) -> (r: CoreStep)
    ensures
        failed_with(r, reason@),
{
    CoreStep::Reply(CoreReply::Outcome(ProcessResult::plain(false, reason)))
}

/// What a message comes to.
pub fn handle_message(
    msg: CoreMessage,
    public_url: &str,
    data_path: &str,
    internals: &Item,
    settings: &Item,
    secrets: &Option<SecretStore>,
) -> (r: CoreStep)
    ensures
        match msg {
            CoreMessage::DbGetAllItems { collection, sort_key, filter } => r == CoreStep::Store(
                StoreRequest::AllItems { collection, sort_key, filter },
            ),
            CoreMessage::DbGetItems {
                collection,
                id_min,
                id_max,
                sort_key,
                filter,
                skip,
                limit,
            } => r == CoreStep::Store(
                StoreRequest::Items { collection, id_min, id_max, sort_key, filter, skip, limit },
            ),
            CoreMessage::DbGetItem { collection, id } => r == CoreStep::Store(
                StoreRequest::Item { collection, id },
            ),
            CoreMessage::DbSetItem { collection, item, merge } => r == CoreStep::Store(
                StoreRequest::SetItem { collection, item, merge },
            ),
            CoreMessage::DbDelItem { collection, id } => r == CoreStep::Store(
                StoreRequest::DelItem { collection, id },
            ),
            CoreMessage::GlobalsGetPublicUrl => r matches CoreStep::Reply(CoreReply::Text(t))
                && t@ == public_url@,
            CoreMessage::GlobalsGetDataPath => r matches CoreStep::Reply(CoreReply::Text(t)) && t@
                == data_path@,
            CoreMessage::GlobalsGetSettings => r == CoreStep::Store(StoreRequest::Settings),
            CoreMessage::GlobalsSetSettings { item } => r == CoreStep::Store(
                StoreRequest::SetSettings { item },
            ),
            CoreMessage::AuthCheckRole { user, role } => r == CoreStep::Reply(
                CoreReply::Flag(
                    user is Some && user_control::granted(
                        user->Some_0@,
                        user_control::role_prefix(internals@),
                        role@,
                    ),
                ),
            ),
            CoreMessage::AuthGetNewSalt => r == CoreStep::NewSalt,
            CoreMessage::AuthGetPasswordHash { password, salt } => r == (CoreStep::Hash {
                password,
                salt,
            }),
            CoreMessage::AuthVerifyPassword { password, hash } => r == (CoreStep::Verify {
                password,
                hash,
            }),
            CoreMessage::AuthLogin => failed_with(r, "auth_login not yet implemented"@),
            CoreMessage::AuthLogout => failed_with(r, "auth_logout not yet implemented"@),
            CoreMessage::AuthRegister => failed_with(r, "auth_register not yet implemented"@),
            CoreMessage::AuthGenOtp => failed_with(r, "auth_gen_otp not yet implemented"@),
            CoreMessage::SendEmail { to, subject, body } => {
                &&& r matches CoreStep::Mail(m)
                &&& m is Some == email::can_send(settings@, to@)
                &&& m matches Some(mail) ==> {
                    &&& mail.server@ == email::setting(settings@, "smtp_server"@)
                    &&& mail.login@ == email::setting(settings@, "smtp_login"@)
                    &&& mail.password@ == email::setting(settings@, "smtp_password"@)
                    &&& mail.from@ == email::setting(settings@, "smtp_from"@)
                    &&& mail.to@ == to@
                    &&& mail.subject@ == subject@
                    &&& mail.body@ == body@
                }
            },
            CoreMessage::InitGoogle => r == CoreStep::InitGoogle,
            CoreMessage::SyncWithGoogle { add, name, date_time } => r
                == (CoreStep::SyncWithGoogle { add, name, date_time }),
            CoreMessage::SecretGet { id } => {
                &&& r matches CoreStep::Reply(CoreReply::Record(found))
                &&& match found {
                    Some(v) => secrets is Some && secrets->Some_0@.entries.contains_key(id) && v@
                        == secrets->Some_0@.entries[id],
                    None => secrets is None || !secrets->Some_0@.entries.contains_key(id),
                }
            },
        },
{
    match msg {
        CoreMessage::DbGetAllItems { collection, sort_key, filter } => CoreStep::Store(
            StoreRequest::AllItems { collection, sort_key, filter },
        ),
        CoreMessage::DbGetItems { collection, id_min, id_max, sort_key, filter, skip, limit } =>
        CoreStep::Store(
            StoreRequest::Items { collection, id_min, id_max, sort_key, filter, skip, limit },
        ),
        CoreMessage::DbGetItem { collection, id } => CoreStep::Store(
            StoreRequest::Item { collection, id },
        ),
        CoreMessage::DbSetItem { collection, item, merge } => CoreStep::Store(
            StoreRequest::SetItem { collection, item, merge },
        ),
        CoreMessage::DbDelItem { collection, id } => CoreStep::Store(
            StoreRequest::DelItem { collection, id },
        ),
        CoreMessage::GlobalsGetPublicUrl => CoreStep::Reply(CoreReply::Text(owned(public_url))),
        CoreMessage::GlobalsGetDataPath => CoreStep::Reply(CoreReply::Text(owned(data_path))),
        CoreMessage::GlobalsGetSettings => CoreStep::Store(StoreRequest::Settings),
        CoreMessage::GlobalsSetSettings { item } => CoreStep::Store(
            StoreRequest::SetSettings { item },
        ),
        CoreMessage::AuthCheckRole { user, role } => {
            let held = check_role(internals, &user, role.as_str());
            CoreStep::Reply(CoreReply::Flag(held))
        },
        CoreMessage::AuthGetNewSalt => CoreStep::NewSalt,
        CoreMessage::AuthGetPasswordHash { password, salt } => CoreStep::Hash { password, salt },
        CoreMessage::AuthVerifyPassword { password, hash } => CoreStep::Verify { password, hash },
        CoreMessage::AuthLogin => stub_failure("auth_login not yet implemented"),
        CoreMessage::AuthLogout => stub_failure("auth_logout not yet implemented"),
        CoreMessage::AuthRegister => stub_failure("auth_register not yet implemented"),
        CoreMessage::AuthGenOtp => stub_failure("auth_gen_otp not yet implemented"),
        CoreMessage::SendEmail { to, subject, body } => CoreStep::Mail(
            send_email(settings, to.as_str(), subject.as_str(), body.as_str()),
        ),
        CoreMessage::InitGoogle => CoreStep::InitGoogle,
        CoreMessage::SyncWithGoogle { add, name, date_time } => CoreStep::SyncWithGoogle {
            add,
            name,
            date_time,
        },
        CoreMessage::SecretGet { id } => {
            let found = match secrets {
                Some(s) => s.get(id),
                None => None,
            };
            CoreStep::Reply(CoreReply::Record(found))
        },
    }
}

/// What a store held in memory answers to a request, and what becomes of it. It
/// has no filters and no order but that of the ids.
pub fn serve(store: &mut StoreMemory, request: StoreRequest) -> (r: CoreReply)
    ensures
        match request {
            StoreRequest::AllItems { collection, .. } => {
                &&& r matches CoreReply::Page(lr)
                &&& lr.map@ == old(store)@.items(collection@)
                &&& lr.total_count == old(store)@.items(collection@).dom().len()
                &&& final(store)@ == old(store)@
            },
            StoreRequest::Items { collection, id_min, id_max, skip, limit, .. } => {
                &&& r matches CoreReply::Page(lr)
                &&& lr.map@ == store_memory::listed(
                    old(store)@.items(collection@),
                    id_min,
                    id_max,
                    skip,
                    limit,
                )
                &&& lr.total_count == paging::ranged(
                    store_memory::sorted_ids(old(store)@.items(collection@)),
                    id_min,
                    id_max,
                ).len()
                &&& final(store)@ == old(store)@
            },
            StoreRequest::Item { collection, id } => {
                &&& r matches CoreReply::Record(found)
                &&& found is Some == old(store)@.items(collection@).contains_key(id)
                &&& found matches Some(v) ==> v@ == old(store)@.items(collection@)[id]
                &&& final(store)@ == old(store)@
            },
            StoreRequest::SetItem { collection, item, merge } => {
                &&& r == CoreReply::Id(old(store)@.target(collection@, item@))
                &&& final(store)@ == old(store)@.after_set(collection@, item@, merge)
            },
            StoreRequest::DelItem { collection, id } => {
                &&& r == CoreReply::Flag(old(store)@.items(collection@).contains_key(id))
                &&& final(store)@ == if old(store)@.collections.contains_key(collection@) {
                    old(store)@.with_items(
                        collection@,
                        old(store)@.items(collection@).remove(id),
                    )
                } else {
                    old(store)@
                }
            },
            StoreRequest::Settings => {
                &&& r matches CoreReply::Settings(s)
                &&& s@ == old(store)@.settings
                &&& final(store)@ == old(store)@
            },
            StoreRequest::SetSettings { item } => {
                &&& r is Nothing
                &&& final(store)@ == (StoreView { settings: item@, ..old(store)@ })
            },
        },
{
    match request {
        StoreRequest::AllItems { collection, .. } => CoreReply::Page(
            store.get_all_items(collection.as_str()),
        ),
        StoreRequest::Items { collection, id_min, id_max, skip, limit, .. } => CoreReply::Page(
            store.get_items(collection.as_str(), id_min, id_max, skip, limit),
        ),
        StoreRequest::Item { collection, id } => CoreReply::Record(
            store.get_item(collection.as_str(), id),
        ),
        StoreRequest::SetItem { collection, item, merge } => CoreReply::Id(
            store.set_item(collection.as_str(), &item, merge),
        ),
        StoreRequest::DelItem { collection, id } => CoreReply::Flag(
            store.del_item(collection.as_str(), id),
        ),
        StoreRequest::Settings => CoreReply::Settings(store.get_settings()),
        StoreRequest::SetSettings { item } => {
            store.set_settings(item);
            CoreReply::Nothing
        },
    }
}

/// What is not to be had is answered at once, as a failure for its reason that brings
/// nothing.
pub proof fn what_a_refusal_answers(step: CoreStep, reason: Seq<char>, other: Seq<char>)
    requires
        failed_with(step, reason),
    ensures
        step matches CoreStep::Reply(CoreReply::Outcome(p)) && !p.succeeded && p.error@ == reason
            && p.data@.dom().is_empty(),
        failed_with(step, other) ==> other == reason,
{
}

} // verus!
