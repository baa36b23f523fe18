//! Changing a record, from the first question to the plugins to the answer.
//!
//! Whatever is asked of a plugin or of the store is an action; what comes back is
//! an event.
use crate::handler::route_call_actor;
use crate::handler::route_call_actor::{
    call_item_auth_hook_actor, call_item_pre_edit_hook_actor, PreEditReply,
};
use crate::item::{Item, ItemView, ProcessResult, UNSET_ID};
use crate::server::api_token;
use crate::server::api_token::hidden_from_item_api;
use crate::server::user_control;
use crate::server::user_control::session_generation;
use crate::state::connecting;
use crate::state::connecting::table_values;
use crate::state::route_cache;
use crate::state::route_cache::{hooks_to_call, RouteCache};
use crate::state::store;
use crate::state::store::merged;
use crate::text;
use crate::text::{decimal_string, owned, same, starts_with};
use vstd::prelude::*;

verus! {

/// What is done to a record.
#[derive(Clone, Copy, Debug, PartialEq, Eq, Structural)]
pub enum DataObjectAction {
    Create,
    Modify,
    Delete,
}

/// The answer to a change.
pub enum ItemAnswer {
    /// A bare status.
    Status(u16),
    /// A status with an outcome.
    Outcome(u16, ProcessResult),
}

/// The answer to a change.
#[verifier::ext_equal]
pub enum AnswerView {
    Status(u16),
    Outcome { status: u16, succeeded: bool, error: Seq<char>, data: Map<Seq<char>, Seq<char>> },
}

impl View for ItemAnswer {
    type V = AnswerView;

    open spec fn view(&self) -> AnswerView {
        match self {
            ItemAnswer::Status(s) => AnswerView::Status(*s),
            ItemAnswer::Outcome(s, p) => AnswerView::Outcome {
                status: *s,
                succeeded: p.succeeded,
                error: p.error@,
                data: p.data@,
            },
        }
    }
}

enum ChangePhase {
    Authorize(usize),
    Load,
    Agree(usize),
    Write,
    Tell(usize),
    Answered(ItemAnswer),
}

/// How far a change has come.
#[verifier::ext_equal]
pub enum PhaseView {
    /// The auth hooks before this one allow it.
    Authorize(int),
    /// All of them do; the record is read next.
    Load,
    /// The pre-edit hooks before this one agree.
    Agree(int),
    /// All of them do; the record is written or removed next.
    Write,
    /// The post-edit hooks before this one were told.
    Tell(int),
    Answered(AnswerView),
}

impl View for ChangePhase {
    type V = PhaseView;

    closed spec fn view(&self) -> PhaseView {
        match self {
            ChangePhase::Authorize(i) => PhaseView::Authorize(*i as int),
            ChangePhase::Load => PhaseView::Load,
            ChangePhase::Agree(i) => PhaseView::Agree(*i as int),
            ChangePhase::Write => PhaseView::Write,
            ChangePhase::Tell(i) => PhaseView::Tell(*i as int),
            ChangePhase::Answered(a) => PhaseView::Answered(a@),
        }
    }
}

/// What came back.
pub enum ChangeEvent {
    /// What the plugins answered to an auth hook.
    Auth(Vec<Option<bool>>),
    /// The record that is there.
    Loaded(Option<Item>),
    /// What the plugins answered to a pre-edit hook.
    Agreed(Vec<Option<PreEditReply>>),
    /// The id that the store gave the record; the largest there is, where it did
    /// not take it. Of no meaning for a removal.
    Written(u64),
    /// The plugins were told.
    Told,
}

/// What is to be done next.
pub enum ChangeAction {
    /// Ask an auth hook about the item that was sent.
    AskAuth(String),
    /// Read the record with this id.
    Load(u64),
    /// Ask a pre-edit hook about the item as it is now.
    AskPreEdit(String, DataObjectAction),
    /// Write this record.
    Write(Item),
    /// Remove the record with this id.
    Remove(u64),
    /// Tell a post-edit hook.
    TellPostEdit(String, DataObjectAction),
    /// Nothing: the answer is there.
    Answer,
}

/// A change under way.
pub struct ItemChange {
    removing: bool,
    collection: String,
    known: bool,
    merge: bool,
    role_prefix: String,
    sent: Item,
    item: Item,
    old: Option<Item>,
    stored: u64,
    auth: Vec<String>,
    pre: Vec<String>,
    post: Vec<String>,
    phase: ChangePhase,
}

/// A change under way.
#[verifier::ext_equal]
pub struct ChangeView {
    pub removing: bool,
    pub collection: Seq<char>,
    /// Whether there is such a collection of items.
    pub known: bool,
    pub merge: bool,
    /// The prefix that role flags have.
    pub role_prefix: Seq<char>,
    /// The item that was sent.
    pub sent: ItemView,
    /// The item as the plugins left it.
    pub item: ItemView,
    /// The record that was there.
    pub old: Option<ItemView>,
    pub stored: u64,
    pub auth: Seq<Seq<char>>,
    pub pre: Seq<Seq<char>>,
    pub post: Seq<Seq<char>>,
    pub phase: PhaseView,
}

impl View for ItemChange {
    type V = ChangeView;

    closed spec fn view(&self) -> ChangeView {
        ChangeView {
            removing: self.removing,
            collection: self.collection@,
            known: self.known,
            merge: self.merge,
            role_prefix: self.role_prefix@,
            sent: self.sent@,
            item: self.item@,
            old: user_control::opt_item(self.old),
            stored: self.stored,
            auth: text::views(self.auth@),
            pre: text::views(self.pre@),
            post: text::views(self.post@),
            phase: self.phase@,
        }
    }
}

// ---------------------------------------------------------------------------
// Signing an account out
// ---------------------------------------------------------------------------

/// Whether a flag is one of the role flags.
pub open spec fn role_flag(prefix: Seq<char>, k: Seq<char>) -> bool {
    prefix.is_prefix_of(k) || k == "role_is_active"@
}

/// Whether a write changes the password or a role of an account.
pub open spec fn signs_out(prefix: Seq<char>, was: ItemView, now: ItemView) -> bool {
    ||| was.str("password"@, Seq::empty()) != now.str("password"@, Seq::empty())
    ||| exists|k: Seq<char>|
        role_flag(prefix, k) && #[trigger] was.bool(k, false) != now.bool(k, false)
}

fn role_set_apart(prefix: &str, a: &Item, b: &Item) -> (r: bool)
    ensures
        r <==> exists|k: Seq<char>|
            a@.bools.contains_key(k) && role_flag(prefix@, k) && #[trigger] a@.bool(k, false)
                != b@.bool(k, false),
{
    let n: usize = a.bools.len();
    let ghost all = a.bools.pairs();
    let mut i: usize = 0;
    while i < n
        invariant
            i <= n,
            n == all.len(),
            all == a.bools.pairs(),
            crate::collections::distinct_keys(all),
            forall|j: int|
                0 <= j < i ==> !(role_flag(prefix@, (#[trigger] all[j]).0) && a@.bool(
                    all[j].0,
                    false,
                ) != b@.bool(all[j].0, false)),
        decreases n - i,
    {
        let k = a.bools.key(i);
        proof {
            crate::collections::map_of_has(all, i as int);
        }
        if (starts_with(k.as_str(), prefix) || same(k.as_str(), "role_is_active")) && a.safe_bool(
            k.as_str(),
            false,
        ) != b.safe_bool(k.as_str(), false) {
            proof {
                assert(a@.bools.contains_key(k@));
                assert(a@.bool(k@, false) != b@.bool(k@, false));
            }
            return true;
        }
        i = i + 1;
    }
    proof {
        if exists|k: Seq<char>|
            a@.bools.contains_key(k) && role_flag(prefix@, k) && #[trigger] a@.bool(k, false)
                != b@.bool(k, false) {
            let k = choose|k: Seq<char>|
                a@.bools.contains_key(k) && role_flag(prefix@, k) && #[trigger] a@.bool(k, false)
                    != b@.bool(k, false);
            let j = crate::collections::map_of_from(all, k);
            assert(all[j].0 == k);
        }
    }
    false
}

/// Whether a write changes the password or a role of an account.
pub fn changes_credentials(role_prefix: &str, was: &Item, now: &Item) -> (r: bool)
    ensures
        r == signs_out(role_prefix@, was@, now@),
{
    proof {
        reveal_strlit("");
        assert(""@ =~= Seq::<char>::empty());
    }
    if !same(was.safe_str("password", "").as_str(), now.safe_str("password", "").as_str()) {
        return true;
    }
    let r = role_set_apart(role_prefix, was, now) || role_set_apart(role_prefix, now, was);
    proof {
        if exists|k: Seq<char>|
            role_flag(role_prefix@, k) && #[trigger] was@.bool(k, false) != now@.bool(k, false) {
            let k = choose|k: Seq<char>|
                role_flag(role_prefix@, k) && #[trigger] was@.bool(k, false) != now@.bool(
                    k,
                    false,
                );
            assert(was@.bool(k, false) != now@.bool(k, false));
            assert(now@.bool(k, false) != was@.bool(k, false));
            assert(was@.bools.contains_key(k) || now@.bools.contains_key(k));
        }
        if exists|k: Seq<char>|
            now@.bools.contains_key(k) && role_flag(role_prefix@, k) && #[trigger] now@.bool(
                k,
                false,
            ) != was@.bool(k, false) {
            let k = choose|k: Seq<char>|
                now@.bools.contains_key(k) && role_flag(role_prefix@, k) && #[trigger] now@.bool(
                    k,
                    false,
                ) != was@.bool(k, false);
            assert(was@.bool(k, false) != now@.bool(k, false));
        }
    }
    r
}

/// The generation after one.
pub open spec fn next_generation(g: u64) -> u64 {
    if g == u64::MAX {
        g
    } else {
        (g + 1) as u64
    }
}

impl ChangeView {
    /// The record that is handed to the store. A write that changes the password
    /// or a role of an account moves the account to its next generation.
    pub open spec fn to_write(self) -> ItemView {
        match self.old {
            Some(was) => if self.collection == "user"@ && signs_out(
                self.role_prefix,
                was,
                store::written(self.item, Some(was), self.merge),
            ) {
                self.item.with_u64("session_gen"@, next_generation(user_control::generation(was)))
            } else {
                self.item
            },
            None => self.item,
        }
    }

    /// What is done to the record, as the plugins are told.
    pub open spec fn doing(self) -> DataObjectAction {
        if self.removing {
            DataObjectAction::Delete
        } else if self.old is Some {
            DataObjectAction::Modify
        } else {
            DataObjectAction::Create
        }
    }

    // -----------------------------------------------------------------------
    // Steps
    // -----------------------------------------------------------------------
    /// With the auth hooks before this one content.
    pub open spec fn authorizing(self, i: int) -> PhaseView {
        if i < self.auth.len() {
            PhaseView::Authorize(i)
        } else if self.known {
            PhaseView::Load
        } else {
            PhaseView::Answered(AnswerView::Status(400))
        }
    }

    /// With the pre-edit hooks before this one content.
    pub open spec fn agreeing(self, i: int) -> PhaseView {
        if i < self.pre.len() {
            PhaseView::Agree(i)
        } else {
            PhaseView::Write
        }
    }

    /// With the post-edit hooks before this one told.
    pub open spec fn telling(self, i: int) -> PhaseView {
        if i < self.post.len() {
            PhaseView::Tell(i)
        } else {
            PhaseView::Answered(self.done())
        }
    }

    /// The answer to a change that was made.
    pub open spec fn done(self) -> AnswerView {
        if self.removing {
            AnswerView::Status(200)
        } else if self.stored == UNSET_ID {
            AnswerView::Outcome {
                status: 500,
                succeeded: false,
                error: "The item was not stored"@,
                data: Map::empty(),
            }
        } else {
            AnswerView::Outcome {
                status: 200,
                succeeded: true,
                error: Seq::empty(),
                data: Map::empty().insert("id"@, text::decimal(self.stored as nat)),
            }
        }
    }

    /// What always holds: the collection of the tokens does not count as one of
    /// items, and the hook that is asked is one of those there are.
    pub open spec fn valid(self) -> bool {
        &&& self.known ==> self.collection != api_token::COLLECTION@
        &&& match self.phase {
            PhaseView::Authorize(i) => 0 <= i < self.auth.len(),
            PhaseView::Load => self.known,
            PhaseView::Agree(i) => self.known && 0 <= i < self.pre.len(),
            PhaseView::Write => self.known,
            PhaseView::Tell(i) => self.known && 0 <= i < self.post.len(),
            PhaseView::Answered(_) => true,
        }
    }

    /// Whether this is what came back of what was to be done.
    pub open spec fn expects(self, event: ChangeEvent) -> bool {
        match self.phase {
            PhaseView::Authorize(_) => event is Auth,
            PhaseView::Load => event is Loaded,
            PhaseView::Agree(_) => event is Agreed,
            PhaseView::Write => event is Written,
            PhaseView::Tell(_) => event is Told,
            PhaseView::Answered(_) => false,
        }
    }

    /// The change after an event that was expected.
    pub open spec fn after(self, event: ChangeEvent) -> ChangeView {
        match (self.phase, event) {
            (PhaseView::Authorize(i), ChangeEvent::Auth(replies)) => ChangeView {
                phase: if replies@.contains(Some(false)) {
                    PhaseView::Answered(AnswerView::Status(403))
                } else {
                    self.authorizing(i + 1)
                },
                ..self
            },
            (PhaseView::Load, ChangeEvent::Loaded(old)) => ChangeView {
                old: user_control::opt_item(old),
                phase: self.agreeing(0),
                ..self
            },
            (PhaseView::Agree(i), ChangeEvent::Agreed(replies)) => {
                let n = route_call_actor::asked(replies@);
                ChangeView {
                    item: route_call_actor::item_after_all(self.item, replies@.take(n)),
                    phase: if n > 0 && route_call_actor::refuses(replies@[n - 1]) {
                        PhaseView::Answered(
                            ItemAnswer::Outcome(200, replies@[n - 1]->Some_0.result)@,
                        )
                    } else {
                        self.agreeing(i + 1)
                    },
                    ..self
                }
            },
            (PhaseView::Write, ChangeEvent::Written(id)) => {
                let next = ChangeView { stored: id, ..self };
                ChangeView { phase: next.telling(0), ..next }
            },
            (PhaseView::Tell(i), ChangeEvent::Told) => ChangeView {
                phase: self.telling(i + 1),
                ..self
            },
            _ => self,
        }
    }
}

impl ItemChange {
    fn authorizing(&self, i: usize) -> (r: ChangePhase)
        requires
            i <= self.auth.len(),
        ensures
            r@ == self@.authorizing(i as int),
    {
        if i < self.auth.len() {
            ChangePhase::Authorize(i)
        } else if self.known {
            ChangePhase::Load
        } else {
            ChangePhase::Answered(ItemAnswer::Status(400))
        }
    }

    fn agreeing(&self, i: usize) -> (r: ChangePhase)
        requires
            i <= self.pre.len(),
        ensures
            r@ == self@.agreeing(i as int),
    {
        if i < self.pre.len() {
            ChangePhase::Agree(i)
        } else {
            ChangePhase::Write
        }
    }

    fn telling(&self, i: usize) -> (r: ChangePhase)
        requires
            i <= self.post.len(),
        ensures
            r@ == self@.telling(i as int),
    {
        if i < self.post.len() {
            return ChangePhase::Tell(i);
        }
        if self.removing {
            return ChangePhase::Answered(ItemAnswer::Status(200));
        }
        if self.stored == UNSET_ID {
            return ChangePhase::Answered(
                ItemAnswer::Outcome(500, ProcessResult::plain(false, "The item was not stored")),
            );
        }
        let mut outcome = ProcessResult::plain(true, "");
        proof {
            reveal_strlit("");
            assert(""@ =~= Seq::<char>::empty());
        }
        outcome.data.insert(owned("id"), decimal_string(self.stored));
        ChangePhase::Answered(ItemAnswer::Outcome(200, outcome))
    }

    /// Takes in what came back.
    pub fn on(&mut self, event: ChangeEvent)
        requires
            old(self)@.valid(),
            old(self)@.expects(event),
        ensures
            final(self)@ == old(self)@.after(event),
            final(self)@.valid(),
    {
        match (&self.phase, event) {
            (ChangePhase::Authorize(i), ChangeEvent::Auth(replies)) => {
                proof {
                    assert(self.auth.len() <= usize::MAX);
                }
                let next: usize = *i + 1;
                let allowed = call_item_auth_hook_actor(&replies);
                self.phase = if allowed {
                    self.authorizing(next)
                } else {
                    ChangePhase::Answered(ItemAnswer::Status(403))
                };
            },
            (ChangePhase::Load, ChangeEvent::Loaded(found)) => {
                self.old = found;
                self.phase = self.agreeing(0);
            },
            (ChangePhase::Agree(i), ChangeEvent::Agreed(replies)) => {
                proof {
                    assert(self.pre.len() <= usize::MAX);
                }
                let next: usize = *i + 1;
                let ghost given = replies@;
                let outcome = call_item_pre_edit_hook_actor(&mut self.item, replies);
                proof {
                    let n = route_call_actor::asked(given);
                    if n > 0 && route_call_actor::refuses(given[n - 1]) {
                        assert(!outcome.succeeded);
                    }
                }
                self.phase = if outcome.succeeded {
                    self.agreeing(next)
                } else {
                    ChangePhase::Answered(ItemAnswer::Outcome(200, outcome))
                };
            },
            (ChangePhase::Write, ChangeEvent::Written(id)) => {
                self.stored = id;
                self.phase = self.telling(0);
            },
            (ChangePhase::Tell(i), ChangeEvent::Told) => {
                proof {
                    assert(self.post.len() <= usize::MAX);
                }
                let next: usize = *i + 1;
                self.phase = self.telling(next);
            },
            _ => {},
        }
    }

    /// What is to be done next.
    pub fn action(&self) -> (r: ChangeAction)
        requires
            self@.valid(),
        ensures
            match self@.phase {
                PhaseView::Authorize(i) => r matches ChangeAction::AskAuth(h) && h@
                    == self@.auth[i],
                PhaseView::Load => r matches ChangeAction::Load(id) && id == self@.sent.id,
                PhaseView::Agree(i) => r matches ChangeAction::AskPreEdit(h, what) && h@
                    == self@.pre[i] && what == self@.doing(),
                PhaseView::Write => if self@.removing {
                    r matches ChangeAction::Remove(id) && id == self@.sent.id
                } else {
                    r matches ChangeAction::Write(itm) && itm@ == self@.to_write()
                },
                PhaseView::Tell(i) => r matches ChangeAction::TellPostEdit(h, what) && h@
                    == self@.post[i] && what == self@.doing(),
                PhaseView::Answered(_) => r is Answer,
            },
    {
        match &self.phase {
            ChangePhase::Authorize(i) => {
                proof {
                    assert(text::views(self.auth@)[*i as int] == self.auth@[*i as int]@);
                }
                ChangeAction::AskAuth(self.auth[*i].clone())
            },
            ChangePhase::Load => ChangeAction::Load(self.sent.id),
            ChangePhase::Agree(i) => {
                proof {
                    assert(text::views(self.pre@)[*i as int] == self.pre@[*i as int]@);
                }
                ChangeAction::AskPreEdit(self.pre[*i].clone(), self.doing())
            },
            ChangePhase::Write => if self.removing {
                ChangeAction::Remove(self.sent.id)
            } else {
                ChangeAction::Write(self.record_to_write())
            },
            ChangePhase::Tell(i) => {
                proof {
                    assert(text::views(self.post@)[*i as int] == self.post@[*i as int]@);
                }
                ChangeAction::TellPostEdit(self.post[*i].clone(), self.doing())
            },
            ChangePhase::Answered(_) => ChangeAction::Answer,
        }
    }

    fn record_to_write(&self) -> (r: Item)
        ensures
            r@ == self@.to_write(),
    {
        let mut itm = self.item.clone();
        match &self.old {
            Some(was) => {
                if same(self.collection.as_str(), "user") {
                    let left = merged(&self.item, Some(was), self.merge);
                    if changes_credentials(self.role_prefix.as_str(), was, &left) {
                        itm.set_u64("session_gen", session_generation(was).saturating_add(1));
                    }
                }
            },
            None => {},
        }
        itm
    }

    fn doing(&self) -> (r: DataObjectAction)
        ensures
            r == self@.doing(),
    {
        if self.removing {
            DataObjectAction::Delete
        } else if self.old.is_some() {
            DataObjectAction::Modify
        } else {
            DataObjectAction::Create
        }
    }

    /// The item as the plugins left it.
    pub fn item(&self) -> (r: &Item)
        ensures
            r@ == self@.item,
    {
        &self.item
    }

    /// The record that was there.
    pub fn old_item(&self) -> (r: Option<&Item>)
        ensures
            match r {
                Some(i) => self@.old == Some(i@),
                None => self@.old is None,
            },
    {
        match &self.old {
            Some(i) => Some(i),
            None => None,
        }
    }

    /// The answer, once there is one.
    pub fn into_answer(self) -> (r: Option<ItemAnswer>)
        ensures
            match r {
                Some(a) => self@.phase == PhaseView::Answered(a@),
                None => !(self@.phase is Answered),
            },
    {
        match self.phase {
            ChangePhase::Answered(a) => Some(a),
            _ => None,
        }
    }
}

/// A change before anything was asked.
pub open spec fn fresh(v: ChangeView) -> bool {
    v.phase == v.authorizing(0) && v.old is None
}

/// Whether handlers are those of an auth table of the internals, in an order in
/// which it can be read.
pub open spec fn auth_hooks_of(internals: ItemView, handlers: Seq<Seq<char>>) -> bool {
    exists|order: Seq<Seq<char>>| #[trigger]
        route_cache::reading_order(route_cache::table(internals, "itm_auth_hook"@), order)
            && handlers == connecting::values_read(
            route_cache::table(internals, "itm_auth_hook"@),
            order,
        )
}

fn begin(
    removing: bool,
    collection: &str,
    known: bool,
    merge: bool,
    sent: Item,
    item: Item,
    internals: &Item,
    cache: &RouteCache,
) -> (r: ItemChange)
    ensures
        r@.removing == removing,
        r@.collection == collection@,
        r@.known == (known && collection@ != api_token::COLLECTION@),
        r@.merge == merge,
        r@.role_prefix == user_control::role_prefix(internals@),
        r@.sent == sent@,
        r@.item == item@,
        auth_hooks_of(internals@, r@.auth),
        r@.pre == route_cache::hooks_for(
            cache.item_pre_edit@,
            text::views(cache.item_pre_edit_wildcard@),
            collection@,
        ),
        r@.post == route_cache::hooks_for(
            cache.item_post_edit@,
            text::views(cache.item_post_edit_wildcard@),
            collection@,
        ),
        fresh(r@),
        r@.valid(),
{
    let mut change = ItemChange {
        removing,
        collection: owned(collection),
        known: known && !hidden_from_item_api(collection),
        merge,
        role_prefix: internals.safe_str("user_role_prefix", "role_is_"),
        sent,
        item,
        old: None,
        stored: UNSET_ID,
        auth: table_values(internals, "itm_auth_hook"),
        pre: hooks_to_call(&cache.item_pre_edit, &cache.item_pre_edit_wildcard, collection),
        post: hooks_to_call(&cache.item_post_edit, &cache.item_post_edit_wildcard, collection),
        phase: ChangePhase::Load,
    };
    change.phase = change.authorizing(0);
    change
}

/// Begins to create or edit a record. `sent` is the item that was sent, and
/// `normalized` the same item with its negated fields resolved: the auth hooks
/// see the one, and everything after them the other.
pub fn itm_edit(
    collection: &str,
    known: bool,
    merge: bool,
    sent: Item,
    normalized: Item,
    internals: &Item,
    cache: &RouteCache,
) -> (r: ItemChange)
    ensures
        !r@.removing,
        r@.collection == collection@,
        r@.known == (known && collection@ != api_token::COLLECTION@),
        r@.merge == merge,
        r@.role_prefix == user_control::role_prefix(internals@),
        r@.sent == sent@,
        r@.item == normalized@,
        auth_hooks_of(internals@, r@.auth),
        r@.pre == route_cache::hooks_for(
            cache.item_pre_edit@,
            text::views(cache.item_pre_edit_wildcard@),
            collection@,
        ),
        r@.post == route_cache::hooks_for(
            cache.item_post_edit@,
            text::views(cache.item_post_edit_wildcard@),
            collection@,
        ),
        fresh(r@),
        r@.valid(),
{
    begin(false, collection, known, merge, sent, normalized, internals, cache)
}

/// Begins to remove a record. The pre-edit hooks see an empty item.
pub fn itm_del(
    collection: &str,
    known: bool,
    merge: bool,
    sent: Item,
    internals: &Item,
    cache: &RouteCache,
) -> (r: ItemChange)
    ensures
        r@.removing,
        r@.collection == collection@,
        r@.known == (known && collection@ != api_token::COLLECTION@),
        r@.merge == merge,
        r@.role_prefix == user_control::role_prefix(internals@),
        r@.sent == sent@,
        r@.item == ItemView::empty(),
        auth_hooks_of(internals@, r@.auth),
        r@.pre == route_cache::hooks_for(
            cache.item_pre_edit@,
            text::views(cache.item_pre_edit_wildcard@),
            collection@,
        ),
        r@.post == route_cache::hooks_for(
            cache.item_post_edit@,
            text::views(cache.item_post_edit_wildcard@),
            collection@,
        ),
        fresh(r@),
        r@.valid(),
{
    begin(true, collection, known, merge, sent, Item::new(), internals, cache)
}

/// Takes a field of a form into the item that it describes. Only the field `item`
/// counts, and what it holds wins over what was there.
pub fn take_field(itm: &mut Item, field_name: &str, held: &Item)
    ensures
        final(itm)@ == if field_name@ == "item"@ {
            old(itm)@.overlaid(held@)
        } else {
            old(itm)@
        },
{
    if same(field_name, "item") {
        itm.merge(held);
    }
}

// ---------------------------------------------------------------------------
// Laws
// ---------------------------------------------------------------------------

/// A change after events.
pub open spec fn run(start: ChangeView, events: Seq<ChangeEvent>) -> ChangeView
    decreases events.len(),
{
    if events.len() == 0 {
        start
    } else {
        run(start, events.drop_last()).after(events.last())
    }
}

/// Whether every event was expected when it came.
pub open spec fn in_turn(start: ChangeView, events: Seq<ChangeEvent>) -> bool
    decreases events.len(),
{
    events.len() == 0 || (in_turn(start, events.drop_last()) && run(
        start,
        events.drop_last(),
    ).expects(events.last()))
}

/// Whether an event lets a change go on.
pub open spec fn goes_on(event: ChangeEvent) -> bool {
    match event {
        ChangeEvent::Auth(replies) => !replies@.contains(Some(false)),
        ChangeEvent::Agreed(replies) => forall|i: int|
            0 <= i < replies@.len() ==> !route_call_actor::refuses(#[trigger] replies@[i]),
        _ => true,
    }
}

/// Whether these are the events up to a write, and each let the change go on: every
/// auth hook was asked, the record was read, and every pre-edit hook was asked.
pub open spec fn agreed_to(start: ChangeView, events: Seq<ChangeEvent>) -> bool {
    let a = start.auth.len() as int;
    let p = start.pre.len() as int;
    &&& events.len() == a + 1 + p
    &&& forall|i: int| 0 <= i < a ==> (#[trigger] events[i]) is Auth
    &&& events[a] is Loaded
    &&& forall|i: int| a < i <= a + p ==> (#[trigger] events[i]) is Agreed
    &&& forall|i: int| 0 <= i < events.len() ==> goes_on(#[trigger] events[i])
}

/// What holds after events that came in turn.
spec fn so_far(start: ChangeView, events: Seq<ChangeEvent>) -> bool {
    let now = run(start, events);
    let a = start.auth.len() as int;
    let p = start.pre.len() as int;
    let n = events.len() as int;
    &&& now.auth == start.auth && now.pre == start.pre && now.post == start.post && now.known
        == start.known && now.removing == start.removing
    &&& match now.phase {
        PhaseView::Authorize(i) => i == n && 0 <= i < a,
        PhaseView::Load => n == a && start.known,
        PhaseView::Agree(i) => n == a + 1 + i && 0 <= i < p && start.known,
        PhaseView::Write => n == a + 1 + p && start.known,
        PhaseView::Tell(i) => n == a + 2 + p + i && 0 <= i < start.post.len() && start.known,
        PhaseView::Answered(_) => true,
    }
    &&& !(now.phase is Answered) ==> {
        &&& forall|i: int| 0 <= i < a && i < n ==> (#[trigger] events[i]) is Auth
        &&& n > a ==> events[a] is Loaded
        &&& forall|i: int| a < i <= a + p && i < n ==> (#[trigger] events[i]) is Agreed
        &&& forall|i: int| 0 <= i < n ==> goes_on(#[trigger] events[i])
    }
}

proof fn progress(start: ChangeView, events: Seq<ChangeEvent>)
    requires
        fresh(start),
        in_turn(start, events),
    ensures
        so_far(start, events),
    decreases events.len(),
{
    if events.len() > 0 {
        let before = events.drop_last();
        let e = events.last();
        progress(start, before);
        assert(events[events.len() - 1] == e);
        assert forall|i: int| 0 <= i < before.len() implies #[trigger] events[i] == before[i] by {}
        match e {
            ChangeEvent::Agreed(replies) => {
                route_call_actor::one_refusal_is_enough(replies@);
            },
            _ => {},
        }
    }
}

/// Nothing is written or removed unless every auth hook allowed it and every
/// pre-edit hook agreed to it, and there is such a collection. A token is never
/// written or removed this way.
pub proof fn nothing_is_written_unasked(start: ChangeView, events: Seq<ChangeEvent>, j: int)
    requires
        fresh(start),
        start.valid(),
        in_turn(start, events),
        0 <= j < events.len(),
        events[j] is Written,
    ensures
        start.known,
        start.collection != api_token::COLLECTION@,
        agreed_to(start, events.take(j)),
    decreases events.len(),
{
    let before = events.drop_last();
    if j < before.len() {
        nothing_is_written_unasked(start, before, j);
        assert(before.take(j) =~= events.take(j));
    } else {
        progress(start, before);
        assert(before =~= events.take(j));
    }
}

/// What everyone agrees to is written, or removed.
pub proof fn agreed_change_is_made(start: ChangeView, events: Seq<ChangeEvent>)
    requires
        fresh(start),
        in_turn(start, events),
        start.known,
        agreed_to(start, events),
    ensures
        run(start, events).phase is Write,
{
    unrefused(start, events);
    progress(start, events);
}

proof fn unrefused(start: ChangeView, events: Seq<ChangeEvent>)
    requires
        fresh(start),
        in_turn(start, events),
        start.known,
        events.len() <= start.auth.len() + 1 + start.pre.len(),
        forall|i: int| 0 <= i < events.len() ==> goes_on(#[trigger] events[i]),
    ensures
        !(run(start, events).phase is Answered),
    decreases events.len(),
{
    if events.len() > 0 {
        let before = events.drop_last();
        let e = events.last();
        assert(events[events.len() - 1] == e);
        assert forall|i: int| 0 <= i < before.len() implies goes_on(#[trigger] before[i]) by {
            assert(before[i] == events[i]);
        }
        unrefused(start, before);
        progress(start, before);
        match e {
            ChangeEvent::Agreed(replies) => {
                route_call_actor::one_refusal_is_enough(replies@);
            },
            _ => {},
        }
    }
}

/// Once there is an answer, nothing more is asked, written or told.
pub proof fn an_answer_is_the_end(v: ChangeView, event: ChangeEvent)
    requires
        v.phase is Answered,
    ensures
        !v.expects(event),
        v.after(event) == v,
{
}

/// A write that changes the password or a role of an account ends every session
/// the account has.
pub proof fn changed_credentials_end_sessions(v: ChangeView, was: ItemView)
    requires
        v.collection == "user"@,
        v.old == Some(was),
        signs_out(v.role_prefix, was, store::written(v.item, Some(was), v.merge)),
        user_control::generation(was) < u64::MAX,
    ensures
        user_control::generation(store::written(v.to_write(), Some(was), v.merge))
            > user_control::generation(was),
{
}

/// A change keeps what it is about, whatever happens, and holds the record that
/// was read from when it was read on.
proof fn what_is_kept(start: ChangeView, events: Seq<ChangeEvent>)
    requires
        fresh(start),
        in_turn(start, events),
    ensures
        ({
            let now = run(start, events);
            let a = start.auth.len() as int;
            &&& now.removing == start.removing
            &&& now.collection == start.collection
            &&& now.merge == start.merge
            &&& now.role_prefix == start.role_prefix
            &&& now.sent == start.sent
            &&& now.known == start.known
            &&& events.len() > a && events[a] is Loaded ==> now.old == user_control::opt_item(
                events[a]->Loaded_0,
            )
        }),
    decreases events.len(),
{
    if events.len() > 0 {
        let before = events.drop_last();
        what_is_kept(start, before);
        progress(start, before);
        let a = start.auth.len() as int;
        let n = events.len() - 1;
        assert(events.last() == events[n]);
        if a < n {
            assert(before[a] == events[a]);
        }
    }
}

/// What the plugins are told is being done: a removal is a removal whatever the
/// store holds, and of anything else they are told that a record is changed just
/// where the store held one under the id that was sent, and that one is made just
/// where it held none.
pub proof fn plugins_are_told_what_is_done(
    start: ChangeView,
    events: Seq<ChangeEvent>,
    found: Option<Item>,
)
    requires
        fresh(start),
        in_turn(start, events),
        events.len() > start.auth.len(),
        events[start.auth.len() as int] == ChangeEvent::Loaded(found),
    ensures
        ({
            let told = run(start, events).doing();
            &&& told == DataObjectAction::Delete <==> start.removing
            &&& told == DataObjectAction::Modify <==> !start.removing && found is Some
            &&& told == DataObjectAction::Create <==> !start.removing && found is None
        }),
{
    what_is_kept(start, events);
}

/// The item is the one that was sent until a plugin wants it otherwise.
pub proof fn only_plugins_change_the_item(v: ChangeView, event: ChangeEvent)
    ensures
        !(event is Agreed) ==> v.after(event).item == v.item,
        event matches ChangeEvent::Agreed(replies) ==> (forall|i: int|
            0 <= i < replies@.len() ==> ((#[trigger] replies@[i]) is None
                || replies@[i]->Some_0.modified_item is None)) ==> v.after(event).item == v.item,
{
    match event {
        ChangeEvent::Agreed(replies) => {
            route_call_actor::one_refusal_is_enough(replies@);
            let n = route_call_actor::asked(replies@);
            if forall|i: int|
                0 <= i < replies@.len() ==> ((#[trigger] replies@[i]) is None
                    || replies@[i]->Some_0.modified_item is None) {
                route_call_actor::untouched_stays(v.item, replies@.take(n));
            }
        },
        _ => {},
    }
}

/// What is written is the item, with nothing added but the generation of an
/// account that is signed out by it: a new record and a record of any other
/// collection are written as they are.
pub proof fn the_item_is_what_is_written(v: ChangeView)
    ensures
        v.to_write().id == v.item.id,
        v.to_write().strs == v.item.strs,
        v.to_write().strstrs == v.item.strstrs,
        v.to_write().strids == v.item.strids,
        v.to_write().bools == v.item.bools,
        v.to_write().ids == v.item.ids,
        forall|k: Seq<char>|
            k != "session_gen"@ ==> #[trigger] v.to_write().u64s.get(k) == v.item.u64s.get(k),
        v.collection != "user"@ || v.old is None ==> v.to_write() == v.item,
{
}

/// An account is signed out by a new password, and by a role that is given or
/// taken, and by nothing else.
pub proof fn signing_out_is_for_credentials(prefix: Seq<char>, was: ItemView, now: ItemView)
    ensures
        was.str("password"@, Seq::empty()) != now.str("password"@, Seq::empty()) ==> signs_out(
            prefix,
            was,
            now,
        ),
        forall|role: Seq<char>| #[trigger]
            was.bool(prefix + role, false) != now.bool(prefix + role, false) ==> signs_out(
                prefix,
                was,
                now,
            ),
        was.bool("role_is_active"@, false) != now.bool("role_is_active"@, false) ==> signs_out(
            prefix,
            was,
            now,
        ),
        was.str("password"@, Seq::empty()) == now.str("password"@, Seq::empty()) && (forall|
            k: Seq<char>,
        |
            (k == "role_is_active"@ || prefix.is_prefix_of(k)) ==> #[trigger] was.bool(k, false)
                == now.bool(k, false)) ==> !signs_out(prefix, was, now),
{
    assert forall|role: Seq<char>| #[trigger]
        was.bool(prefix + role, false) != now.bool(prefix + role, false) implies signs_out(
        prefix,
        was,
        now,
    ) by {
        assert((prefix + role).subrange(0, prefix.len() as int) =~= prefix);
        assert(role_flag(prefix, prefix + role));
    }
    assert(role_flag(prefix, "role_is_active"@));
}

/// One plugin that denies a change ends it as forbidden, and a collection that is
/// not there ends it as a bad request, once nobody denies it.
pub proof fn refusals_are_answered(v: ChangeView, i: int, replies: Vec<Option<bool>>)
    requires
        v.phase == PhaseView::Authorize(i),
        v.valid(),
    ensures
        replies@.contains(Some(false)) ==> v.after(ChangeEvent::Auth(replies)).phase
            == PhaseView::Answered(AnswerView::Status(403)),
        !replies@.contains(Some(false)) && i + 1 < v.auth.len() ==> v.after(
            ChangeEvent::Auth(replies),
        ).phase == PhaseView::Authorize(i + 1),
        !replies@.contains(Some(false)) && i + 1 == v.auth.len() ==> v.after(
            ChangeEvent::Auth(replies),
        ).phase == (if v.known {
            PhaseView::Load
        } else {
            PhaseView::Answered(AnswerView::Status(400))
        }),
{
}

/// A change that a plugin refuses is answered with what that plugin said, and
/// one that is agreed to goes on to the next hook, or to the write after the last.
pub proof fn plugin_refusals_are_answered(
    v: ChangeView,
    i: int,
    replies: Vec<Option<PreEditReply>>,
    k: int,
)
    requires
        v.phase == PhaseView::Agree(i),
        v.valid(),
        0 <= k <= replies@.len(),
        forall|j: int| 0 <= j < k ==> !route_call_actor::refuses(#[trigger] replies@[j]),
    ensures
        k < replies@.len() && route_call_actor::refuses(replies@[k]) ==> v.after(
            ChangeEvent::Agreed(replies),
        ).phase == PhaseView::Answered(
            AnswerView::Outcome {
                status: 200,
                succeeded: false,
                error: replies@[k]->Some_0.result.error@,
                data: replies@[k]->Some_0.result.data@,
            },
        ),
        k == replies@.len() ==> v.after(ChangeEvent::Agreed(replies)).phase == (if i + 1
            < v.pre.len() {
            PhaseView::Agree(i + 1)
        } else {
            PhaseView::Write
        }),
{
    route_call_actor::asked_up_to(replies@, k);
}

/// What was written is answered with its id once every post-edit hook was told; a
/// record that the store did not take is answered as an error, and a removal with
/// nothing but its success.
pub proof fn a_made_change_is_answered(v: ChangeView, id: u64)
    requires
        v.phase is Write,
    ensures
        ({
            let next = v.after(ChangeEvent::Written(id));
            let answer = if v.removing {
                AnswerView::Status(200)
            } else if id == u64::MAX {
                AnswerView::Outcome {
                    status: 500,
                    succeeded: false,
                    error: "The item was not stored"@,
                    data: Map::empty(),
                }
            } else {
                AnswerView::Outcome {
                    status: 200,
                    succeeded: true,
                    error: Seq::empty(),
                    data: Map::empty().insert("id"@, text::decimal(id as nat)),
                }
            };
            &&& next.stored == id
            &&& v.post.len() == 0 ==> next.phase == PhaseView::Answered(answer)
            &&& v.post.len() > 0 ==> next.phase == PhaseView::Tell(0)
        }),
{
}

/// The post-edit hooks are told one after the other, each once, and the answer
/// comes after the last.
pub proof fn every_hook_is_told(v: ChangeView, i: int)
    requires
        v.phase == PhaseView::Tell(i),
        v.valid(),
    ensures
        i + 1 < v.post.len() ==> v.after(ChangeEvent::Told).phase == PhaseView::Tell(i + 1),
        i + 1 == v.post.len() ==> v.after(ChangeEvent::Told).phase == PhaseView::Answered(v.done()),
        v.after(ChangeEvent::Told).stored == v.stored,
        v.after(ChangeEvent::Told).old == v.old,
{
}

/// What is answered tells a change that worked from one that did not.
pub proof fn answers_tell_success(v: ChangeView)
    ensures
        v.removing ==> v.done() == AnswerView::Status(200),
        !v.removing ==> v.done() is Outcome,
        !v.removing ==> (v.done()->succeeded <==> v.stored != u64::MAX),
        !v.removing ==> (v.done()->Outcome_status == (if v.stored == u64::MAX {
            500u16
        } else {
            200u16
        })),
        !v.removing && v.stored != u64::MAX ==> v.done()->Outcome_data.contains_key("id"@)
            && v.done()->Outcome_data["id"@] == text::decimal(v.stored as nat),
{
}

/// The auth hooks are the values of their table, each entry's once.
pub proof fn which_auth_hooks_are_asked(
    internals: ItemView,
    handlers: Seq<Seq<char>>,
    handler: Seq<char>,
)
    requires
        auth_hooks_of(internals, handlers),
    ensures
        internals.strstrs.contains_key("itm_auth_hook"@) ==> (handlers.contains(handler)
            <==> exists|k: Seq<char>|
            internals.strstrs["itm_auth_hook"@].contains_key(k) && (
            #[trigger] internals.strstrs["itm_auth_hook"@][k]) == handler),
        !internals.strstrs.contains_key("itm_auth_hook"@) ==> handlers.len() == 0,
{
    let t = route_cache::table(internals, "itm_auth_hook"@);
    let order = choose|order: Seq<Seq<char>>| #[trigger]
        route_cache::reading_order(t, order) && handlers == connecting::values_read(t, order);
    assert(handlers.len() == order.len());
    if handlers.contains(handler) {
        let i = choose|i: int| 0 <= i < handlers.len() && handlers[i] == handler;
        assert(order.to_set().contains(order[i]));
        assert(t[order[i]] == handler);
    }
    if internals.strstrs.contains_key("itm_auth_hook"@) {
        if exists|k: Seq<char>| t.contains_key(k) && (#[trigger] t[k]) == handler {
            let k = choose|k: Seq<char>| t.contains_key(k) && (#[trigger] t[k]) == handler;
            assert(order.to_set().contains(k));
            let i = choose|i: int| 0 <= i < order.len() && order[i] == k;
            assert(handlers[i] == handler);
        }
    } else if order.len() > 0 {
        assert(order.to_set().contains(order[0]));
    }
}

} // verus!
