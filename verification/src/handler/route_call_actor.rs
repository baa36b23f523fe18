//! What the answers of several plugins to one hook come to.
//!
//! Every plugin is asked in turn. One that is gone, or drops the question,
//! answers nothing and is passed over.
use crate::collections::IdMap;
use crate::handler::web_response::WebResponse;
use crate::item::{Item, ItemView, ProcessResult};
use crate::text;
use crate::text::same;
use vstd::prelude::*;

verus! {

// ---------------------------------------------------------------------------
// Before an edit
// ---------------------------------------------------------------------------

/// What a plugin answers before an edit: whether it agrees, and the item as it
/// wants it, where it wants it otherwise.
pub struct PreEditReply {
    pub result: ProcessResult,
    pub modified_item: Option<Item>,
}

/// Whether an answer refuses the edit. To say that the hook is not implemented
/// is not to refuse.
pub open spec fn refuses(reply: Option<PreEditReply>) -> bool {
    reply is Some && !reply->Some_0.result.succeeded && reply->Some_0.result.error@
        != "not implemented"@
}

/// The item after an answer.
pub open spec fn item_after(item: ItemView, reply: Option<PreEditReply>) -> ItemView {
    match reply {
        Some(r) => match r.modified_item {
            Some(m) => m@,
            None => item,
        },
        None => item,
    }
}

/// Takes one answer in. Returns the refusal, where it is one; the next plugin is
/// asked about the item as it is then.
pub fn pre_edit_step(itm: &mut Item, reply: Option<PreEditReply>) -> (r: Option<ProcessResult>)
    ensures
        final(itm)@ == item_after(old(itm)@, reply),
        r is Some == refuses(reply),
        r is Some ==> r->Some_0 == reply->Some_0.result,
{
    match reply {
        Some(PreEditReply { result, modified_item }) => {
            match modified_item {
                Some(m) => {
                    *itm = m;
                },
                None => {},
            }
            if !result.succeeded && !same(result.error.as_str(), "not implemented") {
                Some(result)
            } else {
                None
            }
        },
        None => None,
    }
}

/// The item after answers.
pub open spec fn item_after_all(item: ItemView, replies: Seq<Option<PreEditReply>>) -> ItemView
    decreases replies.len(),
{
    if replies.len() == 0 {
        item
    } else {
        item_after(item_after_all(item, replies.drop_last()), replies.last())
    }
}

/// How many answers are asked for: up to the first refusal.
pub open spec fn asked(replies: Seq<Option<PreEditReply>>) -> int
    decreases replies.len(),
{
    if replies.len() == 0 {
        0
    } else if refuses(replies[0]) {
        1
    } else {
        1 + asked(replies.skip(1))
    }
}

proof fn asked_is(replies: Seq<Option<PreEditReply>>, n: int)
    requires
        0 <= n <= replies.len(),
        forall|i: int| 0 <= i < n ==> !refuses(#[trigger] replies[i]),
    ensures
        n < replies.len() && refuses(replies[n]) ==> asked(replies) == n + 1,
        n == replies.len() ==> asked(replies) == n,
    decreases replies.len(),
{
    if n > 0 {
        let rest = replies.skip(1);
        assert(!refuses(replies[0]));
        assert forall|i: int| 0 <= i < n - 1 implies !refuses(#[trigger] rest[i]) by {
            assert(rest[i] == replies[i + 1]);
        }
        if n < replies.len() {
            assert(rest[n - 1] == replies[n]);
        }
        asked_is(rest, n - 1);
    }
}

/// What the answers before an edit come to. The first refusal is the outcome, and
/// nobody is asked after it; where there is none, the edit is agreed to.
pub fn call_item_pre_edit_hook_actor(
    itm: &mut Item,
    replies: Vec<Option<PreEditReply>>,
) -> (r: ProcessResult)
    ensures
        ({
            let n = asked(replies@);
            &&& 0 <= n <= replies@.len()
            &&& final(itm)@ == item_after_all(old(itm)@, replies@.take(n))
            &&& if n > 0 && refuses(replies@[n - 1]) {
                r == replies@[n - 1]->Some_0.result
            } else {
                r.succeeded && r.error@.len() == 0 && r.data@ == Map::<
                    Seq<char>,
                    Seq<char>,
                >::empty()
            }
        }),
{
    let ghost all = replies@;
    let ghost first = itm@;
    let mut rest = replies;
    let ghost mut i: int = 0;
    proof {
        assert(all.skip(0) =~= all);
        assert(all.take(0) =~= Seq::<Option<PreEditReply>>::empty());
    }
    while rest.len() > 0
        invariant
            0 <= i <= all.len(),
            rest@ == all.skip(i),
            itm@ == item_after_all(first, all.take(i)),
            forall|j: int| 0 <= j < i ==> !refuses(#[trigger] all[j]),
            first == old(itm)@,
            all == replies@,
        decreases rest.len(),
    {
        let reply = rest.remove(0);
        proof {
            assert(reply == all[i]);
            assert(rest@ =~= all.skip(i + 1));
            assert(all.take(i + 1).drop_last() =~= all.take(i));
            assert(all.take(i + 1).last() == all[i]);
        }
        match pre_edit_step(itm, reply) {
            Some(result) => {
                proof {
                    asked_is(all, i);
                }
                return result;
            },
            None => {},
        }
        proof {
            i = i + 1;
        }
    }
    proof {
        asked_is(all, i);
        reveal_strlit("");
        if i > 0 {
            assert(!refuses(all[i - 1]));
        }
    }
    ProcessResult::plain(true, "")
}

/// An edit is agreed to just where no plugin refuses it.
pub proof fn one_refusal_is_enough(replies: Seq<Option<PreEditReply>>)
    ensures
        0 <= asked(replies) <= replies.len(),
        (asked(replies) > 0 && refuses(replies[asked(replies) - 1])) <==> exists|i: int|
            0 <= i < replies.len() && refuses(#[trigger] replies[i]),
    decreases replies.len(),
{
    if replies.len() > 0 {
        if refuses(replies[0]) {
        } else {
            let rest = replies.skip(1);
            one_refusal_is_enough(rest);
            let n = asked(rest);
            if n > 0 {
                assert(rest[n - 1] == replies[n]);
            }
            if exists|i: int| 0 <= i < rest.len() && refuses(#[trigger] rest[i]) {
                let i = choose|i: int| 0 <= i < rest.len() && refuses(#[trigger] rest[i]);
                assert(replies[i + 1] == rest[i]);
            }
            if exists|i: int| 0 <= i < replies.len() && refuses(#[trigger] replies[i]) {
                let i = choose|i: int| 0 <= i < replies.len() && refuses(#[trigger] replies[i]);
                assert(rest[i - 1] == replies[i]);
            }
        }
    }
}

// ---------------------------------------------------------------------------
// Who may
// ---------------------------------------------------------------------------

/// Whether an edit is allowed: no plugin denies it.
pub fn call_item_auth_hook_actor(replies: &Vec<Option<bool>>) -> (r: bool)
    ensures
        r == !replies@.contains(Some(false)),
{
    let mut i: usize = 0;
    while i < replies.len()
        invariant
            i <= replies.len(),
            forall|j: int| 0 <= j < i ==> (#[trigger] replies@[j]) != Some(false),
        decreases replies.len() - i,
    {
        match replies[i] {
            Some(false) => {
                proof {
                    assert(replies@[i as int] == Some(false));
                }
                return false;
            },
            _ => {},
        }
        i = i + 1;
    }
    true
}

// ---------------------------------------------------------------------------
// Lists
// ---------------------------------------------------------------------------

/// Takes in what a plugin leaves of a page; the next is handed what is left.
pub fn list_filter_step(items: &mut IdMap<Item>, reply: Option<IdMap<Item>>)
    ensures
        final(items)@ == (match reply {
            Some(left) => left@,
            None => old(items)@,
        }),
{
    match reply {
        Some(left) => {
            *items = left;
        },
        None => {},
    }
}

/// What the plugins leave of a page.
pub open spec fn page_left(
    items: Map<u64, ItemView>,
    replies: Seq<Option<IdMap<Item>>>,
) -> Map<u64, ItemView>
    decreases replies.len(),
{
    if replies.len() == 0 {
        items
    } else {
        match replies.last() {
            Some(left) => left@,
            None => page_left(items, replies.drop_last()),
        }
    }
}

/// Takes in what the plugins leave of a page, one after the other.
pub fn call_item_list_filter_hook_actor(
    items: &mut IdMap<Item>,
    replies: Vec<Option<IdMap<Item>>>,
)
    ensures
        final(items)@ == page_left(old(items)@, replies@),
{
    let ghost all = replies@;
    let ghost first = items@;
    let mut rest = replies;
    let ghost mut i: int = 0;
    proof {
        assert(all.skip(0) =~= all);
        assert(all.take(0) =~= Seq::<Option<IdMap<Item>>>::empty());
    }
    while rest.len() > 0
        invariant
            0 <= i <= all.len(),
            rest@ == all.skip(i),
            items@ == page_left(first, all.take(i)),
        decreases rest.len(),
    {
        let reply = rest.remove(0);
        proof {
            assert(reply == all[i]);
            assert(rest@ =~= all.skip(i + 1));
            assert(all.take(i + 1).drop_last() =~= all.take(i));
            assert(all.take(i + 1).last() == all[i]);
            i = i + 1;
        }
        list_filter_step(items, reply);
    }
    proof {
        assert(all.take(i) =~= all);
    }
}

/// The filters that plugins add to a query: those that are not empty.
pub open spec fn filters_given(replies: Seq<Option<String>>) -> Seq<Seq<char>>
    decreases replies.len(),
{
    if replies.len() == 0 {
        Seq::empty()
    } else {
        let before = filters_given(replies.drop_last());
        match replies.last() {
            Some(f) => if f@.len() > 0 {
                before.push(f@)
            } else {
                before
            },
            None => before,
        }
    }
}

/// The filters that plugins add to a query.
pub fn call_item_list_db_filter_hook_actor(replies: &Vec<Option<String>>) -> (r: Vec<String>)
    ensures
        text::views(r@) == filters_given(replies@),
{
    let mut out: Vec<String> = Vec::new();
    let mut i: usize = 0;
    proof {
        assert(text::views(out@) =~= filters_given(replies@.take(0)));
    }
    while i < replies.len()
        invariant
            i <= replies.len(),
            text::views(out@) == filters_given(replies@.take(i as int)),
        decreases replies.len() - i,
    {
        let ghost had = text::views(out@);
        proof {
            assert(replies@.take(i + 1).drop_last() =~= replies@.take(i as int));
            assert(replies@.take(i + 1).last() == replies@[i as int]);
        }
        match &replies[i] {
            Some(f) => {
                if !f.as_str().is_empty() {
                    out.push(f.clone());
                    proof {
                        assert(text::views(out@) =~= had.push(f@));
                    }
                }
            },
            None => {},
        }
        i = i + 1;
    }
    proof {
        assert(replies@.take(replies@.len() as int) =~= replies@);
    }
    out
}

/// What a plugin answers when a collection is read: whether the item has to be
/// stored, and the item as it wants it, where it wants it otherwise.
pub struct CollectionReadReply {
    pub should_save: bool,
    pub item: Option<Item>,
}

/// Takes one answer in. Returns whether the item has to be stored, where `save`
/// says whether it had to before.
pub fn collection_read_step(
    itm: &mut Item,
    save: bool,
    reply: Option<CollectionReadReply>,
) -> (r: bool)
    ensures
        r == (save || (reply is Some && reply->Some_0.should_save)),
        final(itm)@ == (match reply {
            Some(CollectionReadReply { item: Some(m), .. }) => m@,
            _ => old(itm)@,
        }),
{
    match reply {
        Some(CollectionReadReply { should_save, item }) => {
            match item {
                Some(m) => {
                    *itm = m;
                },
                None => {},
            }
            save || should_save
        },
        None => save,
    }
}

/// The item after the plugins saw it.
pub open spec fn item_read(item: ItemView, replies: Seq<Option<CollectionReadReply>>) -> ItemView
    decreases replies.len(),
{
    if replies.len() == 0 {
        item
    } else {
        match replies.last() {
            Some(CollectionReadReply { item: Some(m), .. }) => m@,
            _ => item_read(item, replies.drop_last()),
        }
    }
}

/// Whether an answer asks for the item to be stored.
pub open spec fn asks_to_save(reply: Option<CollectionReadReply>) -> bool {
    reply is Some && reply->Some_0.should_save
}

/// Takes in what the plugins answer when a collection is read, one after the
/// other. Returns whether any asks for the item to be stored.
pub fn call_collection_read_hook_actor(
    itm: &mut Item,
    replies: Vec<Option<CollectionReadReply>>,
) -> (r: bool)
    ensures
        final(itm)@ == item_read(old(itm)@, replies@),
        r <==> exists|i: int| 0 <= i < replies@.len() && asks_to_save(#[trigger] replies@[i]),
{
    let ghost all = replies@;
    let ghost first = itm@;
    let mut rest = replies;
    let mut save = false;
    let ghost mut i: int = 0;
    proof {
        assert(all.skip(0) =~= all);
        assert(all.take(0) =~= Seq::<Option<CollectionReadReply>>::empty());
    }
    while rest.len() > 0
        invariant
            0 <= i <= all.len(),
            rest@ == all.skip(i),
            itm@ == item_read(first, all.take(i)),
            save <==> exists|j: int| 0 <= j < i && asks_to_save(#[trigger] all[j]),
        decreases rest.len(),
    {
        let reply = rest.remove(0);
        proof {
            assert(reply == all[i]);
            assert(rest@ =~= all.skip(i + 1));
            assert(all.take(i + 1).drop_last() =~= all.take(i));
            assert(all.take(i + 1).last() == all[i]);
            if asks_to_save(reply) {
                assert(asks_to_save(all[i]));
            }
            i = i + 1;
        }
        save = collection_read_step(itm, save, reply);
    }
    proof {
        assert(all.take(i) =~= all);
    }
    save
}

// ---------------------------------------------------------------------------
// Routes
// ---------------------------------------------------------------------------

/// Whether an answer answers.
pub open spec fn answers(reply: Option<WebResponse>) -> bool {
    reply is Some && !(reply->Some_0 is NotImplemented)
}

/// Whether a plugin's answer answers, so that no other is asked.
pub fn answered(reply: &Option<WebResponse>) -> (r: bool)
    ensures
        r == answers(*reply),
{
    match reply {
        Some(WebResponse::NotImplemented) => false,
        Some(_) => true,
        None => false,
    }
}

/// The first answer that answers.
pub open spec fn first_answer(replies: Seq<Option<WebResponse>>) -> WebResponse
    decreases replies.len(),
{
    if replies.len() == 0 {
        WebResponse::NotImplemented
    } else if answers(replies[0]) {
        replies[0]->Some_0
    } else {
        first_answer(replies.skip(1))
    }
}

/// The last answer that answers.
pub open spec fn last_answer(replies: Seq<Option<WebResponse>>) -> WebResponse
    decreases replies.len(),
{
    if replies.len() == 0 {
        WebResponse::NotImplemented
    } else if answers(replies.last()) {
        replies.last()->Some_0
    } else {
        last_answer(replies.drop_last())
    }
}

/// What the answers to a request without a body come to: the first that is one.
pub fn call_url_route_actor(replies: Vec<Option<WebResponse>>) -> (r: WebResponse)
    ensures
        r == first_answer(replies@),
{
    let ghost all = replies@;
    let mut rest = replies;
    let ghost mut i: int = 0;
    proof {
        assert(all.skip(0) =~= all);
    }
    while rest.len() > 0
        invariant
            0 <= i <= all.len(),
            rest@ == all.skip(i),
            first_answer(all) == first_answer(all.skip(i)),
            all == replies@,
        decreases rest.len(),
    {
        proof {
            assert(all.skip(i)[0] == all[i]);
            assert(all.skip(i).skip(1) =~= all.skip(i + 1));
        }
        let reply = rest.remove(0);
        proof {
            assert(rest@ =~= all.skip(i + 1));
        }
        match reply {
            Some(WebResponse::NotImplemented) => {},
            Some(resp) => {
                return resp;
            },
            None => {},
        }
        proof {
            i = i + 1;
        }
    }
    WebResponse::NotImplemented
}

/// What the answers to a request with a body come to: the last that is one, since
/// every plugin gets to see the body.
pub fn call_url_post_route_actor(replies: Vec<Option<WebResponse>>) -> (r: WebResponse)
    ensures
        r == last_answer(replies@),
{
    let ghost all = replies@;
    let mut rest = replies;
    let ghost mut i: int = 0;
    let mut response = WebResponse::NotImplemented;
    proof {
        assert(all.skip(0) =~= all);
        assert(all.take(0) =~= Seq::<Option<WebResponse>>::empty());
    }
    while rest.len() > 0
        invariant
            0 <= i <= all.len(),
            rest@ == all.skip(i),
            response == last_answer(all.take(i)),
            all == replies@,
        decreases rest.len(),
    {
        let reply = rest.remove(0);
        proof {
            assert(reply == all[i]);
            assert(rest@ =~= all.skip(i + 1));
            assert(all.take(i + 1).drop_last() =~= all.take(i));
            assert(all.take(i + 1).last() == all[i]);
        }
        match reply {
            Some(WebResponse::NotImplemented) => {},
            Some(resp) => {
                response = resp;
            },
            None => {},
        }
        proof {
            i = i + 1;
        }
    }
    proof {
        assert(all.take(i) =~= all);
    }
    response
}

/// Whichever way the answers are taken, there is one just where a plugin gave
/// one.
pub proof fn an_answer_is_not_lost(replies: Seq<Option<WebResponse>>)
    ensures
        first_answer(replies) is NotImplemented <==> forall|i: int|
            0 <= i < replies.len() ==> !answers(#[trigger] replies[i]),
        last_answer(replies) is NotImplemented <==> forall|i: int|
            0 <= i < replies.len() ==> !answers(#[trigger] replies[i]),
    decreases replies.len(),
{
    if replies.len() > 0 {
        let tail = replies.skip(1);
        let head = replies.drop_last();
        an_answer_is_not_lost(tail);
        an_answer_is_not_lost(head);
        assert forall|i: int| 0 <= i < tail.len() implies #[trigger] tail[i] == replies[i + 1] by {}
        assert forall|i: int| 0 <= i < head.len() implies #[trigger] head[i] == replies[i] by {}
        if forall|i: int| 0 <= i < replies.len() ==> !answers(#[trigger] replies[i]) {
            assert forall|i: int| 0 <= i < tail.len() implies !answers(#[trigger] tail[i]) by {
                assert(tail[i] == replies[i + 1]);
            }
        }
        if !answers(replies[0]) && (forall|i: int| 0 <= i < tail.len() ==> !answers(#[trigger] tail[i])) {
            assert forall|i: int| 0 <= i < replies.len() implies !answers(#[trigger] replies[i]) by {
                if i > 0 {
                    assert(tail[i - 1] == replies[i]);
                }
            }
        }
        if !answers(replies.last()) && (forall|i: int| 0 <= i < head.len() ==> !answers(#[trigger] head[i])) {
            assert forall|i: int| 0 <= i < replies.len() implies !answers(#[trigger] replies[i]) by {
                if i < replies.len() - 1 {
                    assert(head[i] == replies[i]);
                }
            }
        }
    }
}

/// Where nobody wants the item otherwise, it stays as it is.
pub proof fn untouched_stays(item: ItemView, replies: Seq<Option<PreEditReply>>)
    requires
        forall|i: int|
            0 <= i < replies.len() ==> ((#[trigger] replies[i]) is None
                || replies[i]->Some_0.modified_item is None),
    ensures
        item_after_all(item, replies) == item,
    decreases replies.len(),
{
    if replies.len() > 0 {
        let head = replies.drop_last();
        assert forall|i: int| 0 <= i < head.len() implies ((#[trigger] head[i]) is None
            || head[i]->Some_0.modified_item is None) by {
            assert(head[i] == replies[i]);
        }
        untouched_stays(item, head);
        assert(replies[replies.len() - 1] == replies.last());
    }
}

/// The last plugin that wants the item otherwise has it as it wants it, whatever
/// those before it wanted.
pub proof fn the_last_wish_counts(item: ItemView, replies: Seq<Option<PreEditReply>>, k: int)
    requires
        0 <= k < replies.len(),
        replies[k] is Some,
        replies[k]->Some_0.modified_item is Some,
        forall|i: int|
            k < i < replies.len() ==> ((#[trigger] replies[i]) is None
                || replies[i]->Some_0.modified_item is None),
    ensures
        item_after_all(item, replies) == replies[k]->Some_0.modified_item->Some_0@,
    decreases replies.len(),
{
    let head = replies.drop_last();
    assert(replies[replies.len() - 1] == replies.last());
    if k < replies.len() - 1 {
        assert(head[k] == replies[k]);
        assert forall|i: int| k < i < head.len() implies ((#[trigger] head[i]) is None
            || head[i]->Some_0.modified_item is None) by {
            assert(head[i] == replies[i]);
        }
        the_last_wish_counts(item, head, k);
    }
}

/// Nobody is asked after the first refusal, and everybody where there is none.
pub proof fn asked_up_to(replies: Seq<Option<PreEditReply>>, n: int)
    requires
        0 <= n <= replies.len(),
        forall|i: int| 0 <= i < n ==> !refuses(#[trigger] replies[i]),
    ensures
        n < replies.len() && refuses(replies[n]) ==> asked(replies) == n + 1,
        n == replies.len() ==> asked(replies) == n,
{
    asked_is(replies, n);
}

/// To refuse is to say that it failed, for another reason than that the hook is not
/// implemented; a plugin that says nothing refuses nothing.
pub proof fn what_a_refusal_is(reply: PreEditReply)
    ensures
        !refuses(None),
        reply.result.succeeded ==> !refuses(Some(reply)),
        reply.result.error@ == "not implemented"@ ==> !refuses(Some(reply)),
        !reply.result.succeeded && reply.result.error@ != "not implemented"@ ==> refuses(
            Some(reply),
        ),
{
}

/// The page is what the last plugin left that said anything, and as it was where
/// none did.
pub proof fn the_last_page_counts(
    items: Map<u64, ItemView>,
    replies: Seq<Option<IdMap<Item>>>,
    k: int,
)
    requires
        -1 <= k < replies.len(),
        k >= 0 ==> replies[k] is Some,
        forall|i: int| k < i < replies.len() ==> (#[trigger] replies[i]) is None,
    ensures
        k >= 0 ==> page_left(items, replies) == replies[k]->Some_0@,
        k < 0 ==> page_left(items, replies) == items,
    decreases replies.len(),
{
    if replies.len() > 0 && k < replies.len() - 1 {
        let head = replies.drop_last();
        assert(replies[replies.len() - 1] == replies.last());
        if k >= 0 {
            assert(head[k] == replies[k]);
        }
        assert forall|i: int| k < i < head.len() implies (#[trigger] head[i]) is None by {
            assert(head[i] == replies[i]);
        }
        the_last_page_counts(items, head, k);
    }
}

/// A filter is added just where a plugin gave one that is not empty.
pub proof fn given_filters_are_added(replies: Seq<Option<String>>, f: Seq<char>)
    ensures
        filters_given(replies).contains(f) <==> f.len() > 0 && exists|i: int|
            0 <= i < replies.len() && (#[trigger] replies[i]) is Some && replies[i]->Some_0@ == f,
    decreases replies.len(),
{
    if replies.len() > 0 {
        let head = replies.drop_last();
        let before = filters_given(head);
        given_filters_are_added(head, f);
        assert(replies[replies.len() - 1] == replies.last());
        assert forall|i: int| 0 <= i < head.len() implies #[trigger] head[i] == replies[i] by {}
        let all = filters_given(replies);
        if before.contains(f) {
            let x = choose|x: int| 0 <= x < before.len() && before[x] == f;
            assert(all[x] == f);
            let i = choose|i: int|
                0 <= i < head.len() && (#[trigger] head[i]) is Some && head[i]->Some_0@ == f;
            assert(replies[i] is Some && replies[i]->Some_0@ == f);
        }
        if f.len() > 0 && replies.last() is Some && replies.last()->Some_0@ == f {
            assert(all[all.len() - 1] == f);
        }
        if all.contains(f) {
            let x = choose|x: int| 0 <= x < all.len() && all[x] == f;
            if x < before.len() {
                assert(before[x] == f);
            }
        }
        if exists|i: int|
            0 <= i < replies.len() && (#[trigger] replies[i]) is Some && replies[i]->Some_0@ == f {
            let i = choose|i: int|
                0 <= i < replies.len() && (#[trigger] replies[i]) is Some && replies[i]->Some_0@
                    == f;
            if i < head.len() {
                assert(head[i] is Some && head[i]->Some_0@ == f);
            }
        }
    }
}

/// The item that is read is what the last plugin made of it that made anything of
/// it.
pub proof fn the_last_reading_counts(
    item: ItemView,
    replies: Seq<Option<CollectionReadReply>>,
    k: int,
)
    requires
        -1 <= k < replies.len(),
        k >= 0 ==> replies[k] is Some && replies[k]->Some_0.item is Some,
        forall|i: int|
            k < i < replies.len() ==> ((#[trigger] replies[i]) is None || replies[i]->Some_0.item
                is None),
    ensures
        k >= 0 ==> item_read(item, replies) == replies[k]->Some_0.item->Some_0@,
        k < 0 ==> item_read(item, replies) == item,
    decreases replies.len(),
{
    if replies.len() > 0 && k < replies.len() - 1 {
        let head = replies.drop_last();
        assert(replies[replies.len() - 1] == replies.last());
        if k >= 0 {
            assert(head[k] == replies[k]);
        }
        assert forall|i: int| k < i < head.len() implies ((#[trigger] head[i]) is None
            || head[i]->Some_0.item is None) by {
            assert(head[i] == replies[i]);
        }
        the_last_reading_counts(item, head, k);
    }
}

/// Without a body the first plugin that answers is heard, and nobody after it.
pub proof fn the_first_answer_counts(replies: Seq<Option<WebResponse>>, k: int)
    requires
        0 <= k < replies.len(),
        replies[k] is Some,
        !(replies[k]->Some_0 is NotImplemented),
        forall|i: int|
            0 <= i < k ==> ((#[trigger] replies[i]) is None || replies[i]->Some_0
                is NotImplemented),
    ensures
        first_answer(replies) == replies[k]->Some_0,
    decreases replies.len(),
{
    if k > 0 {
        let rest = replies.skip(1);
        assert(replies[0] is None || replies[0]->Some_0 is NotImplemented);
        assert(rest[k - 1] == replies[k]);
        assert forall|i: int| 0 <= i < k - 1 implies ((#[trigger] rest[i]) is None
            || rest[i]->Some_0 is NotImplemented) by {
            assert(rest[i] == replies[i + 1]);
        }
        the_first_answer_counts(rest, k - 1);
    }
}

/// With a body the last plugin that answers is heard.
pub proof fn the_last_answer_counts(replies: Seq<Option<WebResponse>>, k: int)
    requires
        0 <= k < replies.len(),
        replies[k] is Some,
        !(replies[k]->Some_0 is NotImplemented),
        forall|i: int|
            k < i < replies.len() ==> ((#[trigger] replies[i]) is None || replies[i]->Some_0
                is NotImplemented),
    ensures
        last_answer(replies) == replies[k]->Some_0,
    decreases replies.len(),
{
    if k < replies.len() - 1 {
        let head = replies.drop_last();
        assert(replies[replies.len() - 1] == replies.last());
        assert(head[k] == replies[k]);
        assert forall|i: int| k < i < head.len() implies ((#[trigger] head[i]) is None
            || head[i]->Some_0 is NotImplemented) by {
            assert(head[i] == replies[i]);
        }
        the_last_answer_counts(head, k);
    }
}

/// An answer asks for the item to be stored just where it comes and says so.
pub proof fn which_answers_ask_to_save(item: Option<Item>, should_save: bool)
    ensures
        asks_to_save(Some(CollectionReadReply { item, should_save })) <==> should_save,
        !asks_to_save(None),
{
}

} // verus!
