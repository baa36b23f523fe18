//! A plugin that lets everything pass, and counts what it sees.
use crate::collections::IdMap;
use crate::handler::route_call_actor::{CollectionReadReply, PreEditReply};
use crate::handler::web_response::WebResponse;
use crate::item::{Item, ProcessResult};
use vstd::prelude::*;

verus! {

/// How often each hook was called.
#[derive(Clone, Copy, Debug, PartialEq, Eq, Structural)]
pub struct DemoStats {
    pub item_pre_edit: u64,
    pub item_post_edit: u64,
    pub item_auth: u64,
    pub item_list_filter: u64,
    pub item_list_db_filter: u64,
    pub collection_read: u64,
    pub route_url: u64,
    pub route_url_post: u64,
    pub route_unprotected_url: u64,
    pub route_unprotected_url_post: u64,
    pub route_rest: u64,
    pub otp: u64,
    pub periodic: u64,
    pub ping: u64,
}

impl Default for DemoStats {
    fn default() -> (r: DemoStats)
        ensures
            r == unseen(),
    {
        DemoStats {
            item_pre_edit: 0,
            item_post_edit: 0,
            item_auth: 0,
            item_list_filter: 0,
            item_list_db_filter: 0,
            collection_read: 0,
            route_url: 0,
            route_url_post: 0,
            route_unprotected_url: 0,
            route_unprotected_url_post: 0,
            route_rest: 0,
            otp: 0,
            periodic: 0,
            ping: 0,
        }
    }
}

/// Nothing was called yet.
pub open spec fn unseen() -> DemoStats {
    DemoStats {
        item_pre_edit: 0,
        item_post_edit: 0,
        item_auth: 0,
        item_list_filter: 0,
        item_list_db_filter: 0,
        collection_read: 0,
        route_url: 0,
        route_url_post: 0,
        route_unprotected_url: 0,
        route_unprotected_url_post: 0,
        route_rest: 0,
        otp: 0,
        periodic: 0,
        ping: 0,
    }
}

/// A call of a hook, with what the answer depends on.
pub enum PluginHookMessage {
    ItemPreEdit,
    ItemPostEdit,
    ItemAuth,
    ItemListFilter { items: IdMap<Item> },
    ItemListDbFilter,
    CollectionRead,
    Otp,
    PeriodicJob,
    RouteUrl,
    RouteUrlPost,
    RouteUnprotectedUrl,
    RouteUnprotectedUrlPost,
    RouteRest,
    Ping,
    Shutdown,
}

/// What the plugin answers.
pub enum DemoReply {
    PreEdit(PreEditReply),
    Allowed(bool),
    Items(IdMap<Item>),
    Filter(String),
    Read(CollectionReadReply),
    Route(WebResponse),
    Pong,
    /// No answer is expected.
    Nothing,
    /// The plugin stops.
    Stop,
}

/// One more; from the largest number there is, counting starts over.
pub open spec fn one_more(n: u64) -> u64 {
    if n == u64::MAX {
        0
    } else {
        (n + 1) as u64
    }
}

/// The counts after a call.
pub open spec fn counted(s: DemoStats, msg: PluginHookMessage) -> DemoStats {
    match msg {
        PluginHookMessage::ItemPreEdit => DemoStats {
            item_pre_edit: one_more(s.item_pre_edit),
            ..s
        },
        PluginHookMessage::ItemPostEdit => DemoStats {
            item_post_edit: one_more(s.item_post_edit),
            ..s
        },
        PluginHookMessage::ItemAuth => DemoStats { item_auth: one_more(s.item_auth), ..s },
        PluginHookMessage::ItemListFilter { .. } => DemoStats {
            item_list_filter: one_more(s.item_list_filter),
            ..s
        },
        PluginHookMessage::ItemListDbFilter => DemoStats {
            item_list_db_filter: one_more(s.item_list_db_filter),
            ..s
        },
        PluginHookMessage::CollectionRead => DemoStats {
            collection_read: one_more(s.collection_read),
            ..s
        },
        PluginHookMessage::Otp => DemoStats { otp: one_more(s.otp), ..s },
        PluginHookMessage::PeriodicJob => DemoStats { periodic: one_more(s.periodic), ..s },
        PluginHookMessage::RouteUrl => DemoStats { route_url: one_more(s.route_url), ..s },
        PluginHookMessage::RouteUrlPost => DemoStats {
            route_url_post: one_more(s.route_url_post),
            ..s
        },
        PluginHookMessage::RouteUnprotectedUrl => DemoStats {
            route_unprotected_url: one_more(s.route_unprotected_url),
            ..s
        },
        PluginHookMessage::RouteUnprotectedUrlPost => DemoStats {
            route_unprotected_url_post: one_more(s.route_unprotected_url_post),
            ..s
        },
        PluginHookMessage::RouteRest => DemoStats { route_rest: one_more(s.route_rest), ..s },
        PluginHookMessage::Ping => DemoStats { ping: one_more(s.ping), ..s },
        PluginHookMessage::Shutdown => s,
    }
}

impl DemoStats {
    /// Counts a call, and answers it: whatever is asked is agreed to as it is.
    pub fn answer(&mut self, msg: PluginHookMessage) -> (r: DemoReply)
        ensures
            *final(self) == counted(*old(self), msg),
            match msg {
                PluginHookMessage::ItemPreEdit => r matches DemoReply::PreEdit(p)
                    && p.result.succeeded && p.result.error@.len() == 0 && p.result.data@
                    == Map::<Seq<char>, Seq<char>>::empty() && p.modified_item is None,
                PluginHookMessage::ItemAuth => r == DemoReply::Allowed(true),
                PluginHookMessage::ItemListFilter { items } => r == DemoReply::Items(items),
                PluginHookMessage::ItemListDbFilter => r matches DemoReply::Filter(f) && f@.len()
                    == 0,
                PluginHookMessage::CollectionRead => r matches DemoReply::Read(c)
                    && !c.should_save && c.item is None,
                PluginHookMessage::RouteUrl => r == DemoReply::Route(WebResponse::NotImplemented),
                PluginHookMessage::RouteUrlPost => r == DemoReply::Route(
                    WebResponse::NotImplemented,
                ),
                PluginHookMessage::RouteUnprotectedUrl => r == DemoReply::Route(
                    WebResponse::NotImplemented,
                ),
                PluginHookMessage::RouteUnprotectedUrlPost => r == DemoReply::Route(
                    WebResponse::NotImplemented,
                ),
                PluginHookMessage::RouteRest => r == DemoReply::Route(WebResponse::NotImplemented),
                PluginHookMessage::Ping => r is Pong,
                PluginHookMessage::ItemPostEdit => r is Nothing,
                PluginHookMessage::Otp => r is Nothing,
                PluginHookMessage::PeriodicJob => r is Nothing,
                PluginHookMessage::Shutdown => r is Stop,
            },
    {
        proof {
            reveal_strlit("");
        }
        match msg {
            PluginHookMessage::ItemPreEdit => {
                self.item_pre_edit = self.item_pre_edit.wrapping_add(1);
                DemoReply::PreEdit(
                    PreEditReply { result: ProcessResult::plain(true, ""), modified_item: None },
                )
            },
            PluginHookMessage::ItemPostEdit => {
                self.item_post_edit = self.item_post_edit.wrapping_add(1);
                DemoReply::Nothing
            },
            PluginHookMessage::ItemAuth => {
                self.item_auth = self.item_auth.wrapping_add(1);
                DemoReply::Allowed(true)
            },
            PluginHookMessage::ItemListFilter { items } => {
                self.item_list_filter = self.item_list_filter.wrapping_add(1);
                DemoReply::Items(items)
            },
            PluginHookMessage::ItemListDbFilter => {
                self.item_list_db_filter = self.item_list_db_filter.wrapping_add(1);
                DemoReply::Filter(String::new())
            },
            PluginHookMessage::CollectionRead => {
                self.collection_read = self.collection_read.wrapping_add(1);
                DemoReply::Read(CollectionReadReply { should_save: false, item: None })
            },
            PluginHookMessage::Otp => {
                self.otp = self.otp.wrapping_add(1);
                DemoReply::Nothing
            },
            PluginHookMessage::PeriodicJob => {
                self.periodic = self.periodic.wrapping_add(1);
                DemoReply::Nothing
            },
            PluginHookMessage::RouteUrl => {
                self.route_url = self.route_url.wrapping_add(1);
                DemoReply::Route(WebResponse::NotImplemented)
            },
            PluginHookMessage::RouteUrlPost => {
                self.route_url_post = self.route_url_post.wrapping_add(1);
                DemoReply::Route(WebResponse::NotImplemented)
            },
            PluginHookMessage::RouteUnprotectedUrl => {
                self.route_unprotected_url = self.route_unprotected_url.wrapping_add(1);
                DemoReply::Route(WebResponse::NotImplemented)
            },
            PluginHookMessage::RouteUnprotectedUrlPost => {
                self.route_unprotected_url_post = self.route_unprotected_url_post.wrapping_add(1);
                DemoReply::Route(WebResponse::NotImplemented)
            },
            PluginHookMessage::RouteRest => {
                self.route_rest = self.route_rest.wrapping_add(1);
                DemoReply::Route(WebResponse::NotImplemented)
            },
            PluginHookMessage::Ping => {
                self.ping = self.ping.wrapping_add(1);
                DemoReply::Pong
            },
            PluginHookMessage::Shutdown => DemoReply::Stop,
        }
    }
}

/// Every call counts for one of its own sort, and for none of any other.
pub proof fn calls_are_counted_apart(s: DemoStats, items: IdMap<Item>)
    requires
        s.item_pre_edit < u64::MAX,
        s.item_auth < u64::MAX,
        s.item_list_filter < u64::MAX,
        s.route_rest < u64::MAX,
    ensures
        counted(s, PluginHookMessage::ItemPreEdit).item_pre_edit == s.item_pre_edit + 1,
        counted(s, PluginHookMessage::ItemPreEdit).item_post_edit == s.item_post_edit,
        counted(s, PluginHookMessage::ItemAuth).item_auth == s.item_auth + 1,
        counted(s, PluginHookMessage::ItemAuth).item_pre_edit == s.item_pre_edit,
        counted(s, PluginHookMessage::ItemListFilter { items }).item_list_filter
            == s.item_list_filter + 1,
        counted(s, PluginHookMessage::RouteRest).route_rest == s.route_rest + 1,
        counted(s, PluginHookMessage::RouteRest).route_url == s.route_url,
        counted(s, PluginHookMessage::Shutdown) == s,
{
}

/// Counting starts at nothing. A call changes the count of its own sort, by one where
/// there is a larger number, and no other.
pub proof fn every_call_is_counted_once(s: DemoStats, m: PluginHookMessage)
    ensures
        counted(s, m).item_pre_edit != s.item_pre_edit <==> m is ItemPreEdit,
        counted(s, m).item_post_edit != s.item_post_edit <==> m is ItemPostEdit,
        counted(s, m).item_auth != s.item_auth <==> m is ItemAuth,
        counted(s, m).item_list_filter != s.item_list_filter <==> m is ItemListFilter,
        counted(s, m).item_list_db_filter != s.item_list_db_filter <==> m is ItemListDbFilter,
        counted(s, m).collection_read != s.collection_read <==> m is CollectionRead,
        counted(s, m).otp != s.otp <==> m is Otp,
        counted(s, m).periodic != s.periodic <==> m is PeriodicJob,
        counted(s, m).route_url != s.route_url <==> m is RouteUrl,
        counted(s, m).route_url_post != s.route_url_post <==> m is RouteUrlPost,
        counted(s, m).route_unprotected_url != s.route_unprotected_url <==> m is RouteUnprotectedUrl,
        counted(s, m).route_unprotected_url_post != s.route_unprotected_url_post <==> m is RouteUnprotectedUrlPost,
        counted(s, m).route_rest != s.route_rest <==> m is RouteRest,
        counted(s, m).ping != s.ping <==> m is Ping,
        m is ItemPreEdit && s.item_pre_edit < u64::MAX ==> counted(s, m).item_pre_edit == s.item_pre_edit + 1,
        m is ItemPostEdit && s.item_post_edit < u64::MAX ==> counted(s, m).item_post_edit == s.item_post_edit + 1,
        m is ItemAuth && s.item_auth < u64::MAX ==> counted(s, m).item_auth == s.item_auth + 1,
        m is ItemListFilter && s.item_list_filter < u64::MAX ==> counted(s, m).item_list_filter == s.item_list_filter + 1,
        m is ItemListDbFilter && s.item_list_db_filter < u64::MAX ==> counted(s, m).item_list_db_filter == s.item_list_db_filter + 1,
        m is CollectionRead && s.collection_read < u64::MAX ==> counted(s, m).collection_read == s.collection_read + 1,
        m is Otp && s.otp < u64::MAX ==> counted(s, m).otp == s.otp + 1,
        m is PeriodicJob && s.periodic < u64::MAX ==> counted(s, m).periodic == s.periodic + 1,
        m is RouteUrl && s.route_url < u64::MAX ==> counted(s, m).route_url == s.route_url + 1,
        m is RouteUrlPost && s.route_url_post < u64::MAX ==> counted(s, m).route_url_post == s.route_url_post + 1,
        m is RouteUnprotectedUrl && s.route_unprotected_url < u64::MAX ==> counted(s, m).route_unprotected_url == s.route_unprotected_url + 1,
        m is RouteUnprotectedUrlPost && s.route_unprotected_url_post < u64::MAX ==> counted(s, m).route_unprotected_url_post == s.route_unprotected_url_post + 1,
        m is RouteRest && s.route_rest < u64::MAX ==> counted(s, m).route_rest == s.route_rest + 1,
        m is Ping && s.ping < u64::MAX ==> counted(s, m).ping == s.ping + 1,
        unseen().item_pre_edit == 0,
        unseen().item_post_edit == 0,
        unseen().item_auth == 0,
        unseen().item_list_filter == 0,
        unseen().item_list_db_filter == 0,
        unseen().collection_read == 0,
        unseen().otp == 0,
        unseen().periodic == 0,
        unseen().route_url == 0,
        unseen().route_url_post == 0,
        unseen().route_unprotected_url == 0,
        unseen().route_unprotected_url_post == 0,
        unseen().route_rest == 0,
        unseen().ping == 0,
{
}

} // verus!
