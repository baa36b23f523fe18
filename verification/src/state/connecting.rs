//! Opening a store in a document database, collection by collection.
//!
//! The database can refuse anything while it starts, so whatever fails is tried
//! again after a while, over a new connection. What to do next is decided here,
//! from what happened last; doing it is left to the caller.
use crate::collections::{Duplicate, IdMap};
use crate::item::Item;
use crate::state::catalog::{Catalog, Shelf, ShelfView};
use crate::state::route_cache;
use crate::text;
use vstd::prelude::*;

verus! {

/// What is being waited for.
#[derive(Clone, Copy, PartialEq, Eq, Debug, Structural)]
pub enum Phase {
    /// The collection is being made.
    Creating,
    /// A new connection, to make the collection over.
    WaitingToCreate,
    /// Its indexes are being made.
    Indexing,
    /// Its documents are being asked for.
    Finding,
    /// Its documents are being read.
    Reading,
    /// A new connection, to read on.
    WaitingToRead,
    /// The shared counter is being raised.
    Raising,
    Finished,
}

/// What happened.
#[derive(Clone, Copy, PartialEq, Eq, Debug, Structural)]
pub enum ConnectEvent {
    /// The collection was made, or could not be.
    Created(bool),
    Indexed,
    /// The documents can be read, or could not be asked for.
    Found(bool),
    /// A document with this id was read.
    Row(u64),
    RowFailed,
    RowsEnded,
    Reconnected,
    Raised,
}

/// What is done next.
pub enum ConnectAction {
    Create(String),
    EnsureIndexes(String),
    Find(String),
    NextRow,
    /// Wait for a while, then connect again.
    WaitAndReconnect,
    RaiseCounter(String, u64),
    Finished,
    /// Nothing: this was not what was waited for.
    Ignore,
}

/// What is done next.
pub enum ActionView {
    Create(Seq<char>),
    EnsureIndexes(Seq<char>),
    Find(Seq<char>),
    NextRow,
    WaitAndReconnect,
    RaiseCounter(Seq<char>, u64),
    Finished,
    Ignore,
}

impl View for ConnectAction {
    type V = ActionView;

    open spec fn view(&self) -> ActionView {
        match self {
            ConnectAction::Create(n) => ActionView::Create(n@),
            ConnectAction::EnsureIndexes(n) => ActionView::EnsureIndexes(n@),
            ConnectAction::Find(n) => ActionView::Find(n@),
            ConnectAction::NextRow => ActionView::NextRow,
            ConnectAction::WaitAndReconnect => ActionView::WaitAndReconnect,
            ConnectAction::RaiseCounter(n, c) => ActionView::RaiseCounter(n@, *c),
            ConnectAction::Finished => ActionView::Finished,
            ConnectAction::Ignore => ActionView::Ignore,
        }
    }
}

/// How far opening has come.
pub struct Connector {
    names: Vec<String>,
    at: usize,
    phase: Phase,
    ids: IdMap<bool>,
    count: u64,
    catalog: Catalog,
}

/// How far opening has come.
#[verifier::ext_equal]
pub struct ConnectorView {
    /// The collections that are to be opened.
    pub names: Seq<Seq<char>>,
    /// How many are open.
    pub at: int,
    pub phase: Phase,
    /// What was read of the next.
    pub ids: Set<u64>,
    pub count: u64,
    /// What is known of those that are open.
    pub catalog: Map<Seq<char>, ShelfView>,
}

impl View for Connector {
    type V = ConnectorView;

    closed spec fn view(&self) -> ConnectorView {
        ConnectorView {
            names: text::views(self.names@),
            at: self.at as int,
            phase: self.phase,
            ids: self.ids@.dom(),
            count: self.count,
            catalog: self.catalog@,
        }
    }
}

impl ConnectorView {
    /// The collection that is being opened.
    pub open spec fn name(self) -> Seq<char> {
        self.names[self.at]
    }

    /// Before anything was done.
    pub open spec fn start(names: Seq<Seq<char>>) -> ConnectorView {
        ConnectorView {
            names,
            at: 0,
            phase: if names.len() == 0 {
                Phase::Finished
            } else {
                Phase::Creating
            },
            ids: Set::empty(),
            count: 0,
            catalog: Map::empty(),
        }
    }

    /// What always holds.
    pub open spec fn valid(self) -> bool {
        &&& 0 <= self.at <= self.names.len()
        &&& self.phase == Phase::Finished <==> self.at == self.names.len()
        &&& forall|id: u64| #[trigger] self.ids.contains(id) ==> id <= self.count
        &&& forall|i: int| 0 <= i < self.at ==> self.catalog.contains_key(#[trigger] self.names[i])
        &&& self.phase == Phase::Raising ==> self.catalog.contains_key(self.name())
        &&& forall|n: Seq<char>| #[trigger] self.catalog.contains_key(n) ==> self.names.contains(n)
            && self.catalog[n].sound()
    }

    /// The next state, and what is done.
    pub open spec fn step(self, e: ConnectEvent) -> (ConnectorView, ActionView) {
        match (self.phase, e) {
            (Phase::Creating, ConnectEvent::Created(true)) => (
                ConnectorView { phase: Phase::Indexing, ..self },
                ActionView::EnsureIndexes(self.name()),
            ),
            (Phase::Creating, ConnectEvent::Created(false)) => (
                ConnectorView { phase: Phase::WaitingToCreate, ..self },
                ActionView::WaitAndReconnect,
            ),
            (Phase::WaitingToCreate, ConnectEvent::Reconnected) => (
                ConnectorView { phase: Phase::Creating, ..self },
                ActionView::Create(self.name()),
            ),
            (Phase::Indexing, ConnectEvent::Indexed) => (
                ConnectorView { phase: Phase::Finding, ..self },
                ActionView::Find(self.name()),
            ),
            (Phase::Finding, ConnectEvent::Found(true)) => (
                ConnectorView { phase: Phase::Reading, ids: Set::empty(), count: 0, ..self },
                ActionView::NextRow,
            ),
            (Phase::Finding, ConnectEvent::Found(false)) => (
                ConnectorView { phase: Phase::WaitingToCreate, ..self },
                ActionView::WaitAndReconnect,
            ),
            (Phase::Reading, ConnectEvent::Row(id)) => (
                ConnectorView {
                    ids: self.ids.insert(id),
                    count: if id > self.count {
                        id
                    } else {
                        self.count
                    },
                    ..self
                },
                ActionView::NextRow,
            ),
            (Phase::Reading, ConnectEvent::RowFailed) => (
                ConnectorView { phase: Phase::WaitingToRead, ..self },
                ActionView::WaitAndReconnect,
            ),
            (Phase::WaitingToRead, ConnectEvent::Reconnected) => (
                ConnectorView { phase: Phase::Reading, ..self },
                ActionView::NextRow,
            ),
            (Phase::Reading, ConnectEvent::RowsEnded) => (
                ConnectorView {
                    phase: Phase::Raising,
                    catalog: self.catalog.insert(
                        self.name(),
                        ShelfView { ids: self.ids, high: self.count },
                    ),
                    ..self
                },
                ActionView::RaiseCounter(self.name(), self.count),
            ),
            (Phase::Raising, ConnectEvent::Raised) => if self.at + 1 < self.names.len() {
                (
                    ConnectorView { phase: Phase::Creating, at: self.at + 1, ..self },
                    ActionView::Create(self.names[self.at + 1]),
                )
            } else {
                (
                    ConnectorView { phase: Phase::Finished, at: self.at + 1, ..self },
                    ActionView::Finished,
                )
            },
            _ => (self, ActionView::Ignore),
        }
    }
}

/// Every step keeps what always holds.
pub proof fn step_keeps_valid(v: ConnectorView, e: ConnectEvent)
    requires
        v.valid(),
    ensures
        v.step(e).0.valid(),
        v.step(e).0.names == v.names,
        v.step(e).0.at >= v.at,
{
    let after = v.step(e).0;
    assert forall|n: Seq<char>| #[trigger] after.catalog.contains_key(n) implies after.names.contains(
        n,
    ) && after.catalog[n].sound() by {
        if v.catalog.contains_key(n) && after.catalog[n] == v.catalog[n] {
        } else {
            assert(v.names[v.at] == n);
            assert forall|id: u64| #[trigger] after.catalog[n].ids.contains(id) implies id
                <= after.catalog[n].high by {
                assert(v.ids.contains(id));
            }
        }
    }
}

/// When opening has finished, every collection is open, and nothing else is.
pub proof fn finished_means_all_open(v: ConnectorView, n: Seq<char>)
    requires
        v.valid(),
        v.phase == Phase::Finished,
    ensures
        v.catalog.contains_key(n) <==> v.names.contains(n),
{
    if v.names.contains(n) {
        let i = choose|i: int| 0 <= i < v.names.len() && v.names[i] == n;
        assert(v.catalog.contains_key(v.names[i]));
    }
}

/// A failure loses nothing: after a new connection the work goes on with the
/// same collection, and nothing that is open is touched.
pub proof fn failures_are_retried(v: ConnectorView)
    requires
        v.valid(),
    ensures
        v.phase == Phase::Creating ==> v.step(ConnectEvent::Created(false)).0.step(
            ConnectEvent::Reconnected,
        ) == (v, ActionView::Create(v.name())),
        v.phase == Phase::Reading ==> v.step(ConnectEvent::RowFailed).0.step(
            ConnectEvent::Reconnected,
        ) == (v, ActionView::NextRow),
        v.phase == Phase::Finding ==> v.step(ConnectEvent::Found(false)).0.step(
            ConnectEvent::Reconnected,
        ).0.catalog == v.catalog,
{
}

impl Connector {
    /// Begins to open collections.
    pub fn start(names: Vec<String>) -> (r: (Connector, ConnectAction))
        ensures
            r.0@ == ConnectorView::start(text::views(names@)),
            r.0@.valid(),
            r.1@ == if names@.len() == 0 {
                ActionView::Finished
            } else {
                ActionView::Create(names@[0]@)
            },
    {
        let ghost all = text::views(names@);
        let phase = if names.len() == 0 {
            Phase::Finished
        } else {
            Phase::Creating
        };
        let action = if names.len() == 0 {
            ConnectAction::Finished
        } else {
            ConnectAction::Create(names[0].clone())
        };
        let c = Connector {
            names,
            at: 0,
            phase,
            ids: IdMap::new(),
            count: 0,
            catalog: Catalog::new(),
        };
        proof {
            assert(c@ =~= ConnectorView::start(all));
        }
        (c, action)
    }

    /// Goes on after an event.
    pub fn on(&mut self, e: ConnectEvent) -> (r: ConnectAction)
        requires
            old(self)@.valid(),
        ensures
            (final(self)@, r@) == old(self)@.step(e),
            final(self)@.valid(),
    {
        let ghost was = self@;
        let n: usize = self.names.len();
        proof {
            step_keeps_valid(was, e);
            if self.at < self.names@.len() {
                assert(was.name() == self.names@[self.at as int]@);
            }
        }
        let action = match (self.phase, e) {
            (Phase::Creating, ConnectEvent::Created(true)) => {
                self.phase = Phase::Indexing;
                ConnectAction::EnsureIndexes(self.names[self.at].clone())
            },
            (Phase::Creating, ConnectEvent::Created(false)) => {
                self.phase = Phase::WaitingToCreate;
                ConnectAction::WaitAndReconnect
            },
            (Phase::WaitingToCreate, ConnectEvent::Reconnected) => {
                self.phase = Phase::Creating;
                ConnectAction::Create(self.names[self.at].clone())
            },
            (Phase::Indexing, ConnectEvent::Indexed) => {
                self.phase = Phase::Finding;
                ConnectAction::Find(self.names[self.at].clone())
            },
            (Phase::Finding, ConnectEvent::Found(true)) => {
                self.phase = Phase::Reading;
                self.ids = IdMap::new();
                self.count = 0;
                ConnectAction::NextRow
            },
            (Phase::Finding, ConnectEvent::Found(false)) => {
                self.phase = Phase::WaitingToCreate;
                ConnectAction::WaitAndReconnect
            },
            (Phase::Reading, ConnectEvent::Row(id)) => {
                self.ids.insert(id, true);
                if id > self.count {
                    self.count = id;
                }
                ConnectAction::NextRow
            },
            (Phase::Reading, ConnectEvent::RowFailed) => {
                self.phase = Phase::WaitingToRead;
                ConnectAction::WaitAndReconnect
            },
            (Phase::WaitingToRead, ConnectEvent::Reconnected) => {
                self.phase = Phase::Reading;
                ConnectAction::NextRow
            },
            (Phase::Reading, ConnectEvent::RowsEnded) => {
                self.phase = Phase::Raising;
                let name = self.names[self.at].clone();
                let shelf = Shelf { ids: self.ids.duplicate(), high: self.count };
                proof {
                    assert(shelf@ =~= ShelfView { ids: was.ids, high: was.count });
                }
                self.catalog.put(name.as_str(), shelf);
                ConnectAction::RaiseCounter(name, self.count)
            },
            (Phase::Raising, ConnectEvent::Raised) => {
                self.at = self.at + 1;
                if self.at < n {
                    self.phase = Phase::Creating;
                    ConnectAction::Create(self.names[self.at].clone())
                } else {
                    self.phase = Phase::Finished;
                    ConnectAction::Finished
                }
            },
            _ => ConnectAction::Ignore,
        };
        proof {
            assert(self@ =~= was.step(e).0);
        }
        action
    }

    /// What is known of the collections, once all are open.
    pub fn into_catalog(self) -> (r: Catalog)
        ensures
            r@ == self@.catalog,
    {
        self.catalog
    }
}

/// The values of a table that is read in an order.
pub open spec fn values_read(t: Map<Seq<char>, Seq<char>>, order: Seq<Seq<char>>) -> Seq<Seq<char>> {
    Seq::new(order.len(), |i: int| t[order[i]])
}

/// The values of a table of the internals, in the order in which it is read.
pub fn table_values(internals: &Item, name: &str) -> (r: Vec<String>)
    ensures
        exists|order: Seq<Seq<char>>| #[trigger]
            route_cache::reading_order(route_cache::table(internals@, name@), order)
                && text::views(r@) == values_read(route_cache::table(internals@, name@), order),
{
    let entries = internals.safe_strstr(name);
    let ghost t = route_cache::table(internals@, name@);
    let ghost all = entries.pairs();
    let ghost order = Seq::new(all.len(), |i: int| all[i].0);
    let n: usize = entries.len();
    let mut out: Vec<String> = Vec::new();
    let mut i: usize = 0;
    proof {
        assert(entries@ == t);
        route_cache::order_reads(all, t, order);
    }
    while i < n
        invariant
            i <= n,
            n == all.len(),
            all == entries.pairs(),
            out@.len() == i,
            forall|j: int| 0 <= j < i ==> (#[trigger] out@[j])@ == all[j].1,
        decreases n - i,
    {
        out.push(entries.value(i).clone());
        i = i + 1;
    }
    proof {
        assert forall|j: int| 0 <= j < n implies #[trigger] text::views(out@)[j] == values_read(
            t,
            order,
        )[j] by {
            assert(out@[j]@ == all[j].1);
            assert(t[order[j]] == all[j].1);
        }
        assert(text::views(out@) =~= values_read(t, order));
        assert(route_cache::reading_order(t, order));
    }
    out
}

/// A collection is opened in steps, each after the other has worked: it is made, its
/// indexes are, its documents are asked for and read, and the counter is raised to the
/// largest number that was read. Then the next one is.
pub proof fn how_a_collection_is_opened(v: ConnectorView, id: u64)
    requires
        v.valid(),
    ensures
        v.phase == Phase::Creating ==> v.step(ConnectEvent::Created(true)).1
            == ActionView::EnsureIndexes(v.names[v.at]) && v.step(
            ConnectEvent::Created(true),
        ).0.phase == Phase::Indexing,
        v.phase == Phase::Indexing ==> v.step(ConnectEvent::Indexed).1 == ActionView::Find(
            v.names[v.at],
        ) && v.step(ConnectEvent::Indexed).0.phase == Phase::Finding,
        v.phase == Phase::Finding ==> v.step(ConnectEvent::Found(true)).1 == ActionView::NextRow
            && v.step(ConnectEvent::Found(true)).0.phase == Phase::Reading && v.step(
            ConnectEvent::Found(true),
        ).0.ids == Set::<u64>::empty() && v.step(ConnectEvent::Found(true)).0.count == 0,
        v.phase == Phase::Reading ==> ({
            let next = v.step(ConnectEvent::Row(id));
            &&& next.1 == ActionView::NextRow
            &&& next.0.phase == Phase::Reading
            &&& next.0.ids == v.ids.insert(id)
            &&& next.0.count >= id && next.0.count >= v.count
            &&& next.0.count == id || next.0.count == v.count
            &&& next.0.catalog == v.catalog
        }),
        v.phase == Phase::Reading ==> ({
            let next = v.step(ConnectEvent::RowsEnded);
            &&& next.1 == ActionView::RaiseCounter(v.names[v.at], v.count)
            &&& next.0.catalog.contains_key(v.names[v.at])
            &&& next.0.catalog[v.names[v.at]].ids == v.ids
            &&& next.0.catalog[v.names[v.at]].high == v.count
            &&& next.0.phase == Phase::Raising
        }),
        v.phase == Phase::Raising && v.at + 1 < v.names.len() ==> v.step(ConnectEvent::Raised).1
            == ActionView::Create(v.names[v.at + 1]) && v.step(ConnectEvent::Raised).0.at == v.at
            + 1 && v.step(ConnectEvent::Raised).0.phase == Phase::Creating,
        v.phase == Phase::Raising && v.at + 1 == v.names.len() ==> v.step(ConnectEvent::Raised).1
            == ActionView::Finished && v.step(ConnectEvent::Raised).0.phase == Phase::Finished,
{
}

/// What is not waited for changes nothing, and what fails is waited out.
pub proof fn what_is_not_waited_for(v: ConnectorView)
    ensures
        v.phase == Phase::Finished ==> v.step(ConnectEvent::Raised) == (v, ActionView::Ignore)
            && v.step(ConnectEvent::Reconnected) == (v, ActionView::Ignore),
        v.phase == Phase::Creating ==> v.step(ConnectEvent::RowsEnded) == (v, ActionView::Ignore)
            && v.step(ConnectEvent::Created(false)).1 == ActionView::WaitAndReconnect,
        v.phase == Phase::Finding ==> v.step(ConnectEvent::Found(false)).1
            == ActionView::WaitAndReconnect && v.step(ConnectEvent::Found(false)).0.phase
            == Phase::WaitingToCreate,
        v.phase == Phase::Reading ==> v.step(ConnectEvent::RowFailed).1
            == ActionView::WaitAndReconnect && v.step(ConnectEvent::RowFailed).0.ids == v.ids,
{
}

/// Opening begins with the first collection, with nothing known, and is over at once
/// where there is none.
pub proof fn where_opening_begins(names: Seq<Seq<char>>)
    ensures
        ConnectorView::start(names).names == names,
        ConnectorView::start(names).at == 0,
        ConnectorView::start(names).catalog == Map::<Seq<char>, ShelfView>::empty(),
        names.len() == 0 <==> ConnectorView::start(names).phase == Phase::Finished,
        names.len() > 0 <==> ConnectorView::start(names).phase == Phase::Creating,
{
}

/// The values of a table are those of its entries, in the order in which it is read.
pub proof fn which_values_are_read(t: Map<Seq<char>, Seq<char>>, order: Seq<Seq<char>>, i: int)
    ensures
        values_read(t, order).len() == order.len(),
        0 <= i < order.len() ==> values_read(t, order)[i] == t[order[i]],
{
}

} // verus!
