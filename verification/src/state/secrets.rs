//! The secret store: named records whose secret fields are never handed out.
//!
//! Every record carries the id it is kept under, no two records share a name,
//! and new ids come from a counter above all ids in use. A field whose key
//! begins with `secret` is shown as a placeholder; writing the placeholder back
//! leaves the stored value alone, so a client can round-trip a record it cannot
//! read.
use crate::collections;
use crate::collections::{Duplicate, IdMap, StrMap};
use crate::item::{Item, ItemView};
use crate::text;
use crate::text::{before, cat, cat3, cat4, decimal_string, owned, same, starts_with};
use vstd::prelude::*;

verus! {

/// The length of the nonce that a stored blob begins with.
pub const NONCE_LEN: usize = 12;

/// The length of the key that the store is encrypted under.
pub const KEY_LEN: usize = 32;

/// The version that the stored envelope carries.
pub const FORMAT_VERSION: u32 = 1;

/// Whether values under this key are secret.
pub open spec fn secret_key(k: Seq<char>) -> bool {
    "secret"@.is_prefix_of(k)
}

/// Whether values under this key are secret.
pub fn is_secret_key(k: &str) -> (r: bool)
    ensures
        r == secret_key(k@),
{
    starts_with(k, "secret")
}

/// What went wrong.
#[derive(Clone, Copy, Debug, PartialEq, Eq, Structural)]
pub enum ErrorKind {
    /// The record cannot be stored as it is.
    InvalidInput,
    /// Another record has the name.
    AlreadyExists,
    /// What was stored cannot be taken for a secret store.
    InvalidData,
}

/// Why an operation was refused.
#[derive(Debug)]
pub struct SecretError {
    pub kind: ErrorKind,
    pub message: String,
}

/// What a secret store holds.
#[verifier::ext_equal]
pub struct SecretsView {
    pub entries: Map<u64, ItemView>,
    pub names: Map<Seq<char>, u64>,
    pub next_id: u64,
}

/// The name of a record; empty where it has none.
pub open spec fn name_of(v: ItemView) -> Seq<char> {
    v.str("name"@, Seq::empty())
}

/// The next number, or the largest there is.
pub open spec fn next_after(id: u64) -> u64 {
    if id == u64::MAX {
        id
    } else {
        (id + 1) as u64
    }
}

/// The larger of two numbers.
pub open spec fn larger(a: u64, b: u64) -> u64 {
    if a < b {
        b
    } else {
        a
    }
}

impl SecretsView {
    /// What always holds of a secret store.
    pub open spec fn valid(self) -> bool {
        &&& self.entries.dom().finite()
        &&& forall|id: u64| #[trigger] self.entries.contains_key(id) ==> self.entries[id].id == id
        &&& forall|id: u64|
            #[trigger] self.entries.contains_key(id) ==> id < self.next_id || self.next_id
                == u64::MAX
        &&& forall|n: Seq<char>| #[trigger]
            self.names.contains_key(n) ==> n.len() > 0 && self.entries.contains_key(self.names[n])
                && name_of(self.entries[self.names[n]]) == n
        &&& forall|id: u64| #[trigger]
            self.entries.contains_key(id) && name_of(self.entries[id]).len() > 0
                ==> self.names.contains_key(name_of(self.entries[id]))
                && self.names[name_of(self.entries[id])] == id
    }

    /// The id a record would be stored under.
    pub open spec fn target(self, item: ItemView) -> u64 {
        if item.id == u64::MAX {
            self.next_id
        } else {
            item.id
        }
    }

    /// The record before its placeholders are resolved.
    pub open spec fn laid(self, item: ItemView, merge: bool) -> ItemView {
        if merge && self.entries.contains_key(self.target(item)) {
            self.entries[self.target(item)].overlaid(item)
        } else {
            item
        }
    }

    /// The strings stored so far under an id.
    pub open spec fn stored_strs(self, id: u64) -> Map<Seq<char>, Seq<char>> {
        if self.entries.contains_key(id) {
            self.entries[id].strs
        } else {
            Map::empty()
        }
    }

    /// The record that storing would leave behind.
    pub open spec fn stored(self, item: ItemView, merge: bool) -> ItemView {
        let v = self.laid(item, merge);
        ItemView {
            id: self.target(item),
            strs: restored(v.strs, self.stored_strs(self.target(item))),
            ..v
        }
    }

    /// Why a record may not be stored, if it may not.
    pub open spec fn refusal(self, item: ItemView, merge: bool) -> Option<ErrorKind> {
        let n = name_of(self.stored(item, merge));
        if n.len() == 0 {
            Some(ErrorKind::InvalidInput)
        } else if self.names.contains_key(n) && self.names[n] != self.target(item) {
            Some(ErrorKind::AlreadyExists)
        } else {
            None
        }
    }

    /// The index of names without the name that a record had before.
    pub open spec fn names_without(self, id: u64, name: Seq<char>) -> Map<Seq<char>, u64> {
        if self.entries.contains_key(id) && self.entries[id].strs.contains_key("name"@) {
            let p = self.entries[id].strs["name"@];
            if p != name && self.names.contains_key(p) && self.names[p] == id {
                self.names.remove(p)
            } else {
                self.names
            }
        } else {
            self.names
        }
    }

    /// The store after a record was stored.
    pub open spec fn after_set(self, item: ItemView, merge: bool) -> SecretsView {
        let id = self.target(item);
        let v = self.stored(item, merge);
        SecretsView {
            entries: self.entries.insert(id, v),
            names: self.names_without(id, name_of(v)).insert(name_of(v), id),
            next_id: larger(self.next_id, next_after(id)),
        }
    }

    /// The store after a record was deleted.
    pub open spec fn after_del(self, id: u64) -> SecretsView {
        SecretsView {
            entries: self.entries.remove(id),
            names: if self.names.contains_key(name_of(self.entries[id]))
                && self.names[name_of(self.entries[id])] == id {
                self.names.remove(name_of(self.entries[id]))
            } else {
                self.names
            },
            next_id: self.next_id,
        }
    }
}

/// Whether the value under a key is the placeholder of a secret.
pub open spec fn hidden(k: Seq<char>, v: Seq<char>) -> bool {
    secret_key(k) && v == "<hidden>"@
}

/// Strings with every placeholder turned into the value it stands for; a
/// placeholder that stands for nothing is dropped.
pub open spec fn restored(
    strs: Map<Seq<char>, Seq<char>>,
    known: Map<Seq<char>, Seq<char>>,
) -> Map<Seq<char>, Seq<char>> {
    Map::new(
        |k: Seq<char>|
            strs.contains_key(k) && (hidden(k, strs[k]) ==> known.contains_key(k)),
        |k: Seq<char>|
            if hidden(k, strs[k]) {
                known[k]
            } else {
                strs[k]
            },
    )
}

/// Strings with every secret value turned into the placeholder.
pub open spec fn masked(strs: Map<Seq<char>, Seq<char>>) -> Map<Seq<char>, Seq<char>> {
    Map::new(
        |k: Seq<char>| strs.contains_key(k),
        |k: Seq<char>|
            if secret_key(k) {
                "<hidden>"@
            } else {
                strs[k]
            },
    )
}

/// A secret store.
pub struct SecretStore {
    entries: IdMap<Item>,
    name_index: StrMap<u64>,
    next_id: u64,
}

impl View for SecretStore {
    type V = SecretsView;

    closed spec fn view(&self) -> SecretsView {
        SecretsView {
            entries: self.entries@,
            names: self.name_index@,
            next_id: self.next_id,
        }
    }
}

fn mask(strs: &StrMap<String>) -> (out: StrMap<String>)
    ensures
        out@ == masked(strs@),
{
    let n: usize = strs.len();
    let ghost all = strs.pairs();
    let mut out: StrMap<String> = StrMap::new();
    let mut i: usize = 0;
    proof {
        collections::map_of_none(all.take(0));
        assert(out@ =~= masked(collections::map_of(all.take(0))));
    }
    while i < n
        invariant
            i <= n,
            n == all.len(),
            strs.pairs() == all,
            collections::distinct_keys(all),
            out@ == masked(collections::map_of(all.take(i as int))),
        decreases n - i,
    {
        let k = strs.key(i);
        let ghost m = collections::map_of(all.take(i as int));
        let shown = if is_secret_key(k.as_str()) {
            owned("<hidden>")
        } else {
            strs.value(i).clone()
        };
        proof {
            collections::map_of_grow(all, i as int);
            assert(masked(m).insert(k@, shown@) =~= masked(m.insert(k@, all[i as int].1)));
        }
        out.insert(k.clone(), shown);
        i = i + 1;
    }
    proof {
        assert(all.take(n as int) =~= all);
    }
    out
}

fn restore(strs: &StrMap<String>, known: &StrMap<String>) -> (out: StrMap<String>)
    ensures
        out@ == restored(strs@, known@),
{
    let n: usize = strs.len();
    let ghost all = strs.pairs();
    let mut out: StrMap<String> = StrMap::new();
    let mut i: usize = 0;
    proof {
        collections::map_of_none(all.take(0));
        assert(out@ =~= restored(collections::map_of(all.take(0)), known@));
    }
    while i < n
        invariant
            i <= n,
            n == all.len(),
            strs.pairs() == all,
            collections::distinct_keys(all),
            out@ == restored(collections::map_of(all.take(i as int)), known@),
        decreases n - i,
    {
        let k = strs.key(i);
        let v = strs.value(i);
        let ghost m = collections::map_of(all.take(i as int));
        proof {
            collections::map_of_grow(all, i as int);
        }
        if is_secret_key(k.as_str()) && same(v.as_str(), "<hidden>") {
            match known.get(k.as_str()) {
                Some(prev) => {
                    proof {
                        assert(restored(m, known@).insert(k@, prev@) =~= restored(
                            m.insert(k@, v@),
                            known@,
                        ));
                    }
                    out.insert(k.clone(), prev.clone());
                },
                None => {
                    proof {
                        assert(restored(m, known@) =~= restored(m.insert(k@, v@), known@));
                    }
                },
            }
        } else {
            proof {
                assert(restored(m, known@).insert(k@, v@) =~= restored(
                    m.insert(k@, v@),
                    known@,
                ));
            }
            out.insert(k.clone(), v.clone());
        }
        i = i + 1;
    }
    proof {
        assert(all.take(n as int) =~= all);
    }
    out
}


impl SecretStore {
    /// The store without records.
    pub fn empty() -> (r: SecretStore)
        ensures
            r@.valid(),
            r@.entries == Map::<u64, ItemView>::empty(),
            r@.names == Map::<Seq<char>, u64>::empty(),
            r@.next_id == 0,
    {
        let entries: IdMap<Item> = IdMap::new();
        let n: usize = entries.len();
        SecretStore { entries, name_index: StrMap::new(), next_id: 0 }
    }

    /// A second store with the same content.
    pub fn duplicate(&self) -> (r: SecretStore)
        ensures
            r@ == self@,
    {
        SecretStore {
            entries: self.entries.duplicate(),
            name_index: self.name_index.duplicate(),
            next_id: self.next_id,
        }
    }

    /// The records by id, for storage.
    pub fn entries(&self) -> (r: &IdMap<Item>)
        ensures
            r@ == self@.entries,
    {
        &self.entries
    }

    /// The id that the next new record gets.
    pub fn next_id(&self) -> (r: u64)
        ensures
            r == self@.next_id,
    {
        self.next_id
    }

    /// A secret by id, with its values intact. Not for callers from outside.
    pub fn get(&self, id: u64) -> (r: Option<Item>)
        ensures
            match r {
                Some(v) => self@.entries.contains_key(id) && v@ == self@.entries[id],
                None => !self@.entries.contains_key(id),
            },
    {
        match self.entries.get(id) {
            Some(v) => Some(v.duplicate()),
            None => None,
        }
    }

    /// A secret by name, with its values intact. Not for callers from outside.
    pub fn get_by_name(&self, name: &str) -> (r: Option<Item>)
        requires
            self@.valid(),
        ensures
            match r {
                Some(v) => self@.names.contains_key(name@) && v@
                    == self@.entries[self@.names[name@]],
                None => !self@.names.contains_key(name@),
            },
    {
        match self.name_index.get(name) {
            Some(id) => {
                proof {
                    assert(self@.names.contains_key(name@));
                }
                self.get(*id)
            },
            None => None,
        }
    }

    /// A secret as callers from outside see it: every value under a secret key
    /// is the placeholder.
    pub fn get_masked(&self, id: u64) -> (r: Option<Item>)
        ensures
            match r {
                Some(v) => self@.entries.contains_key(id) && v@ == (ItemView {
                    strs: masked(self@.entries[id].strs),
                    ..self@.entries[id]
                }),
                None => !self@.entries.contains_key(id),
            },
    {
        match self.entries.get(id) {
            Some(v) => {
                let mut shown = v.duplicate();
                shown.strs = mask(&v.strs);
                Some(shown)
            },
            None => None,
        }
    }

    /// Stores a record, new or in place of another, and returns its id.
    ///
    /// An unset id allocates a new one. With `merge`, fields the record does
    /// not have keep their stored values. A placeholder under a secret key
    /// keeps the stored value, or is dropped where there is none. The name must
    /// not be empty, and no other record may have it.
    pub fn set(&mut self, item: &Item, merge: bool) -> (r: Result<u64, SecretError>)
        requires
            old(self)@.valid(),
        ensures
            final(self)@.valid(),
            match old(self)@.refusal(item@, merge) {
                None => r == Ok::<u64, SecretError>(old(self)@.target(item@)) && final(self)@
                    == old(self)@.after_set(item@, merge),
                Some(kind) => r is Err && r->Err_0.kind == kind && final(self)@ == old(self)@,
            },
            r is Err && r->Err_0.kind == ErrorKind::AlreadyExists ==> {
                let n = name_of(old(self)@.stored(item@, merge));
                r->Err_0.message@ == "secret name '"@ + n + "' already in use by id "@
                    + text::decimal(old(self)@.names[n] as nat)
            },
            r is Err && r->Err_0.kind == ErrorKind::InvalidInput ==> r->Err_0.message@
                == "secret item must have a non-empty strs[\"name\"]"@,
    {
        let ghost was = self@;
        let id: u64 = if item.id == u64::MAX {
            self.next_id
        } else {
            item.id
        };
        let mut next = match self.entries.get(id) {
            Some(e) => {
                let mut base = e.duplicate();
                if merge {
                    base.merge(item);
                } else {
                    base = item.duplicate();
                }
                base.strs = restore(&base.strs, &e.strs);
                base
            },
            None => {
                let mut base = item.duplicate();
                base.strs = restore(&base.strs, &StrMap::new());
                base
            },
        };
        next.id = id;
        proof {
            assert(next@ == was.stored(item@, merge));
        }
        let name = next.safe_str("name", "");
        proof {
            reveal_strlit("");
            assert(""@ =~= Seq::<char>::empty());
        }
        if name.as_str().is_empty() {
            return Err(
                SecretError {
                    kind: ErrorKind::InvalidInput,
                    message: owned("secret item must have a non-empty strs[\"name\"]"),
                },
            );
        }
        match self.name_index.get(name.as_str()) {
            Some(other) => {
                if *other != id {
                    return Err(
                        SecretError {
                            kind: ErrorKind::AlreadyExists,
                            message: cat4(
                                "secret name '",
                                name.as_str(),
                                "' already in use by id ",
                                decimal_string(*other).as_str(),
                            ),
                        },
                    );
                }
            },
            None => {},
        }
        let prev_name: Option<String> = match self.entries.get(id) {
            Some(e) => match e.strs.get("name") {
                Some(p) => Some(p.clone()),
                None => None,
            },
            None => None,
        };
        let above: u64 = if id == u64::MAX {
            id
        } else {
            id + 1
        };
        self.entries.insert(id, next);
        if self.next_id < above {
            self.next_id = above;
        }
        match prev_name {
            Some(p) => {
                if !same(p.as_str(), name.as_str()) {
                    let stale = match self.name_index.get(p.as_str()) {
                        Some(owner) => *owner == id,
                        None => false,
                    };
                    if stale {
                        self.name_index.remove(p.as_str());
                    }
                }
            },
            None => {},
        }
        self.name_index.insert(name, id);
        proof {
            assert(self@ =~= was.after_set(item@, merge));
            set_keeps_valid(was, item@, merge);
        }
        Ok(id)
    }

    /// Deletes a record and frees its name. Returns whether there was one.
    pub fn del(&mut self, id: u64) -> (r: bool)
        requires
            old(self)@.valid(),
        ensures
            final(self)@.valid(),
            r == old(self)@.entries.contains_key(id),
            r ==> final(self)@ == old(self)@.after_del(id),
            !r ==> final(self)@ == old(self)@,
    {
        let ghost was = self@;
        match self.entries.remove(id) {
            Some(gone) => {
                let name = gone.safe_str("name", "");
                proof {
                    reveal_strlit("");
                    assert(""@ =~= Seq::<char>::empty());
                }
                let owned_name = match self.name_index.get(name.as_str()) {
                    Some(owner) => *owner == id,
                    None => false,
                };
                if owned_name {
                    self.name_index.remove(name.as_str());
                }
                proof {
                    assert(self@ =~= was.after_del(id));
                    del_keeps_valid(was, id);
                }
                true
            },
            None => {
                proof {
                    assert(self@.entries =~= was.entries);
                }
                false
            },
        }
    }
}

/// Storing a record keeps what always holds.
pub proof fn set_keeps_valid(s: SecretsView, item: ItemView, merge: bool)
    requires
        s.valid(),
        s.refusal(item, merge) is None,
    ensures
        s.after_set(item, merge).valid(),
{
    let t = s.after_set(item, merge);
    let id = s.target(item);
    let v = s.stored(item, merge);
    let n = name_of(v);
    assert forall|m: Seq<char>| #[trigger] t.names.contains_key(m) implies m.len() > 0
        && t.entries.contains_key(t.names[m]) && name_of(t.entries[t.names[m]]) == m by {
        if m != n {
            assert(s.names.contains_key(m));
            if s.names[m] == id {
                assert(name_of(s.entries[id]) == m);
            }
        }
    }
    assert forall|i: u64| #[trigger]
        t.entries.contains_key(i) && name_of(t.entries[i]).len() > 0 implies t.names.contains_key(
        name_of(t.entries[i]),
    ) && t.names[name_of(t.entries[i])] == i by {
        if i != id {
            assert(s.entries.contains_key(i));
        }
    }
}

/// Deleting a record keeps what always holds.
pub proof fn del_keeps_valid(s: SecretsView, id: u64)
    requires
        s.valid(),
        s.entries.contains_key(id),
    ensures
        s.after_del(id).valid(),
{
    let t = s.after_del(id);
    assert forall|m: Seq<char>| #[trigger] t.names.contains_key(m) implies m.len() > 0
        && t.entries.contains_key(t.names[m]) && name_of(t.entries[t.names[m]]) == m by {
        assert(s.names.contains_key(m));
    }
    assert forall|i: u64| #[trigger]
        t.entries.contains_key(i) && name_of(t.entries[i]).len() > 0 implies t.names.contains_key(
        name_of(t.entries[i]),
    ) && t.names[name_of(t.entries[i])] == i by {
        assert(s.entries.contains_key(i));
        assert(s.entries.contains_key(id));
    }
}


// ---------------------------------------------------------------------------
// Taking a store up again
// ---------------------------------------------------------------------------

/// Records with the id each is kept under.
pub open spec fn repaired(entries: Map<u64, ItemView>) -> Map<u64, ItemView> {
    Map::new(
        |id: u64| entries.contains_key(id),
        |id: u64| entries[id].numbered(id),
    )
}

/// Whether two records share a name that is not empty.
pub open spec fn clash(entries: Map<u64, ItemView>, a: u64, b: u64) -> bool {
    &&& a != b
    &&& entries.contains_key(a)
    &&& entries.contains_key(b)
    &&& name_of(entries[a]).len() > 0
    &&& name_of(entries[a]) == name_of(entries[b])
}

/// Whether `g` is the greatest id, or 0 where there is none.
pub open spec fn is_greatest(entries: Map<u64, ItemView>, g: u64) -> bool {
    ||| entries.contains_key(g) && forall|id: u64| #[trigger]
        entries.contains_key(id) ==> id <= g
    ||| g == 0 && forall|id: u64| !#[trigger] entries.contains_key(id)
}

/// What is said of two records that share a name.
pub open spec fn clash_message(name: Seq<char>, a: u64, b: u64) -> Seq<char> {
    "duplicate secret name '"@ + name + "' in store (ids "@ + text::decimal(a as nat) + (" and "@
        + text::decimal(b as nat) + ")"@)
}

impl SecretStore {
    /// Takes a store up from its envelope: each record gets the id it was kept
    /// under, and the counter is put above all of them. Refused where two
    /// records share a name.
    pub fn load(entries: &IdMap<Item>, next_id: u64) -> (r: Result<SecretStore, SecretError>)
        ensures
            match r {
                Ok(s) => {
                    &&& s@.valid()
                    &&& s@.entries == repaired(entries@)
                    &&& forall|g: u64| #[trigger]
                        is_greatest(entries@, g) ==> s@.next_id == larger(next_id, next_after(g))
                    &&& forall|a: u64, b: u64| !#[trigger] clash(entries@, a, b)
                },
                Err(e) => e.kind == ErrorKind::InvalidData && exists|a: u64, b: u64| #[trigger]
                    clash(entries@, a, b) && e.message@ == clash_message(
                        name_of(entries@[a]),
                        a,
                        b,
                    ),
            },
    {
        let n: usize = entries.len();
        let ghost all = entries.pairs();
        let mut kept: IdMap<Item> = IdMap::new();
        let mut names: StrMap<u64> = StrMap::new();
        let mut greatest: u64 = 0;
        let mut i: usize = 0;
        proof {
            reveal_strlit("");
            assert(""@ =~= Seq::<char>::empty());
        }
        while i < n
            invariant
                i <= n,
                n == all.len(),
                all == entries.pairs(),
                ""@ == Seq::<char>::empty(),
                collections::distinct_keys(all),
                collections::ascending(all),
                forall|id: u64| #[trigger] kept@.contains_key(id) ==> entries@.contains_key(id)
                    && kept@[id] == entries@[id].numbered(id),
                forall|j: int| 0 <= j < i ==> kept@.contains_key((#[trigger] all[j]).0),
                forall|id: u64| #[trigger] kept@.contains_key(id) ==> exists|j: int|
                    0 <= j < i && (#[trigger] all[j]).0 == id,
                i == 0 ==> greatest == 0,
                i > 0 ==> greatest == all[i - 1].0,
                forall|m: Seq<char>| #[trigger] names@.contains_key(m) ==> m.len() > 0
                    && kept@.contains_key(names@[m]) && name_of(kept@[names@[m]]) == m,
                forall|id: u64| #[trigger]
                    kept@.contains_key(id) && name_of(kept@[id]).len() > 0 ==> names@.contains_key(
                        name_of(kept@[id]),
                    ) && names@[name_of(kept@[id])] == id,
            decreases n - i,
        {
            let id: u64 = entries.key(i);
            let ghost k0 = kept@;
            proof {
                collections::map_of_has(all, i as int);
                assert forall|x: u64| #[trigger] k0.contains_key(x) implies x != id by {
                    let j = choose|j: int| 0 <= j < i && (#[trigger] all[j]).0 == x;
                    assert(all[j].0 < all[i as int].0);
                }
            }
            let mut it = entries.value(i).duplicate();
            it.id = id;
            let name = it.safe_str("name", "");
            if !name.as_str().is_empty() {
                match names.get(name.as_str()) {
                    Some(other) => {
                        let ids = cat3(
                            " and ",
                            decimal_string(id).as_str(),
                            ")",
                        );
                        let said = cat4(
                            "duplicate secret name '",
                            name.as_str(),
                            "' in store (ids ",
                            decimal_string(*other).as_str(),
                        );
                        proof {
                            assert(k0.contains_key(*other));
                            assert(clash(entries@, *other, id));
                        }
                        return Err(
                            SecretError {
                                kind: ErrorKind::InvalidData,
                                message: cat(said.as_str(), ids.as_str()),
                            },
                        );
                    },
                    None => {},
                }
                names.insert(name, id);
            }
            kept.insert(id, it);
            greatest = id;
            proof {
                assert forall|x: u64| #[trigger] kept@.contains_key(x) implies exists|j: int|
                    0 <= j < i + 1 && (#[trigger] all[j]).0 == x by {
                    if x == id {
                        assert(all[i as int].0 == x);
                    } else {
                        assert(k0.contains_key(x));
                    }
                }
            }
            i = i + 1;
        }
        let above: u64 = if greatest == u64::MAX {
            greatest
        } else {
            greatest + 1
        };
        let next: u64 = if next_id < above {
            above
        } else {
            next_id
        };
        let ghost m = entries@;
        let size: usize = kept.len();
        let s = SecretStore { entries: kept, name_index: names, next_id: next };
        proof {
            assert forall|id: u64| #[trigger] m.contains_key(id) implies kept@.contains_key(id)
                && id <= greatest by {
                let j = collections::map_of_from(all, id);
                assert(kept@.contains_key(all[j].0));
                if j < n - 1 {
                    assert(all[j].0 < all[n - 1].0);
                }
            }
            assert(kept@ =~= repaired(m));
            if n > 0 {
                collections::map_of_has(all, n - 1);
            }
            assert forall|g: u64| #[trigger] is_greatest(m, g) implies g == greatest by {
                if n > 0 {
                    assert(m.contains_key(greatest));
                } else {
                    if m.contains_key(g) {
                        let j = collections::map_of_from(all, g);
                    }
                }
            }
            assert forall|a: u64, b: u64| !#[trigger] clash(m, a, b) by {
                if clash(m, a, b) {
                    assert(kept@.contains_key(a));
                    assert(kept@.contains_key(b));
                    assert(name_of(kept@[a]) == name_of(m[a]));
                    assert(name_of(kept@[b]) == name_of(m[b]));
                }
            }
        }
        Ok(s)
    }
}


impl SecretStore {
    /// Takes a store up from the older format, in which records were kept under
    /// their names: ids are allocated in the order of the names, from 0 on.
    pub fn migrate(legacy: &StrMap<Item>) -> (s: SecretStore)
        ensures
            s@.valid(),
            s@.next_id == legacy@.dom().len(),
            forall|id: u64| #[trigger]
                s@.entries.contains_key(id) <==> id < legacy@.dom().len(),
            forall|id: u64| #[trigger]
                s@.entries.contains_key(id) ==> legacy@.contains_key(name_of(s@.entries[id]))
                    && s@.entries[id] == legacy@[name_of(s@.entries[id])].numbered(id).with_str(
                    "name"@,
                    name_of(s@.entries[id]),
                ),
            forall|a: u64, b: u64|
                #![trigger s@.entries[a], s@.entries[b]]
                a < b < legacy@.dom().len() ==> text::precedes(
                    name_of(s@.entries[a]),
                    name_of(s@.entries[b]),
                ),
    {
        let keys = legacy.sorted_keys();
        let ghost ks = text::views(keys@);
        let mut s = SecretStore::empty();
        let mut i: usize = 0;
        while i < keys.len()
            invariant
                i <= keys.len(),
                ks == text::views(keys@),
                keys@.len() == legacy@.dom().len(),
                ks.no_duplicates(),
                forall|k: Seq<char>| #[trigger] ks.contains(k) <==> legacy@.contains_key(k),
                s@.valid(),
                s@.next_id == i,
                forall|id: u64| #[trigger] s@.entries.contains_key(id) <==> id < i,
                forall|id: u64| #[trigger]
                    s@.entries.contains_key(id) ==> s@.entries[id] == legacy@[ks[id as int]].numbered(
                        id,
                    ).with_str("name"@, ks[id as int]),
            decreases keys.len() - i,
        {
            let k = &keys[i];
            let id: u64 = i as u64;
            let ghost was = s@;
            proof {
                assert(ks[i as int] == k@);
                assert(ks.contains(k@));
            }
            match legacy.get(k.as_str()) {
                Some(v) => {
                    let mut it = v.duplicate();
                    it.id = id;
                    it.set_str("name", k.as_str());
                    if !k.as_str().is_empty() {
                        s.name_index.insert(k.clone(), id);
                    }
                    s.entries.insert(id, it);
                    s.next_id = id + 1;
                    proof {
                        assert(name_of(it@) == k@);
                        assert forall|m: Seq<char>| #[trigger] was.names.contains_key(
                            m,
                        ) implies m != k@ by {
                            let x = was.names[m];
                            assert(was.entries.contains_key(x));
                            assert(name_of(was.entries[x]) == ks[x as int]);
                        }
                        assert forall|x: u64| #[trigger]
                            s@.entries.contains_key(x) && name_of(s@.entries[x]).len()
                                > 0 implies s@.names.contains_key(name_of(s@.entries[x]))
                            && s@.names[name_of(s@.entries[x])] == x by {
                            if x != id {
                                assert(was.entries.contains_key(x));
                            }
                        }
                        assert forall|m: Seq<char>| #[trigger] s@.names.contains_key(
                            m,
                        ) implies m.len() > 0 && s@.entries.contains_key(s@.names[m]) && name_of(
                            s@.entries[s@.names[m]],
                        ) == m by {
                            if m != k@ {
                                assert(was.names.contains_key(m));
                            }
                        }
                        assert(s@.valid());
                    }
                },
                None => {},
            }
            i = i + 1;
        }
        proof {
            assert forall|id: u64| #[trigger] s@.entries.contains_key(id) implies name_of(
                s@.entries[id],
            ) == ks[id as int] && legacy@.contains_key(ks[id as int]) by {
                assert(ks.contains(ks[id as int]));
            }
            assert forall|a: u64, b: u64| a < b < legacy@.dom().len() implies text::precedes(
                name_of(#[trigger] s@.entries[a]),
                name_of(#[trigger] s@.entries[b]),
            ) by {
                assert(s@.entries.contains_key(a));
                assert(s@.entries.contains_key(b));
                assert(text::precedes(keys@[a as int]@, keys@[b as int]@));
            }
        }
        s
    }

    /// The ids and names of all records, in the order of the names.
    pub fn list(&self) -> (r: Vec<(u64, String)>)
        requires
            self@.valid(),
        ensures
            r@.len() == self@.entries.dom().len(),
            forall|i: int|
                0 <= i < r@.len() ==> self@.entries.contains_key((#[trigger] r@[i]).0) && r@[i].1@
                    == name_of(self@.entries[r@[i].0]),
            forall|i: int, j: int|
                #![trigger r@[i], r@[j]]
                0 <= i < j < r@.len() ==> r@[i].0 != r@[j].0 && !text::precedes(
                    r@[j].1@,
                    r@[i].1@,
                ),
    {
        let n: usize = self.entries.len();
        let ghost all = self.entries.pairs();
        let mut out: Vec<(u64, String)> = Vec::new();
        let mut i: usize = 0;
        proof {
            reveal_strlit("");
            assert(""@ =~= Seq::<char>::empty());
        }
        while i < n
            invariant
                i <= n,
                n == all.len(),
                all == self.entries.pairs(),
                collections::ascending(all),
                collections::distinct_keys(all),
                ""@ == Seq::<char>::empty(),
                out@.len() == i,
                forall|a: int|
                    0 <= a < out@.len() ==> self@.entries.contains_key((#[trigger] out@[a]).0)
                        && out@[a].1@ == name_of(self@.entries[out@[a].0]) && (i == n || out@[a].0
                        < all[i as int].0),
                forall|a: int, b: int|
                    #![trigger out@[a], out@[b]]
                    0 <= a < b < out@.len() ==> out@[a].0 != out@[b].0 && !text::precedes(
                        out@[b].1@,
                        out@[a].1@,
                    ),
            decreases n - i,
        {
            let id: u64 = self.entries.key(i);
            let name = self.entries.value(i).safe_str("name", "");
            proof {
                collections::map_of_has(all, i as int);
            }
            let ghost was = out@;
            let mut p: usize = out.len();
            while p > 0 && before(name.as_str(), out[p - 1].1.as_str())
                invariant
                    p <= out.len(),
                    out@ == was,
                    forall|a: int| p <= a < out@.len() ==> text::precedes(name@, (#[trigger] out@[a]).1@),
                decreases p,
            {
                p = p - 1;
            }
            proof {
                assert forall|a: int| 0 <= a < p implies !text::precedes(
                    name@,
                    (#[trigger] was[a]).1@,
                ) by {
                    if a < p - 1 && text::precedes(name@, was[a].1@) {
                        text::precedes_total(was[a].1@, was[p - 1].1@);
                        assert(!text::precedes(was[p - 1].1@, was[a].1@));
                        if was[a].1@ != was[p - 1].1@ {
                            text::precedes_transitive(name@, was[a].1@, was[p - 1].1@);
                        }
                    }
                }
            }
            out.insert(p, (id, name));
            proof {
                assert forall|a: int, b: int| 0 <= a < b < out@.len() implies (
                #[trigger] out@[a]).0 != (#[trigger] out@[b]).0 && !text::precedes(
                    out@[b].1@,
                    out@[a].1@,
                ) by {
                    let a1 = if a < p { a } else { a - 1 };
                    let b1 = if b < p { b } else { b - 1 };
                    if a == p {
                        assert(was[b1].0 < id);
                        if text::precedes(was[b1].1@, name@) {
                            text::precedes_transitive(name@, was[b1].1@, name@);
                            text::precedes_irreflexive(name@);
                        }
                    } else if b == p {
                        assert(was[a1].0 < id);
                    } else {
                        assert(was[a1].0 != was[b1].0);
                    }
                }
                assert forall|a: int| 0 <= a < out@.len() implies self@.entries.contains_key(
                    (#[trigger] out@[a]).0,
                ) && out@[a].1@ == name_of(self@.entries[out@[a].0]) && (i + 1 == n || out@[a].0
                    < all[i + 1].0) by {
                    let a1 = if a < p { a } else { a - 1 };
                    if i + 1 < n {
                        assert(all[i as int].0 < all[i + 1].0);
                    }
                    if a != p {
                        assert(was[a1].0 < id);
                    }
                }
            }
            i = i + 1;
        }
        out
    }
}

// ---------------------------------------------------------------------------
// What holds of the operations together
// ---------------------------------------------------------------------------

/// No two records share a name.
pub proof fn names_are_unique(s: SecretsView, a: u64, b: u64)
    requires
        s.valid(),
        s.entries.contains_key(a),
        s.entries.contains_key(b),
        name_of(s.entries[a]).len() > 0,
        name_of(s.entries[a]) == name_of(s.entries[b]),
    ensures
        a == b,
{
}

/// A new record gets an id that no record has, and the counter moves past it,
/// until the ids run out.
pub proof fn new_ids_are_fresh(s: SecretsView, item: ItemView, merge: bool)
    requires
        s.valid(),
        item.id == u64::MAX,
        s.next_id < u64::MAX,
    ensures
        !s.entries.contains_key(s.target(item)),
        s.after_set(item, merge).next_id > s.target(item),
{
}

/// What was stored is read back under its id and under its name, and the other
/// records stay as they were.
pub proof fn stored_is_read_back(s: SecretsView, item: ItemView, merge: bool, other: u64)
    requires
        s.valid(),
        s.refusal(item, merge) is None,
    ensures
        ({
            let t = s.after_set(item, merge);
            let id = s.target(item);
            let name = name_of(s.stored(item, merge));
            &&& t.entries.contains_key(id)
            &&& t.entries[id] == s.stored(item, merge)
            &&& t.names.contains_key(name)
            &&& t.names[name] == id
            &&& other != id ==> t.entries.contains_key(other) == s.entries.contains_key(other)
                && t.entries[other] == s.entries[other]
        }),
{
}

/// Masking hides every secret value: records that differ in nothing else look
/// the same.
pub proof fn masking_hides(a: Map<Seq<char>, Seq<char>>, b: Map<Seq<char>, Seq<char>>)
    requires
        a.dom() == b.dom(),
        forall|k: Seq<char>| #[trigger] a.contains_key(k) && !secret_key(k) ==> a[k] == b[k],
    ensures
        masked(a) == masked(b),
        forall|k: Seq<char>| #[trigger]
            masked(a).contains_key(k) && secret_key(k) ==> masked(a)[k] == "<hidden>"@,
{
    assert forall|k: Seq<char>| #[trigger] a.contains_key(k) == b.contains_key(k) by {
        assert(a.dom().contains(k) == b.dom().contains(k));
    }
    assert(masked(a) =~= masked(b));
}

/// A placeholder stands for the stored value.
pub proof fn masked_restores(strs: Map<Seq<char>, Seq<char>>)
    ensures
        restored(masked(strs), strs) == strs,
{
    assert(restored(masked(strs), strs) =~= strs);
}

/// Writing back the record that a caller was shown changes nothing, whether it
/// is merged or replaces the stored one.
pub proof fn masked_round_trip(s: SecretsView, id: u64, merge: bool)
    requires
        s.valid(),
        s.entries.contains_key(id),
        id != u64::MAX,
        name_of(s.entries[id]).len() > 0,
    ensures
        ({
            let shown = ItemView { strs: masked(s.entries[id].strs), ..s.entries[id] };
            &&& s.refusal(shown, merge) is None
            &&& s.after_set(shown, merge).entries == s.entries
            &&& s.after_set(shown, merge).names == s.names
        }),
{
    let e = s.entries[id];
    let shown = ItemView { strs: masked(e.strs), ..e };
    masked_restores(e.strs);
    assert(e.overlaid(shown) =~= shown);
    assert(s.stored(shown, merge) =~= e);
    let t = s.after_set(shown, merge);
    assert(t.entries =~= s.entries);
    assert(s.names.contains_key(name_of(e)));
    assert(t.names =~= s.names);
}

/// A placeholder sent for a secret that is not there leaves no field behind.
pub proof fn hidden_on_insert_is_dropped(s: SecretsView, item: ItemView, merge: bool, k: Seq<char>)
    requires
        !s.entries.contains_key(s.target(item)),
        item.strs.contains_key(k),
        hidden(k, item.strs[k]),
    ensures
        !s.stored(item, merge).strs.contains_key(k),
{
}

/// A real value under a secret key replaces the stored one.
pub proof fn real_value_overwrites(s: SecretsView, item: ItemView, merge: bool, k: Seq<char>)
    requires
        item.strs.contains_key(k),
        !hidden(k, item.strs[k]),
    ensures
        s.stored(item, merge).strs.contains_key(k),
        s.stored(item, merge).strs[k] == item.strs[k],
{
}

/// Merging keeps every stored string that the record does not mention.
pub proof fn merge_keeps_the_rest(s: SecretsView, item: ItemView, k: Seq<char>)
    requires
        s.entries.contains_key(s.target(item)),
        s.entries[s.target(item)].strs.contains_key(k),
        !item.strs.contains_key(k),
    ensures
        s.stored(item, true).strs.contains_key(k),
        s.stored(item, true).strs[k] == s.entries[s.target(item)].strs[k],
{
}

/// Deleting a record frees its name: no record of that name is left, and
/// another record may take it.
pub proof fn deleting_frees_the_name(s: SecretsView, id: u64, item: ItemView, merge: bool)
    requires
        s.valid(),
        s.entries.contains_key(id),
        name_of(s.entries[id]).len() > 0,
        name_of(s.after_del(id).stored(item, merge)) == name_of(s.entries[id]),
    ensures
        !s.after_del(id).names.contains_key(name_of(s.entries[id])),
        s.after_del(id).refusal(item, merge) is None,
{
}

/// A field is secret where its name begins with the word, and only there.
pub proof fn which_fields_are_secret(k: Seq<char>, rest: Seq<char>)
    ensures
        secret_key("secret"@ + rest),
        secret_key(k) ==> k.len() >= 6 && k.take(6) == "secret"@,
        hidden("secret"@ + rest, "<hidden>"@),
        !secret_key(k) ==> !hidden(k, "<hidden>"@),
{
    reveal_strlit("secret");
    assert(("secret"@ + rest).subrange(0, 6) =~= "secret"@);
    if secret_key(k) {
        assert(k.subrange(0, 6) =~= k.take(6));
    }
}

/// Masking shows every field, the secret ones as the placeholder and the others as
/// they are.
pub proof fn what_masking_shows(strs: Map<Seq<char>, Seq<char>>, k: Seq<char>)
    ensures
        masked(strs).contains_key(k) <==> strs.contains_key(k),
        strs.contains_key(k) && "secret"@.is_prefix_of(k) ==> masked(strs)[k] == "<hidden>"@,
        strs.contains_key(k) && !"secret"@.is_prefix_of(k) ==> masked(strs)[k] == strs[k],
{
}

/// A record without a number gets the next one; one with a number keeps it. The
/// counter never goes back, and stands above what was stored.
pub proof fn which_number_a_secret_gets(s: SecretsView, item: ItemView, merge: bool)
    ensures
        item.id == u64::MAX ==> s.target(item) == s.next_id,
        item.id != u64::MAX ==> s.target(item) == item.id,
        s.after_set(item, merge).next_id >= s.next_id,
        s.target(item) < u64::MAX ==> s.after_set(item, merge).next_id > s.target(item),
        s.after_set(item, merge).entries[s.target(item)].id == s.target(item),
        s.target(item) < s.next_id ==> s.after_set(item, merge).next_id == s.next_id,
{
}

/// Without merging a record replaces the stored one: a field that it does not have is
/// gone. With merging it stays.
pub proof fn replacing_drops_what_is_not_sent(s: SecretsView, item: ItemView, k: Seq<char>)
    requires
        !item.strs.contains_key(k),
    ensures
        !s.stored(item, false).strs.contains_key(k),
        s.stored(item, false).bools == item.bools,
        s.stored(item, false).u64s == item.u64s,
        s.stored(item, false).ids == item.ids,
{
}

/// A record is refused for want of a name, and for a name that another record has; no
/// other is.
pub proof fn which_secrets_are_refused(s: SecretsView, item: ItemView, merge: bool)
    ensures
        ({
            let n = s.stored(item, merge).str("name"@, Seq::empty());
            let r = s.refusal(item, merge);
            &&& r == Some(ErrorKind::InvalidInput) <==> n.len() == 0
            &&& r == Some(ErrorKind::AlreadyExists) <==> n.len() > 0 && s.names.contains_key(n)
                && s.names[n] != s.target(item)
            &&& r != Some(ErrorKind::InvalidData)
        }),
{
}

/// Deleting removes the record that was named, and no other.
pub proof fn what_deleting_removes(s: SecretsView, id: u64, other: u64)
    ensures
        !s.after_del(id).entries.contains_key(id),
        other != id ==> s.after_del(id).entries.contains_key(other) == s.entries.contains_key(
            other,
        ) && s.after_del(id).entries[other] == s.entries[other],
        s.after_del(id).next_id == s.next_id,
{
}

/// Taking a store up gives every record the number it was kept under, and changes
/// nothing else of it.
pub proof fn what_taking_up_repairs(entries: Map<u64, ItemView>, id: u64)
    ensures
        repaired(entries).contains_key(id) <==> entries.contains_key(id),
        entries.contains_key(id) ==> repaired(entries)[id].id == id && repaired(entries)[id].strs
            == entries[id].strs && repaired(entries)[id].bools == entries[id].bools && repaired(
            entries,
        )[id].u64s == entries[id].u64s && repaired(entries)[id].ids == entries[id].ids,
{
}

/// A clash is told with the name and with both records, in their order.
pub proof fn what_a_clash_says(name: Seq<char>, a: u64, b: u64)
    ensures
        ("duplicate secret name '"@ + name + "' in store (ids "@).is_prefix_of(
            clash_message(name, a, b),
        ),
        ({
            let said = clash_message(name, a, b);
            let start = ("duplicate secret name '"@ + name + "' in store (ids "@).len() as int;
            said.skip(start) == text::decimal(a as nat) + " and "@ + text::decimal(b as nat) + ")"@
        }),
{
    let start = "duplicate secret name '"@ + name + "' in store (ids "@;
    let rest = text::decimal(a as nat) + " and "@ + text::decimal(b as nat) + ")"@;
    assert(clash_message(name, a, b) =~= start + rest);
    assert((start + rest).skip(start.len() as int) =~= rest);
}

/// Two records clash where both are kept and go by one name that says something.
pub proof fn what_clashes(entries: Map<u64, ItemView>, a: u64, b: u64)
    ensures
        clash(entries, a, b) ==> clash(entries, b, a),
        !clash(entries, a, a),
        a != b && entries.contains_key(a) && entries.contains_key(b) && entries[a].strs.get(
            "name"@,
        ) is Some && entries[a].strs["name"@].len() > 0 && entries[a].strs.get("name"@)
            == entries[b].strs.get("name"@) <==> clash(entries, a, b),
{
}

/// The greatest number of a store is that of a record, and none is above it; without
/// records it is nothing.
pub proof fn what_the_greatest_number_is(entries: Map<u64, ItemView>, g: u64, id: u64)
    ensures
        is_greatest(entries, g) && entries.contains_key(id) ==> id <= g && entries.contains_key(g),
        is_greatest(entries, g) && !entries.contains_key(g) ==> g == 0,
        entries.contains_key(g) && (forall|i: u64| #[trigger]
            entries.contains_key(i) ==> i <= g) ==> is_greatest(entries, g),
        is_greatest(Map::empty(), g) <==> g == 0,
{
}

} // verus!
