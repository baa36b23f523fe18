//! JSON documents.
//!
//! An object keeps its members in the order in which their names were first put,
//! each name once.
//! Contracts speak of `JsonView`, the document as a mathematical tree.
use crate::text;
use crate::text::{owned, same};
use vstd::prelude::*;

verus! {

/// A JSON document.
pub enum Json {
    Null,
    Bool(bool),
    /// A number, as its JSON text.
    Number(String),
    Text(String),
    Array(Vec<Json>),
    Object(Vec<(String, Json)>),
}

/// What a JSON document holds.
pub enum JsonView {
    Null,
    Bool(bool),
    Number(Seq<char>),
    Text(Seq<char>),
    Array(Seq<JsonView>),
    Object(Seq<(Seq<char>, JsonView)>),
}

impl Json {
    /// The document as a tree.
    pub open spec fn tree(self) -> JsonView
        decreases self,
    {
        match self {
            Json::Null => JsonView::Null,
            Json::Bool(b) => JsonView::Bool(b),
            Json::Number(n) => JsonView::Number(n@),
            Json::Text(s) => JsonView::Text(s@),
            Json::Array(v) => JsonView::Array(
                Seq::new(
                    v@.len(),
                    |i: int|
                        if 0 <= i < v@.len() {
                            v@[i].tree()
                        } else {
                            JsonView::Null
                        },
                ),
            ),
            Json::Object(v) => JsonView::Object(
                Seq::new(
                    v@.len(),
                    |i: int|
                        if 0 <= i < v@.len() {
                            (v@[i].0@, v@[i].1.tree())
                        } else {
                            (Seq::empty(), JsonView::Null)
                        },
                ),
            ),
        }
    }
}

impl View for Json {
    type V = JsonView;

    open spec fn view(&self) -> JsonView {
        self.tree()
    }
}

/// The trees of a sequence of documents.
pub open spec fn trees(v: Seq<Json>) -> Seq<JsonView> {
    Seq::new(v.len(), |i: int| v[i]@)
}

/// The members of a sequence of members, as trees.
pub open spec fn members(v: Seq<(String, Json)>) -> Seq<(Seq<char>, JsonView)> {
    Seq::new(v.len(), |i: int| (v[i].0@, v[i].1@))
}

/// The tree of an array is the array of the trees.
pub proof fn array_tree(v: Vec<Json>)
    ensures
        Json::Array(v)@ == JsonView::Array(trees(v@)),
{
    let t = Json::Array(v)@;
    assert(t->Array_0 =~= trees(v@));
}

/// The tree of an object is the object of the members.
pub proof fn object_tree(v: Vec<(String, Json)>)
    ensures
        Json::Object(v)@ == JsonView::Object(members(v@)),
{
    let t = Json::Object(v)@;
    assert(t->Object_0 =~= members(v@));
}

/// The members with one put under a name: where the name is there already, in its
/// place, else after all others.
pub open spec fn placed(
    entries: Seq<(Seq<char>, JsonView)>,
    k: Seq<char>,
    v: JsonView,
) -> Seq<(Seq<char>, JsonView)>
    decreases entries.len(),
{
    if entries.len() == 0 {
        seq![(k, v)]
    } else if entries[0].0 == k {
        seq![(k, v)] + entries.drop_first()
    } else {
        seq![entries[0]] + placed(entries.drop_first(), k, v)
    }
}

/// The member under a name, where there is one.
pub open spec fn member(entries: Seq<(Seq<char>, JsonView)>, k: Seq<char>) -> Option<JsonView>
    decreases entries.len(),
{
    if entries.len() == 0 {
        None
    } else if entries[0].0 == k {
        Some(entries[0].1)
    } else {
        member(entries.drop_first(), k)
    }
}

impl JsonView {
    /// The object without members.
    pub open spec fn object() -> JsonView {
        JsonView::Object(Seq::empty())
    }

    /// The array without elements.
    pub open spec fn array() -> JsonView {
        JsonView::Array(Seq::empty())
    }

    /// This object with a member put under a name. Anything but an object
    /// stays as it is.
    #[verifier::opaque]
    pub open spec fn with(self, k: Seq<char>, v: JsonView) -> JsonView {
        match self {
            JsonView::Object(e) => JsonView::Object(placed(e, k, v)),
            _ => self,
        }
    }

    /// This array with an element after its last. Anything but an array stays
    /// as it is.
    #[verifier::opaque]
    pub open spec fn and(self, v: JsonView) -> JsonView {
        match self {
            JsonView::Array(e) => JsonView::Array(e.push(v)),
            _ => self,
        }
    }

    /// This object with a string put under a name.
    pub open spec fn with_text(self, k: Seq<char>, s: Seq<char>) -> JsonView {
        self.with(k, JsonView::Text(s))
    }

    /// This array with a string after its last element.
    pub open spec fn and_text(self, s: Seq<char>) -> JsonView {
        self.and(JsonView::Text(s))
    }

    /// The member under a name, where this is an object that has one.
    pub open spec fn get(self, k: Seq<char>) -> Option<JsonView> {
        match self {
            JsonView::Object(e) => member(e, k),
            _ => None,
        }
    }

    /// The member under a name; null where there is none.
    pub open spec fn at(self, k: Seq<char>) -> JsonView {
        match self.get(k) {
            Some(v) => v,
            None => JsonView::Null,
        }
    }

    /// The first element of an array; null where there is none.
    pub open spec fn first(self) -> JsonView {
        match self {
            JsonView::Array(e) => if e.len() > 0 {
                e[0]
            } else {
                JsonView::Null
            },
            _ => JsonView::Null,
        }
    }

    /// The string that this is, where it is one.
    pub open spec fn text(self) -> Option<Seq<char>> {
        match self {
            JsonView::Text(s) => Some(s),
            _ => None,
        }
    }

    /// The string that this is, or the default.
    pub open spec fn text_or(self, d: Seq<char>) -> Seq<char> {
        match self {
            JsonView::Text(s) => s,
            _ => d,
        }
    }
}

/// Reading a member gives back what was last put there, and putting one leaves
/// the others alone.
pub proof fn member_of_placed(
    entries: Seq<(Seq<char>, JsonView)>,
    k: Seq<char>,
    v: JsonView,
    q: Seq<char>,
)
    ensures
        member(placed(entries, k, v), q) == if q == k {
            Some(v)
        } else {
            member(entries, q)
        },
    decreases entries.len(),
{
    let p = placed(entries, k, v);
    if entries.len() == 0 {
        assert(p[0] == (k, v));
        assert(p.drop_first() =~= entries);
    } else if entries[0].0 == k {
        assert(p[0] == (k, v));
        assert(p.drop_first() =~= entries.drop_first());
    } else {
        assert(p[0] == entries[0]);
        member_of_placed(entries.drop_first(), k, v, q);
        assert(p.drop_first() =~= placed(entries.drop_first(), k, v));
    }
}

fn place(entries: &mut Vec<(String, Json)>, k: &str, v: Json)
    ensures
        members(final(entries)@) == placed(members(old(entries)@), k@, v@),
{
    let ghost was = members(entries@);
    let ghost held = entries@;
    let mut i: usize = 0;
    proof {
        assert(was.skip(0) =~= was);
        assert(was.take(0) + placed(was, k@, v@) =~= placed(was, k@, v@));
    }
    while i < entries.len() && !same(entries[i].0.as_str(), k)
        invariant
            entries@ == held,
            was == members(held),
            i <= entries.len(),
            placed(was, k@, v@) == was.take(i as int) + placed(was.skip(i as int), k@, v@),
        decreases entries.len() - i,
    {
        proof {
            let rest = was.skip(i as int);
            assert(rest[0] == was[i as int]);
            assert(rest.drop_first() =~= was.skip(i + 1));
            assert(was.take(i as int) + (seq![was[i as int]] + placed(was.skip(i + 1), k@, v@))
                =~= was.take(i + 1) + placed(was.skip(i + 1), k@, v@));
        }
        i = i + 1;
    }
    let entry = (owned(k), v);
    if i < entries.len() {
        entries.set(i, entry);
        proof {
            let rest = was.skip(i as int);
            assert(rest[0] == was[i as int]);
            assert(rest.drop_first() =~= was.skip(i + 1));
            assert(members(entries@) =~= was.take(i as int) + (seq![(k@, v@)] + was.skip(i + 1)));
        }
    } else {
        entries.push(entry);
        proof {
            assert(members(entries@) =~= was.take(i as int) + seq![(k@, v@)]);
        }
    }
}

impl Json {
    /// The object without members.
    pub fn object() -> (r: Json)
        ensures
            r@ == JsonView::object(),
    {
        let v: Vec<(String, Json)> = Vec::new();
        proof {
            object_tree(v);
            assert(members(v@) =~= Seq::empty());
        }
        Json::Object(v)
    }

    /// The array without elements.
    pub fn array() -> (r: Json)
        ensures
            r@ == JsonView::array(),
    {
        let v: Vec<Json> = Vec::new();
        proof {
            array_tree(v);
            assert(trees(v@) =~= Seq::empty());
        }
        Json::Array(v)
    }

    /// A string.
    pub fn text(s: &str) -> (r: Json)
        ensures
            r@ == JsonView::Text(s@),
    {
        Json::Text(owned(s))
    }

    /// This object with a member put under a name. Anything but an object
    /// stays as it is.
    pub fn with(self, k: &str, v: Json) -> (r: Json)
        ensures
            r@ == self@.with(k@, v@),
    {
        proof {
            reveal(JsonView::with);
        }
        match self {
            Json::Object(e) => {
                proof {
                    object_tree(e);
                }
                let mut entries = e;
                place(&mut entries, k, v);
                proof {
                    object_tree(entries);
                }
                Json::Object(entries)
            },
            other => other,
        }
    }

    /// This object with a string put under a name.
    pub fn with_text(self, k: &str, s: &str) -> (r: Json)
        ensures
            r@ == self@.with(k@, JsonView::Text(s@)),
    {
        self.with(k, Json::text(s))
    }

    /// This array with an element after its last. Anything but an array stays
    /// as it is.
    pub fn and(self, v: Json) -> (r: Json)
        ensures
            r@ == self@.and(v@),
    {
        proof {
            reveal(JsonView::and);
        }
        match self {
            Json::Array(e) => {
                proof {
                    array_tree(e);
                }
                let ghost was = trees(e@);
                let mut elements = e;
                elements.push(v);
                proof {
                    array_tree(elements);
                    assert(trees(elements@) =~= was.push(v@));
                }
                Json::Array(elements)
            },
            other => other,
        }
    }

    /// This array with a string after its last element.
    pub fn and_text(self, s: &str) -> (r: Json)
        ensures
            r@ == self@.and(JsonView::Text(s@)),
    {
        self.and(Json::text(s))
    }

    /// The member under a name, where this is an object that has one.
    pub fn get(&self, k: &str) -> (r: Option<&Json>)
        ensures
            match r {
                Some(v) => self@.get(k@) == Some(v@),
                None => self@.get(k@) is None,
            },
    {
        match self {
            Json::Object(e) => {
                let ghost was = members(e@);
                proof {
                    object_tree(*e);
                    assert(was.skip(0) =~= was);
                }
                let mut i: usize = 0;
                while i < e.len()
                    invariant
                        i <= e.len(),
                        was == members(e@),
                        member(was, k@) == member(was.skip(i as int), k@),
                        self@ == JsonView::Object(was),
                    decreases e.len() - i,
                {
                    proof {
                        assert(was.skip(i as int)[0] == was[i as int]);
                        assert(was.skip(i as int).drop_first() =~= was.skip(i + 1));
                    }
                    if same(e[i].0.as_str(), k) {
                        return Some(&e[i].1);
                    }
                    i = i + 1;
                }
                None
            },
            _ => None,
        }
    }

    /// The member under a name; `null`, which is to be null, where there is none.
    pub fn at<'a>(&'a self, k: &str, null: &'a Json) -> (r: &'a Json)
        requires
            null@ == JsonView::Null,
        ensures
            r@ == self@.at(k@),
    {
        match self.get(k) {
            Some(v) => v,
            None => null,
        }
    }

    /// The first element of an array; `null`, which is to be null, where there
    /// is none.
    pub fn first<'a>(&'a self, null: &'a Json) -> (r: &'a Json)
        requires
            null@ == JsonView::Null,
        ensures
            r@ == self@.first(),
    {
        match self {
            Json::Array(v) => {
                proof {
                    array_tree(*v);
                }
                if v.len() > 0 {
                    proof {
                        assert(trees(v@)[0] == v@[0]@);
                    }
                    &v[0]
                } else {
                    null
                }
            },
            _ => null,
        }
    }

    /// A copy of this document.
    pub fn duplicate(&self) -> (r: Json)
        ensures
            r@ == self@,
        decreases *self,
    {
        match self {
            Json::Null => Json::Null,
            Json::Bool(b) => Json::Bool(*b),
            Json::Number(n) => Json::Number(n.clone()),
            Json::Text(t) => Json::Text(t.clone()),
            Json::Array(v) => {
                let mut out: Vec<Json> = Vec::new();
                let mut i: usize = 0;
                while i < v.len()
                    invariant
                        i <= v.len(),
                        decreases_to!(*self => *v),
                        trees(out@) == trees(v@).take(i as int),
                    decreases v.len() - i,
                {
                    let ghost had = trees(out@);
                    out.push(v[i].duplicate());
                    proof {
                        assert(trees(out@) =~= had.push(v@[i as int]@));
                        assert(trees(v@).take(i + 1) =~= had.push(v@[i as int]@));
                    }
                    i = i + 1;
                }
                proof {
                    assert(trees(v@).take(v@.len() as int) =~= trees(v@));
                    array_tree(*v);
                    array_tree(out);
                }
                Json::Array(out)
            },
            Json::Object(v) => {
                let mut out: Vec<(String, Json)> = Vec::new();
                let mut i: usize = 0;
                while i < v.len()
                    invariant
                        i <= v.len(),
                        decreases_to!(*self => *v),
                        members(out@) == members(v@).take(i as int),
                    decreases v.len() - i,
                {
                    let ghost had = members(out@);
                    out.push((v[i].0.clone(), v[i].1.duplicate()));
                    proof {
                        let one = (v@[i as int].0@, v@[i as int].1@);
                        assert(members(out@) =~= had.push(one));
                        assert(members(v@).take(i + 1) =~= had.push(one));
                    }
                    i = i + 1;
                }
                proof {
                    assert(members(v@).take(v@.len() as int) =~= members(v@));
                    object_tree(*v);
                    object_tree(out);
                }
                Json::Object(out)
            },
        }
    }

    /// The string under a name, or the default.
    pub fn text_at(&self, k: &str, d: &str) -> (r: String)
        ensures
            r@ == self@.at(k@).text_or(d@),
    {
        match self.get(k) {
            Some(Json::Text(s)) => s.clone(),
            _ => owned(d),
        }
    }
}

/// The tree that was read, if one was.
pub open spec fn opt_tree(read: Option<Json>) -> Option<JsonView> {
    match read {
        Some(j) => Some(j@),
        None => None,
    }
}

// ---------------------------------------------------------------------------
// Reading JSON text
// ---------------------------------------------------------------------------

/// A JSON value of the `serde_json` crate.
#[verifier::external_type_specification]
#[verifier::external_body]
pub struct OutsideValue(serde_json::Value);

/// What a `serde_json` value holds: the same tree, its numbers as their JSON
/// text, the members of an object in the order in which the crate walks them.
pub uninterp spec fn value_tree(v: serde_json::Value) -> JsonView;

/// What `serde_json` reads from a text: a tree, or the message of its error.
pub uninterp spec fn parsed(text: Seq<char>) -> Result<JsonView, Seq<char>>;

/// `serde_json::from_str`, read into a `serde_json` value. The contract names
/// what comes out: the tree of the value, or the text of the error.
#[verifier::external_body]
pub(crate) fn read_value(text: &str) -> (r: Result<serde_json::Value, String>)
    ensures
        match r {
            Ok(v) => parsed(text@) == Ok::<JsonView, Seq<char>>(value_tree(v)),
            Err(e) => parsed(text@) == Err::<JsonView, Seq<char>>(e@),
        },
{
    serde_json::from_str::<serde_json::Value>(text).map_err(|e| e.to_string())
}

/// One level of a `serde_json` value.
enum Level {
    Null,
    Bool(bool),
    Number(String),
    Text(String),
    Array(Vec<serde_json::Value>),
    Object(Vec<(String, serde_json::Value)>),
}

/// The variants of `serde_json::Value`, one for one. The contract says how the
/// tree of a value is made of the trees of what it holds.
#[verifier::external_body]
fn take_apart(v: serde_json::Value) -> (r: Level)
    ensures
        match r {
            Level::Null => value_tree(v) == JsonView::Null,
            Level::Bool(b) => value_tree(v) == JsonView::Bool(b),
            Level::Number(n) => value_tree(v) == JsonView::Number(n@),
            Level::Text(s) => value_tree(v) == JsonView::Text(s@),
            Level::Array(a) => value_tree(v) == JsonView::Array(
                Seq::new(a@.len(), |i: int| value_tree(a@[i])),
            ),
            Level::Object(m) => value_tree(v) == JsonView::Object(
                Seq::new(m@.len(), |i: int| (m@[i].0@, value_tree(m@[i].1))),
            ),
        },
{
    match v {
        serde_json::Value::Null => Level::Null,
        serde_json::Value::Bool(b) => Level::Bool(b),
        serde_json::Value::Number(n) => Level::Number(n.to_string()),
        serde_json::Value::String(s) => Level::Text(s),
        serde_json::Value::Array(a) => Level::Array(a),
        serde_json::Value::Object(m) => Level::Object(m.into_iter().collect()),
    }
}

pub(crate) fn from_value(v: serde_json::Value) -> (r: Json)
    ensures
        r@ == value_tree(v),
    decreases value_tree(v),
{
    let ghost tree = value_tree(v);
    match take_apart(v) {
        Level::Null => Json::Null,
        Level::Bool(b) => Json::Bool(b),
        Level::Number(n) => Json::Number(n),
        Level::Text(s) => Json::Text(s),
        Level::Array(a) => {
            let ghost all = a@;
            let mut out: Vec<Json> = Vec::new();
            for x in it: a
                invariant
                    it.seq() == all,
                    tree == value_tree(v),
                    tree == JsonView::Array(Seq::new(all.len(), |i: int| value_tree(all[i]))),
                    trees(out@) == Seq::new(it.index() as nat, |i: int| value_tree(all[i])),
            {
                proof {
                    assert(tree->Array_0[it.index() as int] == value_tree(x));
                }
                let ghost was = trees(out@);
                out.push(from_value(x));
                proof {
                    assert(trees(out@) =~= was.push(value_tree(x)));
                }
            }
            proof {
                array_tree(out);
            }
            Json::Array(out)
        },
        Level::Object(m) => {
            let ghost all = m@;
            let mut out: Vec<(String, Json)> = Vec::new();
            for x in it: m
                invariant
                    it.seq() == all,
                    tree == value_tree(v),
                    tree == JsonView::Object(
                        Seq::new(all.len(), |i: int| (all[i].0@, value_tree(all[i].1))),
                    ),
                    members(out@) == Seq::new(
                        it.index() as nat,
                        |i: int| (all[i].0@, value_tree(all[i].1)),
                    ),
            {
                proof {
                    assert(tree->Object_0[it.index() as int] == (x.0@, value_tree(x.1)));
                    assert(decreases_to!(tree => tree->Object_0[it.index() as int].1));
                }
                let ghost was = members(out@);
                out.push((x.0, from_value(x.1)));
                proof {
                    assert(members(out@) =~= was.push((x.0@, value_tree(x.1))));
                }
            }
            proof {
                object_tree(out);
            }
            Json::Object(out)
        },
    }
}

/// The document that a text holds, or why it holds none.
pub fn parse(text: &str) -> (r: Result<Json, String>)
    ensures
        match r {
            Ok(j) => parsed(text@) == Ok::<JsonView, Seq<char>>(j@),
            Err(e) => parsed(text@) == Err::<JsonView, Seq<char>>(e@),
        },
{
    match read_value(text) {
        Ok(v) => Ok(from_value(v)),
        Err(e) => Err(e),
    }
}


/// An array of strings.
pub open spec fn text_array(v: Seq<Seq<char>>) -> JsonView {
    JsonView::Array(Seq::new(v.len(), |i: int| JsonView::Text(v[i])))
}

/// What `serde_json` writes for a list of strings.
pub uninterp spec fn strings_text(v: Seq<Seq<char>>) -> Seq<char>;

/// `serde_json::to_string` of a list of strings. Writing one fails only where
/// the type being written does, which a list of strings never does. The
/// contract names the text and states that reading it gives the list again.
#[verifier::external_body]
pub(crate) fn write_strings(v: &Vec<String>) -> (r: Option<String>)
    ensures
        match r {
            Some(t) => t@ == strings_text(text::views(v@)) && parsed(t@) == Ok::<
                JsonView,
                Seq<char>,
            >(text_array(text::views(v@))),
            None => false,
        },
{
    serde_json::to_string(v).ok()
}

/// The strings of an array of strings; nothing of anything else.
pub open spec fn texts_of(t: JsonView) -> Seq<Seq<char>> {
    match t {
        JsonView::Array(a) => if forall|i: int| 0 <= i < a.len() ==> (#[trigger] a[i]) is Text {
            Seq::new(a.len(), |i: int| a[i]->Text_0)
        } else {
            Seq::empty()
        },
        _ => Seq::empty(),
    }
}

/// The strings of an array of strings; nothing of anything else.
pub fn strings_of(j: &Json) -> (r: Vec<String>)
    ensures
        text::views(r@) == texts_of(j@),
{
    let mut r: Vec<String> = Vec::new();
    match j {
        Json::Array(a) => {
            proof {
                array_tree(*a);
            }
            let ghost t = trees(a@);
            let mut i: usize = 0;
            while i < a.len()
                invariant
                    i <= a.len(),
                    t == trees(a@),
                    j@ == JsonView::Array(t),
                    r@.len() == i,
                    forall|k: int|
                        0 <= k < i ==> (#[trigger] t[k]) is Text && t[k]->Text_0 == r@[k]@,
                decreases a.len() - i,
            {
                proof {
                    assert(t[i as int] == a@[i as int]@);
                }
                match &a[i] {
                    Json::Text(s) => {
                        r.push(s.clone());
                    },
                    _ => {
                        let none: Vec<String> = Vec::new();
                        proof {
                            assert(!(t[i as int] is Text));
                            assert(text::views(none@) =~= Seq::<Seq<char>>::empty());
                        }
                        return none;
                    },
                }
                i = i + 1;
            }
            proof {
                assert(text::views(r@) =~= texts_of(j@));
            }
            r
        },
        _ => {
            proof {
                assert(text::views(r@) =~= Seq::<Seq<char>>::empty());
            }
            r
        },
    }
}

/// The strings of an array of strings are the strings it was made of.
pub proof fn texts_of_text_array(v: Seq<Seq<char>>)
    ensures
        texts_of(text_array(v)) == v,
{
    let a = text_array(v)->Array_0;
    assert forall|i: int| 0 <= i < a.len() implies (#[trigger] a[i]) is Text by {
    }
    assert(texts_of(text_array(v)) =~= v);
}

/// A member that was put is found under its name, and the others are found as before.
pub broadcast proof fn got_of_with(j: JsonView, k: Seq<char>, v: JsonView, q: Seq<char>)
    ensures
        #[trigger] j.with(k, v).get(q) == (if j is Object && q == k {
            Some(v)
        } else {
            j.get(q)
        }),
{
    reveal(JsonView::with);
    match j {
        JsonView::Object(e) => {
            member_of_placed(e, k, v, q);
        },
        _ => {},
    }
}

/// Members keep the order in which they were first put: a new one comes last, and one
/// that is there is replaced where it stands.
pub proof fn members_keep_their_place(
    entries: Seq<(Seq<char>, JsonView)>,
    k: Seq<char>,
    v: JsonView,
    i: int,
)
    requires
        forall|j: int| 0 <= j < i ==> (#[trigger] entries[j]).0 != k,
        0 <= i <= entries.len(),
        i < entries.len() ==> entries[i].0 == k,
    ensures
        i == entries.len() ==> placed(entries, k, v) == entries.push((k, v)),
        i < entries.len() ==> placed(entries, k, v) == entries.update(i, (k, v)),
    decreases entries.len(),
{
    if entries.len() == 0 {
        assert(placed(entries, k, v) =~= entries.push((k, v)));
    } else if i == 0 {
        assert(placed(entries, k, v) =~= entries.update(0, (k, v)));
    } else {
        let rest = entries.drop_first();
        assert(entries[0].0 != k);
        assert forall|j: int| 0 <= j < i - 1 implies (#[trigger] rest[j]).0 != k by {
            assert(rest[j] == entries[j + 1]);
        }
        if i < entries.len() {
            assert(rest[i - 1] == entries[i]);
        }
        members_keep_their_place(rest, k, v, i - 1);
        if i == entries.len() {
            assert(seq![entries[0]] + rest.push((k, v)) =~= entries.push((k, v)));
        } else {
            assert(seq![entries[0]] + rest.update(i - 1, (k, v)) =~= entries.update(i, (k, v)));
        }
    }
}

/// The first element of an array is the one that was put first, and an array without
/// elements has none.
pub proof fn which_element_is_first(v: JsonView, rest: Seq<JsonView>)
    ensures
        JsonView::Array(seq![v] + rest).first() == v,
        JsonView::array().first() is Null,
        JsonView::array().and(v).first() == v,
{
    reveal(JsonView::and);
}

} // verus!
