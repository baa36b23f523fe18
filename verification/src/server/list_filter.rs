//! Validation of the query filter a listing accepts from a client, and the
//! redaction of what a listing hands out.
//!
//! Two independent restrictions have to be met. Of shape: boolean combinators
//! over leaves, each leaf a field compared to a scalar with a comparison
//! operator, or to a list of scalars with a membership one. Of field: no field
//! whose name looks like a credential, in any collection. Redaction goes by
//! the same list of names, so what a client may not ask about it is not handed
//! either.
use crate::collections;
use crate::collections::StrMap;
use crate::item::{Item, ItemView};
use crate::json;
use crate::json::{Json, JsonView};
use crate::text;
use crate::text::{begins_with, cat, cat3, cat4, cat5, decimal_string, has_char, has_text, owned, same};
use crate::text::{split_on, to_lower, trim};
use vstd::prelude::*;

verus! {

/// How many values a membership test may name.
pub const MAX_SET_OPERANDS: usize = 256;

/// How deep combinators may nest.
pub const MAX_DEPTH: usize = 4;

// ---------------------------------------------------------------------------
// Names of fields
// ---------------------------------------------------------------------------

/// Whether a lower-case name holds a word that marks a credential.
pub open spec fn marked(lowered: Seq<char>) -> bool {
    ||| text::occurs_in("password"@, lowered)
    ||| text::occurs_in("passwd"@, lowered)
    ||| text::occurs_in("secret"@, lowered)
    ||| text::occurs_in("token"@, lowered)
    ||| text::occurs_in("salt"@, lowered)
    ||| text::occurs_in("otp"@, lowered)
    ||| text::occurs_in("api_key"@, lowered)
    ||| text::occurs_in("apikey"@, lowered)
    ||| text::occurs_in("credential"@, lowered)
}

/// Whether a field name names a credential.
pub open spec fn credential_field(name: Seq<char>) -> bool {
    marked(text::lowered(name))
}

/// Whether no dot-separated segment of a lower-case path is empty or holds a
/// word that marks a credential.
pub open spec fn clean_path(lowered: Seq<char>) -> bool {
    let segments = text::split(lowered, '.');
    forall|i: int|
        0 <= i < segments.len() ==> (#[trigger] segments[i]).len() > 0 && !marked(segments[i])
}

/// Whether no dot-separated segment is empty.
pub open spec fn full_segments(lowered: Seq<char>) -> bool {
    let segments = text::split(lowered, '.');
    forall|i: int| 0 <= i < segments.len() ==> (#[trigger] segments[i]).len() > 0
}

/// Whether a client may name a field, given the field's lower case.
pub open spec fn nameable(path: Seq<char>, lowered: Seq<char>) -> bool {
    path.len() > 0 && !path.contains('$') && clean_path(lowered)
}

/// Whether a client may name this field in a filter or as a sort key.
pub open spec fn allowed_field(path: Seq<char>) -> bool {
    nameable(path, text::lowered(path))
}

fn is_marked(lowered: &str) -> (r: bool)
    ensures
        r == marked(lowered@),
{
    has_text(lowered, "password") || has_text(lowered, "passwd") || has_text(lowered, "secret")
        || has_text(lowered, "token") || has_text(lowered, "salt") || has_text(lowered, "otp")
        || has_text(lowered, "api_key") || has_text(lowered, "apikey") || has_text(
        lowered,
        "credential",
    )
}

/// Whether a field name names a credential.
pub fn is_credential_field(name: &str) -> (r: bool)
    ensures
        r == credential_field(name@),
{
    is_marked(to_lower(name).as_str())
}

/// Whether a client may name a field, given the field's lower case.
pub fn is_nameable(path: &str, lowered: &str) -> (r: bool)
    ensures
        r == nameable(path@, lowered@),
{
    if path.is_empty() || has_char(path, '$') {
        return false;
    }
    let segments = split_on(lowered, '.');
    let ghost all = text::split(lowered@, '.');
    let mut i: usize = 0;
    while i < segments.len()
        invariant
            i <= segments.len(),
            text::views(segments@) == all,
            all == text::split(lowered@, '.'),
            path@.len() > 0,
            !path@.contains('$'),
            forall|j: int| 0 <= j < i ==> (#[trigger] all[j]).len() > 0 && !marked(all[j]),
        decreases segments.len() - i,
    {
        proof {
            assert(text::views(segments@)[i as int] == segments@[i as int]@);
        }
        if segments[i].as_str().is_empty() || is_marked(segments[i].as_str()) {
            return false;
        }
        i = i + 1;
    }
    true
}

/// Whether a client may name this field in a filter or as a sort key.
///
/// Refuses credential-bearing names, names with a `$` anywhere, which the
/// database would take for an operator, and the empty path.
pub fn field_is_allowed(path: &str) -> (r: bool)
    ensures
        r == allowed_field(path@),
{
    is_nameable(path, to_lower(path).as_str())
}

/// The filter rule and the redaction rule agree: a field can be filtered on
/// exactly when it is written as a path without operators and redaction would
/// keep it.
pub proof fn filter_and_redaction_agree(path: Seq<char>)
    ensures
        allowed_field(path) <==> path.len() > 0 && !path.contains('$') && full_segments(
            text::lowered(path),
        ) && !credential_field(path),
{
    marked_in_segments(text::lowered(path));
}

/// A path holds a marking word exactly when one of its segments does.
proof fn marked_in_segments(lowered: Seq<char>)
    ensures
        marked(lowered) <==> exists|i: int|
            0 <= i < text::split(lowered, '.').len() && marked(
                #[trigger] text::split(lowered, '.')[i],
            ),
{
    let segments = text::split(lowered, '.');
    reveal_strlit("password");
    reveal_strlit("passwd");
    reveal_strlit("secret");
    reveal_strlit("token");
    reveal_strlit("salt");
    reveal_strlit("otp");
    reveal_strlit("api_key");
    reveal_strlit("apikey");
    reveal_strlit("credential");
    text::occurs_in_pieces("password"@, lowered, '.');
    text::occurs_in_pieces("passwd"@, lowered, '.');
    text::occurs_in_pieces("secret"@, lowered, '.');
    text::occurs_in_pieces("token"@, lowered, '.');
    text::occurs_in_pieces("salt"@, lowered, '.');
    text::occurs_in_pieces("otp"@, lowered, '.');
    text::occurs_in_pieces("api_key"@, lowered, '.');
    text::occurs_in_pieces("apikey"@, lowered, '.');
    text::occurs_in_pieces("credential"@, lowered, '.');
}

// ---------------------------------------------------------------------------
// Redaction
// ---------------------------------------------------------------------------

/// The entries whose key names no credential.
pub open spec fn kept<A>(m: Map<Seq<char>, A>) -> Map<Seq<char>, A> {
    Map::new(|k: Seq<char>| m.contains_key(k) && !credential_field(k), |k: Seq<char>| m[k])
}

/// A record without its credential-bearing fields.
pub open spec fn redacted(v: ItemView) -> ItemView {
    ItemView {
        id: v.id,
        strs: kept(v.strs),
        strstrs: kept(v.strstrs),
        strids: kept(v.strids),
        bools: kept(v.bools),
        u64s: kept(v.u64s),
        ids: kept(v.ids),
    }
}

fn drop_credentials<V: View>(m: &mut StrMap<V>)
    ensures
        final(m)@ == kept(old(m)@),
{
    let ghost was = m@;
    let ghost all = m.pairs();
    let n: usize = m.len();
    let mut gone: Vec<String> = Vec::new();
    let mut i: usize = 0;
    while i < n
        invariant
            i <= n,
            n == all.len(),
            m.pairs() == all,
            m@ == was,
            forall|j: int| 0 <= j < gone@.len() ==> credential_field((#[trigger] gone@[j])@),
            forall|j: int|
                0 <= j < i && credential_field((#[trigger] all[j]).0) ==> text::views(
                    gone@,
                ).contains(all[j].0),
        decreases n - i,
    {
        let k = m.key(i);
        if is_credential_field(k.as_str()) {
            let ghost had = text::views(gone@);
            gone.push(k.clone());
            proof {
                assert(text::views(gone@) =~= had.push(k@));
                assert(text::views(gone@)[had.len() as int] == k@);
                assert forall|j: int|
                    0 <= j < i && credential_field((#[trigger] all[j]).0) implies text::views(
                    gone@,
                ).contains(all[j].0) by {
                    let x = choose|x: int| 0 <= x < had.len() && had[x] == all[j].0;
                    assert(text::views(gone@)[x] == all[j].0);
                }
            }
        }
        i = i + 1;
    }
    m.remove_all(&gone);
    proof {
        let names = text::views(gone@);
        assert forall|k: Seq<char>| was.contains_key(k) implies (names.to_set().contains(k)
            <==> credential_field(k)) by {
            if credential_field(k) {
                let j = collections::map_of_from(all, k);
                assert(names.contains(all[j].0));
            }
            if names.contains(k) {
                let x = choose|x: int| 0 <= x < names.len() && names[x] == k;
                assert(credential_field(gone@[x]@));
            }
        }
        assert(m@ =~= kept(was));
    }
}

/// Removes every credential-bearing field from a record, across all its maps.
pub fn redact_credentials(itm: &mut Item)
    ensures
        final(itm)@ == redacted(old(itm)@),
{
    drop_credentials(&mut itm.strs);
    drop_credentials(&mut itm.strstrs);
    drop_credentials(&mut itm.strids);
    drop_credentials(&mut itm.bools);
    drop_credentials(&mut itm.u64s);
    drop_credentials(&mut itm.ids);
}

/// Redacting twice is redacting once.
pub proof fn redaction_settles(v: ItemView)
    ensures
        redacted(redacted(v)) == redacted(v),
{
    assert(redacted(redacted(v)) =~= redacted(v));
}

/// A redacted record holds no credential, under any key of any map, and
/// everything else as it was.
pub proof fn redaction_is_exact(v: ItemView, k: Seq<char>)
    ensures
        credential_field(k) ==> {
            &&& !redacted(v).strs.contains_key(k)
            &&& !redacted(v).strstrs.contains_key(k)
            &&& !redacted(v).strids.contains_key(k)
            &&& !redacted(v).bools.contains_key(k)
            &&& !redacted(v).u64s.contains_key(k)
            &&& !redacted(v).ids.contains_key(k)
        },
        !credential_field(k) ==> {
            &&& redacted(v).strs.get(k) == v.strs.get(k)
            &&& redacted(v).strstrs.get(k) == v.strstrs.get(k)
            &&& redacted(v).strids.get(k) == v.strids.get(k)
            &&& redacted(v).bools.get(k) == v.bools.get(k)
            &&& redacted(v).u64s.get(k) == v.u64s.get(k)
            &&& redacted(v).ids.get(k) == v.ids.get(k)
        },
{
}


// ---------------------------------------------------------------------------
// Filters
// ---------------------------------------------------------------------------

/// Acceptance, or the reason for a refusal.
pub type Verdict = Result<(), Seq<char>>;

/// A verdict as its contract speaks of it.
pub open spec fn verdict(r: Result<(), String>) -> Verdict {
    match r {
        Ok(_) => Ok(()),
        Err(e) => Err(e@),
    }
}

/// Whether a value is a scalar.
pub open spec fn scalar(v: JsonView) -> bool {
    v is Null || v is Bool || v is Number || v is Text
}

/// The membership operators, which take a list of scalars.
pub open spec fn set_op(op: Seq<char>) -> bool {
    op == "$in"@ || op == "$nin"@
}

/// The comparison operators, which take a scalar.
pub open spec fn leaf_op(op: Seq<char>) -> bool {
    op == "$eq"@ || op == "$ne"@ || op == "$gt"@ || op == "$gte"@ || op == "$lt"@ || op == "$lte"@
}

/// The boolean combinators, which take a list of filters.
pub open spec fn combinator(op: Seq<char>) -> bool {
    op == "$and"@ || op == "$or"@
}

/// Whether every value is a scalar.
pub open spec fn all_scalars(items: Seq<JsonView>) -> bool {
    forall|i: int| 0 <= i < items.len() ==> scalar(#[trigger] items[i])
}

/// What is said of one comparison of a field.
pub open spec fn comparison_verdict(field: Seq<char>, op: Seq<char>, operand: JsonView) -> Verdict {
    if set_op(op) {
        match operand {
            JsonView::Array(items) => if items.len() > MAX_SET_OPERANDS {
                Err(
                    "operator "@ + op + " on "@ + field + (" names "@ + text::decimal(items.len())
                        + " values, more than the 256 allowed"@),
                )
            } else if !all_scalars(items) {
                Err("operator "@ + op + " on "@ + field + " expects a list of scalars"@)
            } else {
                Ok(())
            },
            _ => Err("operator "@ + op + " on "@ + field + " expects a list"@),
        }
    } else if !leaf_op(op) {
        Err("operator "@ + op + " is not allowed on "@ + field)
    } else if !scalar(operand) {
        Err("operator "@ + op + " on "@ + field + " expects a scalar"@)
    } else {
        Ok(())
    }
}

/// What is said of the comparisons of a field from the `i`th on: the first
/// refusal, if there is one.
pub open spec fn comparisons_verdict(
    field: Seq<char>,
    ops: Seq<(Seq<char>, JsonView)>,
    i: int,
) -> Verdict
    decreases ops.len() - i,
{
    if i < 0 || i >= ops.len() {
        Ok(())
    } else {
        match comparison_verdict(field, ops[i].0, ops[i].1) {
            Ok(_) => comparisons_verdict(field, ops, i + 1),
            Err(e) => Err(e),
        }
    }
}

/// What is said of the value a field is compared to.
pub open spec fn leaf_verdict(field: Seq<char>, value: JsonView) -> Verdict {
    if scalar(value) {
        Ok(())
    } else {
        match value {
            JsonView::Object(ops) => if ops.len() == 0 {
                Err("field "@ + field + " has an empty comparison"@)
            } else {
                comparisons_verdict(field, ops, 0)
            },
            _ => Err("field "@ + field + " compared to a non-scalar"@),
        }
    }
}

/// What is said of a filter at a depth.
pub open spec fn node_verdict(node: JsonView, depth: nat) -> Verdict
    decreases node, 0int,
{
    if depth > MAX_DEPTH {
        Err("filter nested deeper than 4 levels"@)
    } else {
        match node {
            JsonView::Object(entries) => entries_verdict(entries, 0, depth),
            _ => Err("filter node is not an object"@),
        }
    }
}

/// What is said of one member of a filter.
pub open spec fn entry_verdict(key: Seq<char>, value: JsonView, depth: nat) -> Verdict
    decreases value, 0int,
{
    if text::begins(key, '$') {
        if !combinator(key) {
            Err("operator "@ + key + " is not allowed"@)
        } else {
            match value {
                JsonView::Array(branches) => if branches.len() == 0 {
                    Err(key + " expects a non-empty array"@)
                } else {
                    branches_verdict(branches, 0, depth + 1)
                },
                _ => Err(key + " expects an array"@),
            }
        }
    } else if !allowed_field(key) {
        Err("field "@ + key + " may not be filtered on"@)
    } else {
        leaf_verdict(key, value)
    }
}

/// What is said of the members of a filter from the `i`th on: the first
/// refusal, if there is one.
pub open spec fn entries_verdict(
    entries: Seq<(Seq<char>, JsonView)>,
    i: int,
    depth: nat,
) -> Verdict
    decreases entries, entries.len() - i,
{
    if i < 0 || i >= entries.len() {
        Ok(())
    } else {
        match entry_verdict(entries[i].0, entries[i].1, depth) {
            Ok(_) => entries_verdict(entries, i + 1, depth),
            Err(e) => Err(e),
        }
    }
}

/// What is said of the branches of a combinator from the `i`th on: the first
/// refusal, if there is one.
pub open spec fn branches_verdict(branches: Seq<JsonView>, i: int, depth: nat) -> Verdict
    decreases branches, branches.len() - i,
{
    if i < 0 || i >= branches.len() {
        Ok(())
    } else {
        match node_verdict(branches[i], depth) {
            Ok(_) => branches_verdict(branches, i + 1, depth),
            Err(e) => Err(e),
        }
    }
}

/// What is said of a filter text, given what reading it as JSON gave.
pub open spec fn filter_verdict(filter: Seq<char>, read: Result<JsonView, Seq<char>>) -> Verdict {
    if text::trimmed(filter).len() == 0 {
        Ok(())
    } else {
        match read {
            Ok(tree) => node_verdict(tree, 0),
            Err(e) => Err("filter is not valid JSON: "@ + e),
        }
    }
}

fn is_scalar(value: &Json) -> (r: bool)
    ensures
        r == scalar(value@),
{
    match value {
        Json::Null => true,
        Json::Bool(_) => true,
        Json::Number(_) => true,
        Json::Text(_) => true,
        Json::Array(_) => false,
        Json::Object(_) => false,
    }
}

fn are_scalars(items: &Vec<Json>) -> (r: bool)
    ensures
        r == all_scalars(json::trees(items@)),
{
    let mut i: usize = 0;
    while i < items.len()
        invariant
            i <= items.len(),
            forall|j: int| 0 <= j < i ==> scalar(#[trigger] json::trees(items@)[j]),
        decreases items.len() - i,
    {
        proof {
            assert(json::trees(items@)[i as int] == items@[i as int]@);
        }
        if !is_scalar(&items[i]) {
            return false;
        }
        i = i + 1;
    }
    true
}

fn validate_comparison(field: &str, op: &str, operand: &Json) -> (r: Result<(), String>)
    ensures
        verdict(r) == comparison_verdict(field@, op@, operand@),
{
    if same(op, "$in") || same(op, "$nin") {
        match operand {
            Json::Array(items) => {
                proof {
                    json::array_tree(*items);
                }
                if items.len() > MAX_SET_OPERANDS {
                    let count = decimal_string(items.len() as u64);
                    let names = cat3(
                        " names ",
                        count.as_str(),
                        " values, more than the 256 allowed",
                    );
                    return Err(cat5("operator ", op, " on ", field, names.as_str()));
                }
                if !are_scalars(items) {
                    return Err(cat5("operator ", op, " on ", field, " expects a list of scalars"));
                }
                Ok(())
            },
            _ => Err(cat5("operator ", op, " on ", field, " expects a list")),
        }
    } else if !(same(op, "$eq") || same(op, "$ne") || same(op, "$gt") || same(op, "$gte") || same(
        op,
        "$lt",
    ) || same(op, "$lte")) {
        Err(cat4("operator ", op, " is not allowed on ", field))
    } else if !is_scalar(operand) {
        Err(cat5("operator ", op, " on ", field, " expects a scalar"))
    } else {
        Ok(())
    }
}

/// A leaf compares a field either to a scalar directly, or to operands through
/// operators. Anything else is refused.
pub fn validate_leaf_value(field: &str, value: &Json) -> (r: Result<(), String>)
    ensures
        verdict(r) == leaf_verdict(field@, value@),
{
    if is_scalar(value) {
        return Ok(());
    }
    match value {
        Json::Object(ops) => {
            proof {
                json::object_tree(*ops);
            }
            let ghost all = json::members(ops@);
            if ops.len() == 0 {
                return Err(cat3("field ", field, " has an empty comparison"));
            }
            let mut i: usize = 0;
            while i < ops.len()
                invariant
                    i <= ops.len(),
                    all == json::members(ops@),
                    leaf_verdict(field@, value@) == comparisons_verdict(field@, all, i as int),
                decreases ops.len() - i,
            {
                proof {
                    assert(all[i as int] == (ops@[i as int].0@, ops@[i as int].1@));
                }
                match validate_comparison(field, ops[i].0.as_str(), &ops[i].1) {
                    Ok(_) => {},
                    Err(e) => {
                        return Err(e);
                    },
                }
                i = i + 1;
            }
            Ok(())
        },
        _ => Err(cat3("field ", field, " compared to a non-scalar")),
    }
}

/// Validates a filter at a depth.
pub fn validate_node(node: &Json, depth: usize) -> (r: Result<(), String>)
    requires
        depth <= MAX_DEPTH + 1,
    ensures
        verdict(r) == node_verdict(node@, depth as nat),
    decreases MAX_DEPTH + 1 - depth,
{
    if depth > MAX_DEPTH {
        return Err(owned("filter nested deeper than 4 levels"));
    }
    match node {
        Json::Object(entries) => {
            proof {
                json::object_tree(*entries);
            }
            let ghost all = json::members(entries@);
            let mut i: usize = 0;
            while i < entries.len()
                invariant
                    i <= entries.len(),
                    depth <= MAX_DEPTH,
                    all == json::members(entries@),
                    node_verdict(node@, depth as nat) == entries_verdict(
                        all,
                        i as int,
                        depth as nat,
                    ),
                decreases entries.len() - i,
            {
                let key = entries[i].0.as_str();
                let value = &entries[i].1;
                let ghost said = entry_verdict(key@, value@, depth as nat);
                proof {
                    assert(all[i as int] == (key@, value@));
                    assert(said is Err ==> node_verdict(node@, depth as nat) == said);
                }
                if begins_with(key, '$') {
                    if !(same(key, "$and") || same(key, "$or")) {
                        return Err(cat3("operator ", key, " is not allowed"));
                    }
                    match value {
                        Json::Array(branches) => {
                            proof {
                                json::array_tree(*branches);
                            }
                            let ghost trees = json::trees(branches@);
                            if branches.len() == 0 {
                                return Err(cat(key, " expects a non-empty array"));
                            }
                            let mut b: usize = 0;
                            while b < branches.len()
                                invariant
                                    b <= branches.len(),
                                    depth <= MAX_DEPTH,
                                    trees == json::trees(branches@),
                                    branches_verdict(trees, 0, (depth + 1) as nat)
                                        == branches_verdict(trees, b as int, (depth + 1) as nat),
                                    branches_verdict(trees, 0, (depth + 1) as nat) is Err
                                        ==> node_verdict(node@, depth as nat)
                                        == branches_verdict(trees, 0, (depth + 1) as nat),
                                decreases branches.len() - b,
                            {
                                proof {
                                    assert(trees[b as int] == branches@[b as int]@);
                                }
                                match validate_node(&branches[b], depth + 1) {
                                    Ok(_) => {},
                                    Err(e) => {
                                        return Err(e);
                                    },
                                }
                                b = b + 1;
                            }
                        },
                        _ => {
                            return Err(cat(key, " expects an array"));
                        },
                    }
                } else {
                    if !field_is_allowed(key) {
                        return Err(cat3("field ", key, " may not be filtered on"));
                    }
                    match validate_leaf_value(key, value) {
                        Ok(_) => {},
                        Err(e) => {
                            return Err(e);
                        },
                    }
                }
                i = i + 1;
            }
            Ok(())
        },
        _ => Err(owned("filter node is not an object")),
    }
}

/// Validates a filter text, given what reading it as JSON gave.
pub fn validate_read_filter(filter: &str, read: &Result<Json, String>) -> (r: Result<(), String>)
    ensures
        verdict(r) == filter_verdict(
            filter@,
            match read {
                Ok(j) => Ok(j@),
                Err(e) => Err(e@),
            },
        ),
{
    if trim(filter).as_str().is_empty() {
        return Ok(());
    }
    match read {
        Ok(j) => validate_node(j, 0),
        Err(e) => Err(cat("filter is not valid JSON: ", e.as_str())),
    }
}

/// Validates a filter text from a client.
///
/// An empty filter means no filter and is accepted. The reason of a refusal is
/// meant for the server's log: the client is told only that its filter was
/// refused, so this cannot be used to probe which fields exist.
pub fn validate_client_filter(filter: &str) -> (r: Result<(), String>)
    ensures
        verdict(r) == filter_verdict(filter@, json::parsed(filter@)),
{
    if trim(filter).as_str().is_empty() {
        return Ok(());
    }
    let read = json::parse(filter);
    validate_read_filter(filter, &read)
}


// ---------------------------------------------------------------------------
// What acceptance means
// ---------------------------------------------------------------------------

/// Whether any field path anywhere in a tree names a credential.
pub open spec fn mentions_credential(node: JsonView) -> bool
    decreases node,
{
    match node {
        JsonView::Object(e) => exists|i: int|
            0 <= i < e.len() && ((!text::begins((#[trigger] e[i]).0, '$') && credential_field(
                e[i].0,
            )) || mentions_credential(e[i].1)),
        JsonView::Array(a) => exists|i: int|
            0 <= i < a.len() && mentions_credential(#[trigger] a[i]),
        _ => false,
    }
}

/// Whether any operator anywhere in a tree is none of the permitted ones.
pub open spec fn uses_forbidden_operator(node: JsonView) -> bool
    decreases node,
{
    match node {
        JsonView::Object(e) => exists|i: int|
            0 <= i < e.len() && ((text::begins((#[trigger] e[i]).0, '$') && !combinator(e[i].0)
                && !leaf_op(e[i].0) && !set_op(e[i].0)) || uses_forbidden_operator(e[i].1)),
        JsonView::Array(a) => exists|i: int|
            0 <= i < a.len() && uses_forbidden_operator(#[trigger] a[i]),
        _ => false,
    }
}

/// Whether `n` combinators nest in a filter.
pub open spec fn nests(node: JsonView, n: nat) -> bool
    decreases n,
{
    n == 0 || exists|i: int, j: int|
        #![trigger nested_branch(node, i, j)]
        branch_exists(node, i, j) && nests(nested_branch(node, i, j), (n - 1) as nat)
}

/// Whether the `i`th member of a filter is a combinator with a `j`th branch.
pub open spec fn branch_exists(node: JsonView, i: int, j: int) -> bool {
    &&& node is Object
    &&& 0 <= i < node->Object_0.len()
    &&& combinator(node->Object_0[i].0)
    &&& node->Object_0[i].1 is Array
    &&& 0 <= j < node->Object_0[i].1->Array_0.len()
}

/// The `j`th branch of the `i`th member of a filter.
pub open spec fn nested_branch(node: JsonView, i: int, j: int) -> JsonView {
    node->Object_0[i].1->Array_0[j]
}

proof fn entry_of_accepted(entries: Seq<(Seq<char>, JsonView)>, i: int, j: int, depth: nat)
    requires
        0 <= i <= j < entries.len(),
        entries_verdict(entries, i, depth) is Ok,
    ensures
        entry_verdict(entries[j].0, entries[j].1, depth) is Ok,
    decreases j - i,
{
    if i < j {
        entry_of_accepted(entries, i + 1, j, depth);
    }
}

proof fn branch_of_accepted(branches: Seq<JsonView>, i: int, j: int, depth: nat)
    requires
        0 <= i <= j < branches.len(),
        branches_verdict(branches, i, depth) is Ok,
    ensures
        node_verdict(branches[j], depth) is Ok,
    decreases j - i,
{
    if i < j {
        branch_of_accepted(branches, i + 1, j, depth);
    }
}

proof fn comparison_of_accepted(
    field: Seq<char>,
    ops: Seq<(Seq<char>, JsonView)>,
    i: int,
    j: int,
)
    requires
        0 <= i <= j < ops.len(),
        comparisons_verdict(field, ops, i) is Ok,
    ensures
        comparison_verdict(field, ops[j].0, ops[j].1) is Ok,
    decreases j - i,
{
    if i < j {
        comparison_of_accepted(field, ops, i + 1, j);
    }
}

/// The value of an accepted leaf is harmless.
proof fn accepted_leaf_is_harmless(field: Seq<char>, value: JsonView)
    requires
        leaf_verdict(field, value) is Ok,
    ensures
        !mentions_credential(value),
        !uses_forbidden_operator(value),
{
    if !scalar(value) {
        let ops = value->Object_0;
        reveal_strlit("$in");
        reveal_strlit("$nin");
        reveal_strlit("$eq");
        reveal_strlit("$ne");
        reveal_strlit("$gt");
        reveal_strlit("$gte");
        reveal_strlit("$lt");
        reveal_strlit("$lte");
        assert forall|j: int| 0 <= j < ops.len() implies text::begins((#[trigger] ops[j]).0, '$')
            && (leaf_op(ops[j].0) || set_op(ops[j].0)) && !mentions_credential(ops[j].1)
            && !uses_forbidden_operator(ops[j].1) by {
            comparison_of_accepted(field, ops, 0, j);
            if ops[j].1 is Array {
                let items = ops[j].1->Array_0;
                assert forall|x: int| 0 <= x < items.len() implies !mentions_credential(
                    #[trigger] items[x],
                ) && !uses_forbidden_operator(items[x]) by {
                    assert(scalar(items[x]));
                }
            }
        }
    }
}

/// An accepted filter is harmless: it names no credential and uses no operator
/// that can evaluate an expression or a pattern, however deeply either is
/// buried.
pub proof fn accepted_is_harmless(node: JsonView, depth: nat)
    requires
        node_verdict(node, depth) is Ok,
    ensures
        !mentions_credential(node),
        !uses_forbidden_operator(node),
    decreases node,
{
    let e = node->Object_0;
    assert forall|j: int| 0 <= j < e.len() implies !((!text::begins((#[trigger] e[j]).0, '$')
        && credential_field(e[j].0)) || mentions_credential(e[j].1)) && !((text::begins(
        e[j].0,
        '$',
    ) && !combinator(e[j].0) && !leaf_op(e[j].0) && !set_op(e[j].0)) || uses_forbidden_operator(
        e[j].1,
    )) by {
        entry_of_accepted(e, 0, j, depth);
        let key = e[j].0;
        let value = e[j].1;
        if text::begins(key, '$') {
            let branches = value->Array_0;
            assert forall|b: int| 0 <= b < branches.len() implies !mentions_credential(
                #[trigger] branches[b],
            ) && !uses_forbidden_operator(branches[b]) by {
                branch_of_accepted(branches, 0, b, depth + 1);
                assert(decreases_to!(node => branches[b]));
                accepted_is_harmless(branches[b], depth + 1);
            }
        } else {
            filter_and_redaction_agree(key);
            accepted_leaf_is_harmless(key, value);
        }
    }
}

/// An accepted filter nests no deeper than the limit.
pub proof fn accepted_is_shallow(node: JsonView, depth: nat)
    requires
        node_verdict(node, depth) is Ok,
    ensures
        depth <= MAX_DEPTH,
        !nests(node, (MAX_DEPTH + 1 - depth) as nat),
    decreases MAX_DEPTH + 1 - depth,
{
    let n = (MAX_DEPTH + 1 - depth) as nat;
    assert forall|i: int, j: int| branch_exists(node, i, j) implies !nests(
        #[trigger] nested_branch(node, i, j),
        (n - 1) as nat,
    ) by {
        let e = node->Object_0;
        reveal_strlit("$and");
        reveal_strlit("$or");
        entry_of_accepted(e, 0, i, depth);
        assert(text::begins(e[i].0, '$'));
        branch_of_accepted(e[i].1->Array_0, 0, j, depth + 1);
        accepted_is_shallow(nested_branch(node, i, j), depth + 1);
    }
}

/// What the listing endpoint accepts from a client is either no filter at all,
/// or one that reads as JSON, is harmless and nests no deeper than the limit.
pub proof fn accepted_filter_is_harmless(filter: Seq<char>, read: Result<JsonView, Seq<char>>)
    requires
        filter_verdict(filter, read) is Ok,
    ensures
        text::trimmed(filter).len() == 0 || (read is Ok && !mentions_credential(read->Ok_0)
            && !uses_forbidden_operator(read->Ok_0) && !nests(read->Ok_0, MAX_DEPTH as nat + 1)),
{
    if text::trimmed(filter).len() != 0 {
        accepted_is_harmless(read->Ok_0, 0);
        accepted_is_shallow(read->Ok_0, 0);
    }
}

/// A name that holds one of the words for a credential names one, and no other name
/// does.
pub proof fn what_names_a_credential(name: Seq<char>, before: Seq<char>, after: Seq<char>)
    ensures
        marked(before + "password"@ + after),
        marked(before + "passwd"@ + after),
        marked(before + "secret"@ + after),
        marked(before + "token"@ + after),
        marked(before + "salt"@ + after),
        marked(before + "otp"@ + after),
        marked(before + "api_key"@ + after),
        marked(before + "apikey"@ + after),
        marked(before + "credential"@ + after),
        credential_field(name) <==> marked(text::lowered(name)),
        vstd::utf8::is_ascii_chars(name) ==> (credential_field(name) <==> marked(
            text::ascii_lower(name),
        )),
        marked(name) ==> text::occurs_in("password"@, name) || text::occurs_in("passwd"@, name)
            || text::occurs_in("secret"@, name) || text::occurs_in("token"@, name)
            || text::occurs_in("salt"@, name) || text::occurs_in("otp"@, name) || text::occurs_in(
            "api_key"@,
            name,
        ) || text::occurs_in("apikey"@, name) || text::occurs_in("credential"@, name),
{
    occurs_between("password"@, before, after);
    occurs_between("passwd"@, before, after);
    occurs_between("secret"@, before, after);
    occurs_between("token"@, before, after);
    occurs_between("salt"@, before, after);
    occurs_between("otp"@, before, after);
    occurs_between("api_key"@, before, after);
    occurs_between("apikey"@, before, after);
    occurs_between("credential"@, before, after);
}

proof fn occurs_between(p: Seq<char>, before: Seq<char>, after: Seq<char>)
    ensures
        text::occurs_in(p, before + p + after),
{
    let s = before + p + after;
    assert(s.subrange(before.len() as int, before.len() as int + p.len()) =~= p);
    assert(text::occurs_at(p, s, before.len() as int));
}

/// A field may be named where it is a path of parts that are not empty, holds no
/// dollar, and no part of it names a credential.
pub proof fn what_may_be_named(path: Seq<char>, lowered: Seq<char>, i: int)
    ensures
        nameable(path, lowered) ==> path.len() > 0 && !path.contains('$'),
        nameable(path, lowered) && 0 <= i < text::split(lowered, '.').len() ==> text::split(
            lowered,
            '.',
        )[i].len() > 0 && !marked(text::split(lowered, '.')[i]),
        path.len() > 0 && !path.contains('$') && (forall|j: int|
            0 <= j < text::split(lowered, '.').len() ==> (#[trigger] text::split(
                lowered,
                '.',
            )[j]).len() > 0 && !marked(text::split(lowered, '.')[j])) ==> nameable(path, lowered),
        allowed_field(path) <==> nameable(path, text::lowered(path)),
{
}

/// A comparison with a scalar is taken for each of the six comparisons, and a list of
/// scalars, of at most 256, for the two membership tests.
pub proof fn which_comparisons_are_taken(field: Seq<char>, op: Seq<char>, operand: JsonView)
    ensures
        op == "$eq"@ || op == "$ne"@ || op == "$gt"@ || op == "$gte"@ || op == "$lt"@ || op
            == "$lte"@ ==> (comparison_verdict(field, op, operand) is Ok <==> (operand is Null
            || operand is Bool || operand is Number || operand is Text)),
        op == "$in"@ || op == "$nin"@ ==> (comparison_verdict(field, op, operand) is Ok <==> (
        operand is Array && operand->Array_0.len() <= 256 && forall|i: int|
            0 <= i < operand->Array_0.len() ==> ((#[trigger] operand->Array_0[i]) is Null
                || operand->Array_0[i] is Bool || operand->Array_0[i] is Number
                || operand->Array_0[i] is Text))),
        comparison_verdict(field, op, operand) is Ok ==> op == "$eq"@ || op == "$ne"@ || op
            == "$gt"@ || op == "$gte"@ || op == "$lt"@ || op == "$lte"@ || op == "$in"@ || op
            == "$nin"@,
{
    reveal_strlit("$eq");
    reveal_strlit("$ne");
    reveal_strlit("$gt");
    reveal_strlit("$gte");
    reveal_strlit("$lt");
    reveal_strlit("$lte");
    reveal_strlit("$in");
    reveal_strlit("$nin");
    assert("$in"@[1] == 'i' && "$nin"@[2] == 'i');
    assert("$eq"@[1] == 'e' && "$ne"@[2] == 'e' && "$gt"@[1] == 'g' && "$gte"@[1] == 'g'
        && "$lt"@[1] == 'l' && "$lte"@[1] == 'l');
}

/// A field compared to a scalar is taken as it is; compared to operators it needs at
/// least one, and all of them to be taken.
pub proof fn which_leaves_are_taken(field: Seq<char>, value: JsonView, i: int)
    ensures
        value is Null || value is Bool || value is Number || value is Text ==> leaf_verdict(
            field,
            value,
        ) is Ok,
        value is Array ==> leaf_verdict(field, value) is Err,
        value matches JsonView::Object(ops) ==> (leaf_verdict(field, value) is Ok ==> ops.len() > 0
            && (0 <= i < ops.len() ==> comparison_verdict(field, ops[i].0, ops[i].1) is Ok)),
{
    match value {
        JsonView::Object(ops) => {
            if leaf_verdict(field, value) is Ok && 0 <= i < ops.len() {
                comparison_of_accepted(field, ops, 0, i);
            }
        },
        _ => {},
    }
}

proof fn accepted_comparisons(field: Seq<char>, ops: Seq<(Seq<char>, JsonView)>, i: int)
    requires
        0 <= i <= ops.len(),
        forall|j: int|
            i <= j < ops.len() ==> comparison_verdict(field, (#[trigger] ops[j]).0, ops[j].1) is Ok,
    ensures
        comparisons_verdict(field, ops, i) is Ok,
    decreases ops.len() - i,
{
    if i < ops.len() {
        accepted_comparisons(field, ops, i + 1);
    }
}

proof fn accepted_entries(entries: Seq<(Seq<char>, JsonView)>, i: int, depth: nat)
    requires
        0 <= i <= entries.len(),
        forall|j: int|
            i <= j < entries.len() ==> entry_verdict((#[trigger] entries[j]).0, entries[j].1, depth)
                is Ok,
    ensures
        entries_verdict(entries, i, depth) is Ok,
    decreases entries.len() - i,
{
    if i < entries.len() {
        accepted_entries(entries, i + 1, depth);
    }
}

proof fn accepted_branches(branches: Seq<JsonView>, i: int, depth: nat)
    requires
        0 <= i <= branches.len(),
        forall|j: int|
            i <= j < branches.len() ==> node_verdict(#[trigger] branches[j], depth) is Ok,
    ensures
        branches_verdict(branches, i, depth) is Ok,
    decreases branches.len() - i,
{
    if i < branches.len() {
        accepted_branches(branches, i + 1, depth);
    }
}

/// A filter is taken just where it is an object, not nested too deeply, whose members
/// are all taken: fields that may be named and are compared as they may be, and the
/// two combinators over filters that are taken themselves, one level down.
pub proof fn which_filters_are_taken(
    entries: Seq<(Seq<char>, JsonView)>,
    key: Seq<char>,
    value: JsonView,
    branches: Seq<JsonView>,
    depth: nat,
)
    ensures
        depth <= 4 ==> (node_verdict(JsonView::Object(entries), depth) is Ok <==> forall|j: int|
            0 <= j < entries.len() ==> entry_verdict((#[trigger] entries[j]).0, entries[j].1, depth)
                is Ok),
        depth > 4 ==> node_verdict(JsonView::Object(entries), depth) is Err,
        !(value is Object) ==> node_verdict(value, depth) is Err,
        !text::begins(key, '$') ==> (entry_verdict(key, value, depth) is Ok <==> allowed_field(key)
            && leaf_verdict(key, value) is Ok),
        text::begins(key, '$') && key != "$and"@ && key != "$or"@ ==> entry_verdict(
            key,
            value,
            depth,
        ) is Err,
        key == "$and"@ || key == "$or"@ ==> (entry_verdict(key, JsonView::Array(branches), depth)
            is Ok <==> branches.len() > 0 && forall|j: int|
            0 <= j < branches.len() ==> node_verdict(#[trigger] branches[j], depth + 1) is Ok),
        key == "$and"@ || key == "$or"@ ==> !(value is Array) ==> entry_verdict(key, value, depth)
            is Err,
{
    reveal_strlit("$and");
    reveal_strlit("$or");
    assert(text::begins("$and"@, '$') && text::begins("$or"@, '$'));
    if depth <= 4 {
        if node_verdict(JsonView::Object(entries), depth) is Ok {
            assert forall|j: int| 0 <= j < entries.len() implies entry_verdict(
                (#[trigger] entries[j]).0,
                entries[j].1,
                depth,
            ) is Ok by {
                entry_of_accepted(entries, 0, j, depth);
            }
        }
        if forall|j: int|
            0 <= j < entries.len() ==> entry_verdict((#[trigger] entries[j]).0, entries[j].1, depth)
                is Ok {
            accepted_entries(entries, 0, depth);
        }
    }
    if key == "$and"@ || key == "$or"@ {
        if entry_verdict(key, JsonView::Array(branches), depth) is Ok {
            assert forall|j: int| 0 <= j < branches.len() implies node_verdict(
                #[trigger] branches[j],
                depth + 1,
            ) is Ok by {
                branch_of_accepted(branches, 0, j, depth + 1);
            }
        }
        if forall|j: int|
            0 <= j < branches.len() ==> node_verdict(#[trigger] branches[j], depth + 1) is Ok {
            accepted_branches(branches, 0, depth + 1);
        }
    }
}

/// Several comparisons of a field are taken where each of them is.
pub proof fn comparisons_are_taken_together(field: Seq<char>, ops: Seq<(Seq<char>, JsonView)>)
    requires
        ops.len() > 0,
        forall|j: int|
            0 <= j < ops.len() ==> comparison_verdict(field, (#[trigger] ops[j]).0, ops[j].1) is Ok,
    ensures
        leaf_verdict(field, JsonView::Object(ops)) is Ok,
{
    accepted_comparisons(field, ops, 0);
}

/// No filter is taken, blank or not there; one that is no JSON is not.
pub proof fn which_texts_are_taken(filter: Seq<char>, tree: JsonView, why: Seq<char>)
    ensures
        text::trimmed(filter).len() == 0 ==> filter_verdict(filter, Err(why)) is Ok,
        text::trimmed(filter).len() > 0 ==> filter_verdict(filter, Err(why)) is Err,
        text::trimmed(filter).len() > 0 ==> filter_verdict(filter, Ok(tree)) == node_verdict(
            tree,
            0,
        ),
{
}

/// A refused comparison is told by its operator and its field, in this order, and by what
/// was expected of it.
pub proof fn what_is_said_of_comparisons(
    field: Seq<char>,
    op: Seq<char>,
    items: Seq<JsonView>,
    operand: JsonView,
)
    ensures
        (op == "$in"@ || op == "$nin"@) && items.len() > 256 ==> comparison_verdict(
            field,
            op,
            JsonView::Array(items),
        ) == Err::<(), Seq<char>>(
            "operator "@ + op + " on "@ + field + (" names "@ + text::decimal(items.len())
                + " values, more than the 256 allowed"@),
        ),
        (op == "$in"@ || op == "$nin"@) && items.len() <= 256 && comparison_verdict(
            field,
            op,
            JsonView::Array(items),
        ) is Err ==> comparison_verdict(field, op, JsonView::Array(items)) == Err::<
            (),
            Seq<char>,
        >("operator "@ + op + " on "@ + field + " expects a list of scalars"@),
        (op == "$in"@ || op == "$nin"@) && !(operand is Array) ==> comparison_verdict(
            field,
            op,
            operand,
        ) == Err::<(), Seq<char>>("operator "@ + op + " on "@ + field + " expects a list"@),
        (op == "$eq"@ || op == "$ne"@ || op == "$gt"@ || op == "$gte"@ || op == "$lt"@ || op
            == "$lte"@) && (operand is Array || operand is Object) && op != "$in"@ && op != "$nin"@
            ==> comparison_verdict(field, op, operand) == Err::<(), Seq<char>>(
            "operator "@ + op + " on "@ + field + " expects a scalar"@,
        ),
        op != "$in"@ && op != "$nin"@ && op != "$eq"@ && op != "$ne"@ && op != "$gt"@ && op
            != "$gte"@ && op != "$lt"@ && op != "$lte"@ ==> comparison_verdict(field, op, operand)
            == Err::<(), Seq<char>>("operator "@ + op + " is not allowed on "@ + field),
{
}

/// A refused filter is told by what is wrong with it: its depth, its shape, its operator
/// or its field.
pub proof fn what_is_said_of_filters(
    node: JsonView,
    depth: nat,
    key: Seq<char>,
    value: JsonView,
    filter: Seq<char>,
    why: Seq<char>,
)
    ensures
        depth > 4 ==> node_verdict(node, depth) == Err::<(), Seq<char>>(
            "filter nested deeper than 4 levels"@,
        ),
        depth <= 4 && !(node is Object) ==> node_verdict(node, depth) == Err::<(), Seq<char>>(
            "filter node is not an object"@,
        ),
        text::begins(key, '$') && key != "$and"@ && key != "$or"@
            ==> entry_verdict(key, value, depth) == Err::<(), Seq<char>>(
            "operator "@ + key + " is not allowed"@,
        ),
        text::begins(key, '$') && (key == "$and"@ || key == "$or"@) && !(value
            is Array) ==> entry_verdict(key, value, depth) == Err::<(), Seq<char>>(
            key + " expects an array"@,
        ),
        text::begins(key, '$') && (key == "$and"@ || key == "$or"@) && value
            == JsonView::Array(Seq::empty()) ==> entry_verdict(key, value, depth) == Err::<
            (),
            Seq<char>,
        >(key + " expects a non-empty array"@),
        !text::begins(key, '$') && !allowed_field(key) ==> entry_verdict(key, value, depth)
            == Err::<(), Seq<char>>("field "@ + key + " may not be filtered on"@),
        value is Array ==> leaf_verdict(key, value) == Err::<(), Seq<char>>(
            "field "@ + key + " compared to a non-scalar"@,
        ),
        value == JsonView::Object(Seq::empty()) ==> leaf_verdict(key, value) == Err::<
            (),
            Seq<char>,
        >("field "@ + key + " has an empty comparison"@),
        text::trimmed(filter).len() > 0 ==> filter_verdict(filter, Err(why)) == Err::<
            (),
            Seq<char>,
        >("filter is not valid JSON: "@ + why),
{
}

} // verus!
