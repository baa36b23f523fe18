//! Rendering the description of the API as a page.
//!
//! The page has no scripts and loads nothing from anywhere else: it is opened
//! in browsers that hold the most powerful session there is. Whatever is
//! printed on it is escaped.
use crate::json;
use crate::json::{Json, JsonView};
use crate::server::openapi::spots;
use crate::server::openapi::spots::{sort_spots, Spot, SpotView};
use crate::server::openapi::OPENAPI_PATH;
use crate::text;
use crate::text::{cat, cat3, cat4, cat5, chars_of, owned, piece, same, sort_names, to_upper};
use vstd::prelude::*;

verus! {

// ---------------------------------------------------------------------------
// Escaping
// ---------------------------------------------------------------------------

/// A character as it stands on a page.
pub open spec fn entity(c: char) -> Seq<char> {
    if c == '&' {
        "&amp;"@
    } else if c == '<' {
        "&lt;"@
    } else if c == '>' {
        "&gt;"@
    } else if c == '"' {
        "&quot;"@
    } else {
        seq![c]
    }
}

/// A text as it stands on a page.
pub open spec fn escaped(s: Seq<char>) -> Seq<char>
    decreases s.len(),
{
    if s.len() == 0 {
        Seq::empty()
    } else {
        escaped(s.drop_last()) + entity(s.last())
    }
}

/// A text as it stands on a page.
pub fn esc(s: &str) -> (r: String)
    ensures
        r@ == escaped(s@),
{
    let cs = chars_of(s);
    let mut out = String::new();
    let mut i: usize = 0;
    proof {
        assert(out@ =~= escaped(s@.take(0)));
    }
    while i < cs.len()
        invariant
            i <= cs.len(),
            cs@ == s@,
            out@ == escaped(s@.take(i as int)),
        decreases cs.len() - i,
    {
        proof {
            assert(s@.take(i + 1).drop_last() =~= s@.take(i as int));
        }
        let c = cs[i];
        if c == '&' {
            out.append("&amp;");
        } else if c == '<' {
            out.append("&lt;");
        } else if c == '>' {
            out.append("&gt;");
        } else if c == '"' {
            out.append("&quot;");
        } else {
            let ghost had = out@;
            out.push(c);
            proof {
                assert(out@ =~= had + seq![c]);
            }
        }
        i = i + 1;
    }
    proof {
        assert(s@.take(s@.len() as int) =~= s@);
    }
    out
}

/// Nothing that is printed can become markup: what is escaped holds no angle
/// bracket and no quote.
pub proof fn escaped_is_no_markup(s: Seq<char>, i: int)
    requires
        0 <= i < escaped(s).len(),
    ensures
        escaped(s)[i] != '<',
        escaped(s)[i] != '>',
        escaped(s)[i] != '"',
    decreases s.len(),
{
    reveal_strlit("&amp;");
    reveal_strlit("&lt;");
    reveal_strlit("&gt;");
    reveal_strlit("&quot;");
    if s.len() > 0 {
        let head = escaped(s.drop_last());
        if i < head.len() {
            escaped_is_no_markup(s.drop_last(), i);
        } else {
            assert(escaped(s)[i] == entity(s.last())[i - head.len()]);
        }
    }
}

/// What holds nothing to escape stands on the page as it is.
pub proof fn plain_text_stays(s: Seq<char>)
    requires
        forall|i: int|
            0 <= i < s.len() ==> (#[trigger] s[i]) != '&' && s[i] != '<' && s[i] != '>' && s[i]
                != '"',
    ensures
        escaped(s) == s,
    decreases s.len(),
{
    if s.len() > 0 {
        assert forall|i: int| 0 <= i < s.len() - 1 implies (#[trigger] s.drop_last()[i]) != '&'
            && s.drop_last()[i] != '<' && s.drop_last()[i] != '>' && s.drop_last()[i] != '"' by {
            assert(s.drop_last()[i] == s[i]);
        }
        plain_text_stays(s.drop_last());
        assert(s[s.len() - 1] == s.last());
        assert(s =~= s.drop_last() + seq![s.last()]);
    } else {
        assert(s =~= Seq::<char>::empty());
    }
}

// ---------------------------------------------------------------------------
// Types
// ---------------------------------------------------------------------------

/// What stands behind the last occurrence of a character; all of it where there
/// is none.
pub open spec fn after_last(s: Seq<char>, c: char) -> Seq<char>
    decreases s.len(),
{
    if s.len() == 0 || s.last() == c {
        Seq::empty()
    } else {
        after_last(s.drop_last(), c).push(s.last())
    }
}

fn tail_after(s: &str, c: char) -> (r: String)
    ensures
        r@ == after_last(s@, c),
{
    let cs = chars_of(s);
    let n: usize = cs.len();
    let mut i: usize = n;
    proof {
        assert(s@.take(n as int) =~= s@);
        assert(after_last(s@, c) + s@.skip(n as int) =~= after_last(s@, c));
    }
    while i > 0 && cs[i - 1] != c
        invariant
            i <= n,
            n == cs@.len(),
            cs@ == s@,
            after_last(s@, c) == after_last(s@.take(i as int), c) + s@.skip(i as int),
        decreases i,
    {
        proof {
            let head = s@.take(i as int);
            assert(head.drop_last() =~= s@.take(i - 1));
            assert(head.last() == s@[i - 1]);
            assert(after_last(s@.take(i - 1), c).push(s@[i - 1]) + s@.skip(i as int) =~= after_last(
                s@.take(i - 1),
                c,
            ) + s@.skip(i - 1));
        }
        i = i - 1;
    }
    proof {
        let head = s@.take(i as int);
        if i > 0 {
            assert(head.last() == s@[i - 1]);
        }
        assert(after_last(head, c) =~= Seq::<char>::empty());
        assert(s@.skip(i as int) =~= s@.subrange(i as int, n as int));
        assert(after_last(s@, c) =~= s@.subrange(i as int, n as int));
    }
    piece(&cs, i, n)
}

/// A member is smaller than what it is a member of.
pub proof fn member_is_smaller(entries: Seq<(Seq<char>, JsonView)>, k: Seq<char>)
    requires
        json::member(entries, k) is Some,
    ensures
        exists|i: int|
            0 <= i < entries.len() && #[trigger] entries[i] == (
                k,
                json::member(entries, k)->Some_0,
            ),
    decreases entries.len(),
{
    if entries[0].0 == k {
        assert(entries[0] == (k, json::member(entries, k)->Some_0));
    } else {
        member_is_smaller(entries.drop_first(), k);
        let i = choose|i: int|
            0 <= i < entries.drop_first().len() && #[trigger] entries.drop_first()[i] == (
                k,
                json::member(entries, k)->Some_0,
            );
        assert(entries[i + 1] == entries.drop_first()[i]);
    }
}

/// A schema in one word: the name behind a reference, the type otherwise.
pub open spec fn type_text(schema: JsonView) -> Seq<char>
    decreases schema,
{
    match schema.at("$ref"@).text() {
        Some(r) => after_last(r, '/'),
        None => match schema.at("type"@).text() {
            Some(t) => if t == "array"@ {
                match schema.get("items"@) {
                    Some(items) => {
                        proof {
                            let e = schema->Object_0;
                            member_is_smaller(e, "items"@);
                            let i = choose|i: int|
                                0 <= i < e.len() && #[trigger] e[i] == ("items"@, items);
                            assert(decreases_to!(schema => e[i].1));
                        }
                        type_text(items) + "[]"@
                    },
                    None => "[]"@,
                }
            } else {
                t
            },
            None => Seq::empty(),
        },
    }
}

/// A schema in one word.
pub fn type_of(schema: &Json) -> (r: String)
    ensures
        r@ == type_text(schema@),
    decreases schema@,
{
    match schema.get("$ref") {
        Some(Json::Text(t)) => {
            return tail_after(t.as_str(), '/');
        },
        _ => {},
    }
    match schema.get("type") {
        Some(Json::Text(t)) => {
            if !same(t.as_str(), "array") {
                return t.clone();
            }
            match schema.get("items") {
                Some(items) => {
                    proof {
                        let e = schema@->Object_0;
                        member_is_smaller(e, "items"@);
                        let i = choose|i: int|
                            0 <= i < e.len() && #[trigger] e[i] == ("items"@, items@);
                        assert(decreases_to!(schema@ => e[i].1));
                    }
                    cat(type_of(items).as_str(), "[]")
                },
                None => owned("[]"),
            }
        },
        _ => String::new(),
    }
}

// ---------------------------------------------------------------------------
// One operation
// ---------------------------------------------------------------------------

/// A text between two tags, where there is one.
pub open spec fn between(open: Seq<char>, v: JsonView, close: Seq<char>) -> Seq<char> {
    match v.text() {
        Some(t) => open + escaped(t) + close,
        None => Seq::empty(),
    }
}

fn put_between(open: &str, v: &Json, close: &str) -> (r: String)
    ensures
        r@ == between(open@, v@, close@),
{
    match v {
        Json::Text(t) => cat3(open, esc(t.as_str()).as_str(), close),
        _ => String::new(),
    }
}

/// A row of a table: a name, whether it has to be there, its type and what it
/// is for.
pub open spec fn row(
    name: Seq<char>,
    required: bool,
    schema: Seq<char>,
    description: Seq<char>,
) -> Seq<char> {
    "<tr><td><code>"@ + escaped(name) + (if required {
        "</code> <span class=\"req\">*</span></td><td><code>"@
    } else {
        "</code></td><td><code>"@
    }) + escaped(schema) + "</code></td><td>"@ + escaped(description) + "</td></tr>"@
}

fn put_row(name: &str, required: bool, schema: &str, description: &str) -> (r: String)
    ensures
        r@ == row(name@, required, schema@, description@),
{
    let middle = if required {
        "</code> <span class=\"req\">*</span></td><td><code>"
    } else {
        "</code></td><td><code>"
    };
    let start = cat4(
        "<tr><td><code>",
        esc(name).as_str(),
        middle,
        esc(schema).as_str(),
    );
    cat4(start.as_str(), "</code></td><td>", esc(description).as_str(), "</td></tr>")
}

/// The row of a parameter.
pub open spec fn param_row(p: JsonView) -> Seq<char> {
    row(
        p.at("name"@).text_or(Seq::empty()),
        p.at("required"@) == JsonView::Bool(true),
        type_text(p.at("schema"@)),
        p.at("description"@).text_or(Seq::empty()),
    )
}

/// The rows of parameters.
pub open spec fn param_rows(ps: Seq<JsonView>) -> Seq<char>
    decreases ps.len(),
{
    if ps.len() == 0 {
        Seq::empty()
    } else {
        param_rows(ps.drop_last()) + param_row(ps.last())
    }
}

/// The table of parameters, where there are any.
pub open spec fn param_table(v: JsonView) -> Seq<char> {
    match v {
        JsonView::Array(ps) => if ps.len() > 0 {
            "<table><tr><th>Query</th><th>Type</th><th></th></tr>"@ + param_rows(ps)
                + "</table>"@
        } else {
            Seq::empty()
        },
        _ => Seq::empty(),
    }
}

proof fn empty_text()
    ensures
        ""@ == Seq::<char>::empty(),
{
    reveal_strlit("");
    assert(""@ =~= Seq::<char>::empty());
}

fn is_true(v: &Json) -> (r: bool)
    ensures
        r == (v@ == JsonView::Bool(true)),
{
    match v {
        Json::Bool(b) => *b,
        _ => false,
    }
}

fn put_params(v: &Json) -> (r: String)
    ensures
        r@ == param_table(v@),
{
    let null = Json::Null;
    match v {
        Json::Array(ps) => {
            proof {
                json::array_tree(*ps);
                empty_text();
            }
            let ghost all = json::trees(ps@);
            if ps.len() == 0 {
                return String::new();
            }
            let mut rows = String::new();
            let mut i: usize = 0;
            proof {
                assert(rows@ =~= param_rows(all.take(0)));
            }
            while i < ps.len()
                invariant
                    i <= ps.len(),
                    all == json::trees(ps@),
                    null@ == JsonView::Null,
                    ""@ == Seq::<char>::empty(),
                    rows@ == param_rows(all.take(i as int)),
                decreases ps.len() - i,
            {
                let p = &ps[i];
                proof {
                    assert(all.take(i + 1).drop_last() =~= all.take(i as int));
                    assert(all.take(i + 1).last() == p@);
                }
                let one = put_row(
                    p.text_at("name", "").as_str(),
                    is_true(p.at("required", &null)),
                    type_of(p.at("schema", &null)).as_str(),
                    p.text_at("description", "").as_str(),
                );
                rows = cat(rows.as_str(), one.as_str());
                i = i + 1;
            }
            proof {
                assert(all.take(ps@.len() as int) =~= all);
            }
            cat3(
                "<table><tr><th>Query</th><th>Type</th><th></th></tr>",
                rows.as_str(),
                "</table>",
            )
        },
        _ => String::new(),
    }
}

/// Whether a schema says that a field has to be there.
pub open spec fn needs(required: JsonView, field: Seq<char>) -> bool {
    match required {
        JsonView::Array(a) => a.contains(JsonView::Text(field)),
        _ => false,
    }
}

fn is_needed(required: &Json, field: &str) -> (r: bool)
    ensures
        r == needs(required@, field@),
{
    match required {
        Json::Array(a) => {
            proof {
                json::array_tree(*a);
            }
            let ghost all = json::trees(a@);
            let mut i: usize = 0;
            while i < a.len()
                invariant
                    i <= a.len(),
                    all == json::trees(a@),
                    required@ == JsonView::Array(all),
                    forall|j: int| 0 <= j < i ==> (#[trigger] all[j]) != JsonView::Text(field@),
                decreases a.len() - i,
            {
                proof {
                    assert(all[i as int] == a@[i as int]@);
                }
                match &a[i] {
                    Json::Text(t) => {
                        if same(t.as_str(), field) {
                            proof {
                                assert(all[i as int] == JsonView::Text(field@));
                            }
                            return true;
                        }
                    },
                    _ => {},
                }
                i = i + 1;
            }
            false
        },
        _ => false,
    }
}

/// The rows of the fields of a body.
pub open spec fn field_rows(fields: Seq<(Seq<char>, JsonView)>, required: JsonView) -> Seq<char>
    decreases fields.len(),
{
    if fields.len() == 0 {
        Seq::empty()
    } else {
        field_rows(fields.drop_last(), required) + row(
            fields.last().0,
            needs(required, fields.last().0),
            type_text(fields.last().1),
            fields.last().1.at("description"@).text_or(Seq::empty()),
        )
    }
}

/// The table of a body of one media type.
pub open spec fn body_table(mime: Seq<char>, schema: JsonView) -> Seq<char> {
    "<table><tr><th>Body</th><th colspan=\"2\"><code>"@ + escaped(mime) + "</code></th></tr>"@
        + (match schema.at("properties"@) {
        JsonView::Object(fields) => field_rows(fields, schema.at("required"@)),
        _ => "<tr><td colspan=\"3\"><code>"@ + escaped(type_text(schema)) + "</code></td></tr>"@,
    }) + "</table>"@
}

/// The tables of a body, one for each media type.
pub open spec fn body_tables(bodies: Seq<(Seq<char>, JsonView)>) -> Seq<char>
    decreases bodies.len(),
{
    if bodies.len() == 0 {
        Seq::empty()
    } else {
        body_tables(bodies.drop_last()) + body_table(
            bodies.last().0,
            bodies.last().1.at("schema"@),
        )
    }
}

fn put_fields(fields: &Vec<(String, Json)>, required: &Json) -> (r: String)
    ensures
        r@ == field_rows(json::members(fields@), required@),
{
    let ghost all = json::members(fields@);
    let mut rows = String::new();
    let mut i: usize = 0;
    proof {
        empty_text();
        assert(rows@ =~= field_rows(all.take(0), required@));
    }
    while i < fields.len()
        invariant
            i <= fields.len(),
            all == json::members(fields@),
            ""@ == Seq::<char>::empty(),
            rows@ == field_rows(all.take(i as int), required@),
        decreases fields.len() - i,
    {
        let (name, schema) = &fields[i];
        proof {
            assert(all.take(i + 1).drop_last() =~= all.take(i as int));
            assert(all.take(i + 1).last() == (name@, schema@));
        }
        let one = put_row(
            name.as_str(),
            is_needed(required, name.as_str()),
            type_of(schema).as_str(),
            schema.text_at("description", "").as_str(),
        );
        rows = cat(rows.as_str(), one.as_str());
        i = i + 1;
    }
    proof {
        assert(all.take(fields@.len() as int) =~= all);
    }
    rows
}

fn put_body(mime: &str, schema: &Json) -> (r: String)
    ensures
        r@ == body_table(mime@, schema@),
{
    let null = Json::Null;
    let inner = match schema.at("properties", &null) {
        Json::Object(fields) => {
            proof {
                json::object_tree(*fields);
            }
            put_fields(fields, schema.at("required", &null))
        },
        _ => cat3(
            "<tr><td colspan=\"3\"><code>",
            esc(type_of(schema).as_str()).as_str(),
            "</code></td></tr>",
        ),
    };
    cat5(
        "<table><tr><th>Body</th><th colspan=\"2\"><code>",
        esc(mime).as_str(),
        "</code></th></tr>",
        inner.as_str(),
        "</table>",
    )
}

fn put_bodies(v: &Json) -> (r: String)
    ensures
        r@ == (match v@ {
            JsonView::Object(bodies) => body_tables(bodies),
            _ => Seq::empty(),
        }),
{
    let null = Json::Null;
    match v {
        Json::Object(bodies) => {
            proof {
                json::object_tree(*bodies);
            }
            let ghost all = json::members(bodies@);
            let mut out = String::new();
            let mut i: usize = 0;
            proof {
                assert(out@ =~= body_tables(all.take(0)));
            }
            while i < bodies.len()
                invariant
                    i <= bodies.len(),
                    all == json::members(bodies@),
                    null@ == JsonView::Null,
                    out@ == body_tables(all.take(i as int)),
                decreases bodies.len() - i,
            {
                let (mime, body) = &bodies[i];
                proof {
                    assert(all.take(i + 1).drop_last() =~= all.take(i as int));
                    assert(all.take(i + 1).last() == (mime@, body@));
                }
                let one = put_body(mime.as_str(), body.at("schema", &null));
                out = cat(out.as_str(), one.as_str());
                i = i + 1;
            }
            proof {
                assert(all.take(bodies@.len() as int) =~= all);
            }
            out
        },
        _ => String::new(),
    }
}

/// The type of what a response brings, where it brings something.
pub open spec fn response_type(r: JsonView) -> Seq<char> {
    match r.at("content"@) {
        JsonView::Object(c) => if c.len() > 0 {
            type_text(c[0].1.at("schema"@))
        } else {
            Seq::empty()
        },
        _ => Seq::empty(),
    }
}

/// The rows of responses.
pub open spec fn response_rows(rs: Seq<(Seq<char>, JsonView)>) -> Seq<char>
    decreases rs.len(),
{
    if rs.len() == 0 {
        Seq::empty()
    } else {
        response_rows(rs.drop_last()) + row(
            rs.last().0,
            false,
            response_type(rs.last().1),
            rs.last().1.at("description"@).text_or(Seq::empty()),
        )
    }
}

/// The names of members.
pub open spec fn names_of(ms: Seq<(Seq<char>, JsonView)>) -> Seq<Seq<char>> {
    Seq::new(ms.len(), |i: int| ms[i].0)
}

/// The members of an object, in the order of their names.
pub open spec fn by_name(ms: Seq<(Seq<char>, JsonView)>) -> Seq<(Seq<char>, JsonView)> {
    let names = text::sorted(names_of(ms));
    Seq::new(names.len(), |i: int| (names[i], JsonView::Object(ms).at(names[i])))
}

/// The table of responses in the order of their codes, where they are described.
pub open spec fn response_table(v: JsonView) -> Seq<char> {
    match v {
        JsonView::Object(rs) => "<table><tr><th>Status</th><th>Type</th><th></th></tr>"@
            + response_rows(by_name(rs)) + "</table>"@,
        _ => Seq::empty(),
    }
}

fn type_returned(r: &Json) -> (t: String)
    ensures
        t@ == response_type(r@),
{
    let null = Json::Null;
    match r.at("content", &null) {
        Json::Object(c) => {
            proof {
                json::object_tree(*c);
            }
            if c.len() > 0 {
                proof {
                    assert(json::members(c@)[0].1 == c@[0].1@);
                }
                type_of(c[0].1.at("schema", &null))
            } else {
                String::new()
            }
        },
        _ => String::new(),
    }
}

fn put_names(rs: &Vec<(String, Json)>) -> (r: Vec<String>)
    ensures
        text::views(r@) == names_of(json::members(rs@)),
{
    let mut names: Vec<String> = Vec::new();
    let mut i: usize = 0;
    while i < rs.len()
        invariant
            i <= rs.len(),
            names@.len() == i,
            forall|j: int| 0 <= j < i ==> (#[trigger] names@[j])@ == rs@[j].0@,
        decreases rs.len() - i,
    {
        names.push(rs[i].0.clone());
        i = i + 1;
    }
    proof {
        assert(text::views(names@) =~= names_of(json::members(rs@)));
    }
    names
}

fn put_responses(v: &Json) -> (r: String)
    ensures
        r@ == response_table(v@),
{
    let null = Json::Null;
    match v {
        Json::Object(rs) => {
            proof {
                json::object_tree(*rs);
                empty_text();
            }
            let codes = sort_names(&put_names(rs));
            let ghost all = by_name(json::members(rs@));
            proof {
                text::sorted_is_sorted(names_of(json::members(rs@)));
                assert(all.len() == codes@.len());
            }
            let mut rows = String::new();
            let mut i: usize = 0;
            proof {
                assert(rows@ =~= response_rows(all.take(0)));
            }
            while i < codes.len()
                invariant
                    i <= codes.len(),
                    v@ == JsonView::Object(json::members(rs@)),
                    text::views(codes@) == text::sorted(names_of(json::members(rs@))),
                    all == by_name(json::members(rs@)),
                    all.len() == codes@.len(),
                    null@ == JsonView::Null,
                    ""@ == Seq::<char>::empty(),
                    rows@ == response_rows(all.take(i as int)),
                decreases codes.len() - i,
            {
                let code = codes[i].as_str();
                let response = v.at(code, &null);
                proof {
                    assert(text::views(codes@)[i as int] == code@);
                    assert(all.take(i + 1).drop_last() =~= all.take(i as int));
                    assert(all.take(i + 1).last() == (code@, response@));
                }
                let one = put_row(
                    code,
                    false,
                    type_returned(response).as_str(),
                    response.text_at("description", "").as_str(),
                );
                rows = cat(rows.as_str(), one.as_str());
                i = i + 1;
            }
            proof {
                assert(all.take(codes@.len() as int) =~= all);
            }
            cat3(
                "<table><tr><th>Status</th><th>Type</th><th></th></tr>",
                rows.as_str(),
                "</table>",
            )
        },
        _ => String::new(),
    }
}

/// What is on the page about one operation.
pub open spec fn operation_shown(path: Seq<char>, method: Seq<char>, op: JsonView) -> Seq<char> {
    "<div class=\"op\"><div class=\"sig\"><span class=\"m "@ + escaped(method) + "\">"@ + escaped(
        text::uppered(method),
    ) + "</span> "@ + escaped(path) + "</div>"@ + between(
        "<p class=\"sum\">"@,
        op.at("summary"@),
        "</p>"@,
    ) + between("<p class=\"desc\">"@, op.at("description"@), "</p>"@) + param_table(
        op.at("parameters"@),
    ) + (match op.at("requestBody"@).at("content"@) {
        JsonView::Object(bodies) => body_tables(bodies),
        _ => Seq::empty(),
    }) + response_table(op.at("responses"@)) + "</div>\n"@
}

/// Renders one operation.
pub fn render_operation(path: &str, method: &str, op: &Json) -> (r: String)
    ensures
        r@ == operation_shown(path@, method@, op@),
{
    let null = Json::Null;
    let start = cat4(
        "<div class=\"op\"><div class=\"sig\"><span class=\"m ",
        esc(method).as_str(),
        "\">",
        esc(to_upper(method).as_str()).as_str(),
    );
    let signature = cat4(start.as_str(), "</span> ", esc(path).as_str(), "</div>");
    let about = cat3(
        signature.as_str(),
        put_between("<p class=\"sum\">", op.at("summary", &null), "</p>").as_str(),
        put_between("<p class=\"desc\">", op.at("description", &null), "</p>").as_str(),
    );
    cat5(
        about.as_str(),
        put_params(op.at("parameters", &null)).as_str(),
        put_bodies(op.at("requestBody", &null).at("content", &null)).as_str(),
        put_responses(op.at("responses", &null)).as_str(),
        "</div>\n",
    )
}

// ---------------------------------------------------------------------------
// The page
// ---------------------------------------------------------------------------

/// What the page starts with, up to its title.
pub const PAGE_HEAD: &'static str = "<!doctype html>\n<html lang=\"en\"><head><meta charset=\"utf-8\">\
    <meta name=\"viewport\" content=\"width=device-width, initial-scale=1\"><title>";

/// What follows the title, up to the body.
pub const PAGE_STYLE: &'static str = "</title><style>\
    :root { color-scheme: light dark; }\
    body { font: 15px/1.5 -apple-system, system-ui, sans-serif; margin: 0 auto; \
    max-width: 52rem; padding: 2rem 1.25rem 6rem; }\
    h1 { font-size: 1.5rem; margin-bottom: .25rem; }\
    h2 { font-size: 1.05rem; margin: 2.5rem 0 .5rem; text-transform: uppercase; \
    letter-spacing: .06em; opacity: .65; }\
    .op { border: 1px solid rgba(128,128,128,.35); border-radius: 8px; \
    padding: .75rem 1rem; margin: .5rem 0; }\
    .sig { font-family: ui-monospace, SFMono-Regular, Menlo, monospace; font-size: .95rem; }\
    .m { display: inline-block; min-width: 3.2rem; font-weight: 700; }\
    .get { color: #2b7a2b; } .post { color: #9a4b00; }\
    .sum { margin: .35rem 0 0; font-weight: 600; }\
    .desc { margin: .35rem 0 0; opacity: .85; white-space: pre-wrap; }\
    table { border-collapse: collapse; margin: .6rem 0 0; width: 100%; font-size: .9rem; }\
    th, td { text-align: left; vertical-align: top; padding: .2rem .5rem .2rem 0; }\
    th { opacity: .6; font-weight: 600; }\
    code { font-family: ui-monospace, SFMono-Regular, Menlo, monospace; }\
    .req { color: #b00; }\
    </style></head><body>\n";

/// The operations of a path that stand under a heading.
pub open spec fn methods_under(
    name: Seq<char>,
    path: Seq<char>,
    ms: Seq<(Seq<char>, JsonView)>,
) -> Seq<SpotView>
    decreases ms.len(),
{
    if ms.len() == 0 {
        Seq::empty()
    } else if ms.last().1.at("tags"@).first().text() == Some(name) {
        methods_under(name, path, ms.drop_last()).push(
            (SpotView { path, method: ms.last().0, op: ms.last().1 }),
        )
    } else {
        methods_under(name, path, ms.drop_last())
    }
}

/// The members of an object; none of anything else.
pub open spec fn members_of(v: JsonView) -> Seq<(Seq<char>, JsonView)> {
    match v {
        JsonView::Object(ms) => ms,
        _ => Seq::empty(),
    }
}

/// The elements of an array; none of anything else.
pub open spec fn elements_of(v: JsonView) -> Seq<JsonView> {
    match v {
        JsonView::Array(e) => e,
        _ => Seq::empty(),
    }
}

/// The operations that stand under a heading, as the document has them.
pub open spec fn operations_under(name: Seq<char>, ps: Seq<(Seq<char>, JsonView)>) -> Seq<SpotView>
    decreases ps.len(),
{
    if ps.len() == 0 {
        Seq::empty()
    } else {
        operations_under(name, ps.drop_last()) + methods_under(
            name,
            ps.last().0,
            members_of(ps.last().1),
        )
    }
}

/// What is on the page about operations, one after the other.
pub open spec fn operations_shown(ops: Seq<SpotView>) -> Seq<char>
    decreases ops.len(),
{
    if ops.len() == 0 {
        Seq::empty()
    } else {
        operations_shown(ops.drop_last()) + operation_shown(
            ops.last().path,
            ops.last().method,
            ops.last().op,
        )
    }
}

/// A section of the page, where it has any operations: they stand in the order of
/// their paths, and those of one path in the order of their methods.
pub open spec fn section(tag: JsonView, ps: Seq<(Seq<char>, JsonView)>) -> Seq<char> {
    let name = tag.at("name"@).text_or(Seq::empty());
    let ops = operations_under(name, ps);
    if ops.len() == 0 {
        Seq::empty()
    } else {
        "<h2>"@ + escaped(name) + "</h2>\n"@ + between(
            "<p class=\"desc\">"@,
            tag.at("description"@),
            "</p>\n"@,
        ) + operations_shown(spots::spots_sorted(ops))
    }
}

/// The sections of the page, in the order in which the document has them.
pub open spec fn sections(tags: Seq<JsonView>, ps: Seq<(Seq<char>, JsonView)>) -> Seq<char>
    decreases tags.len(),
{
    if tags.len() == 0 {
        Seq::empty()
    } else {
        sections(tags.drop_last(), ps) + section(tags.last(), ps)
    }
}

/// Where the API is served, and where the document is.
pub open spec fn server_line(url: JsonView) -> Seq<char> {
    match url.text() {
        Some(u) => "<p class=\"desc\">Server: <code>"@ + escaped(u)
            + "</code> · machine-readable: <a href=\""@ + OPENAPI_PATH@ + "\"><code>"@
            + OPENAPI_PATH@ + "</code></a></p>\n"@,
        None => Seq::empty(),
    }
}

/// What the page says before its sections.
pub open spec fn page_top(d: JsonView) -> Seq<char> {
    let title = d.at("info"@).at("title"@).text_or("API"@);
    let version = d.at("info"@).at("version"@).text_or(Seq::empty());
    PAGE_HEAD@ + escaped(title) + " "@ + escaped(version) + PAGE_STYLE@ + "<h1>"@ + escaped(title)
        + " <small>"@ + escaped(version) + "</small></h1>\n"@ + between(
        "<p class=\"desc\">"@,
        d.at("info"@).at("description"@),
        "</p>\n"@,
    ) + server_line(d.at("servers"@).first().at("url"@))
}

/// The page that shows a document.
pub open spec fn page(d: JsonView) -> Seq<char> {
    page_top(d) + sections(elements_of(d.at("tags"@)), members_of(d.at("paths"@)))
        + "</body></html>\n"@
}

fn list_methods<'a>(name: &str, path: &'a str, methods: &'a Json, out: &mut Vec<Spot<'a>>)
    ensures
        spots::spot_views(final(out)@) == spots::spot_views(old(out)@) + methods_under(
            name@,
            path@,
            members_of(methods@),
        ),
{
    let null = Json::Null;
    let ghost had = spots::spot_views(out@);
    match methods {
        Json::Object(ms) => {
            proof {
                json::object_tree(*ms);
            }
            let ghost all = json::members(ms@);
            let mut i: usize = 0;
            proof {
                assert(had + methods_under(name@, path@, all.take(0)) =~= had);
            }
            while i < ms.len()
                invariant
                    i <= ms.len(),
                    all == json::members(ms@),
                    null@ == JsonView::Null,
                    spots::spot_views(out@) == had + methods_under(name@, path@, all.take(i as int)),
                decreases ms.len() - i,
            {
                let (method, op) = &ms[i];
                proof {
                    assert(all.take(i + 1).drop_last() =~= all.take(i as int));
                    assert(all.take(i + 1).last() == (method@, op@));
                }
                let under = match op.at("tags", &null).first(&null) {
                    Json::Text(t) => same(t.as_str(), name),
                    _ => false,
                };
                if under {
                    let ghost so_far = spots::spot_views(out@);
                    let spot = Spot { path, method: method.as_str(), op };
                    out.push(spot);
                    proof {
                        assert(spots::spot_views(out@) =~= so_far.push(spot@));
                    }
                }
                i = i + 1;
            }
            proof {
                assert(all.take(ms@.len() as int) =~= all);
            }
        },
        _ => {
            proof {
                assert(had + methods_under(name@, path@, members_of(methods@)) =~= had);
            }
        },
    }
}

fn list_operations<'a>(name: &str, paths: &'a Json) -> (r: Vec<Spot<'a>>)
    ensures
        spots::spot_views(r@) == operations_under(name@, members_of(paths@)),
{
    let mut out: Vec<Spot<'a>> = Vec::new();
    proof {
        assert(spots::spot_views(out@) =~= Seq::<SpotView>::empty());
    }
    match paths {
        Json::Object(ps) => {
            proof {
                json::object_tree(*ps);
            }
            let ghost all = json::members(ps@);
            let mut i: usize = 0;
            proof {
                assert(all.take(0) =~= Seq::empty());
            }
            while i < ps.len()
                invariant
                    i <= ps.len(),
                    all == json::members(ps@),
                    spots::spot_views(out@) == operations_under(name@, all.take(i as int)),
                decreases ps.len() - i,
            {
                let (path, methods) = &ps[i];
                proof {
                    assert(all.take(i + 1).drop_last() =~= all.take(i as int));
                    assert(all.take(i + 1).last() == (path@, methods@));
                }
                list_methods(name, path.as_str(), methods, &mut out);
                i = i + 1;
            }
            proof {
                assert(all.take(ps@.len() as int) =~= all);
            }
        },
        _ => {},
    }
    out
}

fn put_operations(ops: &Vec<Spot<'_>>) -> (r: String)
    ensures
        r@ == operations_shown(spots::spot_views(ops@)),
{
    let ghost all = spots::spot_views(ops@);
    let mut out = String::new();
    let mut i: usize = 0;
    proof {
        assert(out@ =~= operations_shown(all.take(0)));
    }
    while i < ops.len()
        invariant
            i <= ops.len(),
            all == spots::spot_views(ops@),
            out@ == operations_shown(all.take(i as int)),
        decreases ops.len() - i,
    {
        proof {
            assert(all.take(i + 1).drop_last() =~= all.take(i as int));
            assert(all.take(i + 1).last() == ops@[i as int]@);
        }
        let one = render_operation(ops[i].path, ops[i].method, ops[i].op);
        out = cat(out.as_str(), one.as_str());
        i = i + 1;
    }
    proof {
        assert(all.take(ops@.len() as int) =~= all);
    }
    out
}

fn put_section(tag: &Json, paths: &Json) -> (r: String)
    ensures
        r@ == section(tag@, members_of(paths@)),
{
    let null = Json::Null;
    proof {
        empty_text();
    }
    let name = tag.text_at("name", "");
    let ops = list_operations(name.as_str(), paths);
    if ops.len() == 0 {
        return String::new();
    }
    cat5(
        "<h2>",
        esc(name.as_str()).as_str(),
        "</h2>\n",
        put_between("<p class=\"desc\">", tag.at("description", &null), "</p>\n").as_str(),
        put_operations(&sort_spots(&ops)).as_str(),
    )
}

fn put_sections(tags: &Json, paths: &Json) -> (r: String)
    ensures
        r@ == sections(elements_of(tags@), members_of(paths@)),
{
    match tags {
        Json::Array(ts) => {
            proof {
                json::array_tree(*ts);
            }
            let ghost all = json::trees(ts@);
            let mut out = String::new();
            let mut i: usize = 0;
            proof {
                assert(out@ =~= sections(all.take(0), members_of(paths@)));
            }
            while i < ts.len()
                invariant
                    i <= ts.len(),
                    all == json::trees(ts@),
                    out@ == sections(all.take(i as int), members_of(paths@)),
                decreases ts.len() - i,
            {
                proof {
                    assert(all.take(i + 1).drop_last() =~= all.take(i as int));
                    assert(all.take(i + 1).last() == ts@[i as int]@);
                }
                let one = put_section(&ts[i], paths);
                out = cat(out.as_str(), one.as_str());
                i = i + 1;
            }
            proof {
                assert(all.take(ts@.len() as int) =~= all);
            }
            out
        },
        _ => String::new(),
    }
}

fn put_server(url: &Json) -> (r: String)
    ensures
        r@ == server_line(url@),
{
    match url {
        Json::Text(u) => {
            let start = cat4(
                "<p class=\"desc\">Server: <code>",
                esc(u.as_str()).as_str(),
                "</code> · machine-readable: <a href=\"",
                OPENAPI_PATH,
            );
            cat4(start.as_str(), "\"><code>", OPENAPI_PATH, "</code></a></p>\n")
        },
        _ => String::new(),
    }
}

fn put_top(spec: &Json) -> (r: String)
    ensures
        r@ == page_top(spec@),
{
    let null = Json::Null;
    proof {
        empty_text();
    }
    let info = spec.at("info", &null);
    let title = esc(info.text_at("title", "API").as_str());
    let version = esc(info.text_at("version", "").as_str());
    let head = cat5(PAGE_HEAD, title.as_str(), " ", version.as_str(), PAGE_STYLE);
    let heading = cat4(head.as_str(), "<h1>", title.as_str(), " <small>");
    let named = cat3(heading.as_str(), version.as_str(), "</small></h1>\n");
    cat3(
        named.as_str(),
        put_between("<p class=\"desc\">", info.at("description", &null), "</p>\n").as_str(),
        put_server(spec.at("servers", &null).first(&null).at("url", &null)).as_str(),
    )
}

/// Renders a document as a page.
pub fn render_html(spec: &Json) -> (r: String)
    ensures
        r@ == page(spec@),
{
    let null = Json::Null;
    cat3(
        put_top(spec).as_str(),
        put_sections(spec.at("tags", &null), spec.at("paths", &null)).as_str(),
        "</body></html>\n",
    )
}

/// The four characters that mean something in markup are written by their names, every
/// other as it is, and a text as its characters are, one after the other.
pub proof fn how_text_is_escaped(s: Seq<char>, t: Seq<char>, c: char)
    ensures
        escaped(seq!['&']) == "&amp;"@,
        escaped(seq!['<']) == "&lt;"@,
        escaped(seq!['>']) == "&gt;"@,
        escaped(seq!['"']) == "&quot;"@,
        c != '&' && c != '<' && c != '>' && c != '"' ==> escaped(seq![c]) == seq![c],
        escaped(s + t) == escaped(s) + escaped(t),
        escaped(Seq::empty()).len() == 0,
    decreases t.len(),
{
    assert forall|x: char| escaped(#[trigger] seq![x]) == entity(x) by {
        assert(seq![x].drop_last() =~= Seq::<char>::empty());
        assert(escaped(Seq::empty()) + entity(x) =~= entity(x));
    }
    if t.len() == 0 {
        assert(s + t =~= s);
        assert(escaped(s) + escaped(t) =~= escaped(s));
    } else {
        how_text_is_escaped(s, t.drop_last(), c);
        assert((s + t).drop_last() =~= s + t.drop_last());
        assert(escaped(s + t) =~= escaped(s) + escaped(t));
    }
}

/// What stands behind the last of a character is what follows it, and all of a text
/// without one.
pub proof fn what_stands_behind(a: Seq<char>, b: Seq<char>, c: char)
    requires
        !b.contains(c),
    ensures
        after_last(a + seq![c] + b, c) == b,
        after_last(b, c) == b,
    decreases b.len(),
{
    let s = a + seq![c] + b;
    if b.len() == 0 {
        assert(s.last() == c);
    } else {
        let t = b.drop_last();
        assert(!t.contains(c)) by {
            if t.contains(c) {
                let i = choose|i: int| 0 <= i < t.len() && t[i] == c;
                assert(b[i] == c);
            }
        }
        assert(b.contains(b.last()));
        assert(s.last() == b.last());
        assert(s.drop_last() =~= a + seq![c] + t);
        what_stands_behind(a, t, c);
        assert(t.push(b.last()) =~= b);
    }
}

/// A type is shown by the name that a reference ends with, by its own name, or, where it
/// is a list, by that of its elements with brackets behind it.
pub proof fn how_types_are_shown(t: JsonView, r: Seq<char>, name: Seq<char>)
    ensures
        t.get("$ref"@) == Some(JsonView::Text(r)) ==> type_text(t) == after_last(r, '/'),
        t.get("$ref"@) is None && name != "array"@ && t.get("type"@) == Some(JsonView::Text(name))
            ==> type_text(t) == name,
        t.get("$ref"@) is None && t.get("type"@) == Some(JsonView::Text("array"@))
            && t.get("items"@) is Some ==> type_text(t) == type_text(t.get("items"@)->Some_0)
            + "[]"@,
        t.get("$ref"@) is None && t.get("type"@) == Some(JsonView::Text("array"@))
            && t.get("items"@) is None ==> type_text(t) == "[]"@,
        t.get("$ref"@) is None && t.get("type"@) is None ==> type_text(t).len() == 0,
{
}

/// A member is needed where the list of those names it.
pub proof fn which_members_are_needed(listed: Seq<JsonView>, field: Seq<char>, i: int)
    ensures
        0 <= i < listed.len() && listed[i] == JsonView::Text(field) ==> needs(
            JsonView::Array(listed),
            field,
        ),
        needs(JsonView::Array(listed), field) ==> exists|j: int|
            0 <= j < listed.len() && (#[trigger] listed[j]) == JsonView::Text(field),
        !needs(JsonView::Null, field),
{
    if needs(JsonView::Array(listed), field) {
        assert(listed.contains(JsonView::Text(field)));
        let j = choose|j: int| 0 <= j < listed.len() && listed[j] == JsonView::Text(field);
        assert(listed[j] == JsonView::Text(field));
    }
}

} // verus!
