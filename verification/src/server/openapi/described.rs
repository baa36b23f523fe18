//! What the document says of each endpoint: how it is called, by whom, with what, and
//! what it answers.
use crate::json::got_of_with;
use crate::json::JsonView;
use crate::server::openapi::doc;
use vstd::prelude::*;

verus! {

broadcast proof fn stays_an_object(o: JsonView, k: Seq<char>, v: JsonView)
    requires
        o is Object,
    ensures
        (#[trigger] o.with(k, v)) is Object,
{
    reveal(JsonView::with);
}

/// Whether an operation can answer with a code.
pub open spec fn answers(op: JsonView, code: Seq<char>) -> bool {
    op.at("responses"@).get(code) is Some
}

/// Whether an operation takes a body of a media type.
pub open spec fn takes(op: JsonView, mime: Seq<char>) -> bool {
    op.at("requestBody"@).at("content"@).get(mime) is Some
}

/// What the body of an operation is made of.
pub open spec fn form(op: JsonView, mime: Seq<char>) -> JsonView {
    op.at("requestBody"@).at("content"@).at(mime).at("schema"@)
}

/// Whether a type has a member.
pub open spec fn has_member(schema: JsonView, name: Seq<char>) -> bool {
    schema.at("properties"@).get(name) is Some
}

/// Whether these are the members that a value of a type always has.
pub open spec fn must_have(schema: JsonView, names: Seq<Seq<char>>) -> bool {
    schema.at("required"@) matches JsonView::Array(e) && e.len() == names.len() && forall|i: int|
        0 <= i < names.len() ==> (#[trigger] e[i]) == JsonView::Text(names[i])
}

/// Whether a parameter has a name, a place, and has to be given or not.
pub open spec fn is_parameter(
    p: JsonView,
    name: Seq<char>,
    place: Seq<char>,
    required: bool,
) -> bool {
    &&& p.at("name"@) == JsonView::Text(name)
    &&& p.at("in"@) == JsonView::Text(place)
    &&& p.at("required"@) == JsonView::Bool(required)
}

proof fn member_names_differ()
    ensures
        "get"@.len() == 3,
        "post"@.len() == 4,
        "tags"@.len() == 4,
        "summary"@.len() == 7,
        "description"@.len() == 11,
        "security"@.len() == 8,
        "parameters"@.len() == 10,
        "requestBody"@.len() == 11,
        "responses"@.len() == 9,
        "name"@.len() == 4,
        "in"@.len() == 2,
        "required"@.len() == 8,
        "schema"@.len() == 6,
        "content"@.len() == 7,
        "type"@.len() == 4,
        "properties"@.len() == 10,
        "enum"@.len() == 4,
        "format"@.len() == 6,
        "minimum"@.len() == 7,
        "additionalProperties"@.len() == 20,
        "example"@.len() == 7,
        "items"@.len() == 5,
        "default"@.len() == 7,
        "description"@[0] != "requestBody"@[0],
        "properties"@[0] == 'p' && "properties"@[1] == 'r' && "parameters"@[1] == 'a',
        "security"@[0] != "required"@[0],
        "name"@[0] == 'n' && "tags"@[0] == 't' && "tags"@[1] == 'a' && "type"@[0] == 't'
            && "type"@[1] == 'y' && "enum"@[0] == 'e',
        "summary"@[0] == 's' && "content"@[0] == 'c' && "minimum"@[0] == 'm' && "example"@[0] == 'e'
            && "default"@[0] == 'd',
        "schema"@[0] == 's' && "format"@[0] == 'f',
{
    reveal_strlit("get");
    reveal_strlit("post");
    reveal_strlit("tags");
    reveal_strlit("summary");
    reveal_strlit("description");
    reveal_strlit("security");
    reveal_strlit("parameters");
    reveal_strlit("requestBody");
    reveal_strlit("responses");
    reveal_strlit("name");
    reveal_strlit("in");
    reveal_strlit("required");
    reveal_strlit("schema");
    reveal_strlit("content");
    reveal_strlit("type");
    reveal_strlit("properties");
    reveal_strlit("enum");
    reveal_strlit("format");
    reveal_strlit("minimum");
    reveal_strlit("additionalProperties");
    reveal_strlit("example");
    reveal_strlit("items");
    reveal_strlit("default");
}

/// `/is_logged_in`: called by `GET` it is open to everybody and knows who is signed in,
/// and answers 200.
pub proof fn is_logged_in_is_described()
    ensures
        ({
            let p = doc::path_is_logged_in();
            let get = p.at("get"@);
            &&& forall|m: Seq<char>| (#[trigger] p.get(m)) is Some <==> m == "get"@
            &&& get.at("tags"@) == doc::one("auth"@)
            &&& get.get("security"@) == Some(doc::session_optional())
            &&& forall|c: Seq<char>| #[trigger] answers(get, c) <==> c == "200"@
            &&& get.get("requestBody"@) is None
            &&& get.get("parameters"@) is None
        }),
{
    broadcast use {got_of_with, stays_an_object};

    reveal(JsonView::and);
    member_names_differ();
}

/// `/login`: called by `POST` it is open to everybody, and answers 200, 400, 413 or
/// 500.
pub proof fn login_is_described()
    ensures
        ({
            let p = doc::path_login();
            let post = p.at("post"@);
            &&& forall|m: Seq<char>| (#[trigger] p.get(m)) is Some <==> m == "post"@
            &&& post.at("tags"@) == doc::one("auth"@)
            &&& post.get("security"@) == Some(doc::open_to_all())
            &&& forall|c: Seq<char>|
                #[trigger] answers(post, c) <==> c == "200"@ || c == "400"@ || c == "413"@
                    || c == "500"@
            &&& post.at("requestBody"@).at("required"@) == JsonView::Bool(true)
            &&& forall|m: Seq<char>| #[trigger] takes(post, m) <==> m == "multipart/form-data"@
            &&& forall|k: Seq<char>|
                #[trigger] has_member(form(post, "multipart/form-data"@),
                    k) <==> k == "username"@ || k == "password"@
            &&& must_have(form(post, "multipart/form-data"@), seq!["username"@, "password"@])
            &&& post.get("parameters"@) is None
        }),
{
    broadcast use {got_of_with, stays_an_object};

    reveal(JsonView::and);
    member_names_differ();
}

/// `/auth/providers`: called by `GET` it is open to everybody, and answers 200.
pub proof fn auth_providers_is_described()
    ensures
        ({
            let p = doc::path_auth_providers();
            let get = p.at("get"@);
            &&& forall|m: Seq<char>| (#[trigger] p.get(m)) is Some <==> m == "get"@
            &&& get.at("tags"@) == doc::one("auth"@)
            &&& get.get("security"@) == Some(doc::open_to_all())
            &&& forall|c: Seq<char>| #[trigger] answers(get, c) <==> c == "200"@
            &&& get.get("requestBody"@) is None
            &&& get.get("parameters"@) is None
        }),
{
    broadcast use {got_of_with, stays_an_object};

    reveal(JsonView::and);
    member_names_differ();
}

/// `/auth/config`: called by `GET` it is for those who are signed in, and answers 200,
/// 401 or 403; called by `POST` it is for those who are signed in, and answers 200,
/// 400, 401 or 403.
pub proof fn auth_config_is_described()
    ensures
        ({
            let p = doc::path_auth_config();
            let get = p.at("get"@);
            let post = p.at("post"@);
            &&& forall|m: Seq<char>|
                (#[trigger] p.get(m)) is Some <==> m == "get"@ || m == "post"@
            &&& get.at("tags"@) == doc::one("auth"@)
            &&& get.get("security"@) is None
            &&& forall|c: Seq<char>|
                #[trigger] answers(get, c) <==> c == "200"@ || c == "401"@ || c == "403"@
            &&& get.get("requestBody"@) is None
            &&& get.get("parameters"@) is None
            &&& post.at("tags"@) == doc::one("auth"@)
            &&& post.get("security"@) is None
            &&& forall|c: Seq<char>|
                #[trigger] answers(post, c) <==> c == "200"@ || c == "400"@ || c == "401"@
                    || c == "403"@
            &&& post.at("requestBody"@).at("required"@) == JsonView::Bool(true)
            &&& forall|m: Seq<char>| #[trigger] takes(post, m) <==> m == "application/json"@
            &&& forall|k: Seq<char>|
                #[trigger] has_member(form(post, "application/json"@), k) <==> k == "provider"@
                    || k == "client_id"@ || k == "client_secret"@ || k == "team_id"@
                    || k == "key_id"@ || k == "private_key"@ || k == "redirect_uri"@
            &&& must_have(form(post, "application/json"@), seq!["provider"@])
            &&& post.get("parameters"@) is None
        }),
{
    broadcast use {got_of_with, stays_an_object};

    reveal(JsonView::and);
    member_names_differ();
}

/// `/auth/config/forget`: called by `POST` it is for those who are signed in, and
/// answers 200, 401 or 403.
pub proof fn auth_config_forget_is_described()
    ensures
        ({
            let p = doc::path_auth_config_forget();
            let post = p.at("post"@);
            &&& forall|m: Seq<char>| (#[trigger] p.get(m)) is Some <==> m == "post"@
            &&& post.at("tags"@) == doc::one("auth"@)
            &&& post.get("security"@) is None
            &&& forall|c: Seq<char>|
                #[trigger] answers(post, c) <==> c == "200"@ || c == "401"@ || c == "403"@
            &&& post.at("requestBody"@).at("required"@) == JsonView::Bool(true)
            &&& forall|m: Seq<char>| #[trigger] takes(post, m) <==> m == "application/json"@
            &&& forall|k: Seq<char>|
                #[trigger] has_member(form(post, "application/json"@), k) <==> k == "provider"@
            &&& must_have(form(post, "application/json"@), seq!["provider"@])
            &&& post.get("parameters"@) is None
        }),
{
    broadcast use {got_of_with, stays_an_object};

    reveal(JsonView::and);
    member_names_differ();
}

/// `/auth/{provider}/start`: called by `GET` it is open to everybody, and answers 302
/// or 404.
pub proof fn auth_provider_start_is_described()
    ensures
        ({
            let p = doc::path_auth_provider_start();
            let get = p.at("get"@);
            &&& forall|m: Seq<char>| (#[trigger] p.get(m)) is Some <==> m == "get"@
            &&& get.at("tags"@) == doc::one("auth"@)
            &&& get.get("security"@) == Some(doc::open_to_all())
            &&& forall|c: Seq<char>| #[trigger] answers(get, c) <==> c == "302"@ || c == "404"@
            &&& get.get("requestBody"@) is None
            &&& get.at("parameters"@) is Array && get.at("parameters"@)->Array_0.len() == 2
            &&& is_parameter(get.at("parameters"@)->Array_0[0], "provider"@, "path"@, true)
            &&& is_parameter(get.at("parameters"@)->Array_0[1], "next"@, "query"@, false)
        }),
{
    broadcast use {got_of_with, stays_an_object};

    reveal(JsonView::and);
    member_names_differ();
}

/// `/auth/{provider}/callback`: called by `GET` it is open to everybody, and answers
/// 302 or 404; called by `POST` it is open to everybody, and answers 302 or 404.
pub proof fn auth_provider_callback_is_described()
    ensures
        ({
            let p = doc::path_auth_provider_callback();
            let get = p.at("get"@);
            let post = p.at("post"@);
            &&& forall|m: Seq<char>|
                (#[trigger] p.get(m)) is Some <==> m == "get"@ || m == "post"@
            &&& get.at("tags"@) == doc::one("auth"@)
            &&& get.get("security"@) == Some(doc::open_to_all())
            &&& forall|c: Seq<char>| #[trigger] answers(get, c) <==> c == "302"@ || c == "404"@
            &&& get.get("requestBody"@) is None
            &&& get.at("parameters"@) is Array && get.at("parameters"@)->Array_0.len() == 4
            &&& is_parameter(get.at("parameters"@)->Array_0[0], "provider"@, "path"@, true)
            &&& is_parameter(get.at("parameters"@)->Array_0[1], "code"@, "query"@, false)
            &&& is_parameter(get.at("parameters"@)->Array_0[2], "state"@, "query"@, false)
            &&& is_parameter(get.at("parameters"@)->Array_0[3], "error"@, "query"@, false)
            &&& post.at("tags"@) == doc::one("auth"@)
            &&& post.get("security"@) == Some(doc::open_to_all())
            &&& forall|c: Seq<char>| #[trigger] answers(post, c) <==> c == "302"@ || c == "404"@
            &&& post.at("requestBody"@).at("required"@) == JsonView::Bool(true)
            &&& forall|m: Seq<char>|
                #[trigger] takes(post, m) <==> m == "application/x-www-form-urlencoded"@
            &&& forall|k: Seq<char>|
                #[trigger] has_member(form(post, "application/x-www-form-urlencoded"@),
                    k) <==> k == "code"@ || k == "state"@ || k == "error"@
            &&& form(post, "application/x-www-form-urlencoded"@).get("required"@) is None
            &&& post.at("parameters"@) is Array && post.at("parameters"@)->Array_0.len() == 1
            &&& is_parameter(post.at("parameters"@)->Array_0[0], "provider"@, "path"@, true)
        }),
{
    broadcast use {got_of_with, stays_an_object};

    reveal(JsonView::and);
    member_names_differ();
}

/// `/logout`: called by `POST` it is for those who are signed in, and answers 200 or
/// 401.
pub proof fn logout_is_described()
    ensures
        ({
            let p = doc::path_logout();
            let post = p.at("post"@);
            &&& forall|m: Seq<char>| (#[trigger] p.get(m)) is Some <==> m == "post"@
            &&& post.at("tags"@) == doc::one("auth"@)
            &&& post.get("security"@) is None
            &&& forall|c: Seq<char>| #[trigger] answers(post, c) <==> c == "200"@ || c == "401"@
            &&& post.get("requestBody"@) is None
            &&& post.get("parameters"@) is None
        }),
{
    broadcast use {got_of_with, stays_an_object};

    reveal(JsonView::and);
    member_names_differ();
}

/// `/register`: called by `POST` it is open to everybody, and answers 200, 400 or 413.
pub proof fn register_is_described()
    ensures
        ({
            let p = doc::path_register();
            let post = p.at("post"@);
            &&& forall|m: Seq<char>| (#[trigger] p.get(m)) is Some <==> m == "post"@
            &&& post.at("tags"@) == doc::one("auth"@)
            &&& post.get("security"@) == Some(doc::open_to_all())
            &&& forall|c: Seq<char>|
                #[trigger] answers(post, c) <==> c == "200"@ || c == "400"@ || c == "413"@
            &&& post.at("requestBody"@).at("required"@) == JsonView::Bool(true)
            &&& forall|m: Seq<char>| #[trigger] takes(post, m) <==> m == "multipart/form-data"@
            &&& forall|k: Seq<char>|
                #[trigger] has_member(form(post, "multipart/form-data"@), k) <==> k == "login"@
                    || k == "email"@ || k == "dry"@
            &&& must_have(form(post, "multipart/form-data"@), seq!["login"@, "email"@])
            &&& post.get("parameters"@) is None
        }),
{
    broadcast use {got_of_with, stays_an_object};

    reveal(JsonView::and);
    member_names_differ();
}

/// `/gen_otp`: called by `POST` it is open to everybody, and answers 200, 400 or 413.
pub proof fn gen_otp_is_described()
    ensures
        ({
            let p = doc::path_gen_otp();
            let post = p.at("post"@);
            &&& forall|m: Seq<char>| (#[trigger] p.get(m)) is Some <==> m == "post"@
            &&& post.at("tags"@) == doc::one("auth"@)
            &&& post.get("security"@) == Some(doc::open_to_all())
            &&& forall|c: Seq<char>|
                #[trigger] answers(post, c) <==> c == "200"@ || c == "400"@ || c == "413"@
            &&& post.at("requestBody"@).at("required"@) == JsonView::Bool(true)
            &&& forall|m: Seq<char>| #[trigger] takes(post, m) <==> m == "multipart/form-data"@
            &&& forall|k: Seq<char>|
                #[trigger] has_member(form(post, "multipart/form-data"@),
                    k) <==> k == "username"@
            &&& must_have(form(post, "multipart/form-data"@), seq!["username"@])
            &&& post.get("parameters"@) is None
        }),
{
    broadcast use {got_of_with, stays_an_object};

    reveal(JsonView::and);
    member_names_differ();
}

/// `/itm/list`: called by `GET` it is for those who are signed in, and answers 200, 400
/// or 401.
pub proof fn itm_list_is_described(collections: Seq<Seq<char>>)
    ensures
        ({
            let p = doc::path_itm_list(collections);
            let get = p.at("get"@);
            &&& forall|m: Seq<char>| (#[trigger] p.get(m)) is Some <==> m == "get"@
            &&& get.at("tags"@) == doc::one("items"@)
            &&& get.get("security"@) is None
            &&& forall|c: Seq<char>|
                #[trigger] answers(get, c) <==> c == "200"@ || c == "400"@ || c == "401"@
            &&& get.get("requestBody"@) is None
            &&& get.at("parameters"@) is Array && get.at("parameters"@)->Array_0.len() == 10
            &&& is_parameter(get.at("parameters"@)->Array_0[0], "collection"@, "query"@, true)
            &&& is_parameter(get.at("parameters"@)->Array_0[1], "id"@, "query"@, false)
            &&& is_parameter(get.at("parameters"@)->Array_0[2], "id_min"@, "query"@, false)
            &&& is_parameter(get.at("parameters"@)->Array_0[3], "id_max"@, "query"@, false)
            &&& is_parameter(get.at("parameters"@)->Array_0[4], "id_list"@, "query"@, false)
            &&& is_parameter(get.at("parameters"@)->Array_0[5], "skip"@, "query"@, false)
            &&& is_parameter(get.at("parameters"@)->Array_0[6], "limit"@, "query"@, false)
            &&& is_parameter(get.at("parameters"@)->Array_0[7], "sort_key"@, "query"@, false)
            &&& is_parameter(get.at("parameters"@)->Array_0[8], "filter"@, "query"@, false)
            &&& is_parameter(get.at("parameters"@)->Array_0[9], "context"@, "query"@, false)
        }),
{
    broadcast use {got_of_with, stays_an_object};

    reveal(JsonView::and);
    member_names_differ();
}

/// `/itm/edit`: called by `POST` it is for those who are signed in, and answers 200,
/// 400, 401, 403, 413 or 500.
pub proof fn itm_edit_is_described(collections: Seq<Seq<char>>)
    ensures
        ({
            let p = doc::path_itm_edit(collections);
            let post = p.at("post"@);
            &&& forall|m: Seq<char>| (#[trigger] p.get(m)) is Some <==> m == "post"@
            &&& post.at("tags"@) == doc::one("items"@)
            &&& post.get("security"@) is None
            &&& forall|c: Seq<char>|
                #[trigger] answers(post, c) <==> c == "200"@ || c == "400"@ || c == "401"@
                    || c == "403"@ || c == "413"@ || c == "500"@
            &&& post.at("requestBody"@).at("required"@) == JsonView::Bool(false)
            &&& forall|m: Seq<char>| #[trigger] takes(post, m) <==> m == "multipart/form-data"@
            &&& forall|k: Seq<char>|
                #[trigger] has_member(form(post, "multipart/form-data"@), k) <==> k == "item"@
            &&& form(post, "multipart/form-data"@).get("required"@) is None
            &&& post.at("parameters"@) is Array && post.at("parameters"@)->Array_0.len() == 3
            &&& is_parameter(post.at("parameters"@)->Array_0[0], "collection"@, "query"@, true)
            &&& is_parameter(post.at("parameters"@)->Array_0[1], "merge"@, "query"@, false)
            &&& is_parameter(post.at("parameters"@)->Array_0[2], "id"@, "query"@, false)
        }),
{
    broadcast use {got_of_with, stays_an_object};

    reveal(JsonView::and);
    member_names_differ();
}

/// `/itm/del`: called by `POST` it is for those who are signed in, and answers 200,
/// 400, 401 or 403.
pub proof fn itm_del_is_described(collections: Seq<Seq<char>>)
    ensures
        ({
            let p = doc::path_itm_del(collections);
            let post = p.at("post"@);
            &&& forall|m: Seq<char>| (#[trigger] p.get(m)) is Some <==> m == "post"@
            &&& post.at("tags"@) == doc::one("items"@)
            &&& post.get("security"@) is None
            &&& forall|c: Seq<char>|
                #[trigger] answers(post, c) <==> c == "200"@ || c == "400"@ || c == "401"@
                    || c == "403"@
            &&& post.get("requestBody"@) is None
            &&& post.at("parameters"@) is Array && post.at("parameters"@)->Array_0.len() == 3
            &&& is_parameter(post.at("parameters"@)->Array_0[0], "collection"@, "query"@, true)
            &&& is_parameter(post.at("parameters"@)->Array_0[1], "merge"@, "query"@, false)
            &&& is_parameter(post.at("parameters"@)->Array_0[2], "id"@, "query"@, true)
        }),
{
    broadcast use {got_of_with, stays_an_object};

    reveal(JsonView::and);
    member_names_differ();
}

/// `/setting/list`: called by `GET` it is for those who are signed in, and answers 200,
/// 401 or 403.
pub proof fn setting_list_is_described()
    ensures
        ({
            let p = doc::path_setting_list();
            let get = p.at("get"@);
            &&& forall|m: Seq<char>| (#[trigger] p.get(m)) is Some <==> m == "get"@
            &&& get.at("tags"@) == doc::one("settings"@)
            &&& get.get("security"@) is None
            &&& forall|c: Seq<char>|
                #[trigger] answers(get, c) <==> c == "200"@ || c == "401"@ || c == "403"@
            &&& get.get("requestBody"@) is None
            &&& get.get("parameters"@) is None
        }),
{
    broadcast use {got_of_with, stays_an_object};

    reveal(JsonView::and);
    member_names_differ();
}

/// `/setting/edit`: called by `POST` it is for those who are signed in, and answers
/// 200, 400, 401, 403, 413 or 500.
pub proof fn setting_edit_is_described()
    ensures
        ({
            let p = doc::path_setting_edit();
            let post = p.at("post"@);
            &&& forall|m: Seq<char>| (#[trigger] p.get(m)) is Some <==> m == "post"@
            &&& post.at("tags"@) == doc::one("settings"@)
            &&& post.get("security"@) is None
            &&& forall|c: Seq<char>|
                #[trigger] answers(post, c) <==> c == "200"@ || c == "400"@ || c == "401"@
                    || c == "403"@ || c == "413"@ || c == "500"@
            &&& post.at("requestBody"@).at("required"@) == JsonView::Bool(false)
            &&& forall|m: Seq<char>| #[trigger] takes(post, m) <==> m == "multipart/form-data"@
            &&& forall|k: Seq<char>|
                #[trigger] has_member(form(post, "multipart/form-data"@), k) <==> k == "item"@
            &&& form(post, "multipart/form-data"@).get("required"@) is None
            &&& post.get("parameters"@) is None
        }),
{
    broadcast use {got_of_with, stays_an_object};

    reveal(JsonView::and);
    member_names_differ();
}

/// `/setting/gcal_auth`: called by `POST` it is for those who are signed in, and
/// answers 200, 401 or 403.
pub proof fn setting_gcal_auth_is_described()
    ensures
        ({
            let p = doc::path_setting_gcal_auth();
            let post = p.at("post"@);
            &&& forall|m: Seq<char>| (#[trigger] p.get(m)) is Some <==> m == "post"@
            &&& post.at("tags"@) == doc::one("settings"@)
            &&& post.get("security"@) is None
            &&& forall|c: Seq<char>|
                #[trigger] answers(post, c) <==> c == "200"@ || c == "401"@ || c == "403"@
            &&& post.get("requestBody"@) is None
            &&& post.get("parameters"@) is None
        }),
{
    broadcast use {got_of_with, stays_an_object};

    reveal(JsonView::and);
    member_names_differ();
}

/// `/setting/gcal_auth_end`: called by `POST` it is for those who are signed in, and
/// answers 200, 400, 401 or 403.
pub proof fn setting_gcal_auth_end_is_described()
    ensures
        ({
            let p = doc::path_setting_gcal_auth_end();
            let post = p.at("post"@);
            &&& forall|m: Seq<char>| (#[trigger] p.get(m)) is Some <==> m == "post"@
            &&& post.at("tags"@) == doc::one("settings"@)
            &&& post.get("security"@) is None
            &&& forall|c: Seq<char>|
                #[trigger] answers(post, c) <==> c == "200"@ || c == "400"@ || c == "401"@
                    || c == "403"@
            &&& post.get("requestBody"@) is None
            &&& post.at("parameters"@) is Array && post.at("parameters"@)->Array_0.len() == 3
            &&& is_parameter(post.at("parameters"@)->Array_0[0], "state"@, "query"@, true)
            &&& is_parameter(post.at("parameters"@)->Array_0[1], "code"@, "query"@, true)
            &&& is_parameter(post.at("parameters"@)->Array_0[2], "scope"@, "query"@, true)
        }),
{
    broadcast use {got_of_with, stays_an_object};

    reveal(JsonView::and);
    member_names_differ();
}

/// `/system/update`: called by `POST` it is for those who are signed in, and answers
/// 200, 401 or 403.
pub proof fn system_update_is_described()
    ensures
        ({
            let p = doc::path_system_update();
            let post = p.at("post"@);
            &&& forall|m: Seq<char>| (#[trigger] p.get(m)) is Some <==> m == "post"@
            &&& post.at("tags"@) == doc::one("system"@)
            &&& post.get("security"@) is None
            &&& forall|c: Seq<char>|
                #[trigger] answers(post, c) <==> c == "200"@ || c == "401"@ || c == "403"@
            &&& post.get("requestBody"@) is None
            &&& post.get("parameters"@) is None
        }),
{
    broadcast use {got_of_with, stays_an_object};

    reveal(JsonView::and);
    member_names_differ();
}

/// `/secret/list`: called by `GET` it is for those who are signed in, and answers 200,
/// 401 or 403.
pub proof fn secret_list_is_described()
    ensures
        ({
            let p = doc::path_secret_list();
            let get = p.at("get"@);
            &&& forall|m: Seq<char>| (#[trigger] p.get(m)) is Some <==> m == "get"@
            &&& get.at("tags"@) == doc::one("secrets"@)
            &&& get.get("security"@) is None
            &&& forall|c: Seq<char>|
                #[trigger] answers(get, c) <==> c == "200"@ || c == "401"@ || c == "403"@
            &&& get.get("requestBody"@) is None
            &&& get.get("parameters"@) is None
        }),
{
    broadcast use {got_of_with, stays_an_object};

    reveal(JsonView::and);
    member_names_differ();
}

/// `/secret/get`: called by `POST` it is for those who are signed in, and answers 200,
/// 401, 403 or 404.
pub proof fn secret_get_is_described()
    ensures
        ({
            let p = doc::path_secret_get();
            let post = p.at("post"@);
            &&& forall|m: Seq<char>| (#[trigger] p.get(m)) is Some <==> m == "post"@
            &&& post.at("tags"@) == doc::one("secrets"@)
            &&& post.get("security"@) is None
            &&& forall|c: Seq<char>|
                #[trigger] answers(post, c) <==> c == "200"@ || c == "401"@ || c == "403"@
                    || c == "404"@
            &&& post.at("requestBody"@).at("required"@) == JsonView::Bool(true)
            &&& forall|m: Seq<char>| #[trigger] takes(post, m) <==> m == "application/json"@
            &&& forall|k: Seq<char>|
                #[trigger] has_member(form(post, "application/json"@), k) <==> k == "id"@
            &&& must_have(form(post, "application/json"@), seq!["id"@])
            &&& post.get("parameters"@) is None
        }),
{
    broadcast use {got_of_with, stays_an_object};

    reveal(JsonView::and);
    member_names_differ();
}

/// `/secret/edit`: called by `POST` it is for those who are signed in, and answers 200,
/// 400, 401, 403 or 413.
pub proof fn secret_edit_is_described()
    ensures
        ({
            let p = doc::path_secret_edit();
            let post = p.at("post"@);
            &&& forall|m: Seq<char>| (#[trigger] p.get(m)) is Some <==> m == "post"@
            &&& post.at("tags"@) == doc::one("secrets"@)
            &&& post.get("security"@) is None
            &&& forall|c: Seq<char>|
                #[trigger] answers(post, c) <==> c == "200"@ || c == "400"@ || c == "401"@
                    || c == "403"@ || c == "413"@
            &&& post.at("requestBody"@).at("required"@) == JsonView::Bool(true)
            &&& forall|m: Seq<char>| #[trigger] takes(post, m) <==> m == "application/json"@
            &&& post.get("parameters"@) is None
        }),
{
    broadcast use {got_of_with, stays_an_object};

    reveal(JsonView::and);
    member_names_differ();
}

/// `/secret/del`: called by `POST` it is for those who are signed in, and answers 200,
/// 401, 403 or 404.
pub proof fn secret_del_is_described()
    ensures
        ({
            let p = doc::path_secret_del();
            let post = p.at("post"@);
            &&& forall|m: Seq<char>| (#[trigger] p.get(m)) is Some <==> m == "post"@
            &&& post.at("tags"@) == doc::one("secrets"@)
            &&& post.get("security"@) is None
            &&& forall|c: Seq<char>|
                #[trigger] answers(post, c) <==> c == "200"@ || c == "401"@ || c == "403"@
                    || c == "404"@
            &&& post.at("requestBody"@).at("required"@) == JsonView::Bool(true)
            &&& forall|m: Seq<char>| #[trigger] takes(post, m) <==> m == "application/json"@
            &&& forall|k: Seq<char>|
                #[trigger] has_member(form(post, "application/json"@), k) <==> k == "id"@
            &&& must_have(form(post, "application/json"@), seq!["id"@])
            &&& post.get("parameters"@) is None
        }),
{
    broadcast use {got_of_with, stays_an_object};

    reveal(JsonView::and);
    member_names_differ();
}

/// The types that the endpoints exchange have these members, and these of them always.
pub proof fn types_are_described()
    ensures
        doc::schema_item().at("type"@) == JsonView::Text("object"@),
        forall|k: Seq<char>|
            #[trigger] has_member(doc::schema_item(), k) <==> k == "id"@ || k == "strs"@
                || k == "strstrs"@ || k == "strids"@ || k == "bools"@ || k == "u64s"@ || k == "ids"@
                || k == "root_node"@,
        doc::schema_item().get("required"@) is None,
        doc::schema_item_data_node().at("type"@) == JsonView::Text("object"@),
        forall|k: Seq<char>|
            #[trigger] has_member(doc::schema_item_data_node(), k) <==> k == "value"@
                || k == "value_type"@ || k == "writable"@ || k == "action"@ || k == "subnodes"@,
        doc::schema_item_data_node().get("required"@) is None,
        doc::schema_list_result().at("type"@) == JsonView::Text("object"@),
        forall|k: Seq<char>|
            #[trigger] has_member(doc::schema_list_result(), k) <==> k == "map"@
                || k == "total_count"@,
        must_have(doc::schema_list_result(), seq!["map"@, "total_count"@]),
        doc::schema_process_result().at("type"@) == JsonView::Text("object"@),
        forall|k: Seq<char>|
            #[trigger] has_member(doc::schema_process_result(), k) <==> k == "succeeded"@
                || k == "error"@ || k == "data"@,
        must_have(doc::schema_process_result(), seq!["succeeded"@, "error"@, "data"@]),
        doc::schema_detailed_login_user().at("type"@) == JsonView::Text("object"@),
        forall|k: Seq<char>|
            #[trigger] has_member(doc::schema_detailed_login_user(), k) <==> k == "username"@
                || k == "id"@ || k == "role"@ || k == "site_name"@ || k == "site_logo"@
                || k == "licensed_to"@ || k == "params"@,
        must_have(doc::schema_detailed_login_user(), seq!["username"@, "id"@, "role"@,
                "site_name"@, "site_logo"@, "licensed_to"@, "params"@]),
        doc::schema_secret_ref().at("type"@) == JsonView::Text("object"@),
        forall|k: Seq<char>|
            #[trigger] has_member(doc::schema_secret_ref(), k) <==> k == "id"@ || k == "name"@,
        must_have(doc::schema_secret_ref(), seq!["id"@, "name"@]),
{
    broadcast use {got_of_with, stays_an_object};

    reveal(JsonView::and);
    member_names_differ();
}

/// The document describes these endpoints of the core, and no others.
pub proof fn which_endpoints_are_described(collections: Seq<Seq<char>>, admin_only: bool)
    ensures
        forall|p: Seq<char>|
            (#[trigger] doc::core_paths(collections,
                admin_only).get(p)) is Some <==> p == "/is_logged_in"@ || p == "/login"@
                || p == "/auth/providers"@ || p == "/auth/config"@ || p == "/auth/config/forget"@
                || p == "/auth/{provider}/start"@ || p == "/auth/{provider}/callback"@
                || p == "/logout"@ || p == "/register"@ || p == "/gen_otp"@ || p == "/itm/list"@
                || p == "/itm/edit"@ || p == "/itm/del"@ || p == "/setting/list"@
                || p == "/setting/edit"@ || p == "/setting/gcal_auth"@
                || p == "/setting/gcal_auth_end"@ || p == "/system/update"@ || p == "/secret/list"@
                || p == "/secret/get"@ || p == "/secret/edit"@ || p == "/secret/del"@
                || p == "/openapi.json"@ || p == "/docs"@,
{
    broadcast use {got_of_with, stays_an_object};
}

/// The description itself is for everybody where it is open, and says so; where it is
/// private, it is for administrators, and whoever is not one is answered 401 or 403.
pub proof fn the_description_is_described(admin_only: bool)
    ensures
        ({
            let p = doc::path_openapi(admin_only);
            &&& forall|m: Seq<char>| (#[trigger] p.get(m)) is Some <==> m == "get"@
            &&& p.at("get"@).get("security"@) == (if admin_only {
                None
            } else {
                Some(doc::session_optional())
            })
            &&& forall|c: Seq<char>| #[trigger] answers(p.at("get"@), c) <==> c == "200"@ || (
                admin_only && (c == "401"@ || c == "403"@))
        }),
        ({
            let p = doc::path_docs(admin_only);
            &&& forall|m: Seq<char>| (#[trigger] p.get(m)) is Some <==> m == "get"@
            &&& p.at("get"@).get("security"@) == (if admin_only {
                None
            } else {
                Some(doc::session_optional())
            })
            &&& forall|c: Seq<char>| #[trigger] answers(p.at("get"@), c) <==> c == "200"@ || (
                admin_only && (c == "401"@ || c == "403"@))
            &&& p.at("get"@).at("responses"@).at("200"@).at("content"@).get("text/html"@) is Some
        }),
{
    broadcast use {got_of_with, stays_an_object};

    member_names_differ();
    reveal_strlit("200");
    reveal_strlit("401");
    reveal_strlit("403");
    assert("200"@[0] != "401"@[0] && "200"@[0] != "403"@[0]);
}

/// Nothing is required of those to whom an endpoint is open; a session is one way in
/// where it is optional, and it is the only way in where nothing else is said.
pub proof fn what_is_required_of_callers()
    ensures
        doc::open_to_all() == JsonView::Array(seq![JsonView::object()]),
        doc::session_optional() == JsonView::Array(
            seq![JsonView::object(), doc::session_required()],
        ),
        forall|k: Seq<char>|
            (#[trigger] doc::session_required().get(k)) is Some <==> k == "sessionCookie"@,
{
    broadcast use {got_of_with, stays_an_object};

    reveal(JsonView::and);
    assert(doc::open_to_all()->Array_0 =~= seq![JsonView::object()]);
    assert(doc::session_optional()->Array_0 =~= seq![JsonView::object(), doc::session_required()]);
}

} // verus!
