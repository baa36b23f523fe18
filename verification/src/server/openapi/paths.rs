//! Building the description of the API: the parts, and core's own endpoints.
use crate::json;
use crate::json::{Json, JsonView};
use crate::server::openapi::doc;
use crate::server::openapi::{DOCS_PATH, OPENAPI_PATH, UNSET};
use crate::text;
use crate::text::{cat, cat3, owned, sort_names};
use vstd::prelude::*;

verus! {

pub(crate) fn truth(b: bool) -> (r: Json)
    ensures
        r@ == doc::truth(b),
{
    Json::Bool(b)
}

pub(crate) fn number(digits: &str) -> (r: Json)
    ensures
        r@ == doc::number(digits@),
{
    Json::Number(owned(digits))
}

pub(crate) fn one(s: &str) -> (r: Json)
    ensures
        r@ == doc::one(s@),
{
    Json::array().and_text(s)
}

pub(crate) fn typed(t: &str) -> (r: Json)
    ensures
        r@ == doc::typed(t@),
{
    Json::object().with_text("type", t)
}

pub(crate) fn typed_as(t: &str, description: &str) -> (r: Json)
    ensures
        r@ == doc::typed_as(t@, description@),
{
    typed(t).with_text("description", description)
}

pub(crate) fn schema_ref(name: &str) -> (r: Json)
    ensures
        r@ == doc::schema_ref(name@),
{
    Json::object().with_text("$ref", cat("#/components/schemas/", name).as_str())
}

pub(crate) fn u64_schema() -> (r: Json)
    ensures
        r@ == doc::u64_schema(),
{
    typed("integer").with_text("format", "int64").with("minimum", number("0"))
}

pub(crate) fn str_map() -> (r: Json)
    ensures
        r@ == doc::str_map(),
{
    typed("object").with("additionalProperties", typed("string"))
}

fn query_param(name: &str, schema: Json, description: &str) -> (r: Json)
    ensures
        r@ == doc::query_param(name@, schema@, description@),
{
    Json::object()
        .with_text("name", name)
        .with_text("in", "query")
        .with("required", truth(false))
        .with("schema", schema)
        .with_text("description", description)
}

fn content(mime: &str, schema: Json) -> (r: Json)
    ensures
        r@ == doc::content(mime@, schema@),
{
    Json::object().with(mime, Json::object().with("schema", schema))
}

fn returned(description: &str, mime: &str, schema: Json) -> (r: Json)
    ensures
        r@ == doc::returned(description@, mime@, schema@),
{
    Json::object().with_text("description", description).with("content", content(mime, schema))
}

fn json_response(description: &str, schema: Json) -> (r: Json)
    ensures
        r@ == doc::json_response(description@, schema@),
{
    returned(description, "application/json", schema)
}

pub(crate) fn empty_response(description: &str) -> (r: Json)
    ensures
        r@ == doc::empty_response(description@),
{
    Json::object().with_text("description", description)
}

pub(crate) fn body(required: bool, mime: &str, schema: Json) -> (r: Json)
    ensures
        r@ == doc::body(required, mime@, schema@),
{
    Json::object().with("required", truth(required)).with("content", content(mime, schema))
}

pub(crate) fn session_required() -> (r: Json)
    ensures
        r@ == doc::session_required(),
{
    Json::object().with("sessionCookie", Json::array())
}

fn open_to_all() -> (r: Json)
    ensures
        r@ == doc::open_to_all(),
{
    Json::array().and(Json::object())
}

pub(crate) fn session_optional() -> (r: Json)
    ensures
        r@ == doc::session_optional(),
{
    open_to_all().and(session_required())
}

fn process_result_200() -> (r: Json)
    ensures
        r@ == doc::process_result_200(),
{
    json_response(
        "Outcome envelope. Note that a *refused* operation is also a 200 with \
         `succeeded: false` — the status alone is not the answer.",
        schema_ref("ProcessResult"),
    )
}

fn texts(names: &Vec<String>) -> (r: Json)
    ensures
        r@ == json::text_array(text::views(names@)),
{
    let mut out = Json::array();
    let mut i: usize = 0;
    proof {
        reveal(JsonView::and);
        assert(text::views(names@).take(0) =~= Seq::<Seq<char>>::empty());
        assert(JsonView::array()->Array_0 =~= json::text_array(
            text::views(names@).take(0),
        )->Array_0);
    }
    while i < names.len()
        invariant
            i <= names.len(),
            out@ == json::text_array(text::views(names@).take(i as int)),
        decreases names.len() - i,
    {
        out = out.and_text(names[i].as_str());
        proof {
            reveal(JsonView::and);
            let all = text::views(names@);
            assert(all.take(i + 1) =~= all.take(i as int).push(all[i as int]));
            assert(json::text_array(all.take(i + 1))->Array_0 =~= json::text_array(
                all.take(i as int),
            ).and(JsonView::Text(all[i as int]))->Array_0);
        }
        i = i + 1;
    }
    proof {
        assert(text::views(names@).take(names@.len() as int) =~= text::views(names@));
    }
    out
}

fn collection_schema(collections: &[String]) -> (r: Json)
    ensures
        r@ == doc::collection_schema(text::views(collections@)),
{
    if collections.len() == 0 {
        return typed("string");
    }
    let mut names: Vec<String> = Vec::new();
    let mut i: usize = 0;
    while i < collections.len()
        invariant
            i <= collections.len(),
            text::views(names@) == text::views(collections@).take(i as int),
        decreases collections.len() - i,
    {
        let ghost had = text::views(names@);
        names.push(collections[i].clone());
        proof {
            assert(text::views(names@) =~= had.push(collections@[i as int]@));
            assert(text::views(collections@).take(i + 1) =~= had.push(collections@[i as int]@));
        }
        i = i + 1;
    }
    proof {
        assert(text::views(names@) =~= text::views(collections@));
    }
    typed("string").with("enum", texts(&sort_names(&names)))
}

fn collection_param(collections: &[String]) -> (r: Json)
    ensures
        r@ == doc::collection_param(text::views(collections@)),
{
    Json::object()
        .with_text("name", "collection")
        .with_text("in", "query")
        .with("required", truth(true))
        .with("schema", collection_schema(collections))
        .with_text("description", "Collection to act on. An unknown name is answered 400.")
}

fn merge_param() -> (r: Json)
    ensures
        r@ == doc::merge_param(),
{
    query_param(
        "merge",
        typed("boolean").with("default", truth(false)),
        "Merge into the stored item instead of replacing it.",
    )
}

fn secret_id_body() -> (r: Json)
    ensures
        r@ == doc::secret_id_body(),
{
    body(
        true,
        "application/json",
        typed("object").with("required", one("id")).with(
            "properties",
            Json::object().with("id", u64_schema()),
        ),
    )
}

fn path_is_logged_in() -> (r: Json)
    ensures
        r@ == doc::path_is_logged_in(),
{
    Json::object()
        .with(
            "get",
            Json::object()
                .with("tags", one("auth"))
                .with_text(
                    "summary",
                    "Current session, plus the branding an unauthenticated UI still needs",
                )
                .with_text(
                    "description",
                    "Never fails: without a session it answers the same document with an empty \
                     `username`, `id` 0 and no roles, so a login screen can render from it.",
                )
                .with("security", session_optional())
                .with(
                    "responses",
                    Json::object()
                        .with(
                            "200",
                            json_response(
                                "The caller, as far as the server knows it.",
                                schema_ref("DetailedLoginUser"),
                            ),
                        ),
                ),
        )
}

fn path_login() -> (r: Json)
    ensures
        r@ == doc::path_login(),
{
    Json::object()
        .with(
            "post",
            Json::object()
                .with("tags", one("auth"))
                .with_text("summary", "Exchange credentials for a session cookie")
                .with_text(
                    "description",
                    "`password` accepts either the account password or a live one-time code \
                     from `/gen_otp`; a successful login burns the code. Failure is reported as \
                     200 with `succeeded: false` and a deliberately unspecific error.",
                )
                .with("security", open_to_all())
                .with(
                    "requestBody",
                    body(
                        true,
                        "multipart/form-data",
                        Json::object()
                            .with_text("type", "object")
                            .with(
                                "required",
                                Json::array()
                                    .and_text("username")
                                    .and_text("password"),
                            )
                            .with(
                                "properties",
                                Json::object()
                                    .with("username", typed_as("string", "Login or email."))
                                    .with("password", typed("string")),
                            ),
                    ),
                )
                .with(
                    "responses",
                    Json::object()
                        .with("200", process_result_200())
                        .with(
                            "400",
                            json_response(
                                "Body malformed, or not read within the deadline.",
                                schema_ref("ProcessResult"),
                            ),
                        )
                        .with(
                            "413",
                            json_response(
                                "Body over `--max-payload`.",
                                schema_ref("ProcessResult"),
                            ),
                        )
                        .with(
                            "500",
                            json_response(
                                "The session could not be established.",
                                schema_ref("ProcessResult"),
                            ),
                        ),
                ),
        )
}

fn path_auth_providers() -> (r: Json)
    ensures
        r@ == doc::path_auth_providers(),
{
    Json::object()
        .with(
            "get",
            Json::object()
                .with("tags", one("auth"))
                .with_text("summary", "Which identity providers are configured")
                .with_text(
                    "description",
                    "Read by a login screen, so it answers without a session. A provider is \
                     listed when its entry exists in the secret store and carries everything \
                     that provider needs; nothing about the credentials themselves is returned.",
                )
                .with("security", open_to_all())
                .with(
                    "responses",
                    Json::object()
                        .with(
                            "200",
                            json_response(
                                "The configured providers.",
                                Json::object()
                                    .with_text("type", "object")
                                    .with(
                                        "properties",
                                        Json::object()
                                            .with(
                                                "providers",
                                                Json::object()
                                                    .with_text("type", "array")
                                                    .with(
                                                        "items",
                                                        Json::object()
                                                            .with_text("type", "object")
                                                            .with(
                                                                "properties",
                                                                Json::object()
                                                                    .with(
                                                                        "id",
                                                                        Json::object()
                                                                            .with_text(
                                                                                "type",
                                                                                "string",
                                                                            )
                                                                            .with_text(
                                                                                "example",
                                                                                "google",
                                                                            ),
                                                                    )
                                                                    .with(
                                                                        "name",
                                                                        Json::object()
                                                                            .with_text(
                                                                                "type",
                                                                                "string",
                                                                            )
                                                                            .with_text(
                                                                                "example",
                                                                                "Google",
                                                                            ),
                                                                    ),
                                                            ),
                                                    ),
                                            ),
                                    ),
                            ),
                        ),
                ),
        )
}

fn path_auth_config() -> (r: Json)
    ensures
        r@ == doc::path_auth_config(),
{
    Json::object()
        .with(
            "get",
            Json::object()
                .with("tags", one("auth"))
                .with_text("summary", "How the identity providers are configured")
                .with_text(
                    "description",
                    "Administrators only. Returns each provider's public settings — the client \
                     id, the redirect URI in use and the one that would be used by default — \
                     plus `has_secret`, which says whether a client secret or signing key is \
                     stored. The secret itself is never returned, by this or any other \
                     endpoint. `problem` carries whatever stops the provider being usable, so a \
                     half-finished configuration says what is missing.",
                )
                .with(
                    "responses",
                    Json::object()
                        .with("200", json_response("The configuration.", typed("object")))
                        .with("401", empty_response("No session."))
                        .with("403", empty_response("Not an administrator.")),
                ),
        )
        .with(
            "post",
            Json::object()
                .with("tags", one("auth"))
                .with_text("summary", "Configure a provider")
                .with_text(
                    "description",
                    "Administrators only. Every field is optional and an absent one is left \
                     alone. `client_secret` and `private_key` cannot be read back, so an empty \
                     string means unchanged rather than deleted — use `/auth/config/forget` to \
                     remove a provider. The result is checked before it is stored, so an \
                     unreadable Apple key is refused here rather than at a token endpoint weeks \
                     later.",
                )
                .with(
                    "requestBody",
                    body(
                        true,
                        "application/json",
                        Json::object()
                            .with_text("type", "object")
                            .with("required", one("provider"))
                            .with(
                                "properties",
                                Json::object()
                                    .with(
                                        "provider",
                                        Json::object()
                                            .with_text("type", "string")
                                            .with(
                                                "enum",
                                                Json::array()
                                                    .and_text("google")
                                                    .and_text("apple"),
                                            ),
                                    )
                                    .with("client_id", typed("string"))
                                    .with(
                                        "client_secret",
                                        typed_as("string", "Google. Blank leaves it unchanged."),
                                    )
                                    .with("team_id", typed_as("string", "Apple."))
                                    .with("key_id", typed_as("string", "Apple."))
                                    .with(
                                        "private_key",
                                        typed_as(
                                            "string",
                                            "Apple, the `.p8` in full. Blank leaves it \
                                             unchanged.",
                                        ),
                                    )
                                    .with(
                                        "redirect_uri",
                                        typed_as(
                                            "string",
                                            "Blank falls back to the deployment default.",
                                        ),
                                    ),
                            ),
                    ),
                )
                .with(
                    "responses",
                    Json::object()
                        .with("200", process_result_200())
                        .with(
                            "400",
                            empty_response("Body malformed, or not read within the deadline."),
                        )
                        .with("401", empty_response("No session."))
                        .with("403", empty_response("Not an administrator.")),
                ),
        )
}

fn path_auth_config_forget() -> (r: Json)
    ensures
        r@ == doc::path_auth_config_forget(),
{
    Json::object()
        .with(
            "post",
            Json::object()
                .with("tags", one("auth"))
                .with_text("summary", "Remove a provider's configuration")
                .with_text(
                    "description",
                    "Administrators only. This is also how a provider is switched off: one \
                     exists for a deployment exactly when its configuration does. Forgetting \
                     one that was never configured succeeds.",
                )
                .with(
                    "requestBody",
                    body(
                        true,
                        "application/json",
                        Json::object()
                            .with_text("type", "object")
                            .with("required", one("provider"))
                            .with(
                                "properties",
                                Json::object()
                                    .with(
                                        "provider",
                                        Json::object()
                                            .with_text("type", "string")
                                            .with(
                                                "enum",
                                                Json::array()
                                                    .and_text("google")
                                                    .and_text("apple"),
                                            ),
                                    ),
                            ),
                    ),
                )
                .with(
                    "responses",
                    Json::object()
                        .with("200", process_result_200())
                        .with("401", empty_response("No session."))
                        .with("403", empty_response("Not an administrator.")),
                ),
        )
}

fn path_auth_provider_start() -> (r: Json)
    ensures
        r@ == doc::path_auth_provider_start(),
{
    Json::object()
        .with(
            "get",
            Json::object()
                .with("tags", one("auth"))
                .with_text("summary", "Begin signing in with an identity provider")
                .with_text(
                    "description",
                    "A browser navigation, not a fetch: it answers 302 to the provider's \
                     consent screen and sets a short-lived cookie that ties the callback to \
                     this browser. `next` is where the browser is sent afterwards and is \
                     reduced to a path on this site.",
                )
                .with("security", open_to_all())
                .with(
                    "parameters",
                    Json::array()
                        .and(
                            Json::object()
                                .with_text("name", "provider")
                                .with_text("in", "path")
                                .with("required", truth(true))
                                .with(
                                    "schema",
                                    Json::object()
                                        .with_text("type", "string")
                                        .with(
                                            "enum",
                                            Json::array()
                                                .and_text("google")
                                                .and_text("apple"),
                                        ),
                                ),
                        )
                        .and(
                            Json::object()
                                .with_text("name", "next")
                                .with_text("in", "query")
                                .with("required", truth(false))
                                .with(
                                    "schema",
                                    Json::object()
                                        .with_text("type", "string")
                                        .with_text("example", "/"),
                                ),
                        ),
                )
                .with(
                    "responses",
                    Json::object()
                        .with(
                            "302",
                            empty_response(
                                "To the provider, or back to `next` with `auth_error` when the \
                                 provider is not configured.",
                            ),
                        )
                        .with("404", empty_response("No such provider.")),
                ),
        )
}

fn path_auth_provider_callback() -> (r: Json)
    ensures
        r@ == doc::path_auth_provider_callback(),
{
    Json::object()
        .with(
            "get",
            Json::object()
                .with("tags", one("auth"))
                .with_text("summary", "Finish signing in (redirect callback)")
                .with_text(
                    "description",
                    "Where the provider returns the browser. On success a session cookie is \
                     issued and the browser is sent to the `next` recorded at the start; \
                     otherwise it goes to the same place with `auth_error` set to one of \
                     `denied`, `unverified`, `registration_closed`, `inactive`, `mismatched` or \
                     `failed`. The detail behind a refusal is logged, not put in the URL.",
                )
                .with("security", open_to_all())
                .with(
                    "parameters",
                    Json::array()
                        .and(
                            Json::object()
                                .with_text("name", "provider")
                                .with_text("in", "path")
                                .with("required", truth(true))
                                .with(
                                    "schema",
                                    Json::object()
                                        .with_text("type", "string")
                                        .with(
                                            "enum",
                                            Json::array()
                                                .and_text("google")
                                                .and_text("apple"),
                                        ),
                                ),
                        )
                        .and(
                            Json::object()
                                .with_text("name", "code")
                                .with_text("in", "query")
                                .with("required", truth(false))
                                .with("schema", typed("string")),
                        )
                        .and(
                            Json::object()
                                .with_text("name", "state")
                                .with_text("in", "query")
                                .with("required", truth(false))
                                .with("schema", typed("string")),
                        )
                        .and(
                            Json::object()
                                .with_text("name", "error")
                                .with_text("in", "query")
                                .with("required", truth(false))
                                .with("schema", typed("string")),
                        ),
                )
                .with(
                    "responses",
                    Json::object()
                        .with("302", empty_response("Signed in, or refused with `auth_error`."))
                        .with("404", empty_response("No such provider.")),
                ),
        )
        .with(
            "post",
            Json::object()
                .with("tags", one("auth"))
                .with_text("summary", "Finish signing in (form_post callback)")
                .with_text(
                    "description",
                    "The same exchange for providers that answer by POSTing the form back. \
                     Apple requires this whenever a scope is requested, and the address is a \
                     scope.",
                )
                .with("security", open_to_all())
                .with(
                    "parameters",
                    Json::array()
                        .and(
                            Json::object()
                                .with_text("name", "provider")
                                .with_text("in", "path")
                                .with("required", truth(true))
                                .with(
                                    "schema",
                                    Json::object()
                                        .with_text("type", "string")
                                        .with(
                                            "enum",
                                            Json::array()
                                                .and_text("google")
                                                .and_text("apple"),
                                        ),
                                ),
                        ),
                )
                .with(
                    "requestBody",
                    body(
                        true,
                        "application/x-www-form-urlencoded",
                        Json::object()
                            .with_text("type", "object")
                            .with(
                                "properties",
                                Json::object()
                                    .with("code", typed("string"))
                                    .with("state", typed("string"))
                                    .with("error", typed("string")),
                            ),
                    ),
                )
                .with(
                    "responses",
                    Json::object()
                        .with("302", empty_response("Signed in, or refused with `auth_error`."))
                        .with("404", empty_response("No such provider.")),
                ),
        )
}

fn path_logout() -> (r: Json)
    ensures
        r@ == doc::path_logout(),
{
    Json::object()
        .with(
            "post",
            Json::object()
                .with("tags", one("auth"))
                .with_text("summary", "End the session — on every device")
                .with_text(
                    "description",
                    "The session lives entirely in the cookie, so this also raises the \
                     account's session generation. That is what actually revokes copies of the \
                     cookie, and it is account-wide: other devices are signed out too.",
                )
                .with(
                    "responses",
                    Json::object()
                        .with("200", empty_response("Signed out."))
                        .with("401", empty_response("No session to end.")),
                ),
        )
}

fn path_register() -> (r: Json)
    ensures
        r@ == doc::path_register(),
{
    Json::object()
        .with(
            "post",
            Json::object()
                .with("tags", one("auth"))
                .with_text("summary", "Self-registration")
                .with_text(
                    "description",
                    "Refused with `succeeded: false` when self-registration is disabled in \
                     `internals.js`, when the login or the email is taken, or when either \
                     contains characters the user lookup cannot handle. The account is created \
                     inactive.",
                )
                .with("security", open_to_all())
                .with(
                    "requestBody",
                    body(
                        true,
                        "multipart/form-data",
                        Json::object()
                            .with_text("type", "object")
                            .with(
                                "required",
                                Json::array()
                                    .and_text("login")
                                    .and_text("email"),
                            )
                            .with(
                                "properties",
                                Json::object()
                                    .with("login", typed("string"))
                                    .with("email", typed("string"))
                                    .with(
                                        "dry",
                                        Json::object()
                                            .with_text("type", "string")
                                            .with(
                                                "enum",
                                                Json::array()
                                                    .and_text("true")
                                                    .and_text("false"),
                                            )
                                            .with_text(
                                                "description",
                                                "`\"true\"` checks availability without \
                                                 writing.",
                                            ),
                                    ),
                            ),
                    ),
                )
                .with(
                    "responses",
                    Json::object()
                        .with("200", process_result_200())
                        .with(
                            "400",
                            json_response(
                                "Body malformed, or not read within the deadline.",
                                schema_ref("ProcessResult"),
                            ),
                        )
                        .with(
                            "413",
                            json_response(
                                "Body over `--max-payload`.",
                                schema_ref("ProcessResult"),
                            ),
                        ),
                ),
        )
}

fn path_gen_otp() -> (r: Json)
    ensures
        r@ == doc::path_gen_otp(),
{
    Json::object()
        .with(
            "post",
            Json::object()
                .with("tags", one("auth"))
                .with_text("summary", "Issue a one-time code to an account")
                .with_text(
                    "description",
                    "Always answers `succeeded: true`, whether or not the account exists, is \
                     active, or is being throttled — otherwise the endpoint enumerates logins. \
                     The code is delivered by the `otp_hook` plugin, never in this response.",
                )
                .with("security", open_to_all())
                .with(
                    "requestBody",
                    body(
                        true,
                        "multipart/form-data",
                        Json::object()
                            .with_text("type", "object")
                            .with("required", one("username"))
                            .with(
                                "properties",
                                Json::object()
                                    .with("username", typed_as("string", "Login or email.")),
                            ),
                    ),
                )
                .with(
                    "responses",
                    Json::object()
                        .with("200", process_result_200())
                        .with(
                            "400",
                            json_response(
                                "Body malformed, or not read within the deadline.",
                                schema_ref("ProcessResult"),
                            ),
                        )
                        .with(
                            "413",
                            json_response(
                                "Body over `--max-payload`.",
                                schema_ref("ProcessResult"),
                            ),
                        ),
                ),
        )
}

fn path_itm_list(collections: &[String]) -> (r: Json)
    ensures
        r@ == doc::path_itm_list(text::views(collections@)),
{
    Json::object()
        .with(
            "get",
            Json::object()
                .with("tags", one("items"))
                .with_text("summary", "Read items from a collection")
                .with_text(
                    "description",
                    "Three mutually exclusive selections, in the order they are tried: a \
                     single `id`; a range/filter query (`id_min`/`id_max`/`sort_key`/`filter`); \
                     or an explicit `id_list`. With none of them the result is \
                     empty.\n\n`filter` and `sort_key` are constrained to the fields the UI \
                     builds — both reach the database, and `total_count` is counted before any \
                     plugin filter redacts anything. In the `user` collection, credentials are \
                     stripped from every record except the caller's own, unless the caller is \
                     an admin.\n\n`limit: 0` is an empty page with a real `total_count`, which \
                     is how a paginated view asks for the count alone.",
                )
                .with(
                    "parameters",
                    Json::array()
                        .and(collection_param(collections))
                        .and(
                            query_param(
                                "id",
                                u64_schema(),
                                cat3("Single item; ", UNSET, ".").as_str(),
                            ),
                        )
                        .and(
                            query_param(
                                "id_min",
                                u64_schema(),
                                cat3("Range start, inclusive; ", UNSET, ".").as_str(),
                            ),
                        )
                        .and(
                            query_param(
                                "id_max",
                                u64_schema(),
                                cat3("Range end, inclusive; ", UNSET, ".").as_str(),
                            ),
                        )
                        .and(
                            query_param(
                                "id_list",
                                Json::object()
                                    .with_text("type", "array")
                                    .with("items", u64_schema()),
                                "Explicit ids, `serde_qs` style: `id_list[0]=1&id_list[1]=2`. \
                                 Ids that do not exist are skipped and not counted.",
                            ),
                        )
                        .and(query_param("skip", u64_schema(), "Items to skip. Unset means 0."))
                        .and(
                            query_param(
                                "limit",
                                u64_schema(),
                                "Page size. Unset means no limit.",
                            ),
                        )
                        .and(
                            query_param(
                                "sort_key",
                                typed("string"),
                                "Field to sort by, ascending, with `id` as the tiebreak. \
                                 Rejected with 400 if not an allowed field.",
                            ),
                        )
                        .and(
                            query_param(
                                "filter",
                                typed("string"),
                                "MongoDB query document as JSON. Validated against the same \
                                 field allowlist as `sort_key`; plugin-supplied filters are \
                                 ANDed with it.",
                            ),
                        )
                        .and(
                            query_param(
                                "context",
                                typed("string"),
                                "Passed to the plugin list filters. Defaults to `full` for a \
                                 single-`id` read, so plugins skip their listing trim.",
                            ),
                        ),
                )
                .with(
                    "responses",
                    Json::object()
                        .with(
                            "200",
                            json_response(
                                "Matching items, keyed by id.",
                                schema_ref("ListResult"),
                            ),
                        )
                        .with(
                            "400",
                            empty_response(
                                "Unknown collection, malformed query, rejected filter or sort \
                                 key, or a missing single `id`.",
                            ),
                        )
                        .with("401", empty_response("No session.")),
                ),
        )
}

fn path_itm_edit(collections: &[String]) -> (r: Json)
    ensures
        r@ == doc::path_itm_edit(text::views(collections@)),
{
    Json::object()
        .with(
            "post",
            Json::object()
                .with("tags", one("items"))
                .with_text("summary", "Create or update an item")
                .with_text(
                    "description",
                    "The item is assembled from the query string and then merged with the JSON \
                     `item` field of the body, which wins. `id` unset (`u64::MAX`) creates; an \
                     existing id updates. Plugin pre-edit hooks can refuse the write — that is \
                     reported as 200 with `succeeded: false`.\n\nA write that changes a \
                     password or a role raises the account's session generation, which signs \
                     that account out everywhere.",
                )
                .with(
                    "parameters",
                    Json::array()
                        .and(collection_param(collections))
                        .and(merge_param())
                        .and(
                            query_param(
                                "id",
                                u64_schema(),
                                cat3("Item to update; ", UNSET, " creates a new one.").as_str(),
                            ),
                        ),
                )
                .with(
                    "requestBody",
                    body(
                        false,
                        "multipart/form-data",
                        Json::object()
                            .with_text("type", "object")
                            .with(
                                "properties",
                                Json::object()
                                    .with(
                                        "item",
                                        typed_as(
                                            "string",
                                            "The item as a JSON `Item` document. Unparseable \
                                             JSON is logged and treated as an empty item.",
                                        ),
                                    ),
                            ),
                    ),
                )
                .with(
                    "responses",
                    Json::object()
                        .with(
                            "200",
                            json_response(
                                "`data.id` carries the stored id. A pre-edit hook's refusal \
                                 has the same status and `succeeded: false`.",
                                schema_ref("ProcessResult"),
                            ),
                        )
                        .with(
                            "400",
                            empty_response(
                                "Unknown collection, or a query the item model cannot parse.",
                            ),
                        )
                        .with("401", empty_response("No session."))
                        .with("403", empty_response("An item auth hook refused the write."))
                        .with("413", empty_response("Body over `--max-payload`."))
                        .with(
                            "500",
                            json_response(
                                "The store did not accept the write.",
                                schema_ref("ProcessResult"),
                            ),
                        ),
                ),
        )
}

fn path_itm_del(collections: &[String]) -> (r: Json)
    ensures
        r@ == doc::path_itm_del(text::views(collections@)),
{
    Json::object()
        .with(
            "post",
            Json::object()
                .with("tags", one("items"))
                .with_text("summary", "Delete an item")
                .with_text(
                    "description",
                    "Deleting an id that does not exist is not an error: the hooks run and the \
                     answer is 200 either way.",
                )
                .with(
                    "parameters",
                    Json::array()
                        .and(collection_param(collections))
                        .and(merge_param())
                        .and(
                            Json::object()
                                .with_text("name", "id")
                                .with_text("in", "query")
                                .with("required", truth(true))
                                .with("schema", u64_schema())
                                .with_text("description", "Item to remove."),
                        ),
                )
                .with(
                    "responses",
                    Json::object()
                        .with("200", empty_response("Removed, or there was nothing to remove."))
                        .with("400", empty_response("Unknown collection or malformed query."))
                        .with("401", empty_response("No session."))
                        .with("403", empty_response("An item auth hook refused the deletion.")),
                ),
        )
}

fn path_setting_list() -> (r: Json)
    ensures
        r@ == doc::path_setting_list(),
{
    Json::object()
        .with(
            "get",
            Json::object()
                .with("tags", one("settings"))
                .with_text("summary", "Read the deployment settings")
                .with(
                    "responses",
                    Json::object()
                        .with("200", json_response("The settings item.", schema_ref("Item")))
                        .with("401", empty_response("No session."))
                        .with("403", empty_response("Not an admin.")),
                ),
        )
}

fn path_setting_edit() -> (r: Json)
    ensures
        r@ == doc::path_setting_edit(),
{
    Json::object()
        .with(
            "post",
            Json::object()
                .with("tags", one("settings"))
                .with_text("summary", "Write the deployment settings")
                .with_text(
                    "description",
                    "Assembled from the query string and merged with the body's `item` field, \
                     as `/itm/edit` is.",
                )
                .with(
                    "requestBody",
                    body(
                        false,
                        "multipart/form-data",
                        Json::object()
                            .with_text("type", "object")
                            .with(
                                "properties",
                                Json::object()
                                    .with(
                                        "item",
                                        typed_as(
                                            "string",
                                            "Settings as a JSON `Item` document.",
                                        ),
                                    ),
                            ),
                    ),
                )
                .with(
                    "responses",
                    Json::object()
                        .with("200", process_result_200())
                        .with("400", empty_response("Malformed query."))
                        .with("401", empty_response("No session."))
                        .with("403", empty_response("Not an admin."))
                        .with("413", empty_response("Body over `--max-payload`."))
                        .with(
                            "500",
                            json_response(
                                "The settings write did not reach the store.",
                                schema_ref("ProcessResult"),
                            ),
                        ),
                ),
        )
}

fn path_setting_gcal_auth() -> (r: Json)
    ensures
        r@ == doc::path_setting_gcal_auth(),
{
    Json::object()
        .with(
            "post",
            Json::object()
                .with("tags", one("settings"))
                .with_text("summary", "Begin Google Calendar authorization")
                .with(
                    "responses",
                    Json::object()
                        .with(
                            "200",
                            returned(
                                "The Google consent URL to send the admin to.",
                                "text/plain",
                                typed("string"),
                            ),
                        )
                        .with("401", empty_response("No session."))
                        .with("403", empty_response("Not an admin.")),
                ),
        )
}

fn path_setting_gcal_auth_end() -> (r: Json)
    ensures
        r@ == doc::path_setting_gcal_auth_end(),
{
    Json::object()
        .with(
            "post",
            Json::object()
                .with("tags", one("settings"))
                .with_text("summary", "Complete Google Calendar authorization")
                .with_text(
                    "description",
                    "Called with the parameters Google appended to the redirect.",
                )
                .with(
                    "parameters",
                    Json::array()
                        .and(
                            Json::object()
                                .with_text("name", "state")
                                .with_text("in", "query")
                                .with("required", truth(true))
                                .with("schema", typed("string")),
                        )
                        .and(
                            Json::object()
                                .with_text("name", "code")
                                .with_text("in", "query")
                                .with("required", truth(true))
                                .with("schema", typed("string")),
                        )
                        .and(
                            Json::object()
                                .with_text("name", "scope")
                                .with_text("in", "query")
                                .with("required", truth(true))
                                .with("schema", typed("string")),
                        ),
                )
                .with(
                    "responses",
                    Json::object()
                        .with(
                            "200",
                            returned(
                                "Result of the token exchange.",
                                "text/plain",
                                typed("string"),
                            ),
                        )
                        .with(
                            "400",
                            empty_response("A query missing any of the three parameters."),
                        )
                        .with("401", empty_response("No session."))
                        .with("403", empty_response("Not an admin.")),
                ),
        )
}

fn path_system_update() -> (r: Json)
    ensures
        r@ == doc::path_system_update(),
{
    Json::object()
        .with(
            "post",
            Json::object()
                .with("tags", one("system"))
                .with_text("summary", "Run the configured update script")
                .with_text(
                    "description",
                    "Runs `--update-script` and waits for it. `data` carries `stdout`, \
                     `stderr` and `exit_code`. With no script configured the answer is 200 with \
                     `succeeded: false`.",
                )
                .with(
                    "responses",
                    Json::object()
                        .with("200", process_result_200())
                        .with("401", empty_response("No session."))
                        .with("403", empty_response("Not an admin.")),
                ),
        )
}

fn path_secret_list() -> (r: Json)
    ensures
        r@ == doc::path_secret_list(),
{
    Json::object()
        .with(
            "get",
            Json::object()
                .with("tags", one("secrets"))
                .with_text("summary", "List secret ids and names")
                .with_text("description", "Names and ids only — values are never listed.")
                .with(
                    "responses",
                    Json::object()
                        .with(
                            "200",
                            json_response(
                                "Every stored secret, by reference.",
                                Json::object()
                                    .with_text("type", "array")
                                    .with("items", schema_ref("SecretRef")),
                            ),
                        )
                        .with("401", empty_response("No session."))
                        .with("403", empty_response("Not an admin.")),
                ),
        )
}

fn path_secret_get() -> (r: Json)
    ensures
        r@ == doc::path_secret_get(),
{
    Json::object()
        .with(
            "post",
            Json::object()
                .with("tags", one("secrets"))
                .with_text("summary", "Read one secret, masked")
                .with_text(
                    "description",
                    "Secret values come back as the placeholder `<hidden>`; writing that \
                     placeholder back leaves the stored value alone, so a client can round-trip \
                     an item it cannot read.",
                )
                .with("requestBody", secret_id_body())
                .with(
                    "responses",
                    Json::object()
                        .with(
                            "200",
                            json_response(
                                "The secret item, with values masked.",
                                schema_ref("Item"),
                            ),
                        )
                        .with("401", empty_response("No session."))
                        .with("403", empty_response("Not an admin."))
                        .with(
                            "404",
                            json_response("No such secret.", schema_ref("ProcessResult")),
                        ),
                ),
        )
}

fn path_secret_edit() -> (r: Json)
    ensures
        r@ == doc::path_secret_edit(),
{
    Json::object()
        .with(
            "post",
            Json::object()
                .with("tags", one("secrets"))
                .with_text("summary", "Create or update a secret")
                .with_text(
                    "description",
                    "Merge semantics: fields the caller omits keep their stored values, and a \
                     field sent as `<hidden>` is left untouched.",
                )
                .with("requestBody", body(true, "application/json", schema_ref("Item")))
                .with(
                    "responses",
                    Json::object()
                        .with(
                            "200",
                            json_response(
                                "`data.id` carries the stored id.",
                                schema_ref("ProcessResult"),
                            ),
                        )
                        .with(
                            "400",
                            empty_response("Body malformed, or not read within the deadline."),
                        )
                        .with("401", empty_response("No session."))
                        .with("403", empty_response("Not an admin."))
                        .with("413", empty_response("Body over `--max-payload`.")),
                ),
        )
}

fn path_secret_del() -> (r: Json)
    ensures
        r@ == doc::path_secret_del(),
{
    Json::object()
        .with(
            "post",
            Json::object()
                .with("tags", one("secrets"))
                .with_text("summary", "Delete a secret")
                .with("requestBody", secret_id_body())
                .with(
                    "responses",
                    Json::object()
                        .with("200", json_response("Removed.", schema_ref("ProcessResult")))
                        .with("401", empty_response("No session."))
                        .with("403", empty_response("Not an admin."))
                        .with(
                            "404",
                            json_response(
                                "There was nothing to remove.",
                                schema_ref("ProcessResult"),
                            ),
                        ),
                ),
        )
}

fn with_note(said: &str, note: &str) -> (r: String)
    ensures
        r@ == doc::noted(said@, note@),
{
    if said.is_empty() {
        owned(note)
    } else {
        cat3(said, " ", note)
    }
}

fn path_meta(summary: &str, said: &str, served: Json, admin_only: bool) -> (r: Json)
    ensures
        r@ == doc::path_meta(summary@, said@, served@, admin_only),
{
    let head = Json::object().with("tags", one("meta")).with_text("summary", summary);
    let op = if said.is_empty() {
        head
    } else {
        head.with_text("description", said)
    };
    let responses = Json::object().with("200", served);
    let get = if admin_only {
        op.with(
            "responses",
            responses.with("401", empty_response("No session.")).with(
                "403",
                empty_response("Not an admin."),
            ),
        ).with_text(
            "description",
            with_note(
                said,
                "This deployment runs with `--openapi-private`, so the description \
                 is served to administrators only.",
            ).as_str(),
        )
    } else {
        op.with("responses", responses).with("security", session_optional()).with_text(
            "description",
            with_note(said, "Served without a session.").as_str(),
        )
    };
    Json::object().with("get", get)
}

fn path_openapi(admin_only: bool) -> (r: Json)
    ensures
        r@ == doc::path_openapi(admin_only),
{
    proof {
        reveal_strlit("");
        assert(""@ =~= Seq::<char>::empty());
    }
    path_meta(
        "This document",
        "",
        json_response("The OpenAPI document for this deployment.", typed("object")),
        admin_only,
    )
}

fn path_docs(admin_only: bool) -> (r: Json)
    ensures
        r@ == doc::path_docs(admin_only),
{
    path_meta(
        "This document, rendered",
        "Server-rendered HTML — no scripts and no external assets, so it works offline.",
        returned("The rendering.", "text/html", typed("string")),
        admin_only,
    )
}

/// Core's own endpoints.
pub fn core_paths(collections: &[String], admin_only: bool) -> (r: Json)
    ensures
        r@ == doc::core_paths(text::views(collections@), admin_only),
{
    Json::object()
        .with("/is_logged_in", path_is_logged_in())
        .with("/login", path_login())
        .with("/auth/providers", path_auth_providers())
        .with("/auth/config", path_auth_config())
        .with("/auth/config/forget", path_auth_config_forget())
        .with("/auth/{provider}/start", path_auth_provider_start())
        .with("/auth/{provider}/callback", path_auth_provider_callback())
        .with("/logout", path_logout())
        .with("/register", path_register())
        .with("/gen_otp", path_gen_otp())
        .with("/itm/list", path_itm_list(collections))
        .with("/itm/edit", path_itm_edit(collections))
        .with("/itm/del", path_itm_del(collections))
        .with("/setting/list", path_setting_list())
        .with("/setting/edit", path_setting_edit())
        .with("/setting/gcal_auth", path_setting_gcal_auth())
        .with("/setting/gcal_auth_end", path_setting_gcal_auth_end())
        .with("/system/update", path_system_update())
        .with("/secret/list", path_secret_list())
        .with("/secret/get", path_secret_get())
        .with("/secret/edit", path_secret_edit())
        .with("/secret/del", path_secret_del())
        .with(OPENAPI_PATH, path_openapi(admin_only))
        .with(DOCS_PATH, path_docs(admin_only))
}

} // verus!
