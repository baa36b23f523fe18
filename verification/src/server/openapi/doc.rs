//! The description of the API, as a document.
//!
//! What the document says is stated here, part by part; `paths` and `schemas`
//! build it.
use crate::json::JsonView;
use crate::server::openapi::{DOCS_PATH, OPENAPI_PATH, UNSET};
use crate::text;
use vstd::prelude::*;

verus! {

// ---------------------------------------------------------------------------
// Parts
// ---------------------------------------------------------------------------

/// A yes or a no.
pub open spec fn truth(b: bool) -> JsonView {
    JsonView::Bool(b)
}

/// A number, by its digits.
pub open spec fn number(digits: Seq<char>) -> JsonView {
    JsonView::Number(digits)
}

/// A list of one text.
pub open spec fn one(s: Seq<char>) -> JsonView {
    JsonView::array().and_text(s)
}

/// A schema that names a type and nothing more.
pub open spec fn typed(t: Seq<char>) -> JsonView {
    JsonView::object().with_text("type"@, t)
}

/// A schema that names a type and says what it is for.
pub open spec fn typed_as(t: Seq<char>, description: Seq<char>) -> JsonView {
    typed(t).with_text("description"@, description)
}

/// Where a named schema stands in the document.
pub open spec fn ref_to(name: Seq<char>) -> Seq<char> {
    "#/components/schemas/"@ + name
}

/// A reference to a named schema.
pub open spec fn schema_ref(name: Seq<char>) -> JsonView {
    JsonView::object().with_text("$ref"@, ref_to(name))
}

/// An id, a count, a limit.
pub open spec fn u64_schema() -> JsonView {
    typed("integer"@).with_text("format"@, "int64"@).with("minimum"@, number("0"@))
}

/// A group of string pairs.
pub open spec fn str_map() -> JsonView {
    typed("object"@).with("additionalProperties"@, typed("string"@))
}

/// An optional parameter of the query.
pub open spec fn query_param(name: Seq<char>, schema: JsonView, description: Seq<char>) -> JsonView {
    JsonView::object().with_text("name"@, name).with_text("in"@, "query"@).with(
        "required"@,
        truth(false),
    ).with("schema"@, schema).with_text("description"@, description)
}

/// The media types that something comes in: one, with its schema.
pub open spec fn content(mime: Seq<char>, schema: JsonView) -> JsonView {
    JsonView::object().with(mime, JsonView::object().with("schema"@, schema))
}

/// A response with a body.
pub open spec fn returned(description: Seq<char>, mime: Seq<char>, schema: JsonView) -> JsonView {
    JsonView::object().with_text("description"@, description).with(
        "content"@,
        content(mime, schema),
    )
}

/// A response with a JSON body.
pub open spec fn json_response(description: Seq<char>, schema: JsonView) -> JsonView {
    returned(description, "application/json"@, schema)
}

/// A response without a body.
pub open spec fn empty_response(description: Seq<char>) -> JsonView {
    JsonView::object().with_text("description"@, description)
}

/// The body of a request.
pub open spec fn body(required: bool, mime: Seq<char>, schema: JsonView) -> JsonView {
    JsonView::object().with("required"@, truth(required)).with("content"@, content(mime, schema))
}

/// The requirement of a session.
pub open spec fn session_required() -> JsonView {
    JsonView::object().with("sessionCookie"@, JsonView::array())
}

/// What is open to everyone.
pub open spec fn open_to_all() -> JsonView {
    JsonView::array().and(JsonView::object())
}

/// What is open to everyone and knows a session where there is one.
pub open spec fn session_optional() -> JsonView {
    open_to_all().and(session_required())
}

/// The outcome of an operation.
pub open spec fn process_result_200() -> JsonView {
    json_response(
        "Outcome envelope. Note that a *refused* operation is also a 200 with \
         `succeeded: false` — the status alone is not the answer."@,
        schema_ref("ProcessResult"@),
    )
}

/// The collections that a request may name: those there are, in order, where
/// any are known.
pub open spec fn collection_schema(collections: Seq<Seq<char>>) -> JsonView {
    if collections.len() > 0 {
        typed("string"@).with("enum"@, crate::json::text_array(text::sorted(collections)))
    } else {
        typed("string"@)
    }
}

/// The parameter that names a collection.
pub open spec fn collection_param(collections: Seq<Seq<char>>) -> JsonView {
    JsonView::object().with_text("name"@, "collection"@).with_text("in"@, "query"@).with(
        "required"@,
        truth(true),
    ).with("schema"@, collection_schema(collections)).with_text(
        "description"@,
        "Collection to act on. An unknown name is answered 400."@,
    )
}

/// The parameter that asks for a merge.
pub open spec fn merge_param() -> JsonView {
    query_param(
        "merge"@,
        typed("boolean"@).with("default"@, truth(false)),
        "Merge into the stored item instead of replacing it."@,
    )
}

/// The body that names a secret by its id.
pub open spec fn secret_id_body() -> JsonView {
    body(
        true,
        "application/json"@,
        typed("object"@).with("required"@, one("id"@)).with(
            "properties"@,
            JsonView::object().with("id"@, u64_schema()),
        ),
    )
}

// ---------------------------------------------------------------------------
// Core endpoints
// ---------------------------------------------------------------------------

/// `/is_logged_in`.
pub open spec fn path_is_logged_in() -> JsonView {
    JsonView::object()
        .with(
            "get"@,
            JsonView::object()
                .with("tags"@, one("auth"@))
                .with_text(
                    "summary"@,
                    "Current session, plus the branding an unauthenticated UI still needs"@,
                )
                .with_text(
                    "description"@,
                    "Never fails: without a session it answers the same document with an empty \
                     `username`, `id` 0 and no roles, so a login screen can render from it."@,
                )
                .with("security"@, session_optional())
                .with(
                    "responses"@,
                    JsonView::object()
                        .with(
                            "200"@,
                            json_response(
                                "The caller, as far as the server knows it."@,
                                schema_ref("DetailedLoginUser"@),
                            ),
                        ),
                ),
        )
}

/// `/login`.
pub open spec fn path_login() -> JsonView {
    JsonView::object()
        .with(
            "post"@,
            JsonView::object()
                .with("tags"@, one("auth"@))
                .with_text("summary"@, "Exchange credentials for a session cookie"@)
                .with_text(
                    "description"@,
                    "`password` accepts either the account password or a live one-time code \
                     from `/gen_otp`; a successful login burns the code. Failure is reported as \
                     200 with `succeeded: false` and a deliberately unspecific error."@,
                )
                .with("security"@, open_to_all())
                .with(
                    "requestBody"@,
                    body(
                        true,
                        "multipart/form-data"@,
                        JsonView::object()
                            .with_text("type"@, "object"@)
                            .with(
                                "required"@,
                                JsonView::array()
                                    .and_text("username"@)
                                    .and_text("password"@),
                            )
                            .with(
                                "properties"@,
                                JsonView::object()
                                    .with("username"@, typed_as("string"@, "Login or email."@))
                                    .with("password"@, typed("string"@)),
                            ),
                    ),
                )
                .with(
                    "responses"@,
                    JsonView::object()
                        .with("200"@, process_result_200())
                        .with(
                            "400"@,
                            json_response(
                                "Body malformed, or not read within the deadline."@,
                                schema_ref("ProcessResult"@),
                            ),
                        )
                        .with(
                            "413"@,
                            json_response(
                                "Body over `--max-payload`."@,
                                schema_ref("ProcessResult"@),
                            ),
                        )
                        .with(
                            "500"@,
                            json_response(
                                "The session could not be established."@,
                                schema_ref("ProcessResult"@),
                            ),
                        ),
                ),
        )
}

/// `/auth/providers`.
pub open spec fn path_auth_providers() -> JsonView {
    JsonView::object()
        .with(
            "get"@,
            JsonView::object()
                .with("tags"@, one("auth"@))
                .with_text("summary"@, "Which identity providers are configured"@)
                .with_text(
                    "description"@,
                    "Read by a login screen, so it answers without a session. A provider is \
                     listed when its entry exists in the secret store and carries everything \
                     that provider needs; nothing about the credentials themselves is returned."@,
                )
                .with("security"@, open_to_all())
                .with(
                    "responses"@,
                    JsonView::object()
                        .with(
                            "200"@,
                            json_response(
                                "The configured providers."@,
                                JsonView::object()
                                    .with_text("type"@, "object"@)
                                    .with(
                                        "properties"@,
                                        JsonView::object()
                                            .with(
                                                "providers"@,
                                                JsonView::object()
                                                    .with_text("type"@, "array"@)
                                                    .with(
                                                        "items"@,
                                                        JsonView::object()
                                                            .with_text("type"@, "object"@)
                                                            .with(
                                                                "properties"@,
                                                                JsonView::object()
                                                                    .with(
                                                                        "id"@,
                                                                        JsonView::object()
                                                                            .with_text(
                                                                                "type"@,
                                                                                "string"@,
                                                                            )
                                                                            .with_text(
                                                                                "example"@,
                                                                                "google"@,
                                                                            ),
                                                                    )
                                                                    .with(
                                                                        "name"@,
                                                                        JsonView::object()
                                                                            .with_text(
                                                                                "type"@,
                                                                                "string"@,
                                                                            )
                                                                            .with_text(
                                                                                "example"@,
                                                                                "Google"@,
                                                                            ),
                                                                    ),
                                                            ),
                                                    ),
                                            ),
                                    ),
                            ),
                        ),
                ),
        )
}

/// `/auth/config`.
pub open spec fn path_auth_config() -> JsonView {
    JsonView::object()
        .with(
            "get"@,
            JsonView::object()
                .with("tags"@, one("auth"@))
                .with_text("summary"@, "How the identity providers are configured"@)
                .with_text(
                    "description"@,
                    "Administrators only. Returns each provider's public settings — the client \
                     id, the redirect URI in use and the one that would be used by default — \
                     plus `has_secret`, which says whether a client secret or signing key is \
                     stored. The secret itself is never returned, by this or any other \
                     endpoint. `problem` carries whatever stops the provider being usable, so a \
                     half-finished configuration says what is missing."@,
                )
                .with(
                    "responses"@,
                    JsonView::object()
                        .with("200"@, json_response("The configuration."@, typed("object"@)))
                        .with("401"@, empty_response("No session."@))
                        .with("403"@, empty_response("Not an administrator."@)),
                ),
        )
        .with(
            "post"@,
            JsonView::object()
                .with("tags"@, one("auth"@))
                .with_text("summary"@, "Configure a provider"@)
                .with_text(
                    "description"@,
                    "Administrators only. Every field is optional and an absent one is left \
                     alone. `client_secret` and `private_key` cannot be read back, so an empty \
                     string means unchanged rather than deleted — use `/auth/config/forget` to \
                     remove a provider. The result is checked before it is stored, so an \
                     unreadable Apple key is refused here rather than at a token endpoint weeks \
                     later."@,
                )
                .with(
                    "requestBody"@,
                    body(
                        true,
                        "application/json"@,
                        JsonView::object()
                            .with_text("type"@, "object"@)
                            .with("required"@, one("provider"@))
                            .with(
                                "properties"@,
                                JsonView::object()
                                    .with(
                                        "provider"@,
                                        JsonView::object()
                                            .with_text("type"@, "string"@)
                                            .with(
                                                "enum"@,
                                                JsonView::array()
                                                    .and_text("google"@)
                                                    .and_text("apple"@),
                                            ),
                                    )
                                    .with("client_id"@, typed("string"@))
                                    .with(
                                        "client_secret"@,
                                        typed_as(
                                            "string"@,
                                            "Google. Blank leaves it unchanged."@,
                                        ),
                                    )
                                    .with("team_id"@, typed_as("string"@, "Apple."@))
                                    .with("key_id"@, typed_as("string"@, "Apple."@))
                                    .with(
                                        "private_key"@,
                                        typed_as(
                                            "string"@,
                                            "Apple, the `.p8` in full. Blank leaves it \
                                             unchanged."@,
                                        ),
                                    )
                                    .with(
                                        "redirect_uri"@,
                                        typed_as(
                                            "string"@,
                                            "Blank falls back to the deployment default."@,
                                        ),
                                    ),
                            ),
                    ),
                )
                .with(
                    "responses"@,
                    JsonView::object()
                        .with("200"@, process_result_200())
                        .with(
                            "400"@,
                            empty_response("Body malformed, or not read within the deadline."@),
                        )
                        .with("401"@, empty_response("No session."@))
                        .with("403"@, empty_response("Not an administrator."@)),
                ),
        )
}

/// `/auth/config/forget`.
pub open spec fn path_auth_config_forget() -> JsonView {
    JsonView::object()
        .with(
            "post"@,
            JsonView::object()
                .with("tags"@, one("auth"@))
                .with_text("summary"@, "Remove a provider's configuration"@)
                .with_text(
                    "description"@,
                    "Administrators only. This is also how a provider is switched off: one \
                     exists for a deployment exactly when its configuration does. Forgetting \
                     one that was never configured succeeds."@,
                )
                .with(
                    "requestBody"@,
                    body(
                        true,
                        "application/json"@,
                        JsonView::object()
                            .with_text("type"@, "object"@)
                            .with("required"@, one("provider"@))
                            .with(
                                "properties"@,
                                JsonView::object()
                                    .with(
                                        "provider"@,
                                        JsonView::object()
                                            .with_text("type"@, "string"@)
                                            .with(
                                                "enum"@,
                                                JsonView::array()
                                                    .and_text("google"@)
                                                    .and_text("apple"@),
                                            ),
                                    ),
                            ),
                    ),
                )
                .with(
                    "responses"@,
                    JsonView::object()
                        .with("200"@, process_result_200())
                        .with("401"@, empty_response("No session."@))
                        .with("403"@, empty_response("Not an administrator."@)),
                ),
        )
}

/// `/auth/{provider}/start`.
pub open spec fn path_auth_provider_start() -> JsonView {
    JsonView::object()
        .with(
            "get"@,
            JsonView::object()
                .with("tags"@, one("auth"@))
                .with_text("summary"@, "Begin signing in with an identity provider"@)
                .with_text(
                    "description"@,
                    "A browser navigation, not a fetch: it answers 302 to the provider's \
                     consent screen and sets a short-lived cookie that ties the callback to \
                     this browser. `next` is where the browser is sent afterwards and is \
                     reduced to a path on this site."@,
                )
                .with("security"@, open_to_all())
                .with(
                    "parameters"@,
                    JsonView::array()
                        .and(
                            JsonView::object()
                                .with_text("name"@, "provider"@)
                                .with_text("in"@, "path"@)
                                .with("required"@, truth(true))
                                .with(
                                    "schema"@,
                                    JsonView::object()
                                        .with_text("type"@, "string"@)
                                        .with(
                                            "enum"@,
                                            JsonView::array()
                                                .and_text("google"@)
                                                .and_text("apple"@),
                                        ),
                                ),
                        )
                        .and(
                            JsonView::object()
                                .with_text("name"@, "next"@)
                                .with_text("in"@, "query"@)
                                .with("required"@, truth(false))
                                .with(
                                    "schema"@,
                                    JsonView::object()
                                        .with_text("type"@, "string"@)
                                        .with_text("example"@, "/"@),
                                ),
                        ),
                )
                .with(
                    "responses"@,
                    JsonView::object()
                        .with(
                            "302"@,
                            empty_response(
                                "To the provider, or back to `next` with `auth_error` when the \
                                 provider is not configured."@,
                            ),
                        )
                        .with("404"@, empty_response("No such provider."@)),
                ),
        )
}

/// `/auth/{provider}/callback`.
pub open spec fn path_auth_provider_callback() -> JsonView {
    JsonView::object()
        .with(
            "get"@,
            JsonView::object()
                .with("tags"@, one("auth"@))
                .with_text("summary"@, "Finish signing in (redirect callback)"@)
                .with_text(
                    "description"@,
                    "Where the provider returns the browser. On success a session cookie is \
                     issued and the browser is sent to the `next` recorded at the start; \
                     otherwise it goes to the same place with `auth_error` set to one of \
                     `denied`, `unverified`, `registration_closed`, `inactive`, `mismatched` or \
                     `failed`. The detail behind a refusal is logged, not put in the URL."@,
                )
                .with("security"@, open_to_all())
                .with(
                    "parameters"@,
                    JsonView::array()
                        .and(
                            JsonView::object()
                                .with_text("name"@, "provider"@)
                                .with_text("in"@, "path"@)
                                .with("required"@, truth(true))
                                .with(
                                    "schema"@,
                                    JsonView::object()
                                        .with_text("type"@, "string"@)
                                        .with(
                                            "enum"@,
                                            JsonView::array()
                                                .and_text("google"@)
                                                .and_text("apple"@),
                                        ),
                                ),
                        )
                        .and(
                            JsonView::object()
                                .with_text("name"@, "code"@)
                                .with_text("in"@, "query"@)
                                .with("required"@, truth(false))
                                .with("schema"@, typed("string"@)),
                        )
                        .and(
                            JsonView::object()
                                .with_text("name"@, "state"@)
                                .with_text("in"@, "query"@)
                                .with("required"@, truth(false))
                                .with("schema"@, typed("string"@)),
                        )
                        .and(
                            JsonView::object()
                                .with_text("name"@, "error"@)
                                .with_text("in"@, "query"@)
                                .with("required"@, truth(false))
                                .with("schema"@, typed("string"@)),
                        ),
                )
                .with(
                    "responses"@,
                    JsonView::object()
                        .with(
                            "302"@,
                            empty_response("Signed in, or refused with `auth_error`."@),
                        )
                        .with("404"@, empty_response("No such provider."@)),
                ),
        )
        .with(
            "post"@,
            JsonView::object()
                .with("tags"@, one("auth"@))
                .with_text("summary"@, "Finish signing in (form_post callback)"@)
                .with_text(
                    "description"@,
                    "The same exchange for providers that answer by POSTing the form back. \
                     Apple requires this whenever a scope is requested, and the address is a \
                     scope."@,
                )
                .with("security"@, open_to_all())
                .with(
                    "parameters"@,
                    JsonView::array()
                        .and(
                            JsonView::object()
                                .with_text("name"@, "provider"@)
                                .with_text("in"@, "path"@)
                                .with("required"@, truth(true))
                                .with(
                                    "schema"@,
                                    JsonView::object()
                                        .with_text("type"@, "string"@)
                                        .with(
                                            "enum"@,
                                            JsonView::array()
                                                .and_text("google"@)
                                                .and_text("apple"@),
                                        ),
                                ),
                        ),
                )
                .with(
                    "requestBody"@,
                    body(
                        true,
                        "application/x-www-form-urlencoded"@,
                        JsonView::object()
                            .with_text("type"@, "object"@)
                            .with(
                                "properties"@,
                                JsonView::object()
                                    .with("code"@, typed("string"@))
                                    .with("state"@, typed("string"@))
                                    .with("error"@, typed("string"@)),
                            ),
                    ),
                )
                .with(
                    "responses"@,
                    JsonView::object()
                        .with(
                            "302"@,
                            empty_response("Signed in, or refused with `auth_error`."@),
                        )
                        .with("404"@, empty_response("No such provider."@)),
                ),
        )
}

/// `/logout`.
pub open spec fn path_logout() -> JsonView {
    JsonView::object()
        .with(
            "post"@,
            JsonView::object()
                .with("tags"@, one("auth"@))
                .with_text("summary"@, "End the session — on every device"@)
                .with_text(
                    "description"@,
                    "The session lives entirely in the cookie, so this also raises the \
                     account's session generation. That is what actually revokes copies of the \
                     cookie, and it is account-wide: other devices are signed out too."@,
                )
                .with(
                    "responses"@,
                    JsonView::object()
                        .with("200"@, empty_response("Signed out."@))
                        .with("401"@, empty_response("No session to end."@)),
                ),
        )
}

/// `/register`.
pub open spec fn path_register() -> JsonView {
    JsonView::object()
        .with(
            "post"@,
            JsonView::object()
                .with("tags"@, one("auth"@))
                .with_text("summary"@, "Self-registration"@)
                .with_text(
                    "description"@,
                    "Refused with `succeeded: false` when self-registration is disabled in \
                     `internals.js`, when the login or the email is taken, or when either \
                     contains characters the user lookup cannot handle. The account is created \
                     inactive."@,
                )
                .with("security"@, open_to_all())
                .with(
                    "requestBody"@,
                    body(
                        true,
                        "multipart/form-data"@,
                        JsonView::object()
                            .with_text("type"@, "object"@)
                            .with(
                                "required"@,
                                JsonView::array()
                                    .and_text("login"@)
                                    .and_text("email"@),
                            )
                            .with(
                                "properties"@,
                                JsonView::object()
                                    .with("login"@, typed("string"@))
                                    .with("email"@, typed("string"@))
                                    .with(
                                        "dry"@,
                                        JsonView::object()
                                            .with_text("type"@, "string"@)
                                            .with(
                                                "enum"@,
                                                JsonView::array()
                                                    .and_text("true"@)
                                                    .and_text("false"@),
                                            )
                                            .with_text(
                                                "description"@,
                                                "`\"true\"` checks availability without \
                                                 writing."@,
                                            ),
                                    ),
                            ),
                    ),
                )
                .with(
                    "responses"@,
                    JsonView::object()
                        .with("200"@, process_result_200())
                        .with(
                            "400"@,
                            json_response(
                                "Body malformed, or not read within the deadline."@,
                                schema_ref("ProcessResult"@),
                            ),
                        )
                        .with(
                            "413"@,
                            json_response(
                                "Body over `--max-payload`."@,
                                schema_ref("ProcessResult"@),
                            ),
                        ),
                ),
        )
}

/// `/gen_otp`.
pub open spec fn path_gen_otp() -> JsonView {
    JsonView::object()
        .with(
            "post"@,
            JsonView::object()
                .with("tags"@, one("auth"@))
                .with_text("summary"@, "Issue a one-time code to an account"@)
                .with_text(
                    "description"@,
                    "Always answers `succeeded: true`, whether or not the account exists, is \
                     active, or is being throttled — otherwise the endpoint enumerates logins. \
                     The code is delivered by the `otp_hook` plugin, never in this response."@,
                )
                .with("security"@, open_to_all())
                .with(
                    "requestBody"@,
                    body(
                        true,
                        "multipart/form-data"@,
                        JsonView::object()
                            .with_text("type"@, "object"@)
                            .with("required"@, one("username"@))
                            .with(
                                "properties"@,
                                JsonView::object()
                                    .with("username"@, typed_as("string"@, "Login or email."@)),
                            ),
                    ),
                )
                .with(
                    "responses"@,
                    JsonView::object()
                        .with("200"@, process_result_200())
                        .with(
                            "400"@,
                            json_response(
                                "Body malformed, or not read within the deadline."@,
                                schema_ref("ProcessResult"@),
                            ),
                        )
                        .with(
                            "413"@,
                            json_response(
                                "Body over `--max-payload`."@,
                                schema_ref("ProcessResult"@),
                            ),
                        ),
                ),
        )
}

/// `/itm/list`.
pub open spec fn path_itm_list(collections: Seq<Seq<char>>) -> JsonView {
    JsonView::object()
        .with(
            "get"@,
            JsonView::object()
                .with("tags"@, one("items"@))
                .with_text("summary"@, "Read items from a collection"@)
                .with_text(
                    "description"@,
                    "Three mutually exclusive selections, in the order they are tried: a \
                     single `id`; a range/filter query (`id_min`/`id_max`/`sort_key`/`filter`); \
                     or an explicit `id_list`. With none of them the result is \
                     empty.\n\n`filter` and `sort_key` are constrained to the fields the UI \
                     builds — both reach the database, and `total_count` is counted before any \
                     plugin filter redacts anything. In the `user` collection, credentials are \
                     stripped from every record except the caller's own, unless the caller is \
                     an admin.\n\n`limit: 0` is an empty page with a real `total_count`, which \
                     is how a paginated view asks for the count alone."@,
                )
                .with(
                    "parameters"@,
                    JsonView::array()
                        .and(collection_param(collections))
                        .and(query_param("id"@, u64_schema(), "Single item; "@ + UNSET@ + "."@))
                        .and(
                            query_param(
                                "id_min"@,
                                u64_schema(),
                                "Range start, inclusive; "@ + UNSET@ + "."@,
                            ),
                        )
                        .and(
                            query_param(
                                "id_max"@,
                                u64_schema(),
                                "Range end, inclusive; "@ + UNSET@ + "."@,
                            ),
                        )
                        .and(
                            query_param(
                                "id_list"@,
                                JsonView::object()
                                    .with_text("type"@, "array"@)
                                    .with("items"@, u64_schema()),
                                "Explicit ids, `serde_qs` style: `id_list[0]=1&id_list[1]=2`. \
                                 Ids that do not exist are skipped and not counted."@,
                            ),
                        )
                        .and(
                            query_param("skip"@, u64_schema(), "Items to skip. Unset means 0."@),
                        )
                        .and(
                            query_param(
                                "limit"@,
                                u64_schema(),
                                "Page size. Unset means no limit."@,
                            ),
                        )
                        .and(
                            query_param(
                                "sort_key"@,
                                typed("string"@),
                                "Field to sort by, ascending, with `id` as the tiebreak. \
                                 Rejected with 400 if not an allowed field."@,
                            ),
                        )
                        .and(
                            query_param(
                                "filter"@,
                                typed("string"@),
                                "MongoDB query document as JSON. Validated against the same \
                                 field allowlist as `sort_key`; plugin-supplied filters are \
                                 ANDed with it."@,
                            ),
                        )
                        .and(
                            query_param(
                                "context"@,
                                typed("string"@),
                                "Passed to the plugin list filters. Defaults to `full` for a \
                                 single-`id` read, so plugins skip their listing trim."@,
                            ),
                        ),
                )
                .with(
                    "responses"@,
                    JsonView::object()
                        .with(
                            "200"@,
                            json_response(
                                "Matching items, keyed by id."@,
                                schema_ref("ListResult"@),
                            ),
                        )
                        .with(
                            "400"@,
                            empty_response(
                                "Unknown collection, malformed query, rejected filter or sort \
                                 key, or a missing single `id`."@,
                            ),
                        )
                        .with("401"@, empty_response("No session."@)),
                ),
        )
}

/// `/itm/edit`.
pub open spec fn path_itm_edit(collections: Seq<Seq<char>>) -> JsonView {
    JsonView::object()
        .with(
            "post"@,
            JsonView::object()
                .with("tags"@, one("items"@))
                .with_text("summary"@, "Create or update an item"@)
                .with_text(
                    "description"@,
                    "The item is assembled from the query string and then merged with the JSON \
                     `item` field of the body, which wins. `id` unset (`u64::MAX`) creates; an \
                     existing id updates. Plugin pre-edit hooks can refuse the write — that is \
                     reported as 200 with `succeeded: false`.\n\nA write that changes a \
                     password or a role raises the account's session generation, which signs \
                     that account out everywhere."@,
                )
                .with(
                    "parameters"@,
                    JsonView::array()
                        .and(collection_param(collections))
                        .and(merge_param())
                        .and(
                            query_param(
                                "id"@,
                                u64_schema(),
                                "Item to update; "@ + UNSET@ + " creates a new one."@,
                            ),
                        ),
                )
                .with(
                    "requestBody"@,
                    body(
                        false,
                        "multipart/form-data"@,
                        JsonView::object()
                            .with_text("type"@, "object"@)
                            .with(
                                "properties"@,
                                JsonView::object()
                                    .with(
                                        "item"@,
                                        typed_as(
                                            "string"@,
                                            "The item as a JSON `Item` document. Unparseable \
                                             JSON is logged and treated as an empty item."@,
                                        ),
                                    ),
                            ),
                    ),
                )
                .with(
                    "responses"@,
                    JsonView::object()
                        .with(
                            "200"@,
                            json_response(
                                "`data.id` carries the stored id. A pre-edit hook's refusal \
                                 has the same status and `succeeded: false`."@,
                                schema_ref("ProcessResult"@),
                            ),
                        )
                        .with(
                            "400"@,
                            empty_response(
                                "Unknown collection, or a query the item model cannot parse."@,
                            ),
                        )
                        .with("401"@, empty_response("No session."@))
                        .with("403"@, empty_response("An item auth hook refused the write."@))
                        .with("413"@, empty_response("Body over `--max-payload`."@))
                        .with(
                            "500"@,
                            json_response(
                                "The store did not accept the write."@,
                                schema_ref("ProcessResult"@),
                            ),
                        ),
                ),
        )
}

/// `/itm/del`.
pub open spec fn path_itm_del(collections: Seq<Seq<char>>) -> JsonView {
    JsonView::object()
        .with(
            "post"@,
            JsonView::object()
                .with("tags"@, one("items"@))
                .with_text("summary"@, "Delete an item"@)
                .with_text(
                    "description"@,
                    "Deleting an id that does not exist is not an error: the hooks run and the \
                     answer is 200 either way."@,
                )
                .with(
                    "parameters"@,
                    JsonView::array()
                        .and(collection_param(collections))
                        .and(merge_param())
                        .and(
                            JsonView::object()
                                .with_text("name"@, "id"@)
                                .with_text("in"@, "query"@)
                                .with("required"@, truth(true))
                                .with("schema"@, u64_schema())
                                .with_text("description"@, "Item to remove."@),
                        ),
                )
                .with(
                    "responses"@,
                    JsonView::object()
                        .with(
                            "200"@,
                            empty_response("Removed, or there was nothing to remove."@),
                        )
                        .with("400"@, empty_response("Unknown collection or malformed query."@))
                        .with("401"@, empty_response("No session."@))
                        .with(
                            "403"@,
                            empty_response("An item auth hook refused the deletion."@),
                        ),
                ),
        )
}

/// `/setting/list`.
pub open spec fn path_setting_list() -> JsonView {
    JsonView::object()
        .with(
            "get"@,
            JsonView::object()
                .with("tags"@, one("settings"@))
                .with_text("summary"@, "Read the deployment settings"@)
                .with(
                    "responses"@,
                    JsonView::object()
                        .with("200"@, json_response("The settings item."@, schema_ref("Item"@)))
                        .with("401"@, empty_response("No session."@))
                        .with("403"@, empty_response("Not an admin."@)),
                ),
        )
}

/// `/setting/edit`.
pub open spec fn path_setting_edit() -> JsonView {
    JsonView::object()
        .with(
            "post"@,
            JsonView::object()
                .with("tags"@, one("settings"@))
                .with_text("summary"@, "Write the deployment settings"@)
                .with_text(
                    "description"@,
                    "Assembled from the query string and merged with the body's `item` field, \
                     as `/itm/edit` is."@,
                )
                .with(
                    "requestBody"@,
                    body(
                        false,
                        "multipart/form-data"@,
                        JsonView::object()
                            .with_text("type"@, "object"@)
                            .with(
                                "properties"@,
                                JsonView::object()
                                    .with(
                                        "item"@,
                                        typed_as(
                                            "string"@,
                                            "Settings as a JSON `Item` document."@,
                                        ),
                                    ),
                            ),
                    ),
                )
                .with(
                    "responses"@,
                    JsonView::object()
                        .with("200"@, process_result_200())
                        .with("400"@, empty_response("Malformed query."@))
                        .with("401"@, empty_response("No session."@))
                        .with("403"@, empty_response("Not an admin."@))
                        .with("413"@, empty_response("Body over `--max-payload`."@))
                        .with(
                            "500"@,
                            json_response(
                                "The settings write did not reach the store."@,
                                schema_ref("ProcessResult"@),
                            ),
                        ),
                ),
        )
}

/// `/setting/gcal_auth`.
pub open spec fn path_setting_gcal_auth() -> JsonView {
    JsonView::object()
        .with(
            "post"@,
            JsonView::object()
                .with("tags"@, one("settings"@))
                .with_text("summary"@, "Begin Google Calendar authorization"@)
                .with(
                    "responses"@,
                    JsonView::object()
                        .with(
                            "200"@,
                            returned(
                                "The Google consent URL to send the admin to."@,
                                "text/plain"@,
                                typed("string"@),
                            ),
                        )
                        .with("401"@, empty_response("No session."@))
                        .with("403"@, empty_response("Not an admin."@)),
                ),
        )
}

/// `/setting/gcal_auth_end`.
pub open spec fn path_setting_gcal_auth_end() -> JsonView {
    JsonView::object()
        .with(
            "post"@,
            JsonView::object()
                .with("tags"@, one("settings"@))
                .with_text("summary"@, "Complete Google Calendar authorization"@)
                .with_text(
                    "description"@,
                    "Called with the parameters Google appended to the redirect."@,
                )
                .with(
                    "parameters"@,
                    JsonView::array()
                        .and(
                            JsonView::object()
                                .with_text("name"@, "state"@)
                                .with_text("in"@, "query"@)
                                .with("required"@, truth(true))
                                .with("schema"@, typed("string"@)),
                        )
                        .and(
                            JsonView::object()
                                .with_text("name"@, "code"@)
                                .with_text("in"@, "query"@)
                                .with("required"@, truth(true))
                                .with("schema"@, typed("string"@)),
                        )
                        .and(
                            JsonView::object()
                                .with_text("name"@, "scope"@)
                                .with_text("in"@, "query"@)
                                .with("required"@, truth(true))
                                .with("schema"@, typed("string"@)),
                        ),
                )
                .with(
                    "responses"@,
                    JsonView::object()
                        .with(
                            "200"@,
                            returned(
                                "Result of the token exchange."@,
                                "text/plain"@,
                                typed("string"@),
                            ),
                        )
                        .with(
                            "400"@,
                            empty_response("A query missing any of the three parameters."@),
                        )
                        .with("401"@, empty_response("No session."@))
                        .with("403"@, empty_response("Not an admin."@)),
                ),
        )
}

/// `/system/update`.
pub open spec fn path_system_update() -> JsonView {
    JsonView::object()
        .with(
            "post"@,
            JsonView::object()
                .with("tags"@, one("system"@))
                .with_text("summary"@, "Run the configured update script"@)
                .with_text(
                    "description"@,
                    "Runs `--update-script` and waits for it. `data` carries `stdout`, \
                     `stderr` and `exit_code`. With no script configured the answer is 200 with \
                     `succeeded: false`."@,
                )
                .with(
                    "responses"@,
                    JsonView::object()
                        .with("200"@, process_result_200())
                        .with("401"@, empty_response("No session."@))
                        .with("403"@, empty_response("Not an admin."@)),
                ),
        )
}

/// `/secret/list`.
pub open spec fn path_secret_list() -> JsonView {
    JsonView::object()
        .with(
            "get"@,
            JsonView::object()
                .with("tags"@, one("secrets"@))
                .with_text("summary"@, "List secret ids and names"@)
                .with_text("description"@, "Names and ids only — values are never listed."@)
                .with(
                    "responses"@,
                    JsonView::object()
                        .with(
                            "200"@,
                            json_response(
                                "Every stored secret, by reference."@,
                                JsonView::object()
                                    .with_text("type"@, "array"@)
                                    .with("items"@, schema_ref("SecretRef"@)),
                            ),
                        )
                        .with("401"@, empty_response("No session."@))
                        .with("403"@, empty_response("Not an admin."@)),
                ),
        )
}

/// `/secret/get`.
pub open spec fn path_secret_get() -> JsonView {
    JsonView::object()
        .with(
            "post"@,
            JsonView::object()
                .with("tags"@, one("secrets"@))
                .with_text("summary"@, "Read one secret, masked"@)
                .with_text(
                    "description"@,
                    "Secret values come back as the placeholder `<hidden>`; writing that \
                     placeholder back leaves the stored value alone, so a client can round-trip \
                     an item it cannot read."@,
                )
                .with("requestBody"@, secret_id_body())
                .with(
                    "responses"@,
                    JsonView::object()
                        .with(
                            "200"@,
                            json_response(
                                "The secret item, with values masked."@,
                                schema_ref("Item"@),
                            ),
                        )
                        .with("401"@, empty_response("No session."@))
                        .with("403"@, empty_response("Not an admin."@))
                        .with(
                            "404"@,
                            json_response("No such secret."@, schema_ref("ProcessResult"@)),
                        ),
                ),
        )
}

/// `/secret/edit`.
pub open spec fn path_secret_edit() -> JsonView {
    JsonView::object()
        .with(
            "post"@,
            JsonView::object()
                .with("tags"@, one("secrets"@))
                .with_text("summary"@, "Create or update a secret"@)
                .with_text(
                    "description"@,
                    "Merge semantics: fields the caller omits keep their stored values, and a \
                     field sent as `<hidden>` is left untouched."@,
                )
                .with("requestBody"@, body(true, "application/json"@, schema_ref("Item"@)))
                .with(
                    "responses"@,
                    JsonView::object()
                        .with(
                            "200"@,
                            json_response(
                                "`data.id` carries the stored id."@,
                                schema_ref("ProcessResult"@),
                            ),
                        )
                        .with(
                            "400"@,
                            empty_response("Body malformed, or not read within the deadline."@),
                        )
                        .with("401"@, empty_response("No session."@))
                        .with("403"@, empty_response("Not an admin."@))
                        .with("413"@, empty_response("Body over `--max-payload`."@)),
                ),
        )
}

/// `/secret/del`.
pub open spec fn path_secret_del() -> JsonView {
    JsonView::object()
        .with(
            "post"@,
            JsonView::object()
                .with("tags"@, one("secrets"@))
                .with_text("summary"@, "Delete a secret"@)
                .with("requestBody"@, secret_id_body())
                .with(
                    "responses"@,
                    JsonView::object()
                        .with("200"@, json_response("Removed."@, schema_ref("ProcessResult"@)))
                        .with("401"@, empty_response("No session."@))
                        .with("403"@, empty_response("Not an admin."@))
                        .with(
                            "404"@,
                            json_response(
                                "There was nothing to remove."@,
                                schema_ref("ProcessResult"@),
                            ),
                        ),
                ),
        )
}

/// What is said of an endpoint, with a note behind it.
pub open spec fn noted(said: Seq<char>, note: Seq<char>) -> Seq<char> {
    if said.len() == 0 {
        note
    } else {
        said + " "@ + note
    }
}

/// One of the two endpoints that serve this document. Whether they need a
/// session is a setting of the deployment, and the document says which way it
/// is set.
pub open spec fn path_meta(
    summary: Seq<char>,
    said: Seq<char>,
    served: JsonView,
    admin_only: bool,
) -> JsonView {
    let head = JsonView::object().with("tags"@, one("meta"@)).with_text("summary"@, summary);
    let op = if said.len() > 0 {
        head.with_text("description"@, said)
    } else {
        head
    };
    let responses = JsonView::object().with("200"@, served);
    JsonView::object().with(
        "get"@,
        if admin_only {
            op.with(
                "responses"@,
                responses.with("401"@, empty_response("No session."@)).with(
                    "403"@,
                    empty_response("Not an admin."@),
                ),
            ).with_text(
                "description"@,
                noted(
                    said,
                    "This deployment runs with `--openapi-private`, so the description \
                     is served to administrators only."@,
                ),
            )
        } else {
            op.with("responses"@, responses).with("security"@, session_optional()).with_text(
                "description"@,
                noted(said, "Served without a session."@),
            )
        },
    )
}

/// This document.
pub open spec fn path_openapi(admin_only: bool) -> JsonView {
    path_meta(
        "This document"@,
        Seq::empty(),
        json_response("The OpenAPI document for this deployment."@, typed("object"@)),
        admin_only,
    )
}

/// This document, rendered.
pub open spec fn path_docs(admin_only: bool) -> JsonView {
    path_meta(
        "This document, rendered"@,
        "Server-rendered HTML — no scripts and no external assets, so it works offline."@,
        returned("The rendering."@, "text/html"@, typed("string"@)),
        admin_only,
    )
}

/// Core's own endpoints.
pub open spec fn core_paths(collections: Seq<Seq<char>>, admin_only: bool) -> JsonView {
    JsonView::object()
        .with("/is_logged_in"@, path_is_logged_in())
        .with("/login"@, path_login())
        .with("/auth/providers"@, path_auth_providers())
        .with("/auth/config"@, path_auth_config())
        .with("/auth/config/forget"@, path_auth_config_forget())
        .with("/auth/{provider}/start"@, path_auth_provider_start())
        .with("/auth/{provider}/callback"@, path_auth_provider_callback())
        .with("/logout"@, path_logout())
        .with("/register"@, path_register())
        .with("/gen_otp"@, path_gen_otp())
        .with("/itm/list"@, path_itm_list(collections))
        .with("/itm/edit"@, path_itm_edit(collections))
        .with("/itm/del"@, path_itm_del(collections))
        .with("/setting/list"@, path_setting_list())
        .with("/setting/edit"@, path_setting_edit())
        .with("/setting/gcal_auth"@, path_setting_gcal_auth())
        .with("/setting/gcal_auth_end"@, path_setting_gcal_auth_end())
        .with("/system/update"@, path_system_update())
        .with("/secret/list"@, path_secret_list())
        .with("/secret/get"@, path_secret_get())
        .with("/secret/edit"@, path_secret_edit())
        .with("/secret/del"@, path_secret_del())
        .with(OPENAPI_PATH@, path_openapi(admin_only))
        .with(DOCS_PATH@, path_docs(admin_only))
}

// ---------------------------------------------------------------------------
// Schemas
// ---------------------------------------------------------------------------

/// `Item`.
pub open spec fn schema_item() -> JsonView {
    JsonView::object()
        .with_text("type"@, "object"@)
        .with_text(
            "description"@,
            "The universal record. Values live in per-type maps rather than named fields, so a \
             collection's shape is a convention rather than a schema."@,
        )
        .with(
            "properties"@,
            JsonView::object()
                .with(
                    "id"@,
                    JsonView::object()
                        .with_text("type"@, "integer"@)
                        .with_text("format"@, "int64"@)
                        .with("minimum"@, number("0"@))
                        .with_text(
                            "description"@,
                            "18446744073709551615 (`u64::MAX`) means unset — on a write, \
                             \"allocate one\"."@,
                        ),
                )
                .with("strs"@, str_map())
                .with(
                    "strstrs"@,
                    JsonView::object()
                        .with_text("type"@, "object"@)
                        .with("additionalProperties"@, str_map())
                        .with_text("description"@, "Named groups of string pairs."@),
                )
                .with(
                    "strids"@,
                    JsonView::object()
                        .with_text("type"@, "object"@)
                        .with(
                            "additionalProperties"@,
                            JsonView::object()
                                .with_text("type"@, "array"@)
                                .with("items"@, u64_schema()),
                        )
                        .with_text("description"@, "Named lists of ids."@),
                )
                .with(
                    "bools"@,
                    JsonView::object()
                        .with_text("type"@, "object"@)
                        .with("additionalProperties"@, typed("boolean"@)),
                )
                .with(
                    "u64s"@,
                    JsonView::object()
                        .with_text("type"@, "object"@)
                        .with("additionalProperties"@, u64_schema()),
                )
                .with(
                    "ids"@,
                    JsonView::object()
                        .with_text("type"@, "object"@)
                        .with("additionalProperties"@, u64_schema()),
                )
                .with("root_node"@, schema_ref("ItemDataNode"@)),
        )
}

/// `ItemDataNode`.
pub open spec fn schema_item_data_node() -> JsonView {
    JsonView::object()
        .with_text("type"@, "object"@)
        .with_text("description"@, "Tree-shaped item payload."@)
        .with(
            "properties"@,
            JsonView::object()
                .with("value"@, typed("string"@))
                .with("value_type"@, typed("string"@))
                .with("writable"@, typed("boolean"@))
                .with("action"@, typed("string"@))
                .with(
                    "subnodes"@,
                    JsonView::object()
                        .with_text("type"@, "object"@)
                        .with("additionalProperties"@, schema_ref("ItemDataNode"@)),
                ),
        )
}

/// `ListResult`.
pub open spec fn schema_list_result() -> JsonView {
    JsonView::object()
        .with_text("type"@, "object"@)
        .with(
            "properties"@,
            JsonView::object()
                .with(
                    "map"@,
                    JsonView::object()
                        .with_text("type"@, "object"@)
                        .with("additionalProperties"@, schema_ref("Item"@))
                        .with_text(
                            "description"@,
                            "Items on this page, keyed by their id rendered as a string."@,
                        ),
                )
                .with(
                    "total_count"@,
                    JsonView::object()
                        .with_text("type"@, "integer"@)
                        .with_text("format"@, "int64"@)
                        .with("minimum"@, number("0"@))
                        .with_text(
                            "description"@,
                            "Matches before pagination. Counted on the database query, so \
                             plugin list filters — which run per page — do not reduce it."@,
                        ),
                ),
        )
        .with(
            "required"@,
            JsonView::array()
                .and_text("map"@)
                .and_text("total_count"@),
        )
}

/// `ProcessResult`.
pub open spec fn schema_process_result() -> JsonView {
    JsonView::object()
        .with_text("type"@, "object"@)
        .with_text(
            "description"@,
            "Outcome envelope. Carried by 200 responses as well as failures, so `succeeded` \
             has to be read."@,
        )
        .with(
            "properties"@,
            JsonView::object()
                .with("succeeded"@, typed("boolean"@))
                .with("error"@, typed_as("string"@, "Empty when `succeeded` is true."@))
                .with("data"@, str_map()),
        )
        .with(
            "required"@,
            JsonView::array()
                .and_text("succeeded"@)
                .and_text("error"@)
                .and_text("data"@),
        )
}

/// `DetailedLoginUser`.
pub open spec fn schema_detailed_login_user() -> JsonView {
    JsonView::object()
        .with_text("type"@, "object"@)
        .with(
            "properties"@,
            JsonView::object()
                .with(
                    "username"@,
                    typed_as("string"@, "The session's email. Empty when there is no session."@),
                )
                .with("id"@, u64_schema())
                .with(
                    "role"@,
                    JsonView::object()
                        .with_text("type"@, "array"@)
                        .with("items"@, typed("string"@))
                        .with_text(
                            "description"@,
                            "Roles held, from the `role_is_*` flags that are set to true."@,
                        ),
                )
                .with("site_name"@, typed("string"@))
                .with("site_logo"@, typed("string"@))
                .with("licensed_to"@, typed("string"@))
                .with("params"@, str_map()),
        )
        .with(
            "required"@,
            JsonView::array()
                .and_text("username"@)
                .and_text("id"@)
                .and_text("role"@)
                .and_text("site_name"@)
                .and_text("site_logo"@)
                .and_text("licensed_to"@)
                .and_text("params"@),
        )
}

/// `SecretRef`.
pub open spec fn schema_secret_ref() -> JsonView {
    JsonView::object()
        .with_text("type"@, "object"@)
        .with(
            "properties"@,
            JsonView::object()
                .with("id"@, u64_schema())
                .with("name"@, typed("string"@)),
        )
        .with(
            "required"@,
            JsonView::array()
                .and_text("id"@)
                .and_text("name"@),
        )
}

/// The types that the endpoints exchange.
pub open spec fn schemas() -> JsonView {
    JsonView::object()
        .with("Item"@, schema_item())
        .with("ItemDataNode"@, schema_item_data_node())
        .with("ListResult"@, schema_list_result())
        .with("ProcessResult"@, schema_process_result())
        .with("DetailedLoginUser"@, schema_detailed_login_user())
        .with("SecretRef"@, schema_secret_ref())
}

} // verus!
