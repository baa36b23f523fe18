//! Building the description of the API: the types that the endpoints exchange.
use crate::json::Json;
use crate::server::openapi::doc;
use crate::server::openapi::paths::{number, schema_ref, str_map, typed, typed_as, u64_schema};
use vstd::prelude::*;

verus! {

fn schema_item() -> (r: Json)
    ensures
        r@ == doc::schema_item(),
{
    Json::object()
        .with_text("type", "object")
        .with_text(
            "description",
            "The universal record. Values live in per-type maps rather than named fields, so a \
             collection's shape is a convention rather than a schema.",
        )
        .with(
            "properties",
            Json::object()
                .with(
                    "id",
                    Json::object()
                        .with_text("type", "integer")
                        .with_text("format", "int64")
                        .with("minimum", number("0"))
                        .with_text(
                            "description",
                            "18446744073709551615 (`u64::MAX`) means unset — on a write, \
                             \"allocate one\".",
                        ),
                )
                .with("strs", str_map())
                .with(
                    "strstrs",
                    Json::object()
                        .with_text("type", "object")
                        .with("additionalProperties", str_map())
                        .with_text("description", "Named groups of string pairs."),
                )
                .with(
                    "strids",
                    Json::object()
                        .with_text("type", "object")
                        .with(
                            "additionalProperties",
                            Json::object()
                                .with_text("type", "array")
                                .with("items", u64_schema()),
                        )
                        .with_text("description", "Named lists of ids."),
                )
                .with(
                    "bools",
                    Json::object()
                        .with_text("type", "object")
                        .with("additionalProperties", typed("boolean")),
                )
                .with(
                    "u64s",
                    Json::object()
                        .with_text("type", "object")
                        .with("additionalProperties", u64_schema()),
                )
                .with(
                    "ids",
                    Json::object()
                        .with_text("type", "object")
                        .with("additionalProperties", u64_schema()),
                )
                .with("root_node", schema_ref("ItemDataNode")),
        )
}

fn schema_item_data_node() -> (r: Json)
    ensures
        r@ == doc::schema_item_data_node(),
{
    Json::object()
        .with_text("type", "object")
        .with_text("description", "Tree-shaped item payload.")
        .with(
            "properties",
            Json::object()
                .with("value", typed("string"))
                .with("value_type", typed("string"))
                .with("writable", typed("boolean"))
                .with("action", typed("string"))
                .with(
                    "subnodes",
                    Json::object()
                        .with_text("type", "object")
                        .with("additionalProperties", schema_ref("ItemDataNode")),
                ),
        )
}

fn schema_list_result() -> (r: Json)
    ensures
        r@ == doc::schema_list_result(),
{
    Json::object()
        .with_text("type", "object")
        .with(
            "properties",
            Json::object()
                .with(
                    "map",
                    Json::object()
                        .with_text("type", "object")
                        .with("additionalProperties", schema_ref("Item"))
                        .with_text(
                            "description",
                            "Items on this page, keyed by their id rendered as a string.",
                        ),
                )
                .with(
                    "total_count",
                    Json::object()
                        .with_text("type", "integer")
                        .with_text("format", "int64")
                        .with("minimum", number("0"))
                        .with_text(
                            "description",
                            "Matches before pagination. Counted on the database query, so \
                             plugin list filters — which run per page — do not reduce it.",
                        ),
                ),
        )
        .with(
            "required",
            Json::array()
                .and_text("map")
                .and_text("total_count"),
        )
}

fn schema_process_result() -> (r: Json)
    ensures
        r@ == doc::schema_process_result(),
{
    Json::object()
        .with_text("type", "object")
        .with_text(
            "description",
            "Outcome envelope. Carried by 200 responses as well as failures, so `succeeded` \
             has to be read.",
        )
        .with(
            "properties",
            Json::object()
                .with("succeeded", typed("boolean"))
                .with("error", typed_as("string", "Empty when `succeeded` is true."))
                .with("data", str_map()),
        )
        .with(
            "required",
            Json::array()
                .and_text("succeeded")
                .and_text("error")
                .and_text("data"),
        )
}

fn schema_detailed_login_user() -> (r: Json)
    ensures
        r@ == doc::schema_detailed_login_user(),
{
    Json::object()
        .with_text("type", "object")
        .with(
            "properties",
            Json::object()
                .with(
                    "username",
                    typed_as("string", "The session's email. Empty when there is no session."),
                )
                .with("id", u64_schema())
                .with(
                    "role",
                    Json::object()
                        .with_text("type", "array")
                        .with("items", typed("string"))
                        .with_text(
                            "description",
                            "Roles held, from the `role_is_*` flags that are set to true.",
                        ),
                )
                .with("site_name", typed("string"))
                .with("site_logo", typed("string"))
                .with("licensed_to", typed("string"))
                .with("params", str_map()),
        )
        .with(
            "required",
            Json::array()
                .and_text("username")
                .and_text("id")
                .and_text("role")
                .and_text("site_name")
                .and_text("site_logo")
                .and_text("licensed_to")
                .and_text("params"),
        )
}

fn schema_secret_ref() -> (r: Json)
    ensures
        r@ == doc::schema_secret_ref(),
{
    Json::object()
        .with_text("type", "object")
        .with(
            "properties",
            Json::object()
                .with("id", u64_schema())
                .with("name", typed("string")),
        )
        .with(
            "required",
            Json::array()
                .and_text("id")
                .and_text("name"),
        )
}

/// The types that the endpoints exchange.
pub fn schemas() -> (r: Json)
    ensures
        r@ == doc::schemas(),
{
    Json::object()
        .with("Item", schema_item())
        .with("ItemDataNode", schema_item_data_node())
        .with("ListResult", schema_list_result())
        .with("ProcessResult", schema_process_result())
        .with("DetailedLoginUser", schema_detailed_login_user())
        .with("SecretRef", schema_secret_ref())
}

} // verus!
