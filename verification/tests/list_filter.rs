//! What a client may filter and sort a listing by, and what it is shown.
use isabelle_core::item::Item;
use isabelle_core::server::list_filter::{
    field_is_allowed, redact_credentials, validate_client_filter, MAX_DEPTH, MAX_SET_OPERANDS,
};
use proptest::arbitrary::any;
use proptest::strategy::{BoxedStrategy, Just, Strategy, Union, ValueTree};
use proptest::test_runner::TestRunner;
use serde_json::Value;

fn stored_user() -> Item {
    let mut itm = Item::new();
    itm.id = 7;
    itm.set_str("login", "alice");
    itm.set_str("email", "alice@example.org");
    itm.set_str("password", "$argon2id$v=19$m=19456,t=2,p=1$c2FsdA$aGFzaA");
    itm.set_str("otp", "123456789");
    itm.set_str("salt", "c2FsdA");
    itm.set_str("api_key", "ak_live_1");
    itm.set_u64("otp_expires_at", 1_800_000_000);
    itm.set_u64("otp_attempts", 0);
    itm.set_bool("role_is_admin", true);
    itm.set_bool("role_is_active", true);
    itm
}

#[test]
fn credentials_do_not_survive_redaction() {
    let mut itm = stored_user();
    redact_credentials(&mut itm);
    for gone in ["password", "otp", "salt", "api_key"] {
        assert!(
            !itm.strs.contains_key(gone),
            "strs.{} was still served",
            gone
        );
    }
    assert!(!itm.u64s.contains_key("otp_expires_at"));
    assert!(!itm.u64s.contains_key("otp_attempts"));
}

#[test]
fn ordinary_fields_survive_redaction() {
    let mut itm = stored_user();
    redact_credentials(&mut itm);
    assert_eq!(itm.id, 7);
    assert_eq!(itm.safe_str("login", ""), "alice");
    assert_eq!(itm.safe_str("email", ""), "alice@example.org");
    assert!(itm.safe_bool("role_is_admin", false));
    assert!(itm.safe_bool("role_is_active", false));
}

#[test]
fn what_cannot_be_filtered_on_cannot_be_read() {
    for field in [
        "password",
        "passwd",
        "secret_value",
        "token",
        "salt",
        "otp",
        "api_key",
        "apikey",
        "credential",
    ] {
        assert!(
            !field_is_allowed(&format!("strs.{}", field)),
            "{} is filterable",
            field
        );
        let mut itm = Item::new();
        itm.set_str(field, "x");
        redact_credentials(&mut itm);
        assert!(
            itm.strs.is_empty(),
            "{} is filter-guarded but still served",
            field
        );
    }
}

#[test]
fn status_flags_that_merely_mention_keys_are_kept() {
    let mut itm = Item::new();
    itm.set_bool("engine_key_status", true);
    itm.set_bool("ssh_keyless", true);
    redact_credentials(&mut itm);
    assert_eq!(itm.bools.len(), 2);
}

#[test]
fn membership_takes_a_list_of_scalars_and_nothing_else() {
    assert!(validate_client_filter("{\"ids.workspace\":{\"$in\":[1,\"a\",true]}}").is_ok());
    assert!(
        validate_client_filter("{\"ids.workspace\":{\"$in\":3}}").is_err(),
        "a bare scalar is not a list"
    );
    assert!(
        validate_client_filter("{\"ids.workspace\":{\"$in\":[{\"$ne\":1}]}}").is_err(),
        "a document inside the list would smuggle an operator back in"
    );
    assert!(
        validate_client_filter("{\"ids.workspace\":{\"$in\":[[1,2]]}}").is_err(),
        "nested arrays are not scalars either"
    );
}

#[test]
fn a_membership_list_is_capped() {
    let ids: Vec<String> = (0..MAX_SET_OPERANDS + 1).map(|i| i.to_string()).collect();
    let filter = format!("{{\"ids.workspace\":{{\"$in\":[{}]}}}}", ids.join(","));
    assert!(validate_client_filter(&filter).is_err());
    let fewer: Vec<String> = (0..MAX_SET_OPERANDS).map(|i| i.to_string()).collect();
    let filter = format!("{{\"ids.workspace\":{{\"$in\":[{}]}}}}", fewer.join(","));
    assert!(validate_client_filter(&filter).is_ok());
}

#[test]
fn filters_built_by_the_ui_are_accepted() {
    assert!(validate_client_filter("").is_ok());
    assert!(validate_client_filter("{\"ids.workspace\":3}").is_ok());
    assert!(validate_client_filter("{\"ids.workspace\":{\"$in\":[1,2,3]}}").is_ok());
    assert!(
        validate_client_filter("{\"strids.workspaces\":{\"$in\":[4]}}").is_ok(),
        "a device names its projects as a list"
    );
    assert!(validate_client_filter("{\"u64s.time\":{\"$gte\":1700000000}}").is_ok());
    assert!(validate_client_filter(
        "{\"$and\":[{\"u64s.time\":{\"$gte\":1700000000}},\
         {\"u64s.time\":{\"$lt\":1700086400}},{\"ids.user\":7}]}"
    )
    .is_ok());
    assert!(validate_client_filter("{ \"$and\": [ { \"ids.user\": 7 } ] }").is_ok());
}

#[test]
fn otp_probing_is_rejected() {
    assert!(validate_client_filter("{\"strs.otp\":{\"$regex\":\"^1\"}}").is_err());
    assert!(validate_client_filter("{\"strs.otp\":\"123456789\"}").is_err());
    assert!(validate_client_filter("{\"strs.otp\":{\"$gte\":\"5\"}}").is_err());
}

#[test]
fn credential_fields_are_rejected_everywhere() {
    for field in [
        "strs.password",
        "strs.salt",
        "strs.deploy_password",
        "strs.ts_git_password",
        "strs.bublik_ssh_password",
        "strs.ai_claude_api_key",
        "strs.delta_token",
        "strs.horizon_api_token",
        "strs.otp_expires_at",
    ] {
        let filter = format!("{{\"{}\":{{\"$gte\":\"a\"}}}}", field);
        assert!(
            validate_client_filter(&filter).is_err(),
            "{} should be rejected",
            field
        );
        assert!(!field_is_allowed(field), "{} should be rejected", field);
    }
}

#[test]
fn sort_keys_used_by_the_ui_are_accepted() {
    for key in ["strs.name", "u64s.time", "id"] {
        assert!(field_is_allowed(key), "{} should be allowed", key);
    }
}

#[test]
fn key_lookalike_fields_stay_filterable() {
    assert!(field_is_allowed("strs.engine_key_status"));
    assert!(field_is_allowed("bools.ssh_keyless"));
    assert!(field_is_allowed("bools.installed_keyless"));
}

#[test]
fn case_does_not_evade_the_field_rule() {
    assert!(!field_is_allowed("strs.PassWord"));
    assert!(!field_is_allowed("strs.OTP"));
}

#[test]
fn evaluation_operators_are_rejected() {
    for filter in [
        "{\"$where\":\"this.strs.otp[0]=='1'\"}",
        "{\"strs.name\":{\"$regex\":\"^a\"}}",
        "{\"$expr\":{\"$eq\":[\"$strs.name\",\"a\"]}}",
        "{\"strs.name\":{\"$function\":{\"body\":\"f\"}}}",
        "{\"$text\":{\"$search\":\"a\"}}",
        "{\"strs.name\":{\"$exists\":true}}",
        "{\"strs.name\":{\"$mod\":[2,0]}}",
        "{\"$nor\":[{\"ids.user\":1}]}",
    ] {
        assert!(
            validate_client_filter(filter).is_err(),
            "{} should be rejected",
            filter
        );
    }
}

#[test]
fn membership_does_not_reopen_credential_fields() {
    for filter in [
        "{\"strs.otp\":{\"$in\":[\"1\",\"2\"]}}",
        "{\"strs.password\":{\"$nin\":[\"a\"]}}",
        "{\"$or\":[{\"strs.api_key\":{\"$in\":[\"k\"]}}]}",
    ] {
        assert!(
            validate_client_filter(filter).is_err(),
            "{} should be rejected",
            filter
        );
    }
}

#[test]
fn combinators_do_not_smuggle_denied_fields() {
    assert!(validate_client_filter(
        "{\"$and\":[{\"ids.user\":1},{\"$or\":[{\"strs.password\":{\"$gt\":\"a\"}}]}]}"
    )
    .is_err());
}

#[test]
fn malformed_input_is_rejected() {
    assert!(validate_client_filter("not json").is_err());
    assert!(validate_client_filter("[]").is_err());
    assert!(validate_client_filter("\"str\"").is_err());
    assert!(validate_client_filter("{\"$and\":{}}").is_err());
    assert!(validate_client_filter("{\"$and\":[]}").is_err());
    assert!(validate_client_filter("{\"$strs.name\":1}").is_err());
    assert!(!field_is_allowed("strs..name"));
    assert!(!field_is_allowed(""));
}

#[test]
fn deep_nesting_is_rejected() {
    let mut filter = "{\"ids.user\":1}".to_string();
    for _ in 0..MAX_DEPTH + 1 {
        filter = format!("{{\"$and\":[{}]}}", filter);
    }
    assert!(validate_client_filter(&filter).is_err());
}

fn one_of(names: &[(u32, &str)]) -> BoxedStrategy<String> {
    Union::new_weighted(
        names
            .iter()
            .map(|(w, n)| (*w, Just(n.to_string()).boxed()))
            .collect(),
    )
    .boxed()
}

fn field_name() -> BoxedStrategy<String> {
    one_of(&[
        (6, "ids.user"),
        (6, "ids.workspace"),
        (6, "u64s.time"),
        (6, "strs.name"),
        (3, "bools.ssh_keyless"),
        (3, "strs.engine_key_status"),
        (2, "strs.password"),
        (1, "strs.PassWord"),
        (1, "strs.salt"),
        (2, "strs.otp"),
        (1, "strs.deploy_password"),
        (1, "strs.ai_claude_api_key"),
        (1, "strs.delta_token"),
        (1, "$where"),
        (1, "strs..name"),
        (1, ""),
    ])
}

fn scalar() -> BoxedStrategy<Value> {
    Union::new(vec![
        any::<i32>().prop_map(Value::from).boxed(),
        any::<bool>().prop_map(Value::Bool).boxed(),
        "[a-z]{0,6}".prop_map(Value::String).boxed(),
        Just(Value::Null).boxed(),
    ])
    .boxed()
}

fn leaf_op() -> BoxedStrategy<String> {
    one_of(&[
        (4, "$eq"),
        (4, "$ne"),
        (4, "$gt"),
        (4, "$gte"),
        (4, "$lt"),
        (4, "$lte"),
        (2, "$regex"),
        (2, "$where"),
        (2, "$in"),
        (2, "$exists"),
        (2, "$expr"),
    ])
}

fn object(k: String, v: Value) -> Value {
    let mut m = serde_json::Map::new();
    m.insert(k, v);
    Value::Object(m)
}

fn leaf_value() -> BoxedStrategy<Value> {
    Union::new_weighted(vec![
        (5, scalar()),
        (
            5,
            (leaf_op(), scalar())
                .prop_map(|(op, v)| object(op, v))
                .boxed(),
        ),
        (
            1,
            proptest::collection::vec(scalar(), 1..3)
                .prop_map(Value::Array)
                .boxed(),
        ),
    ])
    .boxed()
}

fn filter_json() -> BoxedStrategy<Value> {
    let leaf = (field_name(), leaf_value()).prop_map(|(f, v)| object(f, v));
    leaf.prop_recursive(4, 24, 3, |inner| {
        (
            one_of(&[(4, "$and"), (4, "$or"), (1, "$nor")]),
            proptest::collection::vec(inner, 1..3),
        )
            .prop_map(|(op, branches)| object(op, Value::Array(branches)))
    })
    .boxed()
}

fn mentions_credential(node: &Value) -> bool {
    const MARKERS: [&str; 9] = [
        "password",
        "passwd",
        "secret",
        "token",
        "salt",
        "otp",
        "api_key",
        "apikey",
        "credential",
    ];
    match node {
        Value::Object(map) => map.iter().any(|(k, v)| {
            let named = !k.starts_with('$')
                && k.to_lowercase()
                    .split('.')
                    .any(|seg| MARKERS.iter().any(|m| seg.contains(m)));
            named || mentions_credential(v)
        }),
        Value::Array(items) => items.iter().any(mentions_credential),
        _ => false,
    }
}

fn uses_forbidden_operator(node: &Value) -> bool {
    const PERMITTED: [&str; 8] = ["$and", "$or", "$eq", "$ne", "$gt", "$gte", "$lt", "$lte"];
    match node {
        Value::Object(map) => map.iter().any(|(k, v)| {
            (k.starts_with('$') && !PERMITTED.contains(&k.as_str())) || uses_forbidden_operator(v)
        }),
        Value::Array(items) => items.iter().any(uses_forbidden_operator),
        _ => false,
    }
}

#[test]
fn generator_is_not_vacuous() {
    let mut runner = TestRunner::deterministic();
    let strategy = filter_json();
    let (mut accepted, mut with_operator) = (0, 0);
    const SAMPLES: usize = 400;

    for _ in 0..SAMPLES {
        let value = strategy.new_tree(&mut runner).unwrap().current();
        if validate_client_filter(&value.to_string()).is_ok() {
            accepted += 1;
            if value.to_string().contains('$') {
                with_operator += 1;
            }
        }
    }

    assert!(
        accepted * 5 >= SAMPLES,
        "only {}/{} generated filters were accepted — the property is \
         nearly vacuous",
        accepted,
        SAMPLES
    );
    assert!(
        with_operator > 0,
        "no accepted filter used an operator, so operator handling is \
         never exercised"
    );
}

#[test]
fn accepted_filters_are_harmless() {
    let mut runner = TestRunner::deterministic();
    let strategy = filter_json();
    for _ in 0..1_000 {
        let v = strategy.new_tree(&mut runner).unwrap().current();
        let filter = v.to_string();
        if validate_client_filter(&filter).is_ok() {
            assert!(
                !mentions_credential(&v),
                "accepted a filter naming a credential: {}",
                filter
            );
            assert!(
                !uses_forbidden_operator(&v),
                "accepted a filter using a forbidden operator: {}",
                filter
            );
        }
    }
}
