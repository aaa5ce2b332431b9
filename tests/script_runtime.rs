use trailbase::js::{
    arg_at, js_user, json_value_to_param, response_parts, route_method, worker_count, HttpMethod, JsResponse,
    JsResponseError, JsonNumber, JsonValue,
};
use trailbase::records::{SqlValue, UserPrincipal};

#[test]
fn json_params_convert() {
    assert!(matches!(json_value_to_param(JsonValue::Null), Ok(SqlValue::Null)));
    assert!(matches!(json_value_to_param(JsonValue::Bool(true)), Ok(SqlValue::Integer(1))));
    assert!(matches!(json_value_to_param(JsonValue::Bool(false)), Ok(SqlValue::Integer(0))));
    assert!(matches!(json_value_to_param(JsonValue::String("s".to_string())), Ok(SqlValue::Text(t)) if t == "s"));
    assert!(matches!(json_value_to_param(JsonValue::Number(JsonNumber::NegInt(-3))), Ok(SqlValue::Integer(-3))));
    assert!(matches!(json_value_to_param(JsonValue::Number(JsonNumber::PosInt(7))), Ok(SqlValue::Integer(7))));
    let bits = 1.5f64.to_bits();
    assert!(matches!(json_value_to_param(JsonValue::Number(JsonNumber::Float(bits))), Ok(SqlValue::Real(b)) if b == bits));
    assert_eq!(json_value_to_param(JsonValue::Array(vec![])).err(), Some("Array unsupported"));
    assert_eq!(json_value_to_param(JsonValue::Object(vec![])).err(), Some("Object unsupported"));
}

#[test]
fn route_methods() {
    assert_eq!(route_method("get"), Some(HttpMethod::Get));
    assert_eq!(route_method("Post"), Some(HttpMethod::Post));
    assert_eq!(route_method("DELETE"), Some(HttpMethod::Delete));
    assert_eq!(route_method("connect"), None);
}

#[test]
fn workers_and_replies() {
    assert_eq!(worker_count(Some(3), Some(8)), 3);
    assert_eq!(worker_count(None, Some(8)), 8);
    assert_eq!(worker_count(None, None), 1);
    let (status, headers, body) = response_parts(JsResponse { headers: None, status: None, body: Some(b"hello".to_vec()) });
    assert_eq!(status, 200);
    assert!(headers.is_empty());
    assert_eq!(body, b"hello".to_vec());
    assert_eq!(JsResponseError::Precondition("x".to_string()).status(), 412);
    assert_eq!(JsResponseError::Internal("x".to_string()).status(), 500);
    let u = UserPrincipal { id: "id".to_string(), uuid: vec![0; 16], email: "e@x".to_string(), csrf_token: "c".to_string() };
    let ju = js_user(&u);
    assert_eq!(ju.csrf, "c");
    assert_eq!(ju.email, "e@x");
}

#[test]
fn host_function_arguments() {
    let args = vec![JsonValue::String("SELECT 1".to_string())];
    assert!(matches!(arg_at(&args, 0), Ok(JsonValue::String(s)) if s == "SELECT 1"));
    assert_eq!(arg_at(&args, 1).err(), Some("Range err 1 > 1".to_string()));
}

#[test]
fn default_init_args() {
    let args = trailbase::js::InitArgs::default();
    assert!(!args.dev);
    assert_eq!(worker_count(args.js_runtime_threads, Some(4)), 4);
}
