//! Host-side logic of the script runtime: converting script values into SQL
//! parameters, route methods, worker counts and the shape of dispatch replies.

use crate::records::{SqlValue, UserPrincipal};
use crate::sql::SqlValueView;
use crate::text::{nat_decimal, push_nat_decimal, str_eq};
use vstd::string::*;
use vstd::prelude::*;

verus! {

/// Failure of a script-dispatched request: 412 for a failed precondition,
/// 500 for anything the script or the runtime raised.
#[derive(Debug)]
pub enum JsResponseError {
    Precondition(String),
    Internal(String),
}

impl JsResponseError {
    /// HTTP status of the error.
    pub fn status(&self) -> (r: u16)
        ensures
            r == (if self is Precondition { 412u16 } else { 500u16 }),
    {
        match self {
            JsResponseError::Precondition(_) => 412,
            JsResponseError::Internal(_) => 500,
        }
    }
}

/// A JSON number as a script passes it: a negative integer, a non-negative
/// integer, or a float held as its IEEE-754 bits.
#[derive(Debug, Clone, Copy, PartialEq, Eq, Structural)]
pub enum JsonNumber {
    NegInt(i64),
    PosInt(u64),
    Float(u64),
}

/// A JSON value as a script passes it to a host function.
#[derive(Debug)]
pub enum JsonValue {
    Null,
    Bool(bool),
    Number(JsonNumber),
    String(String),
    Array(Vec<JsonValue>),
    Object(Vec<(String, JsonValue)>),
}

pub const OBJECT_UNSUPPORTED: &'static str = "Object unsupported";

pub const ARRAY_UNSUPPORTED: &'static str = "Array unsupported";

/// The SQL parameter a JSON value binds to: null, booleans as 0 or 1, text,
/// integers (a non-negative one beyond `i64` wraps as `as` does), floats as
/// reals; arrays and objects are refused.
pub open spec fn param_of(v: JsonValue) -> Result<SqlValueView, &'static str> {
    match v {
        JsonValue::Object(_) => Err(OBJECT_UNSUPPORTED),
        JsonValue::Array(_) => Err(ARRAY_UNSUPPORTED),
        JsonValue::Null => Ok(SqlValueView::Null),
        JsonValue::Bool(b) => Ok(SqlValueView::Integer(if b { 1 } else { 0 })),
        JsonValue::String(s) => Ok(SqlValueView::Text(s@)),
        JsonValue::Number(JsonNumber::NegInt(i)) => Ok(SqlValueView::Integer(i)),
        JsonValue::Number(JsonNumber::PosInt(u)) => Ok(SqlValueView::Integer(u as i64)),
        JsonValue::Number(JsonNumber::Float(bits)) => Ok(SqlValueView::Real(bits)),
    }
}

/// Converts a script's JSON argument into a SQL parameter.
pub fn json_value_to_param(value: JsonValue) -> (r: Result<SqlValue, &'static str>)
    ensures
        match (r, param_of(value)) {
            (Ok(p), Ok(q)) => p@ == q,
            (Err(e), Err(f)) => e == f,
            _ => false,
        },
{
    match value {
        JsonValue::Object(_) => Err(OBJECT_UNSUPPORTED),
        JsonValue::Array(_) => Err(ARRAY_UNSUPPORTED),
        JsonValue::Null => Ok(SqlValue::Null),
        JsonValue::Bool(b) => Ok(SqlValue::Integer(if b { 1 } else { 0 })),
        JsonValue::String(s) => Ok(SqlValue::Text(s)),
        JsonValue::Number(JsonNumber::NegInt(i)) => Ok(SqlValue::Integer(i)),
        JsonValue::Number(JsonNumber::PosInt(u)) => Ok(SqlValue::Integer(u as i64)),
        JsonValue::Number(JsonNumber::Float(bits)) => Ok(SqlValue::Real(bits)),
    }
}

/// HTTP methods a script may route.
#[derive(Debug, Clone, Copy, PartialEq, Eq, Structural)]
pub enum HttpMethod {
    Delete,
    Get,
    Head,
    Options,
    Patch,
    Post,
    Put,
    Trace,
}

/// The method an upper-case method name denotes.
pub open spec fn method_of(s: Seq<char>) -> Option<HttpMethod> {
    if s == "DELETE"@ {
        Some(HttpMethod::Delete)
    } else if s == "GET"@ {
        Some(HttpMethod::Get)
    } else if s == "HEAD"@ {
        Some(HttpMethod::Head)
    } else if s == "OPTIONS"@ {
        Some(HttpMethod::Options)
    } else if s == "PATCH"@ {
        Some(HttpMethod::Patch)
    } else if s == "POST"@ {
        Some(HttpMethod::Post)
    } else if s == "PUT"@ {
        Some(HttpMethod::Put)
    } else if s == "TRACE"@ {
        Some(HttpMethod::Trace)
    } else {
        None
    }
}

/// Upper-case form of a text, as `str::to_uppercase` computes it.
pub uninterp spec fn uppercase_of(s: Seq<char>) -> Seq<char>;

/// Relies on `str::to_uppercase`: the result depends on the characters alone.
#[verifier::external_body]
fn to_uppercase(s: &str) -> (r: String)
    ensures
        r@ == uppercase_of(s@),
{
    s.to_uppercase()
}

/// The method an already upper-cased name denotes.
pub fn method_from_uppercase(name: &str) -> (r: Option<HttpMethod>)
    ensures
        r == method_of(name@),
{
    if str_eq(name, "DELETE") {
        Some(HttpMethod::Delete)
    } else if str_eq(name, "GET") {
        Some(HttpMethod::Get)
    } else if str_eq(name, "HEAD") {
        Some(HttpMethod::Head)
    } else if str_eq(name, "OPTIONS") {
        Some(HttpMethod::Options)
    } else if str_eq(name, "PATCH") {
        Some(HttpMethod::Patch)
    } else if str_eq(name, "POST") {
        Some(HttpMethod::Post)
    } else if str_eq(name, "PUT") {
        Some(HttpMethod::Put)
    } else if str_eq(name, "TRACE") {
        Some(HttpMethod::Trace)
    } else {
        None
    }
}

/// The method a script's `addRoute` names, in any case; `None` for a method
/// that cannot be routed.
pub fn route_method(name: &str) -> (r: Option<HttpMethod>)
    ensures
        r == method_of(uppercase_of(name@)),
{
    let upper = to_uppercase(name);
    method_from_uppercase(upper.as_str())
}

/// Number of isolate workers: the configured count, else the detected
/// parallelism, else one.
pub fn worker_count(configured: Option<usize>, detected: Option<usize>) -> (r: usize)
    ensures
        r == match configured {
            Some(n) => n,
            None => match detected {
                Some(d) => d,
                None => 1,
            },
        },
{
    match configured {
        Some(n) => n,
        None => match detected {
            Some(d) => d,
            None => 1,
        },
    }
}

/// The user as a script sees it.
#[derive(Debug)]
pub struct JsUser {
    pub id: String,
    pub email: String,
    pub csrf: String,
}

/// The script's view of a principal: its id, email and CSRF token.
pub fn js_user(u: &UserPrincipal) -> (r: JsUser)
    ensures
        r.id == u.id && r.email == u.email && r.csrf == u.csrf_token,
{
    JsUser { id: u.id.clone(), email: u.email.clone(), csrf: u.csrf_token.clone() }
}

/// A script handler's reply: every part optional.
#[derive(Debug)]
pub struct JsResponse {
    pub headers: Option<Vec<(String, String)>>,
    pub status: Option<u16>,
    pub body: Option<Vec<u8>>,
}

/// Status, headers and body of the HTTP response to a script's reply: 200,
/// no headers and an empty body where the reply leaves them out.
pub fn response_parts(reply: JsResponse) -> (r: (u16, Vec<(String, String)>, Vec<u8>))
    ensures
        r.0 == match reply.status {
            Some(s) => s,
            None => 200u16,
        },
        r.1@ == match reply.headers {
            Some(h) => h@,
            None => Seq::<(String, String)>::empty(),
        },
        r.2@ == match reply.body {
            Some(b) => b@,
            None => Seq::<u8>::empty(),
        },
{
    let status = match reply.status {
        Some(s) => s,
        None => 200,
    };
    let headers = match reply.headers {
        Some(h) => h,
        None => Vec::new(),
    };
    let body = match reply.body {
        Some(b) => b,
        None => Vec::new(),
    };
    (status, headers, body)
}

/// Message of a missing host-function argument: `Range err <i> > <len>`.
pub open spec fn range_error(i: nat, len: nat) -> Seq<char> {
    "Range err "@ + nat_decimal(i) + " > "@ + nat_decimal(len)
}

/// The `i`-th argument of a host-function call.
pub fn arg_at(args: &Vec<JsonValue>, i: usize) -> (r: Result<&JsonValue, String>)
    ensures
        i < args@.len() ==> (r matches Ok(a) && *a == args@[i as int]),
        i >= args@.len() ==> (r matches Err(m) && m@ == range_error(i as nat, args@.len())),
{
    if i < args.len() {
        Ok(&args[i])
    } else {
        let mut m = String::new();
        m.append("Range err ");
        push_nat_decimal(&mut m, i as u64);
        m.append(" > ");
        push_nat_decimal(&mut m, args.len() as u64);
        assert(m@ =~= range_error(i as nat, args@.len()));
        Err(m)
    }
}

/// Options of server start-up.
#[derive(Debug)]
pub struct InitArgs {
    pub dev: bool,
    /// Isolate workers to start; by default the detected parallelism.
    pub js_runtime_threads: Option<usize>,
}

impl Default for InitArgs {
    fn default() -> (r: InitArgs)
        ensures
            !r.dev && r.js_runtime_threads is None,
    {
        InitArgs { dev: false, js_runtime_threads: None }
    }
}

} // verus!
