//! Client-side logic of the HTTP client: request paths and query parameters,
//! the headers carrying the tokens, and when to refresh them.

use crate::text::{i64_to_decimal, int_decimal, nat_decimal, push_nat_decimal};
use vstd::prelude::*;
use vstd::string::*;

verus! {

pub const AUTH_API: &'static str = "api/auth/v1";

pub const RECORD_API: &'static str = "api/records/v1";

/// Seconds before expiry from which a token is refreshed.
pub const REFRESH_MARGIN: i64 = 60;

/// The currently logged-in user.
#[derive(Debug)]
pub struct User {
    pub sub: String,
    pub email: String,
}

/// Tokens minted by the server on login.
#[derive(Debug)]
pub struct Tokens {
    pub auth_token: String,
    pub refresh_token: Option<String>,
    pub csrf_token: Option<String>,
}

/// Claims of an auth token that the client reads.
#[derive(Debug)]
pub struct JwtClaims {
    pub sub: String,
    pub iat: i64,
    pub exp: i64,
    pub email: String,
    pub csrf_token: String,
}

/// Paging of a list request.
#[derive(Debug)]
pub struct Pagination {
    pub cursor: Option<String>,
    pub limit: Option<usize>,
}

impl Pagination {
    /// No cursor and no limit.
    pub fn new() -> (r: Pagination)
        ensures
            r.cursor is None && r.limit is None,
    {
        Pagination { cursor: None, limit: None }
    }
}

/// Errors the client raises before any request is made.
#[derive(Debug)]
pub enum ClientError {
    Precondition(&'static str),
}

pub const NOT_LOGGED_IN: &'static str = "Not logged int?";

pub const MISSING_REFRESH_TOKEN: &'static str = "Missing refresh token";

/// An id as it stands in a record URL.
pub trait RecordId: Sized {
    spec fn id_text(&self) -> Seq<char>;

    fn serialized_id(self) -> (r: String)
        ensures
            r@ == self.id_text(),
    ;
}

impl RecordId for String {
    open spec fn id_text(&self) -> Seq<char> {
        self@
    }

    fn serialized_id(self) -> (r: String) {
        self
    }
}

impl<'a> RecordId for &'a str {
    open spec fn id_text(&self) -> Seq<char> {
        (*self)@
    }

    fn serialized_id(self) -> (r: String) {
        self.to_string()
    }
}

impl RecordId for i64 {
    open spec fn id_text(&self) -> Seq<char> {
        int_decimal(*self as int)
    }

    fn serialized_id(self) -> (r: String) {
        i64_to_decimal(self)
    }
}

/// A header value that the HTTP layer accepts: tabs and characters from
/// space upwards, except DEL.
pub open spec fn header_value_ok(s: Seq<char>) -> bool {
    forall|i: int| 0 <= i < s.len() ==> (#[trigger] s[i] == '\t' || (s[i] as int >= 32 && s[i] as int != 127))
}

fn header_value_valid(s: &str) -> (r: bool)
    ensures
        r == header_value_ok(s@),
{
    let n = s.unicode_len();
    let mut i: usize = 0;
    while i < n
        invariant
            n == s@.len(),
            i <= n,
            forall|j: int| 0 <= j < i ==> (#[trigger] s@[j] == '\t' || (s@[j] as int >= 32 && s@[j] as int != 127)),
        decreases n - i,
    {
        let c = s.get_char(i);
        if !(c == '\t' || (c as u32 >= 32 && c as u32 != 127)) {
            return false;
        }
        i = i + 1;
    }
    true
}

pub open spec fn opt_header(name: Seq<char>, value: Option<String>) -> Seq<(Seq<char>, Seq<char>)> {
    match value {
        Some(v) => if header_value_ok(v@) {
            seq![(name, v@)]
        } else {
            seq![]
        },
        None => seq![],
    }
}

/// Headers of every request: the JSON content type and, with tokens, the
/// bearer token, the refresh token and the CSRF token, each left out when it
/// is no valid header value.
pub open spec fn headers_of(tokens: Option<&Tokens>) -> Seq<(Seq<char>, Seq<char>)> {
    seq![("Content-Type"@, "application/json"@)] + match tokens {
        Some(t) => (if header_value_ok(t.auth_token@) {
            seq![("Authorization"@, "Bearer "@ + t.auth_token@)]
        } else {
            seq![]
        }) + opt_header("Refresh-Token"@, t.refresh_token) + opt_header("CSRF-Token"@, t.csrf_token),
        None => seq![],
    }
}

pub open spec fn pairs_view(hs: Seq<(String, String)>) -> Seq<(Seq<char>, Seq<char>)> {
    hs.map_values(|h: (String, String)| (h.0@, h.1@))
}

fn push_opt_header(out: &mut Vec<(String, String)>, name: &str, value: &Option<String>)
    ensures
        pairs_view(final(out)@) == pairs_view(old(out)@) + opt_header(name@, *value),
{
    let ghost before = out@;
    match value {
        Some(v) => {
            if header_value_valid(v.as_str()) {
                out.push((name.to_string(), v.clone()));
                assert(pairs_view(out@) =~= pairs_view(before) + seq![(name@, v@)]);
            } else {
                assert(pairs_view(out@) =~= pairs_view(before) + Seq::<(Seq<char>, Seq<char>)>::empty());
            }
        },
        None => {
            assert(pairs_view(out@) =~= pairs_view(before) + Seq::<(Seq<char>, Seq<char>)>::empty());
        },
    }
}

/// The headers that carry `tokens`.
pub fn build_headers(tokens: Option<&Tokens>) -> (r: Vec<(String, String)>)
    ensures
        pairs_view(r@) == headers_of(tokens),
{
    let mut out: Vec<(String, String)> = Vec::new();
    out.push(("Content-Type".to_string(), "application/json".to_string()));
    let ghost base = pairs_view(out@);
    assert(base =~= seq![("Content-Type"@, "application/json"@)]);
    match tokens {
        Some(t) => {
            let ghost b0 = out@;
            if header_value_valid(t.auth_token.as_str()) {
                let mut bearer = String::new();
                bearer.append("Bearer ");
                bearer.append(t.auth_token.as_str());
                out.push(("Authorization".to_string(), bearer));
                assert(pairs_view(out@) =~= pairs_view(b0) + seq![("Authorization"@, "Bearer "@ + t.auth_token@)]);
            } else {
                assert(pairs_view(out@) =~= pairs_view(b0) + Seq::<(Seq<char>, Seq<char>)>::empty());
            }
            let ghost b1 = pairs_view(out@);
            push_opt_header(&mut out, "Refresh-Token", &t.refresh_token);
            push_opt_header(&mut out, "CSRF-Token", &t.csrf_token);
            assert(pairs_view(out@) =~= headers_of(tokens));
        },
        None => {
            assert(pairs_view(out@) =~= headers_of(tokens));
        },
    }
    out
}

/// A token expiring at `exp` is refreshed once less than a minute of it is
/// left at time `now` (seconds since the epoch).
pub open spec fn needs_refresh(exp: i64, now: u64) -> bool {
    exp - REFRESH_MARGIN < (now as i64)
}

/// Whether a token expiring at `exp` is to be refreshed at `now`.
pub fn should_refresh(exp: i64, now: u64) -> (r: bool)
    ensures
        r == needs_refresh(exp, now),
{
    (exp as i128) - (REFRESH_MARGIN as i128) < ((now as i64) as i128)
}

fn copy_opt(s: &Option<String>) -> (r: Option<String>)
    ensures
        r == *s,
{
    match s {
        Some(v) => Some(v.clone()),
        None => None,
    }
}

fn copy_tokens(t: &Tokens) -> (r: Tokens)
    ensures
        r == *t,
{
    Tokens {
        auth_token: t.auth_token.clone(),
        refresh_token: copy_opt(&t.refresh_token),
        csrf_token: copy_opt(&t.csrf_token),
    }
}

/// The client's tokens with the claims of their auth token, and the headers
/// that carry them.
#[derive(Debug)]
pub struct TokenState {
    pub state: Option<(Tokens, JwtClaims)>,
    pub headers: Vec<(String, String)>,
}

impl TokenState {
    /// The state for `tokens` whose auth token decoded to `claims`; without
    /// claims (no token, or one that did not decode) nobody is logged in.
    pub fn build(tokens: Option<Tokens>, claims: Option<JwtClaims>) -> (r: TokenState)
        ensures
            pairs_view(r.headers@) == headers_of(match tokens {
                Some(ref t) => Some(t),
                None => None,
            }),
            r.state is Some <==> (tokens is Some && claims is Some),
            r.state matches Some((t, c)) ==> tokens == Some(t) && claims == Some(c),
    {
        let headers = match &tokens {
            Some(t) => build_headers(Some(t)),
            None => build_headers(None),
        };
        let state = match (tokens, claims) {
            (Some(t), Some(c)) => Some((t, c)),
            _ => None,
        };
        TokenState { state, headers }
    }

    /// The refresh token to renew with before the next request: present when
    /// someone is logged in, their auth token expires within a minute of
    /// `now`, and there is a refresh token.
    pub fn refresh_token_if_expiring(&self, now: u64) -> (r: Option<String>)
        ensures
            r == match self.state {
                Some((t, c)) => if needs_refresh(c.exp, now) {
                    t.refresh_token
                } else {
                    None
                },
                None => None,
            },
    {
        match &self.state {
            Some((t, c)) => if should_refresh(c.exp, now) {
                copy_opt(&t.refresh_token)
            } else {
                None
            },
            None => None,
        }
    }

    /// The refresh token for an explicit refresh or logout.
    pub fn refresh_token(&self) -> (r: Result<String, ClientError>)
        ensures
            match self.state {
                None => r matches Err(ClientError::Precondition(m)) && m == NOT_LOGGED_IN,
                Some((t, _)) => match t.refresh_token {
                    None => r matches Err(ClientError::Precondition(m)) && m == MISSING_REFRESH_TOKEN,
                    Some(rt) => r == Ok::<String, ClientError>(rt),
                },
            },
    {
        match &self.state {
            None => Err(ClientError::Precondition(NOT_LOGGED_IN)),
            Some((t, _)) => match &t.refresh_token {
                None => Err(ClientError::Precondition(MISSING_REFRESH_TOKEN)),
                Some(rt) => Ok(rt.clone()),
            },
        }
    }

    /// The logged-in user, from the auth token's claims.
    pub fn user(&self) -> (r: Option<User>)
        ensures
            match self.state {
                None => r is None,
                Some((_, c)) => r matches Some(u) && u.sub == c.sub && u.email == c.email,
            },
    {
        match &self.state {
            None => None,
            Some((_, c)) => Some(User { sub: c.sub.clone(), email: c.email.clone() }),
        }
    }

    /// A copy of the tokens, if someone is logged in.
    pub fn tokens(&self) -> (r: Option<Tokens>)
        ensures
            match self.state {
                None => r is None,
                Some((t, _)) => r == Some(t),
            },
    {
        match &self.state {
            None => None,
            Some((t, _)) => Some(copy_tokens(t)),
        }
    }
}

/// `/api/records/v1/<name>`.
pub open spec fn records_path(name: Seq<char>) -> Seq<char> {
    "/"@ + RECORD_API@ + "/"@ + name
}

/// Path of the records of API `name`.
pub fn records_path_text(name: &str) -> (r: String)
    ensures
        r@ == records_path(name@),
{
    let mut s = String::new();
    s.append("/");
    s.append(RECORD_API);
    s.append("/");
    s.append(name);
    assert(s@ =~= records_path(name@));
    s
}

/// Path of record `id` of API `name`.
pub fn record_path<I: RecordId>(name: &str, id: I) -> (r: String)
    ensures
        r@ == records_path(name@) + "/"@ + id.id_text(),
{
    let mut s = records_path_text(name);
    s.append("/");
    let id_text = id.serialized_id();
    s.append(id_text.as_str());
    s
}

/// Path of the event stream of record `id` (or `*`, the whole table) of API `name`.
pub fn subscribe_path<I: RecordId>(name: &str, id: I) -> (r: String)
    ensures
        r@ == records_path(name@) + "/subscribe/"@ + id.id_text(),
{
    let mut s = records_path_text(name);
    s.append("/subscribe/");
    let id_text = id.serialized_id();
    s.append(id_text.as_str());
    s
}

/// Path of an auth endpoint: `/api/auth/v1/<action>`.
pub fn auth_path(action: &str) -> (r: String)
    ensures
        r@ == "/"@ + AUTH_API@ + "/"@ + action@,
{
    let mut s = String::new();
    s.append("/");
    s.append(AUTH_API);
    s.append("/");
    s.append(action);
    s
}

/// The texts joined by commas.
pub open spec fn comma_joined(parts: Seq<Seq<char>>) -> Seq<char>
    decreases parts.len(),
{
    if parts.len() == 0 {
        seq![]
    } else if parts.len() == 1 {
        parts[0]
    } else {
        comma_joined(parts.drop_last()) + ","@ + parts.last()
    }
}

/// Position of the first `=` in a text.
pub open spec fn first_eq(s: Seq<char>) -> int
    recommends
        s.contains('='),
{
    choose|i: int| 0 <= i < s.len() && s[i] == '=' && forall|j: int| 0 <= j < i ==> s[j] != '='
}

/// A filter `name[op]=value` split at its first `=`.
pub open spec fn filter_pair(f: Seq<char>) -> (Seq<char>, Seq<char>) {
    (f.subrange(0, first_eq(f)), f.subrange(first_eq(f) + 1, f.len() as int))
}

fn split_filter(f: &str) -> (r: (String, String))
    requires
        f@.contains('='),
    ensures
        (r.0@, r.1@) == filter_pair(f@),
{
    let n = f.unicode_len();
    let mut i: usize = 0;
    while i < n
        invariant
            n == f@.len(),
            i <= n,
            f@.contains('='),
            forall|j: int| 0 <= j < i ==> f@[j] != '=',
        decreases n - i,
    {
        if f.get_char(i) == '=' {
            let name = f.substring_char(0, i).to_string();
            let value = f.substring_char(i + 1, n).to_string();
            proof {
                let k = first_eq(f@);
                assert(0 <= i < f@.len() && f@[i as int] == '=' && forall|j: int| 0 <= j < i ==> f@[j] != '=');
                if k < i {
                    assert(f@[k] != '=');
                }
                if k > i {
                    assert(f@[i as int] != '=');
                }
            }
            return (name, value);
        }
        i = i + 1;
    }
    proof {
        let k = choose|k: int| 0 <= k < f@.len() && f@[k] == '=';
        assert(f@[k] != '=');
    }
    (String::new(), String::new())
}

/// Query parameters of a list request: the cursor, the limit, the order
/// joined by commas, then each filter split at its first `=`.
pub open spec fn list_params_of(cursor: Option<Seq<char>>, limit: Option<usize>, order: Seq<Seq<char>>, filters: Seq<Seq<char>>) -> Seq<
    (Seq<char>, Seq<char>),
> {
    (match cursor {
        Some(c) => seq![("cursor"@, c)],
        None => seq![],
    }) + (match limit {
        Some(l) => seq![("limit"@, nat_decimal(l as nat))],
        None => seq![],
    }) + (if order.len() > 0 {
        seq![("order"@, comma_joined(order))]
    } else {
        seq![]
    }) + filters.map_values(|f: Seq<char>| filter_pair(f))
}

/// Builds the query parameters of a list request. Each filter is
/// `name[op]=value` and must hold a `=`.
pub fn list_params(pagination: Pagination, order: &Vec<String>, filters: &Vec<String>) -> (r: Vec<(String, String)>)
    requires
        forall|i: int| 0 <= i < filters@.len() ==> (#[trigger] filters@[i])@.contains('='),
    ensures
        pairs_view(r@) == list_params_of(
            match pagination.cursor {
                Some(c) => Some(c@),
                None => None,
            },
            pagination.limit,
            order@.map_values(|o: String| o@),
            filters@.map_values(|f: String| f@),
        ),
{
    let mut out: Vec<(String, String)> = Vec::new();
    let ghost c_view = match &pagination.cursor {
        Some(c) => Some(c@),
        None => None::<Seq<char>>,
    };
    match pagination.cursor {
        Some(c) => out.push(("cursor".to_string(), c)),
        None => {},
    }
    assert(pairs_view(out@) =~= match c_view {
        Some(c) => seq![("cursor"@, c)],
        None => Seq::<(Seq<char>, Seq<char>)>::empty(),
    });
    let ghost after_cursor = pairs_view(out@);
    match pagination.limit {
        Some(l) => {
            let mut t = String::new();
            push_nat_decimal(&mut t, l as u64);
            assert(t@ =~= nat_decimal(l as nat));
            out.push(("limit".to_string(), t));
        },
        None => {},
    }
    let ghost after_limit = pairs_view(out@);
    assert(after_limit =~= after_cursor + match pagination.limit {
        Some(l) => seq![("limit"@, nat_decimal(l as nat))],
        None => Seq::<(Seq<char>, Seq<char>)>::empty(),
    });
    let ghost ov = order@.map_values(|o: String| o@);
    if order.len() > 0 {
        let mut joined = String::new();
        let mut i: usize = 0;
        while i < order.len()
            invariant
                i <= order@.len(),
                ov == order@.map_values(|o: String| o@),
                joined@ == comma_joined(ov.subrange(0, i as int)),
            decreases order@.len() - i,
        {
            if i > 0 {
                joined.append(",");
            }
            joined.append(order[i].as_str());
            proof {
                let pre = ov.subrange(0, i as int + 1);
                assert(pre.drop_last() =~= ov.subrange(0, i as int));
                if i == 0 {
                    assert(comma_joined(ov.subrange(0, 0)) =~= Seq::<char>::empty());
                }
            }
            i = i + 1;
        }
        assert(ov.subrange(0, order@.len() as int) =~= ov);
        out.push(("order".to_string(), joined));
    }
    let ghost after_order = pairs_view(out@);
    assert(after_order =~= after_limit + (if ov.len() > 0 {
        seq![("order"@, comma_joined(ov))]
    } else {
        Seq::<(Seq<char>, Seq<char>)>::empty()
    }));
    let ghost fv = filters@.map_values(|f: String| f@);
    let mut i: usize = 0;
    while i < filters.len()
        invariant
            i <= filters@.len(),
            fv == filters@.map_values(|f: String| f@),
            forall|k: int| 0 <= k < filters@.len() ==> (#[trigger] filters@[k])@.contains('='),
            pairs_view(out@) == after_order + fv.subrange(0, i as int).map_values(|f: Seq<char>| filter_pair(f)),
        decreases filters@.len() - i,
    {
        let ghost before = pairs_view(out@);
        let (name, value) = split_filter(filters[i].as_str());
        out.push((name, value));
        assert(fv.subrange(0, i as int + 1).map_values(|f: Seq<char>| filter_pair(f)) =~= fv.subrange(0, i as int).map_values(
            |f: Seq<char>| filter_pair(f)).push(filter_pair(fv[i as int])));
        assert(pairs_view(out@) =~= before.push(filter_pair(fv[i as int])));
        i = i + 1;
    }
    assert(fv.subrange(0, filters@.len() as int) =~= fv);
    out
}

/// Relies on `SystemTime::now` and `duration_since(UNIX_EPOCH)`: whole
/// seconds since the epoch, or `None` for a clock set before it.
#[verifier::external_body]
fn epoch_seconds() -> Option<u64> {
    match std::time::SystemTime::now().duration_since(std::time::UNIX_EPOCH) {
        Ok(d) => Some(d.as_secs()),
        Err(_) => None,
    }
}

/// A clock reading in whole seconds since the epoch: a clock set before the
/// epoch reads as zero.
pub fn seconds_or_zero(reading: Option<u64>) -> (r: u64)
    ensures
        r == match reading {
            Some(s) => s,
            None => 0,
        },
{
    match reading {
        Some(s) => s,
        None => 0,
    }
}

/// Seconds since the epoch by the system clock, as [`seconds_or_zero`] reads it.
pub fn now() -> u64 {
    seconds_or_zero(epoch_seconds())
}

} // verus!
