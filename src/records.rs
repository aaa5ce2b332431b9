//! Record APIs: configuration, table-level access checks, and the planning of
//! list requests into one parameterised SELECT plus the assembly of its rows
//! into a response.

use crate::cursor::{decrypt_cursor, encrypt_cursor, opens_to, sealable, sealed_cursor, GCM_MAX_LEN, KEY_LEN, NONCE_LEN};
use crate::query::{ListQuery, Order};
use crate::sqlite::Rows;
use crate::sql::{
    convert_filter_value, count_item, count_item_text, filter_value, join, join_texts, quoted, cursor_condition, cursor_condition_text, cursor_order, effective_order, effective_order_of, joins_sql,
    joins_text, list_sql, list_sql_text, opt_view, order_sql, order_text, params_view, select_items,
    select_items_text, table_sql, table_text, where_clause, where_text, SqlValueView,
};
use crate::text::{i64_to_decimal, i64_of_decimal, int_decimal, nat_decimal, parse_i64, push_nat_decimal, str_eq};
use vstd::utf8::encode_utf8;
use vstd::prelude::*;
use vstd::string::*;

verus! {

/// Verb of a record operation, as checked against the table-level ACL.
#[derive(Debug, Clone, Copy, PartialEq, Eq, Structural)]
pub enum Permission {
    Create,
    Read,
    Update,
    Delete,
}

/// Table-level permission flags of one audience.
#[derive(Debug, Clone, Copy, PartialEq, Eq, Structural)]
pub struct AclFlags {
    pub create: bool,
    pub read: bool,
    pub update: bool,
    pub delete: bool,
}

pub open spec fn flag_set(flags: AclFlags, p: Permission) -> bool {
    match p {
        Permission::Create => flags.create,
        Permission::Read => flags.read,
        Permission::Update => flags.update,
        Permission::Delete => flags.delete,
    }
}

/// Failures of record operations, each with its HTTP status.
#[derive(Debug, Clone)]
pub enum RecordError {
    ApiNotFound,
    RecordNotFound,
    Forbidden,
    BadRequest(&'static str),
    Internal(String),
}

/// HTTP status of an error: 404, 404, 403, 400 and 500.
pub open spec fn error_status(e: RecordError) -> u16 {
    match e {
        RecordError::ApiNotFound => 404u16,
        RecordError::RecordNotFound => 404u16,
        RecordError::Forbidden => 403u16,
        RecordError::BadRequest(_) => 400u16,
        RecordError::Internal(_) => 500u16,
    }
}

impl RecordError {
    /// HTTP status of the error.
    pub fn status(&self) -> (r: u16)
        ensures
            r == error_status(*self),
    {
        match self {
            RecordError::ApiNotFound => 404,
            RecordError::RecordNotFound => 404,
            RecordError::Forbidden => 403,
            RecordError::BadRequest(_) => 400,
            RecordError::Internal(_) => 500,
        }
    }
}

/// Declared SQL type of a column.
#[derive(Debug, Clone, Copy, PartialEq, Eq, Structural)]
pub enum ColumnDataType {
    Any,
    Integer,
    Real,
    Text,
    Blob,
}

/// Column of a table exposed by a record API.
#[derive(Debug, Clone)]
pub struct ColumnMeta {
    pub name: String,
    pub data_type: ColumnDataType,
}

/// A value bound to a SQL parameter or read from a result row. Reals are held
/// as their IEEE-754 bit pattern.
#[derive(Debug, Clone)]
pub enum SqlValue {
    Null,
    Integer(i64),
    Real(u64),
    Text(String),
    Blob(Vec<u8>),
}

/// The authenticated principal of a request.
#[derive(Debug, Clone)]
pub struct UserPrincipal {
    pub id: String,
    pub uuid: Vec<u8>,
    pub email: String,
    pub csrf_token: String,
}

/// A foreign table joined into a list through a local foreign-key column.
#[derive(Debug, Clone)]
pub struct ExpandedTable {
    pub local_column: String,
    pub foreign_table: String,
    pub foreign_pk: String,
    pub columns: Vec<String>,
}

/// A table exposed as a REST resource.
#[derive(Debug, Clone)]
pub struct RecordApiConfig {
    pub api_name: String,
    pub database_schema: Option<String>,
    pub table_name: String,
    pub columns: Vec<ColumnMeta>,
    pub pk_index: usize,
    pub read_access_rule: Option<String>,
    pub acl_world: AclFlags,
    pub acl_authenticated: AclFlags,
    pub expand: Option<Vec<String>>,
}

impl RecordApiConfig {
    /// The primary-key index names a column.
    pub open spec fn wf(&self) -> bool {
        self.pk_index < self.columns@.len()
    }

    /// The table-level ACL grants `p` to the audience of `user`.
    pub open spec fn allows(&self, p: Permission, user: Option<&UserPrincipal>) -> bool {
        flag_set(self.acl_world, p) || (user is Some && flag_set(self.acl_authenticated, p))
    }

    /// Checks the table-level ACL for `p`: the world flags, and for a signed-in
    /// user also the authenticated flags.
    pub fn check_table_level_access(&self, p: Permission, user: Option<&UserPrincipal>) -> (r: Result<(), RecordError>)
        ensures
            r is Ok <==> self.allows(p, user),
            r matches Err(e) ==> e is Forbidden,
    {
        let world = match p {
            Permission::Create => self.acl_world.create,
            Permission::Read => self.acl_world.read,
            Permission::Update => self.acl_world.update,
            Permission::Delete => self.acl_world.delete,
        };
        let authenticated = match p {
            Permission::Create => self.acl_authenticated.create,
            Permission::Read => self.acl_authenticated.read,
            Permission::Update => self.acl_authenticated.update,
            Permission::Delete => self.acl_authenticated.delete,
        };
        if world || (user.is_some() && authenticated) {
            Ok(())
        } else {
            Err(RecordError::Forbidden)
        }
    }
}

/// Looks an API up by name in a configuration snapshot.
pub fn lookup_record_api<'a>(apis: &'a Vec<RecordApiConfig>, name: &str) -> (r: Option<&'a RecordApiConfig>)
    ensures
        r is None <==> forall|i: int| 0 <= i < apis@.len() ==> apis@[i].api_name@ != name@,
        r matches Some(a) ==> exists|i: int| 0 <= i < apis@.len() && apis@[i] == *a && a.api_name@ == name@,
{
    let mut i: usize = 0;
    while i < apis.len()
        invariant
            i <= apis@.len(),
            forall|j: int| 0 <= j < i ==> apis@[j].api_name@ != name@,
        decreases apis@.len() - i,
    {
        if str_eq(apis[i].api_name.as_str(), name) {
            return Some(&apis[i]);
        }
        i = i + 1;
    }
    None
}


/// Rows returned when a request names no limit.
pub const DEFAULT_LIMIT: u64 = 100;

/// Largest page a list returns; larger limits are clamped to it.
pub const MAX_LIMIT: u64 = 1024;

pub open spec fn effective_limit(limit: Option<u64>) -> u64 {
    match limit {
        None => DEFAULT_LIMIT,
        Some(l) => if l > MAX_LIMIT {
            MAX_LIMIT
        } else {
            l
        },
    }
}

/// The page size of a list: the default without a limit, clamped to the maximum.
pub fn limit_or_default(limit: Option<u64>) -> (r: u64)
    ensures
        r == effective_limit(limit),
{
    match limit {
        None => DEFAULT_LIMIT,
        Some(l) => if l > MAX_LIMIT {
            MAX_LIMIT
        } else {
            l
        },
    }
}

/// A list request compiled to SQL.
#[derive(Debug)]
pub struct ListPlan {
    pub sql: String,
    pub params: Vec<(String, SqlValue)>,
    /// The total count is projected as the penultimate column.
    pub count: bool,
    /// The rowid after which the page starts, and the direction of the walk.
    pub cursor: Option<(i64, Order)>,
    pub limit: u64,
    pub expanded: Vec<ExpandedTable>,
}

pub open spec fn order_view(o: Option<Vec<(String, Order)>>) -> Option<Seq<(String, Order)>> {
    match o {
        Some(v) => Some(v@),
        None => None,
    }
}

pub open spec fn pk_column(api: RecordApiConfig) -> ColumnMeta {
    api.columns@[api.pk_index as int]
}

/// The ordering a list of `api` uses for `query`.
pub open spec fn list_order(api: RecordApiConfig, query: ListQuery) -> Seq<(Seq<char>, Order)> {
    effective_order(api.columns@, pk_column(api).name@, order_view(query.order))
}

/// Associated data that scopes the cursors of an API: its name's bytes.
pub open spec fn cursor_scope(api: RecordApiConfig) -> Seq<u8> {
    encode_utf8(api.api_name@)
}

pub open spec fn rule_sql(api: RecordApiConfig) -> Seq<char> {
    match api.read_access_rule {
        Some(r) => r@,
        None => "TRUE"@,
    }
}

pub open spec fn user_id_value(user: Option<&UserPrincipal>) -> SqlValueView {
    match user {
        Some(u) => SqlValueView::Blob(u.uuid@),
        None => SqlValueView::Null,
    }
}

/// `name` is among the configured expansion columns.
pub open spec fn expansion_enabled(conf: Seq<String>, name: Seq<char>) -> bool {
    exists|j: int| 0 <= j < conf.len() && conf[j]@ == name
}

/// The request's expansions are all enabled in the configuration and
/// `expanded` resolves them in order.
pub open spec fn expansions_resolve(api: RecordApiConfig, query: ListQuery, expanded: Seq<ExpandedTable>) -> bool {
    match query.expand {
        None => expanded.len() == 0,
        Some(req) => api.expand matches Some(conf) && expanded.len() == req@.len() && forall|i: int|
            0 <= i < req@.len() ==> expansion_enabled(conf@, #[trigger] req@[i]@) && expanded[i].local_column@
                == req@[i]@,
    }
}

/// The SELECT of a list whose filters rendered to `filter` and whose cursor
/// condition, if any, walks in direction `dir`.
pub open spec fn plan_sql(
    api: RecordApiConfig,
    query: ListQuery,
    expanded: Seq<ExpandedTable>,
    filter: Seq<char>,
    dir: Option<Order>,
) -> Seq<char> {
    list_sql(
        table_sql(opt_view(api.database_schema), api.table_name@),
        select_items(api.columns@, expanded, if query.count == Some(true) {
            Some(count_item(table_sql(opt_view(api.database_schema), api.table_name@), rule_sql(api), filter))
        } else {
            None
        }),
        joins_sql(expanded),
        rule_sql(api),
        filter,
        match dir {
            Some(o) => Some(cursor_condition(o)),
            None => None,
        },
        order_sql(list_order(api, query)),
        query.offset is Some,
    )
}

/// The bound parameters: the filters', then the limit and the user id, then
/// the offset and the cursor where present.
pub open spec fn plan_params(
    filter_params: Seq<(Seq<char>, SqlValueView)>,
    limit: u64,
    user: Option<&UserPrincipal>,
    offset: Option<u64>,
    cursor: Option<i64>,
) -> Seq<(Seq<char>, SqlValueView)> {
    filter_params + seq![
        (":__limit"@, SqlValueView::Integer(limit as i64)),
        (":__user_id"@, user_id_value(user)),
    ] + match offset {
        Some(o) => seq![(":__offset"@, SqlValueView::Integer(o as i64))],
        None => seq![],
    } + match cursor {
        Some(c) => seq![(":cursor"@, SqlValueView::Integer(c))],
        None => seq![],
    }
}

pub const BAD_CURSOR: &'static str = "Bad cursor";

pub const INVALID_CURSOR: &'static str = "Invalid integer cursor";

pub const CURSOR_ORDER: &'static str = "Cannot cursor on queries where the primary order criterion is not an integer primary key";

pub const INVALID_FILTER: &'static str = "Invalid filter params";

pub const INVALID_OFFSET: &'static str = "Invalid offset";

pub const INVALID_EXPANSION: &'static str = "Invalid expansion";

/// What [`plan_list`] returns, check by check in this order: the table ACL,
/// the filters, the offset, the cursor, the expansions; then the plan.
pub open spec fn list_planned(
    api: RecordApiConfig,
    key: Seq<u8>,
    query: ListQuery,
    user: Option<&UserPrincipal>,
    expanded: Seq<ExpandedTable>,
    r: Result<ListPlan, RecordError>,
) -> bool {
    let terms = list_order(api, query);
    if !api.allows(Permission::Read, user) {
        r matches Err(e) && e is Forbidden
    } else if where_clause(api.columns@, query.filters@) is None {
        r matches Err(e) && e == RecordError::BadRequest(INVALID_FILTER)
    } else if query.offset matches Some(o) && o > i64::MAX {
        r matches Err(e) && e == RecordError::BadRequest(INVALID_OFFSET)
    } else {
        let (filter, fps) = where_clause(api.columns@, query.filters@)->Some_0;
        &&& query.cursor matches Some(c) ==> {
            &&& forall|v: i64| #[trigger] opens_to(key, cursor_scope(api), c@, int_decimal(v as int)) ==> (
                r matches Ok(plan) && plan.cursor matches Some((w, _)) && w == v) || (r matches Err(e) && (
                e == RecordError::BadRequest(CURSOR_ORDER) || e == RecordError::BadRequest(INVALID_EXPANSION)))
            &&& (r matches Err(e) && e == RecordError::BadRequest(BAD_CURSOR)) ==> forall|p: Seq<char>|
                !opens_to(key, cursor_scope(api), c@, p)
            &&& (c@.len() <= GCM_MAX_LEN && cursor_scope(api).len() <= GCM_MAX_LEN && forall|p: Seq<char>, nonce: Seq<u8>|
                nonce.len() == NONCE_LEN ==> #[trigger] sealed_cursor(key, nonce, cursor_scope(api), p) != c@) ==> (r matches Err(e)
                && e == RecordError::BadRequest(BAD_CURSOR))
            &&& (r matches Err(e) && e == RecordError::BadRequest(CURSOR_ORDER)) <==> (cursor_order(terms, pk_column(api)) is None
                && !(r matches Err(e) && (e == RecordError::BadRequest(BAD_CURSOR) || e == RecordError::BadRequest(INVALID_CURSOR))))
        }
        &&& query.cursor is None ==> (r is Ok <==> expansions_resolve(api, query, expanded))
        &&& (r matches Err(e) && e == RecordError::BadRequest(INVALID_EXPANSION)) ==> !expansions_resolve(api, query, expanded)
        &&& r matches Err(e) ==> e is BadRequest
        &&& r matches Ok(plan) ==> {
            &&& expansions_resolve(api, query, expanded)
            &&& plan.expanded@ == expanded
            &&& plan.limit == effective_limit(query.limit)
            &&& plan.count == (query.count == Some(true))
            &&& (plan.cursor is Some <==> query.cursor is Some)
            &&& (plan.cursor matches Some((v, o)) ==> (query.cursor matches Some(c) && cursor_order(terms, pk_column(api)) == Some(o)
                && exists|p: Seq<char>| i64_of_decimal(p) == Some(v) && (sealable(cursor_scope(api), p) ==> exists|nonce: Seq<u8>|
                    nonce.len() == NONCE_LEN && #[trigger] sealed_cursor(key, nonce, cursor_scope(api), p) == c@)))
            &&& plan.sql@ == plan_sql(api, query, expanded, filter, match plan.cursor {
                Some((_, o)) => Some(o),
                None => None,
            })
            &&& params_view(plan.params@) == plan_params(fps, plan.limit, user, query.offset, match plan.cursor {
                Some((v, _)) => Some(v),
                None => None,
            })
        }
    }
}

/// Checks that every requested expansion is enabled in the configuration and
/// resolved, in order, by `expanded`.
fn check_expansions(api: &RecordApiConfig, query: &ListQuery, expanded: &Vec<ExpandedTable>) -> (r: bool)
    ensures
        r == expansions_resolve(*api, *query, expanded@),
{
    match &query.expand {
        None => expanded.len() == 0,
        Some(req) => match &api.expand {
            None => false,
            Some(conf) => {
                if expanded.len() != req.len() {
                    return false;
                }
                let mut i: usize = 0;
                while i < req.len()
                    invariant
                        i <= req@.len(),
                        query.expand == Some(*req),
                        api.expand == Some(*conf),
                        expanded@.len() == req@.len(),
                        forall|k: int| 0 <= k < i ==> expansion_enabled(conf@, #[trigger] req@[k]@)
                            && expanded@[k].local_column@ == req@[k]@,
                    decreases req@.len() - i,
                {
                    let mut found = false;
                    let mut j: usize = 0;
                    while j < conf.len()
                        invariant
                            j <= conf@.len(),
                            i < req@.len(),
                            found ==> expansion_enabled(conf@, req@[i as int]@),
                            !found ==> forall|m: int| 0 <= m < j ==> #[trigger] conf@[m]@ != req@[i as int]@,
                        decreases conf@.len() - j,
                    {
                        if str_eq(conf[j].as_str(), req[i].as_str()) {
                            found = true;
                        }
                        j = j + 1;
                    }
                    if !found || !str_eq(expanded[i].local_column.as_str(), req[i].as_str()) {
                        proof {
                            if found {
                                assert(expanded@[i as int].local_column@ != req@[i as int]@);
                            } else {
                                assert(!expansion_enabled(conf@, req@[i as int]@));
                            }
                            if expansions_resolve(*api, *query, expanded@) {
                                assert(expansion_enabled(conf@, req@[i as int]@) && expanded@[i as int].local_column@
                                    == req@[i as int]@);
                            }
                        }
                        return false;
                    }
                    i = i + 1;
                }
                true
            },
        },
    }
}

/// Compiles a list request on `api` into a SELECT and its parameters. The
/// read access rule filters rows rather than rejecting the request; unknown
/// filter and order columns are dropped; cursors are opened with `key` and
/// the API's name.
pub fn plan_list(
    api: &RecordApiConfig,
    key: &[u8],
    query: &ListQuery,
    user: Option<&UserPrincipal>,
    expanded: Vec<ExpandedTable>,
) -> (r: Result<ListPlan, RecordError>)
    requires
        api.wf(),
        key@.len() == KEY_LEN,
    ensures
        list_planned(*api, key@, *query, user, expanded@, r),
{
    if api.check_table_level_access(Permission::Read, user).is_err() {
        return Err(RecordError::Forbidden);
    }
    let (filter, mut params) = match where_text(&api.columns, &query.filters) {
        None => {
            return Err(RecordError::BadRequest(INVALID_FILTER));
        },
        Some(w) => w,
    };
    let ghost fps = params_view(params@);
    let offset: Option<i64> = match query.offset {
        None => None,
        Some(o) => {
            if o > i64::MAX as u64 {
                return Err(RecordError::BadRequest(INVALID_OFFSET));
            }
            Some(o as i64)
        },
    };
    let pk = &api.columns[api.pk_index];
    let terms = effective_order_of(&api.columns, pk.name.as_str(), &query.order);
    let ghost terms_v = terms@.map_values(|t: (String, Order)| (t.0@, t.1));
    assert(terms_v == list_order(*api, *query));
    let cursor: Option<(i64, Order)> = match &query.cursor {
        None => None,
        Some(c) => {
            let plain = match decrypt_cursor(key, api.api_name.as_str().as_bytes(), c.as_str()) {
                Err(_) => {
                    return Err(RecordError::BadRequest(BAD_CURSOR));
                },
                Ok(p) => p,
            };
            proof {
                if c@.len() <= GCM_MAX_LEN && cursor_scope(*api).len() <= GCM_MAX_LEN {
                    assert(sealable(cursor_scope(*api), plain@));
                }
            }
            let rowid = match parse_i64(plain.as_str()) {
                None => {
                    proof {
                        assert forall|v: i64| #[trigger] opens_to(key@, cursor_scope(*api), c@, int_decimal(v as int)) implies false by {
                            crate::text::lemma_decimal_round_trip(v as int);
                        }
                    }
                    return Err(RecordError::BadRequest(INVALID_CURSOR));
                },
                Some(v) => v,
            };
            proof {
                assert forall|v: i64| #[trigger] opens_to(key@, cursor_scope(*api), c@, int_decimal(v as int)) implies v == rowid by {
                    crate::text::lemma_decimal_round_trip(v as int);
                }
            }
            let first = &terms[0];
            assert(terms_v[0] == (terms@[0].0@, terms@[0].1));
            let dir = if first.1 == Order::Ascending {
                if pk.data_type == ColumnDataType::Integer && str_eq(first.0.as_str(), pk.name.as_str()) {
                    Order::Ascending
                } else {
                    return Err(RecordError::BadRequest(CURSOR_ORDER));
                }
            } else {
                Order::Descending
            };
            Some((rowid, dir))
        },
    };
    if !check_expansions(api, query, &expanded) {
        return Err(RecordError::BadRequest(INVALID_EXPANSION));
    }
    let limit = limit_or_default(query.limit);
    let ghost before = params@;
    params.push((":__limit".to_string(), SqlValue::Integer(limit as i64)));
    let user_value = match user {
        Some(u) => SqlValue::Blob(u.uuid.clone()),
        None => SqlValue::Null,
    };
    params.push((":__user_id".to_string(), user_value));
    match offset {
        Some(o) => params.push((":__offset".to_string(), SqlValue::Integer(o))),
        None => {},
    }
    match cursor {
        Some((v, _)) => params.push((":cursor".to_string(), SqlValue::Integer(v))),
        None => {},
    }
    let count = match query.count {
        Some(b) => b,
        None => false,
    };
    let table = table_text(&api.database_schema, api.table_name.as_str());
    let rule: &str = match &api.read_access_rule {
        Some(r) => r.as_str(),
        None => "TRUE",
    };
    let count_sql = if count {
        Some(count_item_text(table.as_str(), rule, filter.as_str()))
    } else {
        None
    };
    let items = select_items_text(&api.columns, &expanded, count_sql);
    let joins = joins_text(&expanded);
    let order = order_text(&terms);
    let cursor_sql: Option<&str> = match cursor {
        Some((_, o)) => Some(cursor_condition_text(o)),
        None => None,
    };
    let sql = list_sql_text(
        table.as_str(),
        &items,
        joins.as_str(),
        rule,
        filter.as_str(),
        cursor_sql,
        order.as_str(),
        offset.is_some(),
    );
    assert(params_view(params@) =~= plan_params(fps, limit, user, query.offset, match cursor {
        Some((v, _)) => Some(v),
        None => None,
    }));
    let plan = ListPlan { sql, params, count, cursor, limit, expanded };
    let r: Result<ListPlan, RecordError> = Ok(plan);
    assert(api.allows(Permission::Read, user));
    assert(where_clause(api.columns@, query.filters@) is Some);
    assert(plan.sql@ == plan_sql(*api, *query, expanded@, filter@, match plan.cursor {
        Some((_, o)) => Some(o),
        None => None,
    }));
    assert(plan.count == (query.count == Some(true)));
    assert(plan.cursor matches Some((v, o)) ==> (query.cursor matches Some(c) && cursor_order(terms_v, pk_column(*api)) == Some(o)));
    assert(query.cursor is None ==> (r is Ok <==> expansions_resolve(*api, *query, expanded@)));
    assert(plan.expanded@ == expanded@);
    assert(plan.limit == effective_limit(query.limit));
    assert(params_view(plan.params@) == plan_params(fps, plan.limit, user, query.offset, match plan.cursor {
        Some((v, _)) => Some(v),
        None => None,
    }));
    assert(query.cursor matches Some(c) ==> forall|v: i64| #[trigger] opens_to(key@, cursor_scope(*api), c@, int_decimal(v as int)) ==> (
                r matches Ok(plan) && plan.cursor matches Some((w, _)) && w == v));
    r
}


/// Abstract value of a result row.
pub open spec fn row_view(row: Vec<SqlValue>) -> Seq<SqlValueView> {
    row@.map_values(|v: SqlValue| v@)
}

/// Columns whose name starts with an underscore are internal and never returned.
pub open spec fn visible(name: Seq<char>) -> bool {
    !(name.len() > 0 && name[0] == '_')
}

/// The visible columns among `names`, paired with the row's values from `start` on.
pub open spec fn project(names: Seq<Seq<char>>, row: Seq<SqlValueView>, start: int) -> Seq<(Seq<char>, SqlValueView)>
    decreases names.len(),
{
    if names.len() == 0 {
        seq![]
    } else {
        let rest = project(names.drop_last(), row, start);
        let i = names.len() - 1;
        if visible(names[i]) {
            rest.push((names[i], row[start + i]))
        } else {
            rest
        }
    }
}

/// Number of columns the expanded tables before the `k`-th one project.
pub open spec fn expand_offset(ex: Seq<ExpandedTable>, k: int) -> int
    decreases k,
{
    if k <= 0 {
        0
    } else {
        expand_offset(ex, k - 1) + ex[k - 1].columns@.len()
    }
}

/// Width of a result row of a plan.
pub open spec fn row_width(ncols: int, ex: Seq<ExpandedTable>, count: bool) -> int {
    ncols + expand_offset(ex, ex.len() as int) + (if count {
        1int
    } else {
        0int
    }) + 1
}

pub open spec fn column_names(cols: Seq<ColumnMeta>) -> Seq<Seq<char>> {
    cols.map_values(|c: ColumnMeta| c.name@)
}

/// One listed record: its visible columns, and for each expansion the local
/// column's name with the foreign row's visible columns.
#[derive(Debug)]
pub struct ListRecord {
    pub fields: Vec<(String, SqlValue)>,
    pub expanded: Vec<(String, Vec<(String, SqlValue)>)>,
}

/// A page of a list.
#[derive(Debug)]
pub struct ListResponse {
    /// Sealed rowid of the last record; absent on an empty page.
    pub cursor: Option<String>,
    /// Present exactly when the request asked for it.
    pub total_count: Option<u64>,
    pub records: Vec<ListRecord>,
}

pub open spec fn fields_view(fs: Seq<(String, SqlValue)>) -> Seq<(Seq<char>, SqlValueView)> {
    fs.map_values(|f: (String, SqlValue)| (f.0@, f.1@))
}

/// `r` is the record that `row` holds under the plan's projection.
pub open spec fn record_of(cols: Seq<ColumnMeta>, ex: Seq<ExpandedTable>, row: Seq<SqlValueView>, r: ListRecord) -> bool {
    &&& fields_view(r.fields@) == project(column_names(cols), row, 0)
    &&& r.expanded@.len() == ex.len()
    &&& forall|k: int| 0 <= k < ex.len() ==> (#[trigger] r.expanded@[k]).0@ == ex[k].local_column@ && fields_view(
        r.expanded@[k].1@,
    ) == project(ex[k].columns@.map_values(|c: String| c@), row, cols.len() + expand_offset(ex, k))
}

/// The rowid in the last column of the last row.
pub open spec fn last_rowid(rows: Seq<Vec<SqlValue>>) -> Option<i64> {
    if rows.len() > 0 && rows.last()@.len() > 0 && rows.last()@.last() is Integer {
        Some(rows.last()@.last()->Integer_0)
    } else {
        None
    }
}

/// The total count in the penultimate column of the first row.
pub open spec fn first_count(rows: Seq<Vec<SqlValue>>) -> Option<i64> {
    if rows.len() > 0 && rows[0]@.len() >= 2 && rows[0]@[rows[0]@.len() - 2] is Integer {
        Some(rows[0]@[rows[0]@.len() - 2]->Integer_0)
    } else {
        None
    }
}

/// Rows as the plan's SELECT yields them: each as wide as the projection, a
/// non-negative count where one was asked for, and an integer, sealable
/// rowid last.
pub open spec fn rows_well_shaped(api: RecordApiConfig, plan: ListPlan, rows: Seq<Vec<SqlValue>>) -> bool {
    &&& forall|i: int| 0 <= i < rows.len() ==> #[trigger] rows[i]@.len() == row_width(
        api.columns@.len() as int,
        plan.expanded@,
        plan.count,
    )
    &&& (rows.len() > 0 && plan.count ==> (first_count(rows) matches Some(n) && n >= 0))
    &&& (rows.len() > 0 ==> (last_rowid(rows) matches Some(v) && sealable(cursor_scope(api), int_decimal(v as int))))
    &&& api.columns@.len() + expand_offset(plan.expanded@, plan.expanded@.len() as int) <= usize::MAX - 2
}

pub const ROW_SHAPE: &'static str = "unexpected row shape";

pub const CURSOR_SEAL: &'static str = "cursor sealing failed";

fn copy_value(v: &SqlValue) -> (r: SqlValue)
    ensures
        r@ == v@,
{
    match v {
        SqlValue::Null => SqlValue::Null,
        SqlValue::Integer(i) => SqlValue::Integer(*i),
        SqlValue::Real(b) => SqlValue::Real(*b),
        SqlValue::Text(s) => SqlValue::Text(s.clone()),
        SqlValue::Blob(b) => SqlValue::Blob(b.clone()),
    }
}

/// The visible columns among `names` paired with `values`.
pub fn project_values(names: &Vec<String>, values: &Vec<SqlValue>) -> (r: Vec<(String, SqlValue)>)
    requires
        names@.len() <= values@.len(),
    ensures
        fields_view(r@) == project(names@.map_values(|c: String| c@), values@.map_values(|v: SqlValue| v@), 0),
{
    project_row(names, values, 0)
}

fn project_row(names: &Vec<String>, row: &Vec<SqlValue>, start: usize) -> (r: Vec<(String, SqlValue)>)
    requires
        start + names@.len() <= row@.len(),
    ensures
        fields_view(r@) == project(names@.map_values(|c: String| c@), row_view(*row), start as int),
{
    let ghost nv = names@.map_values(|c: String| c@);
    let rl = row.len();
    let mut out: Vec<(String, SqlValue)> = Vec::new();
    let mut i: usize = 0;
    while i < names.len()
        invariant
            i <= names@.len(),
            rl == row@.len(),
            start + names@.len() <= row@.len(),
            nv == names@.map_values(|c: String| c@),
            fields_view(out@) == project(nv.subrange(0, i as int), row_view(*row), start as int),
        decreases names@.len() - i,
    {
        let ghost pre = nv.subrange(0, i as int + 1);
        assert(pre.drop_last() =~= nv.subrange(0, i as int));
        assert(pre[i as int] == names@[i as int]@);
        let name = &names[i];
        let hidden = name.as_str().unicode_len() > 0 && name.as_str().get_char(0) == '_';
        if !hidden {
            let ghost before = out@;
            let v = copy_value(&row[start + i]);
            out.push((name.clone(), v));
            assert(fields_view(out@) =~= fields_view(before).push((name@, row_view(*row)[start + i])));
        }
        i = i + 1;
    }
    assert(nv.subrange(0, names@.len() as int) =~= nv);
    out
}

fn column_name_list(cols: &Vec<ColumnMeta>) -> (r: Vec<String>)
    ensures
        r@.map_values(|c: String| c@) == column_names(cols@),
{
    let mut out: Vec<String> = Vec::new();
    let mut i: usize = 0;
    while i < cols.len()
        invariant
            i <= cols@.len(),
            out@.len() == i,
            forall|j: int| 0 <= j < i ==> #[trigger] out@[j]@ == cols@[j].name@,
        decreases cols@.len() - i,
    {
        out.push(cols[i].name.clone());
        i = i + 1;
    }
    assert(out@.map_values(|c: String| c@) =~= column_names(cols@));
    out
}

proof fn lemma_expand_offset_mono(ex: Seq<ExpandedTable>, j: int, k: int)
    requires
        0 <= j <= k <= ex.len(),
    ensures
        expand_offset(ex, j) <= expand_offset(ex, k),
    decreases k - j,
{
    if j < k {
        lemma_expand_offset_mono(ex, j, k - 1);
    }
}

fn record_from_row(cols: &Vec<ColumnMeta>, names: &Vec<String>, ex: &Vec<ExpandedTable>, row: &Vec<SqlValue>) -> (r: ListRecord)
    requires
        names@.map_values(|c: String| c@) == column_names(cols@),
        cols@.len() + expand_offset(ex@, ex@.len() as int) <= row@.len(),
    ensures
        record_of(cols@, ex@, row_view(*row), r),
{
    assert(names@.len() == cols@.len()) by {
        assert(names@.map_values(|c: String| c@).len() == names@.len());
    }
    proof {
        lemma_expand_offset_mono(ex@, 0, ex@.len() as int);
    }
    let fields = project_row(names, row, 0);
    let rl = row.len();
    let mut expanded: Vec<(String, Vec<(String, SqlValue)>)> = Vec::new();
    let mut offset: usize = cols.len();
    let mut k: usize = 0;
    while k < ex.len()
        invariant
            k <= ex@.len(),
            cols@.len() + expand_offset(ex@, ex@.len() as int) <= row@.len(),
            rl == row@.len(),
            offset == cols@.len() + expand_offset(ex@, k as int),
            expanded@.len() == k,
            forall|j: int| 0 <= j < k ==> (#[trigger] expanded@[j]).0@ == ex@[j].local_column@ && fields_view(
                expanded@[j].1@,
            ) == project(ex@[j].columns@.map_values(|c: String| c@), row_view(*row), cols@.len() + expand_offset(ex@, j)),
        decreases ex@.len() - k,
    {
        proof {
            lemma_expand_offset_mono(ex@, k as int + 1, ex@.len() as int);
        }
        let e = &ex[k];
        let part = project_row(&e.columns, row, offset);
        expanded.push((e.local_column.clone(), part));
        offset = offset + e.columns.len();
        k = k + 1;
    }
    ListRecord { fields, expanded }
}

/// Turns the rows of a planned list into a page: the last row's rowid sealed
/// as the cursor, the total count from the first row when it was asked for,
/// and each row's record.
pub fn finish_list(api: &RecordApiConfig, key: &[u8], plan: &ListPlan, rows: &Vec<Vec<SqlValue>>) -> (r: Result<ListResponse, RecordError>)
    requires
        key@.len() == KEY_LEN,
    ensures
        rows@.len() == 0 ==> (r matches Ok(resp) && resp.cursor is None && resp.records@.len() == 0
            && resp.total_count == (if plan.count { Some(0u64) } else { None::<u64> })),
        r matches Ok(resp) ==> resp.records@.len() == rows@.len() && forall|i: int| 0 <= i < rows@.len()
            ==> record_of(api.columns@, plan.expanded@, row_view(#[trigger] rows@[i]), resp.records@[i]),
        r matches Ok(resp) ==> (resp.total_count is Some <==> plan.count),
        r matches Ok(resp) ==> (rows@.len() > 0 ==> (last_rowid(rows@) matches Some(v) && resp.cursor matches Some(c)
            && opens_to(key@, cursor_scope(*api), c@, int_decimal(v as int)))),
        r matches Ok(resp) ==> (rows@.len() > 0 && plan.count ==> (first_count(rows@) matches Some(n) && n >= 0
            && resp.total_count == Some(n as u64))),
        r is Err ==> rows@.len() > 0,
        r matches Err(e) ==> e is Internal,
        rows@.len() > 0 ==> (r is Ok <==> rows_well_shaped(*api, *plan, rows@)),
{
    let n = rows.len();
    if n == 0 {
        let records: Vec<ListRecord> = Vec::new();
        return Ok(ListResponse { cursor: None, total_count: if plan.count { Some(0) } else { None }, records });
    }
    let mut extra: u64 = 0;
    let mut k: usize = 0;
    let ghost ex = plan.expanded@;
    proof {
        lemma_expand_offset_mono(ex, 0, ex.len() as int);
    }
    let width_ok = {
        let mut total: usize = api.columns.len();
        let mut fits = total <= usize::MAX - 2;
        while k < plan.expanded.len()
            invariant
                k <= ex.len(),
                ex == plan.expanded@,
                fits ==> total == api.columns@.len() + expand_offset(ex, k as int),
                fits ==> total <= usize::MAX - 2,
                !fits ==> api.columns@.len() + expand_offset(ex, ex.len() as int) > usize::MAX - 2,
            decreases ex.len() - k,
        {
            proof {
                lemma_expand_offset_mono(ex, k as int + 1, ex.len() as int);
            }
            if fits {
                let w = plan.expanded[k].columns.len();
                if w > usize::MAX - 2 || total > usize::MAX - 2 - w {
                    fits = false;
                } else {
                    total = total + w;
                }
            }
            k = k + 1;
        }
        if fits {
            let width = total + (if plan.count { 1 } else { 0 }) + 1;
            Some(width)
        } else {
            None
        }
    };
    let width = match width_ok {
        None => {
            return Err(RecordError::Internal(ROW_SHAPE.to_string()));
        },
        Some(w) => w,
    };
    let names = column_name_list(&api.columns);
    let mut records: Vec<ListRecord> = Vec::new();
    let mut i: usize = 0;
    while i < n
        invariant
            n == rows@.len(),
            i <= n,
            width == row_width(api.columns@.len() as int, plan.expanded@, plan.count),
            names@.map_values(|c: String| c@) == column_names(api.columns@),
            records@.len() == i,
            forall|j: int| 0 <= j < i ==> #[trigger] rows@[j]@.len() == width,
            forall|j: int| 0 <= j < i ==> record_of(api.columns@, plan.expanded@, row_view(#[trigger] rows@[j]), records@[j]),
        decreases n - i,
    {
        if rows[i].len() != width {
            return Err(RecordError::Internal(ROW_SHAPE.to_string()));
        }
        let rec = record_from_row(&api.columns, &names, &plan.expanded, &rows[i]);
        records.push(rec);
        i = i + 1;
    }
    let total_count = if plan.count {
        let first = &rows[0];
        match &first[first.len() - 2] {
            SqlValue::Integer(c) => {
                if *c < 0 {
                    return Err(RecordError::Internal(ROW_SHAPE.to_string()));
                }
                Some(*c as u64)
            },
            _ => {
                return Err(RecordError::Internal(ROW_SHAPE.to_string()));
            },
        }
    } else {
        None
    };
    let last = &rows[n - 1];
    let cursor = match &last[last.len() - 1] {
        SqlValue::Integer(v) => {
            let text = i64_to_decimal(*v);
            match encrypt_cursor(key, api.api_name.as_str().as_bytes(), text.as_str()) {
                Ok(c) => Some(c),
                Err(_) => {
                    return Err(RecordError::Internal(CURSOR_SEAL.to_string()));
                },
            }
        },
        _ => {
            return Err(RecordError::Internal(ROW_SHAPE.to_string()));
        },
    };
    Ok(ListResponse { cursor, total_count, records })
}


/// A list request that the table-level ACL does not grant is answered with
/// 403 `Forbidden` and no plan, so no row is read, whatever the table holds.
pub proof fn lemma_list_forbidden_without_acl(
    api: RecordApiConfig,
    key: Seq<u8>,
    query: ListQuery,
    user: Option<&UserPrincipal>,
    expanded: Seq<ExpandedTable>,
    r: Result<ListPlan, RecordError>,
)
    requires
        !api.allows(Permission::Read, user),
        list_planned(api, key, query, user, expanded, r),
    ensures
        r matches Err(e) && e is Forbidden && error_status(e) == 403,
{
}

/// A request repeated with the cursor of a page whose last rowid was `v`
/// continues strictly past `v` in the list's own direction: it is planned with
/// `v` bound to `:cursor` and the condition `_ROW_._rowid_ < :cursor` when the
/// primary order is descending (`>` when ascending), under the same ordering;
/// or it is refused because that ordering cannot be cursored or the
/// expansions do not resolve.
pub proof fn lemma_cursor_continues(
    api: RecordApiConfig,
    key: Seq<u8>,
    query: ListQuery,
    user: Option<&UserPrincipal>,
    expanded: Seq<ExpandedTable>,
    v: i64,
    r: Result<ListPlan, RecordError>,
)
    requires
        query.cursor matches Some(c) && opens_to(key, cursor_scope(api), c@, int_decimal(v as int)),
        api.allows(Permission::Read, user),
        where_clause(api.columns@, query.filters@) is Some,
        query.offset matches Some(o) ==> o <= i64::MAX,
        list_planned(api, key, query, user, expanded, r),
    ensures
        r matches Ok(plan) ==> (plan.cursor matches Some((w, o)) && w == v && cursor_order(list_order(api, query), pk_column(api))
            == Some(o) && plan.sql@ == plan_sql(api, query, expanded, where_clause(api.columns@, query.filters@)->Some_0.0, Some(o))
            && params_view(plan.params@).last() == (":cursor"@, SqlValueView::Integer(v))),
        r matches Err(e) ==> (e == RecordError::BadRequest(CURSOR_ORDER) || e == RecordError::BadRequest(INVALID_EXPANSION)),
{
    let c = query.cursor->Some_0;
    assert(opens_to(key, cursor_scope(api), c@, int_decimal(v as int)));
}

pub const INVALID_ID: &'static str = "Invalid record id";

impl RecordApiConfig {
    /// A record id from a URL segment, read by the primary key's type:
    /// integers in decimal, blobs in base64url, anything else as text.
    pub fn id_to_sql(&self, id: &str) -> (r: Result<SqlValue, RecordError>)
        requires
            self.wf(),
        ensures
            match filter_value(pk_column(*self).data_type, id@) {
                Some(v) => r matches Ok(x) && x@ == v,
                None => r matches Err(e) && e == RecordError::BadRequest(INVALID_ID),
            },
    {
        match convert_filter_value(self.columns[self.pk_index].data_type, id) {
            Some(v) => Ok(v),
            None => Err(RecordError::BadRequest(INVALID_ID)),
        }
    }

    /// `SELECT _rowid_ FROM "<table>" WHERE "<pk>" = $1`: the rowid of the
    /// record a subscription names.
    pub fn rowid_lookup_sql(&self) -> (r: String)
        requires
            self.wf(),
        ensures
            r@ == rowid_lookup(*self),
    {
        let mut s = String::new();
        s.append("SELECT _rowid_ FROM ");
        s.append("\"");
        s.append(self.table_name.as_str());
        s.append("\"");
        s.append(" WHERE ");
        s.append("\"");
        s.append(self.columns[self.pk_index].name.as_str());
        s.append("\"");
        s.append(" = $1");
        assert(s@ =~= rowid_lookup(*self));
        s
    }
}

/// Name of the parameter that carries the `i`-th column of a changed row.
pub open spec fn column_param(i: nat) -> Seq<char> {
    ":__c"@ + nat_decimal(i)
}

/// `:__c<i> AS "name"` for each column of a changed row.
pub open spec fn access_items(names: Seq<Seq<char>>) -> Seq<Seq<char>> {
    Seq::new(names.len(), |i: int| column_param(i as nat) + " AS "@ + quoted(names[i]))
}

/// The query that evaluates the read rule `rule` on a changed row whose
/// columns are `names`, the row standing in as `_ROW_`.
pub open spec fn access_sql(rule: Seq<char>, names: Seq<Seq<char>>) -> Seq<char> {
    "SELECT ("@ + rule + ") FROM (SELECT :__user_id AS id) AS _USER_, (SELECT "@ + join(access_items(names), ", "@)
        + ") AS _ROW_"@
}

fn column_param_text(i: usize) -> (r: String)
    ensures
        r@ == column_param(i as nat),
{
    let mut s = String::new();
    s.append(":__c");
    push_nat_decimal(&mut s, i as u64);
    assert(s@ =~= column_param(i as nat));
    s
}

impl RecordApiConfig {
    /// The query and parameters that re-check the read rule for `user` on a
    /// changed row; `None` without a rule, which admits every row.
    pub fn record_access_query(&self, names: &Vec<String>, values: &Vec<SqlValue>, user: Option<&UserPrincipal>) -> (r: Option<(String, Vec<(String, SqlValue)>)>)
        requires
            names@.len() == values@.len(),
            names@.len() > 0,
        ensures
            self.read_access_rule is None <==> r is None,
            r matches Some((q, ps)) ==> q@ == access_sql(self.read_access_rule->Some_0@, names@.map_values(|n: String| n@))
                && params_view(ps@) == seq![(":__user_id"@, user_id_value(user))] + Seq::new(
                    values@.len(),
                    |i: int| (column_param(i as nat), values@[i]@),
                ),
    {
        let rule = match &self.read_access_rule {
            None => {
                return None;
            },
            Some(r) => r,
        };
        let ghost nv = names@.map_values(|n: String| n@);
        let mut items: Vec<String> = Vec::new();
        let mut ps: Vec<(String, SqlValue)> = Vec::new();
        let user_value = match user {
            Some(u) => SqlValue::Blob(u.uuid.clone()),
            None => SqlValue::Null,
        };
        ps.push((":__user_id".to_string(), user_value));
        let ghost head = params_view(ps@);
        assert(head =~= seq![(":__user_id"@, user_id_value(user))]);
        let mut i: usize = 0;
        while i < names.len()
            invariant
                i <= names@.len(),
                names@.len() == values@.len(),
                nv == names@.map_values(|n: String| n@),
                items@.len() == i,
                forall|j: int| 0 <= j < i ==> #[trigger] items@[j]@ == access_items(nv)[j],
                params_view(ps@) == head + Seq::new(i as nat, |k: int| (column_param(k as nat), values@[k]@)),
            decreases names@.len() - i,
        {
            let mut item = column_param_text(i);
            item.append(" AS ");
            item.append("\"");
            item.append(names[i].as_str());
            item.append("\"");
            assert(item@ =~= access_items(nv)[i as int]);
            items.push(item);
            let ghost before = params_view(ps@);
            let v = copy_value(&values[i]);
            ps.push((column_param_text(i), v));
            assert(params_view(ps@) =~= head + Seq::new((i + 1) as nat, |k: int| (column_param(k as nat), values@[k]@))) by {
                assert(params_view(ps@) =~= before.push((column_param(i as nat), values@[i as int]@)));
            }
            i = i + 1;
        }
        assert(items@.map_values(|p: String| p@) =~= access_items(nv));
        let mut q = String::new();
        q.append("SELECT (");
        q.append(rule.as_str());
        q.append(") FROM (SELECT :__user_id AS id) AS _USER_, (SELECT ");
        let joined = join_texts(&items, ", ");
        q.append(joined.as_str());
        q.append(") AS _ROW_");
        assert(q@ =~= access_sql(rule@, nv));
        Some((q, ps))
    }
}

/// The query that evaluates the read rule on the record whose primary key is
/// bound to `:__record_id`, for the user bound to `:__user_id`; a missing
/// rule reads as `TRUE`.
pub open spec fn record_rule_sql(api: RecordApiConfig) -> Seq<char> {
    "SELECT ("@ + rule_sql(api) + ") FROM (SELECT :__user_id AS id) AS _USER_, "@ + quoted(api.table_name@)
        + " AS _ROW_ WHERE _ROW_."@ + quoted(pk_column(api).name@) + " = :__record_id"@
}

/// `SELECT _rowid_ FROM "<table>" WHERE "<pk>" = $1`.
pub open spec fn rowid_lookup(api: RecordApiConfig) -> Seq<char> {
    "SELECT _rowid_ FROM "@ + quoted(api.table_name@) + " WHERE "@ + quoted(pk_column(api).name@) + " = $1"@
}

/// What a subscription request asks for once its API and ACL are checked.
#[derive(Debug)]
pub enum SubscribeStep {
    /// Every record of the table.
    Table,
    /// One record: its id, the query for its rowid with its parameters, and
    /// the query that evaluates the read rule on it with its parameters.
    Record {
        id: SqlValue,
        lookup_sql: String,
        lookup_params: Vec<(String, SqlValue)>,
        access_sql: String,
        params: Vec<(String, SqlValue)>,
    },
}

fn record_rule_text(api: &RecordApiConfig) -> (r: String)
    requires
        api.wf(),
    ensures
        r@ == record_rule_sql(*api),
{
    let rule: &str = match &api.read_access_rule {
        Some(r) => r.as_str(),
        None => "TRUE",
    };
    let mut s = String::new();
    s.append("SELECT (");
    s.append(rule);
    s.append(") FROM (SELECT :__user_id AS id) AS _USER_, ");
    s.append("\"");
    s.append(api.table_name.as_str());
    s.append("\"");
    s.append(" AS _ROW_ WHERE _ROW_.");
    s.append("\"");
    s.append(api.columns[api.pk_index].name.as_str());
    s.append("\"");
    s.append(" = :__record_id");
    assert(s@ =~= record_rule_sql(*api));
    s
}

/// Decides a subscription request on `api_name` for `record` (`*`: the whole
/// table), in the order of the record API's checks: the API must exist, the
/// table-level ACL must grant reading, and a record id must read as the
/// primary key's type. A record subscription is then completed by
/// [`admit_record_subscription`] with the results of its two queries.
pub fn plan_subscription(apis: &Vec<RecordApiConfig>, api_name: &str, record: &str, user: Option<&UserPrincipal>) -> (r: Result<
    SubscribeStep,
    RecordError,
>)
    requires
        forall|i: int| 0 <= i < apis@.len() ==> (#[trigger] apis@[i]).wf(),
    ensures
        (forall|i: int| 0 <= i < apis@.len() ==> apis@[i].api_name@ != api_name@) ==> (r matches Err(e) && e is ApiNotFound),
        forall|i: int|
            0 <= i < apis@.len() && (#[trigger] apis@[i]).api_name@ == api_name@ && (forall|j: int|
                0 <= j < i ==> apis@[j].api_name@ != api_name@) ==> {
                let api = apis@[i];
                &&& !api.allows(Permission::Read, user) ==> (r matches Err(e) && e is Forbidden)
                &&& api.allows(Permission::Read, user) && record@ == "*"@ ==> (r matches Ok(s) && s is Table)
                &&& api.allows(Permission::Read, user) && record@ != "*"@ ==> match filter_value(
                    pk_column(api).data_type,
                    record@,
                ) {
                    None => r matches Err(e) && e == RecordError::BadRequest(INVALID_ID),
                    Some(v) => r matches Ok(SubscribeStep::Record { id, lookup_sql, lookup_params, access_sql, params })
                        && id@ == v && lookup_sql@ == rowid_lookup(api) && params_view(lookup_params@) == seq![("$1"@, v)]
                        && access_sql@ == record_rule_sql(api) && params_view(params@) == seq![
                        (":__user_id"@, user_id_value(user)),
                        (":__record_id"@, v),
                    ],
                }
            },
{
    let api = match lookup_first(apis, api_name) {
        None => {
            return Err(RecordError::ApiNotFound);
        },
        Some(k) => &apis[k],
    };
    if api.check_table_level_access(Permission::Read, user).is_err() {
        return Err(RecordError::Forbidden);
    }
    if str_eq(record, "*") {
        return Ok(SubscribeStep::Table);
    }
    let id = match convert_filter_value(api.columns[api.pk_index].data_type, record) {
        None => {
            return Err(RecordError::BadRequest(INVALID_ID));
        },
        Some(v) => v,
    };
    let lookup_sql = api.rowid_lookup_sql();
    let access_sql = record_rule_text(api);
    let mut lookup_params: Vec<(String, SqlValue)> = Vec::new();
    lookup_params.push(("$1".to_string(), copy_value(&id)));
    assert(params_view(lookup_params@) =~= seq![("$1"@, id@)]);
    let user_value = match user {
        Some(u) => SqlValue::Blob(u.uuid.clone()),
        None => SqlValue::Null,
    };
    let mut params: Vec<(String, SqlValue)> = Vec::new();
    params.push((":__user_id".to_string(), user_value));
    params.push((":__record_id".to_string(), copy_value(&id)));
    assert(params_view(params@) =~= seq![(":__user_id"@, user_id_value(user)), (":__record_id"@, id@)]);
    Ok(SubscribeStep::Record { id, lookup_sql, lookup_params, access_sql, params })
}

/// Position of the first API called `name`.
fn lookup_first(apis: &Vec<RecordApiConfig>, name: &str) -> (r: Option<usize>)
    ensures
        r is None ==> forall|i: int| 0 <= i < apis@.len() ==> apis@[i].api_name@ != name@,
        r matches Some(k) ==> k < apis@.len() && apis@[k as int].api_name@ == name@ && forall|j: int|
            0 <= j < k ==> apis@[j].api_name@ != name@,
{
    let mut i: usize = 0;
    while i < apis.len()
        invariant
            i <= apis@.len(),
            forall|j: int| 0 <= j < i ==> apis@[j].api_name@ != name@,
        decreases apis@.len() - i,
    {
        if str_eq(apis[i].api_name.as_str(), name) {
            return Some(i);
        }
        i = i + 1;
    }
    None
}

/// The rule query's answer: a first row whose first value is a non-zero integer.
pub open spec fn granted(rows: Rows) -> bool {
    rows.rows_view().len() > 0 && rows.rows_view()[0].values_view().len() > 0
        && rows.rows_view()[0].values_view()[0] is Integer && rows.rows_view()[0].values_view()[0]->Integer_0 != 0
}

/// Whether the read rule admitted the record, from the rows of its rule query.
pub fn access_granted(rows: &Rows) -> (r: bool)
    ensures
        r == granted(*rows),
{
    match rows.get(0) {
        None => false,
        Some(row) => match row.get_value(0) {
            Ok(SqlValue::Integer(i)) => i != 0,
            _ => false,
        },
    }
}

/// Completes a record subscription from the rows of its rowid query and the
/// verdict of its rule query: no row is `RecordNotFound`, a row the rule does
/// not admit is `Forbidden`, else the row's integer rowid.
pub fn admit_record_subscription(rows: &Rows, admitted: bool) -> (r: Result<i64, RecordError>)
    ensures
        rows.rows_view().len() == 0 ==> (r matches Err(e) && e is RecordNotFound),
        rows.rows_view().len() > 0 && !admitted ==> (r matches Err(e) && e is Forbidden),
        rows.rows_view().len() > 0 && admitted ==> (if rows.rows_view()[0].values_view().len() > 0
            && rows.rows_view()[0].values_view()[0] is Integer {
            r == Ok::<i64, RecordError>(rows.rows_view()[0].values_view()[0]->Integer_0)
        } else {
            r matches Err(e) && e is Internal
        }),
{
    match rows.get(0) {
        None => Err(RecordError::RecordNotFound),
        Some(row) => {
            if !admitted {
                return Err(RecordError::Forbidden);
            }
            match row.get_value(0) {
                Ok(SqlValue::Integer(i)) => Ok(i),
                _ => Err(RecordError::Internal(ROW_SHAPE.to_string())),
            }
        },
    }
}

/// `e` is a copy of `f`.
pub open spec fn same_table(e: ExpandedTable, f: ExpandedTable) -> bool {
    e.local_column@ == f.local_column@ && e.foreign_table@ == f.foreign_table@ && e.foreign_pk@ == f.foreign_pk@
        && e.columns@.map_values(|c: String| c@) == f.columns@.map_values(|c: String| c@)
}

fn copy_table(f: &ExpandedTable) -> (r: ExpandedTable)
    ensures
        same_table(r, *f),
{
    let mut columns: Vec<String> = Vec::new();
    let mut i: usize = 0;
    while i < f.columns.len()
        invariant
            i <= f.columns@.len(),
            columns@.len() == i,
            forall|j: int| 0 <= j < i ==> #[trigger] columns@[j]@ == f.columns@[j]@,
        decreases f.columns@.len() - i,
    {
        columns.push(f.columns[i].clone());
        i = i + 1;
    }
    assert(columns@.map_values(|c: String| c@) =~= f.columns@.map_values(|c: String| c@));
    ExpandedTable {
        local_column: f.local_column.clone(),
        foreign_table: f.foreign_table.clone(),
        foreign_pk: f.foreign_pk.clone(),
        columns,
    }
}

/// Some foreign table the schema offers is joined through local column `name`.
pub open spec fn offered(available: Seq<ExpandedTable>, name: Seq<char>) -> bool {
    exists|j: int| 0 <= j < available.len() && available[j].local_column@ == name
}

/// `e` copies a foreign table offered for local column `name`.
pub open spec fn resolves(e: ExpandedTable, available: Seq<ExpandedTable>, name: Seq<char>) -> bool {
    exists|j: int| 0 <= j < available.len() && same_table(e, available[j]) && available[j].local_column@ == name
}

/// Resolves the request's expansions against the foreign tables that the
/// schema offers, each by its local column: `None` when one has no foreign
/// table, else one copy per requested column, in order.
pub fn resolve_expansions(query: &ListQuery, available: &Vec<ExpandedTable>) -> (r: Option<Vec<ExpandedTable>>)
    ensures
        query.expand is None ==> (r matches Some(v) && v@.len() == 0),
        query.expand matches Some(req) ==> ((r is Some) <==> forall|i: int| 0 <= i < req@.len() ==> offered(available@, #[trigger] req@[i]@)),
        query.expand matches Some(req) ==> (r matches Some(v) ==> v@.len() == req@.len() && forall|i: int|
            0 <= i < req@.len() ==> resolves(#[trigger] v@[i], available@, req@[i]@)),
{
    match &query.expand {
        None => Some(Vec::new()),
        Some(req) => {
            let mut out: Vec<ExpandedTable> = Vec::new();
            let mut i: usize = 0;
            while i < req.len()
                invariant
                    i <= req@.len(),
                    query.expand == Some(*req),
                    out@.len() == i,
                    forall|k: int| 0 <= k < i ==> resolves(#[trigger] out@[k], available@, req@[k]@),
                    forall|k: int| 0 <= k < i ==> offered(available@, #[trigger] req@[k]@),
                decreases req@.len() - i,
            {
                let mut found: Option<usize> = None;
                let mut j: usize = 0;
                while j < available.len()
                    invariant
                        j <= available@.len(),
                        i < req@.len(),
                        query.expand == Some(*req),
                        found matches Some(f) ==> f < available@.len() && available@[f as int].local_column@ == req@[i as int]@,
                        found is None ==> forall|m: int| 0 <= m < j ==> available@[m].local_column@ != req@[i as int]@,
                    decreases available@.len() - j,
                {
                    if found.is_none() && str_eq(available[j].local_column.as_str(), req[i].as_str()) {
                        found = Some(j);
                    }
                    j = j + 1;
                }
                match found {
                    None => {
                        assert(!offered(available@, req@[i as int]@));
                        assert(!(forall|k: int| 0 <= k < req@.len() ==> offered(available@, #[trigger] req@[k]@)));
                        let ghost q = query.expand->Some_0;
                        assert(q@ == req@);
                        assert(!(forall|k: int| 0 <= k < q@.len() ==> offered(available@, #[trigger] q@[k]@)));
                        return None;
                    },
                    Some(f) => {
                        let ghost before = out@;
                        let t = copy_table(&available[f]);
                        out.push(t);
                        assert(same_table(out@[i as int], available@[f as int]));
                        assert(resolves(out@[i as int], available@, req@[i as int]@));
                        assert(forall|k: int| 0 <= k < i ==> out@[k] == before[k]);
                    },
                }
                i = i + 1;
            }
            Some(out)
        },
    }
}

} // verus!
