use trailbase::cursor::{decrypt_cursor, generate_cursor_key};
use trailbase::query::{parse_list_query, ListQuery, Order};
use trailbase::records::{
    finish_list, limit_or_default, lookup_record_api, plan_list, resolve_expansions, AclFlags, ColumnDataType, ColumnMeta,
    ExpandedTable, Permission, RecordApiConfig, RecordError, SqlValue, UserPrincipal, CURSOR_ORDER,
    DEFAULT_LIMIT, MAX_LIMIT,
};
use trailbase::sql::list_sql_text;

fn flags(read: bool) -> AclFlags {
    AclFlags { create: read, read, update: false, delete: false }
}

fn none() -> AclFlags {
    AclFlags { create: false, read: false, update: false, delete: false }
}

fn column(name: &str, data_type: ColumnDataType) -> ColumnMeta {
    ColumnMeta { name: name.to_string(), data_type }
}

fn table_api() -> RecordApiConfig {
    RecordApiConfig {
        api_name: "api".to_string(),
        database_schema: None,
        table_name: "table".to_string(),
        columns: vec![column("id", ColumnDataType::Integer), column("index", ColumnDataType::Text)],
        pk_index: 0,
        read_access_rule: None,
        acl_world: flags(true),
        acl_authenticated: none(),
        expand: None,
    }
}

fn messages_api() -> RecordApiConfig {
    RecordApiConfig {
        api_name: "messages_api".to_string(),
        database_schema: None,
        table_name: "message".to_string(),
        columns: vec![
            column("mid", ColumnDataType::Blob),
            column("data", ColumnDataType::Text),
            column("room", ColumnDataType::Blob),
            column("_owner", ColumnDataType::Blob),
        ],
        pk_index: 0,
        read_access_rule: Some(
            "_ROW_._owner = _USER_.id OR EXISTS(SELECT 1 FROM room_members WHERE room = _ROW_.room AND user = _USER_.id)"
                .to_string(),
        ),
        acl_world: none(),
        acl_authenticated: flags(true),
        expand: None,
    }
}

fn user() -> UserPrincipal {
    UserPrincipal {
        id: "AQID".to_string(),
        uuid: vec![1u8; 16],
        email: "user_x@test.com".to_string(),
        csrf_token: "csrf".to_string(),
    }
}

#[test]
fn test_list_records_template() {
    let sql = list_sql_text(
        "\"table\"",
        &vec!["_ROW_.\"a\"".to_string(), "_ROW_.\"index\"".to_string(), "_ROW_._rowid_ AS _rowid_".to_string()],
        "",
        "TRUE",
        "TRUE",
        Some("TRUE"),
        "NULL",
        false,
    );
    assert!(!sql.contains("\n\n"), "{sql}");
    assert_eq!(
        sql,
        "SELECT _ROW_.\"a\", _ROW_.\"index\", _ROW_._rowid_ AS _rowid_ FROM (SELECT :__user_id AS id) AS _USER_, \"table\" AS _ROW_ WHERE (TRUE) AND (TRUE) AND TRUE ORDER BY NULL LIMIT :__limit"
    );

    let sql = list_sql_text(
        "\"db\".\"table\"",
        &vec![
            "_ROW_.\"a\"".to_string(),
            "_ROW_.\"index\"".to_string(),
            "COUNT(*) OVER () AS _total_count_".to_string(),
            "_ROW_._rowid_ AS _rowid_".to_string(),
        ],
        "",
        "_USER_.id IS NOT NULL",
        "a = 'value'",
        None,
        "'index' ASC",
        true,
    );
    assert!(!sql.contains("\n\n"), "{sql}");
    assert!(sql.ends_with("ORDER BY 'index' ASC LIMIT :__limit OFFSET :__offset"), "{sql}");
    assert!(sql.contains("WHERE (_USER_.id IS NOT NULL) AND (a = 'value') ORDER BY"), "{sql}");
}

#[test]
fn test_list_records_template_with_expansions() {
    let mut api = table_api();
    api.table_name = "table".to_string();
    api.database_schema = Some("main".to_string());
    api.columns = vec![
        column("tid", ColumnDataType::Integer),
        column("drop", ColumnDataType::Text),
        column("index", ColumnDataType::Integer),
    ];
    api.read_access_rule = Some("_USER_.id != X'F000'".to_string());
    api.expand = Some(vec!["index".to_string()]);
    let expanded = vec![ExpandedTable {
        local_column: "index".to_string(),
        foreign_table: "other".to_string(),
        foreign_pk: "index".to_string(),
        columns: vec!["index".to_string()],
    }];
    assert_eq!(expanded.len(), 1);
    assert_eq!(expanded[0].local_column, "index");
    assert_eq!(expanded[0].foreign_table, "other");
    assert_eq!(expanded[0].foreign_pk, "index");

    let query = parse_list_query("count=true&expand=index").unwrap();
    let key = generate_cursor_key();
    let plan = match plan_list(&api, &key, &query, Some(&user()), expanded) {
        Ok(p) => p,
        Err(err) => panic!("ERROR: {err:?}"),
    };
    assert_eq!(
        plan.sql,
        "SELECT _ROW_.\"tid\", _ROW_.\"drop\", _ROW_.\"index\", _EXPAND_0.\"index\", (SELECT COUNT(*) FROM \"main\".\"table\" AS _ROW_ WHERE (_USER_.id != X'F000') AND (TRUE)) AS _total_count_, _ROW_._rowid_ AS _rowid_ FROM (SELECT :__user_id AS id) AS _USER_, \"main\".\"table\" AS _ROW_ LEFT JOIN \"other\" AS _EXPAND_0 ON _ROW_.\"index\" = _EXPAND_0.\"index\" WHERE (_USER_.id != X'F000') AND (TRUE) ORDER BY _ROW_.\"tid\" DESC LIMIT :__limit"
    );
    assert_eq!(plan.params.len(), 2);
    assert_eq!(plan.params[0].0, ":__limit");
    assert!(matches!(plan.params[0].1, SqlValue::Integer(100)));
    assert_eq!(plan.params[1].0, ":__user_id");
    assert!(matches!(&plan.params[1].1, SqlValue::Blob(b) if b == &vec![1u8; 16]));
}

#[test]
fn default_plan_orders_by_primary_key_descending() {
    let key = generate_cursor_key();
    let plan = plan_list(&table_api(), &key, &ListQuery::empty(), None, vec![]).unwrap();
    assert_eq!(
        plan.sql,
        "SELECT _ROW_.\"id\", _ROW_.\"index\", _ROW_._rowid_ AS _rowid_ FROM (SELECT :__user_id AS id) AS _USER_, \"table\" AS _ROW_ WHERE (TRUE) AND (TRUE) ORDER BY _ROW_.\"id\" DESC LIMIT :__limit"
    );
    assert!(matches!(plan.params[1].1, SqlValue::Null));
    assert!(plan.cursor.is_none());
    assert!(!plan.count);
}

#[test]
fn filters_are_bound_and_unknown_columns_dropped() {
    let key = generate_cursor_key();
    let query = parse_list_query("filter[id]=2&filter[nope]=1&filter[index][$ne]=x").unwrap();
    let plan = plan_list(&table_api(), &key, &query, None, vec![]).unwrap();
    assert!(plan.sql.contains("WHERE (TRUE) AND (_ROW_.\"id\" = :__p0_0 AND _ROW_.\"index\" <> :__p2_0) ORDER BY"), "{}", plan.sql);
    assert_eq!(plan.params[0].0, ":__p0_0");
    assert!(matches!(plan.params[0].1, SqlValue::Integer(2)));
    assert_eq!(plan.params[1].0, ":__p2_0");
    assert!(matches!(&plan.params[1].1, SqlValue::Text(t) if t == "x"));
}

#[test]
fn or_group_renders_in_parentheses() {
    let key = generate_cursor_key();
    let query = parse_list_query("filter[$or][0][id]=1&filter[$or][1][id][$eq]=3").unwrap();
    let plan = plan_list(&table_api(), &key, &query, None, vec![]).unwrap();
    assert!(plan.sql.contains("AND ((_ROW_.\"id\" = :__p0_0 OR _ROW_.\"id\" = :__p0_1)) ORDER BY"), "{}", plan.sql);
}

#[test]
fn bad_filter_value_is_rejected() {
    let key = generate_cursor_key();
    let query = parse_list_query("filter[id]=abc").unwrap();
    let r = plan_list(&table_api(), &key, &query, None, vec![]);
    assert!(matches!(r, Err(RecordError::BadRequest("Invalid filter params"))));
}

#[test]
fn order_clause_follows_request() {
    let key = generate_cursor_key();
    let q = parse_list_query("order=%2Bid").unwrap();
    let plan = plan_list(&table_api(), &key, &q, None, vec![]).unwrap();
    assert!(plan.sql.ends_with("ORDER BY _ROW_.\"id\" ASC LIMIT :__limit"), "{}", plan.sql);
    let q = parse_list_query("order=-id,%2Bindex").unwrap();
    let plan = plan_list(&table_api(), &key, &q, None, vec![]).unwrap();
    assert!(plan.sql.ends_with("ORDER BY _ROW_.\"id\" DESC,_ROW_.\"index\" ASC LIMIT :__limit"), "{}", plan.sql);
}

#[test]
fn list_without_acl_is_forbidden() {
    let key = generate_cursor_key();
    let api = messages_api();
    let r = plan_list(&api, &key, &ListQuery::empty(), None, vec![]);
    match r {
        Err(e) => {
            assert!(matches!(e, RecordError::Forbidden));
            assert_eq!(e.status(), 403);
        },
        Ok(_) => panic!("expected Forbidden"),
    }
    assert!(plan_list(&api, &key, &ListQuery::empty(), Some(&user()), vec![]).is_ok());
    assert!(api.check_table_level_access(Permission::Read, None).is_err());
    assert!(api.check_table_level_access(Permission::Delete, Some(&user())).is_err());
}

#[test]
fn limits_clamp() {
    assert_eq!(limit_or_default(None), DEFAULT_LIMIT);
    assert_eq!(limit_or_default(Some(0)), 0);
    assert_eq!(limit_or_default(Some(5)), 5);
    assert_eq!(limit_or_default(Some(MAX_LIMIT + 1)), MAX_LIMIT);
    let key = generate_cursor_key();
    let q = parse_list_query("limit=5000").unwrap();
    let plan = plan_list(&table_api(), &key, &q, None, vec![]).unwrap();
    assert_eq!(plan.limit, MAX_LIMIT);
}

fn row(id: i64, index: &str) -> Vec<SqlValue> {
    vec![SqlValue::Integer(id), SqlValue::Text(index.to_string()), SqlValue::Integer(id)]
}

#[test]
fn cursor_pages_continue_past_last_rowid() {
    let key = generate_cursor_key();
    let api = table_api();
    let plan = plan_list(&api, &key, &ListQuery::empty(), None, vec![]).unwrap();
    let rows = vec![row(3, "3"), row(2, "2")];
    let page = finish_list(&api, &key, &plan, &rows).unwrap();
    assert_eq!(page.records.len(), 2);
    assert!(page.total_count.is_none());
    let cursor = page.cursor.unwrap();
    assert_eq!(decrypt_cursor(&key, b"api", &cursor).unwrap(), "2");

    let mut next = ListQuery::empty();
    next.cursor = Some(cursor);
    let plan = plan_list(&api, &key, &next, None, vec![]).unwrap();
    assert!(matches!(plan.cursor, Some((2, Order::Descending))));
    assert!(plan.sql.contains("AND _ROW_._rowid_ < :cursor ORDER BY"), "{}", plan.sql);
    let last = plan.params.last().unwrap();
    assert_eq!(last.0, ":cursor");
    assert!(matches!(last.1, SqlValue::Integer(2)));

    let empty = finish_list(&api, &key, &plan, &vec![]).unwrap();
    assert!(empty.cursor.is_none());
    assert!(empty.records.is_empty());
}

#[test]
fn ascending_cursor_on_integer_primary_key() {
    let key = generate_cursor_key();
    let api = table_api();
    let plan = plan_list(&api, &key, &ListQuery::empty(), None, vec![]).unwrap();
    let page = finish_list(&api, &key, &plan, &vec![row(1, "1")]).unwrap();
    let cursor = page.cursor.unwrap();

    let mut q = parse_list_query("order=%2Bid").unwrap();
    q.cursor = Some(cursor.clone());
    let plan = plan_list(&api, &key, &q, None, vec![]).unwrap();
    assert!(matches!(plan.cursor, Some((1, Order::Ascending))));
    assert!(plan.sql.contains("AND _ROW_._rowid_ > :cursor ORDER BY"), "{}", plan.sql);

    let mut q = parse_list_query("order=%2Bindex").unwrap();
    q.cursor = Some(cursor);
    let r = plan_list(&api, &key, &q, None, vec![]);
    assert!(matches!(r, Err(RecordError::BadRequest(m)) if m == CURSOR_ORDER));
}

#[test]
fn tampered_cursor_is_bad_request() {
    let key = generate_cursor_key();
    let api = table_api();
    let plan = plan_list(&api, &key, &ListQuery::empty(), None, vec![]).unwrap();
    let cursor = finish_list(&api, &key, &plan, &vec![row(9, "9")]).unwrap().cursor.unwrap();
    let mut chars: Vec<char> = cursor.chars().collect();
    let last = chars.len() - 1;
    chars[last] = if chars[last] == 'A' { 'B' } else { 'A' };
    let mut q = ListQuery::empty();
    q.cursor = Some(chars.into_iter().collect());
    let r = plan_list(&api, &key, &q, None, vec![]);
    match r {
        Err(e) => {
            assert!(matches!(e, RecordError::BadRequest("Bad cursor")));
            assert_eq!(e.status(), 400);
        },
        Ok(_) => panic!("expected Bad cursor"),
    }
}

#[test]
fn cursor_of_another_api_is_bad() {
    let key = generate_cursor_key();
    let api = table_api();
    let plan = plan_list(&api, &key, &ListQuery::empty(), None, vec![]).unwrap();
    let cursor = finish_list(&api, &key, &plan, &vec![row(9, "9")]).unwrap().cursor.unwrap();
    let mut other = table_api();
    other.api_name = "other".to_string();
    let mut q = ListQuery::empty();
    q.cursor = Some(cursor);
    assert!(matches!(plan_list(&other, &key, &q, None, vec![]), Err(RecordError::BadRequest("Bad cursor"))));
}

#[test]
fn total_count_and_hidden_columns() {
    let key = generate_cursor_key();
    let api = messages_api();
    let q = parse_list_query("count=1&limit=1").unwrap();
    let plan = plan_list(&api, &key, &q, Some(&user()), vec![]).unwrap();
    assert!(plan.count);
    assert!(plan.sql.contains(") AS _total_count_, _ROW_._rowid_ AS _rowid_"), "{}", plan.sql);
    let rows = vec![vec![
        SqlValue::Blob(vec![3]),
        SqlValue::Text("m3".to_string()),
        SqlValue::Blob(vec![0]),
        SqlValue::Blob(vec![1]),
        SqlValue::Integer(2),
        SqlValue::Integer(3),
    ]];
    let page = finish_list(&api, &key, &plan, &rows).unwrap();
    assert_eq!(page.total_count, Some(2));
    let names: Vec<&str> = page.records[0].fields.iter().map(|f| f.0.as_str()).collect();
    assert_eq!(names, vec!["mid", "data", "room"]);
    assert_eq!(decrypt_cursor(&key, b"messages_api", page.cursor.as_ref().unwrap()).unwrap(), "3");

    let empty = finish_list(&api, &key, &plan, &vec![]).unwrap();
    assert_eq!(empty.total_count, Some(0));
    assert!(empty.cursor.is_none());
}

#[test]
fn malformed_rows_are_internal_errors() {
    let key = generate_cursor_key();
    let api = table_api();
    let plan = plan_list(&api, &key, &ListQuery::empty(), None, vec![]).unwrap();
    let r = finish_list(&api, &key, &plan, &vec![vec![SqlValue::Null]]);
    match r {
        Err(e) => assert_eq!(e.status(), 500),
        Ok(_) => panic!("expected an internal error"),
    }
}

#[test]
fn expansion_must_be_configured() {
    let key = generate_cursor_key();
    let q = parse_list_query("expand=index").unwrap();
    let r = plan_list(&table_api(), &key, &q, None, vec![]);
    assert!(matches!(r, Err(RecordError::BadRequest("Invalid expansion"))));
}

#[test]
fn api_lookup_by_name() {
    let apis = vec![table_api(), messages_api()];
    assert_eq!(lookup_record_api(&apis, "messages_api").unwrap().table_name, "message");
    assert!(lookup_record_api(&apis, "missing").is_none());
    assert_eq!(RecordError::ApiNotFound.status(), 404);
    assert_eq!(RecordError::RecordNotFound.status(), 404);
    assert_eq!(RecordError::Internal("x".to_string()).status(), 500);
}

#[test]
fn row_rule_filters_rows_in_sql() {
    let key = generate_cursor_key();
    let api = messages_api();
    let plan = plan_list(&api, &key, &ListQuery::empty(), Some(&user()), vec![]).unwrap();
    assert!(plan.sql.contains(
        "WHERE (_ROW_._owner = _USER_.id OR EXISTS(SELECT 1 FROM room_members WHERE room = _ROW_.room AND user = _USER_.id)) AND (TRUE)"
    ), "{}", plan.sql);
    assert!(plan.sql.contains("FROM (SELECT :__user_id AS id) AS _USER_, \"message\" AS _ROW_"));
    assert!(matches!(&plan.params[1].1, SqlValue::Blob(b) if b.len() == 16));
}

#[test]
fn zero_limit_page_is_empty() {
    let key = generate_cursor_key();
    let q = parse_list_query("limit=0").unwrap();
    let plan = plan_list(&table_api(), &key, &q, None, vec![]).unwrap();
    assert_eq!(plan.limit, 0);
    assert!(matches!(plan.params[0].1, SqlValue::Integer(0)));
    let page = finish_list(&table_api(), &key, &plan, &vec![]).unwrap();
    assert!(page.cursor.is_none());
    assert!(page.records.is_empty());
}

#[test]
fn blob_filters_decode_base64url() {
    let key = generate_cursor_key();
    let q = parse_list_query("filter[room]=AQID").unwrap();
    let plan = plan_list(&messages_api(), &key, &q, Some(&user()), vec![]).unwrap();
    assert!(matches!(&plan.params[0].1, SqlValue::Blob(b) if b == &vec![1u8, 2, 3]));
    let q = parse_list_query("filter[room]=***").unwrap();
    assert!(matches!(plan_list(&messages_api(), &key, &q, Some(&user()), vec![]), Err(RecordError::BadRequest(_))));
}

#[test]
fn offset_is_bound() {
    let key = generate_cursor_key();
    let q = parse_list_query("offset=1").unwrap();
    let plan = plan_list(&table_api(), &key, &q, None, vec![]).unwrap();
    assert!(plan.sql.ends_with("LIMIT :__limit OFFSET :__offset"));
    assert_eq!(plan.params[2].0, ":__offset");
    assert!(matches!(plan.params[2].1, SqlValue::Integer(1)));
}

#[test]
fn record_ids_follow_primary_key_type() {
    let api = table_api();
    assert!(matches!(api.id_to_sql("12"), Ok(SqlValue::Integer(12))));
    assert!(matches!(api.id_to_sql("x"), Err(RecordError::BadRequest(_))));
    let m = messages_api();
    assert!(matches!(m.id_to_sql("AQID"), Ok(SqlValue::Blob(b)) if b == vec![1u8, 2, 3]));
    assert_eq!(api.rowid_lookup_sql(), "SELECT _rowid_ FROM \"table\" WHERE \"id\" = $1");
}

#[test]
fn unopenable_cursors_are_bad_cursor() {
    let key = generate_cursor_key();
    for c in ["not base64!", "AAAA", "AAAAAAAAAAAAAAAAAAAAAAAAAAAAAAAAAAAAAAAAAAA"] {
        let mut q = ListQuery::empty();
        q.cursor = Some(c.to_string());
        assert!(matches!(plan_list(&table_api(), &key, &q, None, vec![]), Err(RecordError::BadRequest("Bad cursor"))));
    }
}

#[test]
fn non_integer_rowid_is_internal() {
    let key = generate_cursor_key();
    let api = table_api();
    let plan = plan_list(&api, &key, &ListQuery::empty(), None, vec![]).unwrap();
    let rows = vec![vec![SqlValue::Integer(1), SqlValue::Text("1".to_string()), SqlValue::Null]];
    assert!(matches!(finish_list(&api, &key, &plan, &rows), Err(RecordError::Internal(_))));
}

#[test]
fn expansions_resolve_by_local_column() {

    let available = vec![ExpandedTable {
        local_column: "index".to_string(),
        foreign_table: "other".to_string(),
        foreign_pk: "index".to_string(),
        columns: vec!["index".to_string()],
    }];
    let q = parse_list_query("expand=index").unwrap();
    let r = resolve_expansions(&q, &available).unwrap();
    assert_eq!(r.len(), 1);
    assert_eq!(r[0].foreign_table, "other");
    let q = parse_list_query("expand=missing").unwrap();
    assert!(resolve_expansions(&q, &available).is_none());
    assert!(resolve_expansions(&ListQuery::empty(), &available).unwrap().is_empty());
}
