use base64::Engine;
use rusqlite::types::{Value, ValueRef};
use std::sync::{Arc, Mutex};
use trailbase::subscribe::{
    action_from_code, db_event, dead_subscriptions, DbEvent, Delivery, Subscription, SubscriptionRegistry,
};
use trailbase::cursor::generate_cursor_key;
use trailbase::sqlite::{Column, Rows};
use trailbase::query::parse_list_query;
use trailbase::records::{
    access_granted, admit_record_subscription, plan_subscription, SubscribeStep,
    finish_list, plan_list, AclFlags, ColumnDataType, ColumnMeta, ListPlan, ListResponse, RecordApiConfig, RecordError,
    SqlValue, UserPrincipal,
};

fn to_value(v: &SqlValue) -> rusqlite::types::Value {
    match v {
        SqlValue::Null => Value::Null,
        SqlValue::Integer(i) => Value::Integer(*i),
        SqlValue::Real(bits) => Value::Real(f64::from_bits(*bits)),
        SqlValue::Text(s) => Value::Text(s.clone()),
        SqlValue::Blob(b) => Value::Blob(b.clone()),
    }
}

fn from_value(v: rusqlite::types::ValueRef<'_>) -> SqlValue {
    match v {
        ValueRef::Null => SqlValue::Null,
        ValueRef::Integer(i) => SqlValue::Integer(i),
        ValueRef::Real(f) => SqlValue::Real(f.to_bits()),
        ValueRef::Text(t) => SqlValue::Text(String::from_utf8_lossy(t).into_owned()),
        ValueRef::Blob(b) => SqlValue::Blob(b.to_vec()),
    }
}

fn run(conn: &rusqlite::Connection, plan: &ListPlan) -> Vec<Vec<SqlValue>> {
    let mut stmt = conn.prepare(&plan.sql).unwrap();
    for (name, v) in &plan.params {
        if let Some(i) = stmt.parameter_index(name).unwrap() {
            stmt.raw_bind_parameter(i, to_value(v)).unwrap();
        }
    }
    let n = stmt.column_count();
    let mut rows = stmt.raw_query();
    let mut out = vec![];
    while let Some(row) = rows.next().unwrap() {
        out.push((0..n).map(|i| from_value(row.get_ref(i).unwrap())).collect());
    }
    out
}

fn list(
    conn: &rusqlite::Connection,
    api: &RecordApiConfig,
    key: &[u8],
    query: &str,
    user: Option<&UserPrincipal>,
) -> Result<ListResponse, RecordError> {
    let q = parse_list_query(query).map_err(|_| RecordError::BadRequest("Invalid query"))?;
    let plan = plan_list(api, key, &q, user, vec![])?;
    let rows = run(conn, &plan);
    finish_list(api, key, &plan, &rows)
}

fn field<'a>(resp: &'a ListResponse, i: usize, name: &str) -> &'a SqlValue {
    &resp.records[i].fields.iter().find(|f| f.0 == name).unwrap().1
}

fn flags(read: bool) -> AclFlags {
    AclFlags { create: read, read, update: false, delete: false }
}

#[test]
fn test_record_api_list() {
    let conn = rusqlite::Connection::open_in_memory().unwrap();
    conn.execute_batch(
        r#"
        CREATE TABLE 'table' (
          id INTEGER PRIMARY KEY,
          'index' TEXT NOT NULL DEFAULT ''
        );
        INSERT INTO 'table' (id, 'index') VALUES (1, '1'), (2, '2'), (3, '3');
      "#,
    )
    .unwrap();
    let api = RecordApiConfig {
        api_name: "api".to_string(),
        database_schema: None,
        table_name: "table".to_string(),
        columns: vec![
            ColumnMeta { name: "id".to_string(), data_type: ColumnDataType::Integer },
            ColumnMeta { name: "index".to_string(), data_type: ColumnDataType::Text },
        ],
        pk_index: 0,
        read_access_rule: None,
        acl_world: flags(true),
        acl_authenticated: flags(false),
        expand: None,
    };
    let key = generate_cursor_key();

    let response = list(&conn, &api, &key, "", None).unwrap();
    assert_eq!(3, response.records.len());

    let first_id = match field(&response, 0, "id") {
        SqlValue::Integer(i) => *i,
        v => panic!("unexpected {v:?}"),
    };
    let response = list(&conn, &api, &key, &format!("filter[id]={}", first_id), None).unwrap();
    assert_eq!(1, response.records.len());
    assert!(matches!(field(&response, 0, "id"), SqlValue::Integer(i) if *i == first_id));
}

fn b64(b: &[u8]) -> String {
    base64::engine::general_purpose::URL_SAFE_NO_PAD.encode(b)
}

fn user(uuid: u8, email: &str) -> UserPrincipal {
    UserPrincipal { id: b64(&[uuid; 16]), uuid: vec![uuid; 16], email: email.to_string(), csrf_token: "csrf".to_string() }
}

fn mid(n: u8) -> Vec<u8> {
    let mut m = vec![0x01u8; 16];
    m[15] = n;
    m
}

fn messages_setup() -> (rusqlite::Connection, RecordApiConfig, UserPrincipal, UserPrincipal) {
    let conn = rusqlite::Connection::open_in_memory().unwrap();
    conn.execute_batch(
        "CREATE TABLE message (mid BLOB PRIMARY KEY, data TEXT, room BLOB, _owner BLOB);
         CREATE TABLE room_members (room BLOB, user BLOB);",
    )
    .unwrap();
    let user_x = user(0xA, "user_x@test.com");
    let user_y = user(0xB, "user_y@foo.baz");
    let room0 = vec![0u8; 16];
    let room1 = vec![1u8; 16];
    let add_member = |room: &Vec<u8>, u: &UserPrincipal| {
        let mut stmt = conn.prepare("INSERT INTO room_members (room, user) VALUES (?1, ?2)").unwrap();
        stmt.raw_bind_parameter(1, Value::Blob(room.clone())).unwrap();
        stmt.raw_bind_parameter(2, Value::Blob(u.uuid.clone())).unwrap();
        stmt.raw_execute().unwrap();
    };
    add_member(&room0, &user_x);
    add_member(&room0, &user_y);
    add_member(&room1, &user_y);
    for (n, room, text) in [(1u8, &room1, "user_y to room1"), (2, &room0, "user_y to room0"), (3, &room0, "Secret!1!!")] {
        let mut stmt = conn.prepare("INSERT INTO message (mid, data, room, _owner) VALUES (?1, ?2, ?3, ?4)").unwrap();
        stmt.raw_bind_parameter(1, Value::Blob(mid(n))).unwrap();
        stmt.raw_bind_parameter(2, Value::Text(text.to_string())).unwrap();
        stmt.raw_bind_parameter(3, Value::Blob(room.clone())).unwrap();
        stmt.raw_bind_parameter(4, Value::Blob(user_y.uuid.clone())).unwrap();
        stmt.raw_execute().unwrap();
    }
    let api = RecordApiConfig {
        api_name: "messages_api".to_string(),
        database_schema: None,
        table_name: "message".to_string(),
        columns: vec![
            ColumnMeta { name: "mid".to_string(), data_type: ColumnDataType::Blob },
            ColumnMeta { name: "data".to_string(), data_type: ColumnDataType::Text },
            ColumnMeta { name: "room".to_string(), data_type: ColumnDataType::Blob },
            ColumnMeta { name: "_owner".to_string(), data_type: ColumnDataType::Blob },
        ],
        pk_index: 0,
        read_access_rule: Some(
            "_ROW_._owner = _USER_.id OR EXISTS(SELECT 1 FROM room_members WHERE room = _ROW_.room AND user = _USER_.id)"
                .to_string(),
        ),
        acl_world: flags(false),
        acl_authenticated: flags(true),
        expand: None,
    };
    (conn, api, user_x, user_y)
}

fn mids(resp: &ListResponse) -> Vec<u8> {
    (0..resp.records.len())
        .map(|i| match field(resp, i, "mid") {
            SqlValue::Blob(b) => b[15],
            v => panic!("unexpected {v:?}"),
        })
        .collect()
}

#[test]
fn test_record_api_list_messages_api() {
    let (conn, api, user_x, user_y) = messages_setup();
    let key = generate_cursor_key();

    // Anonymous callers lack the table ACL.
    let r = list(&conn, &api, &key, "", None);
    assert!(matches!(r, Err(RecordError::Forbidden)));

    // Row-level access: X sees the two room0 messages, Y all three.
    assert_eq!(mids(&list(&conn, &api, &key, "", Some(&user_x)).unwrap()), vec![3, 2]);
    assert_eq!(mids(&list(&conn, &api, &key, "", Some(&user_y)).unwrap()), vec![3, 2, 1]);

    // Ordering.
    assert_eq!(mids(&list(&conn, &api, &key, "order=%2Bmid", Some(&user_y)).unwrap()), vec![1, 2, 3]);
    assert_eq!(mids(&list(&conn, &api, &key, "order=-mid", Some(&user_y)).unwrap()), vec![3, 2, 1]);

    // Cursor pagination with count.
    let page1 = list(&conn, &api, &key, "count=1&limit=1", Some(&user_x)).unwrap();
    assert_eq!(mids(&page1), vec![3]);
    assert_eq!(page1.total_count, Some(2));
    let c1 = page1.cursor.clone().unwrap();
    let page2 = list(&conn, &api, &key, &format!("count=1&limit=1&cursor={c1}"), Some(&user_x)).unwrap();
    assert_eq!(mids(&page2), vec![2]);
    assert_eq!(page2.total_count, Some(2));
    let c2 = page2.cursor.clone().unwrap();
    let page3 = list(&conn, &api, &key, &format!("cursor={c2}"), Some(&user_x)).unwrap();
    assert!(page3.records.is_empty());
    assert!(page3.cursor.is_none());

    // Filters on blob ids, plain and grouped.
    let first = b64(&mid(1));
    let third = b64(&mid(3));
    let r = list(&conn, &api, &key, &format!("filter[mid]={first}"), Some(&user_y)).unwrap();
    assert_eq!(mids(&r), vec![1]);
    let r = list(&conn, &api, &key, &format!("filter[$or][0][mid]={first}&filter[$or][1][mid][$eq]={third}"), Some(&user_y))
        .unwrap();
    assert_eq!(mids(&r), vec![3, 1]);

    // Unknown query keys are ignored.
    assert_eq!(mids(&list(&conn, &api, &key, "table=0", Some(&user_y)).unwrap()), vec![3, 2, 1]);

    // Offsets.
    assert_eq!(mids(&list(&conn, &api, &key, "offset=1", Some(&user_y)).unwrap()), vec![2, 1]);

    // Hidden columns never leave.
    let r = list(&conn, &api, &key, "", Some(&user_y)).unwrap();
    assert!(r.records[0].fields.iter().all(|f| f.0 != "_owner"));

    // A tampered cursor is a bad request.
    let mut chars: Vec<char> = c1.chars().collect();
    let last = chars.len() - 1;
    chars[last] = if chars[last] == 'A' { 'B' } else { 'A' };
    let tampered: String = chars.into_iter().collect();
    let r = list(&conn, &api, &key, &format!("cursor={tampered}"), Some(&user_x));
    assert!(matches!(r, Err(RecordError::BadRequest("Bad cursor"))));
}

#[test]
fn cursor_pages_partition_the_list() {
    let (conn, api, _user_x, user_y) = messages_setup();
    let key = generate_cursor_key();
    let mut seen = vec![];
    let mut cursor: Option<String> = None;
    loop {
        let q = match &cursor {
            Some(c) => format!("limit=1&cursor={c}"),
            None => "limit=1".to_string(),
        };
        let page = list(&conn, &api, &key, &q, Some(&user_y)).unwrap();
        if page.records.is_empty() {
            assert!(page.cursor.is_none());
            break;
        }
        seen.extend(mids(&page));
        cursor = page.cursor;
    }
    assert_eq!(seen, vec![3, 2, 1]);
}

#[test]
fn expanded_list_runs_on_sqlite() {
    let conn = rusqlite::Connection::open_in_memory().unwrap();
    conn.execute_batch(
        r#"CREATE TABLE "other" ("index" INTEGER PRIMARY KEY, name TEXT) STRICT;
           CREATE TABLE "table" (tid INTEGER PRIMARY KEY, "drop" TEXT, "index" INTEGER REFERENCES "other"("index")) STRICT;
           INSERT INTO "other" ("index", name) VALUES (7, 'seven');
           INSERT INTO "table" (tid, "drop", "index") VALUES (1, 'a', 7);"#,
    )
    .unwrap();
    let api = RecordApiConfig {
        api_name: "api".to_string(),
        database_schema: Some("main".to_string()),
        table_name: "table".to_string(),
        columns: vec![
            ColumnMeta { name: "tid".to_string(), data_type: ColumnDataType::Integer },
            ColumnMeta { name: "drop".to_string(), data_type: ColumnDataType::Text },
            ColumnMeta { name: "index".to_string(), data_type: ColumnDataType::Integer },
        ],
        pk_index: 0,
        read_access_rule: Some("_USER_.id IS NULL OR _USER_.id != X'F000'".to_string()),
        acl_world: flags(true),
        acl_authenticated: flags(true),
        expand: Some(vec!["index".to_string()]),
    };
    let expanded = vec![trailbase::records::ExpandedTable {
        local_column: "index".to_string(),
        foreign_table: "other".to_string(),
        foreign_pk: "index".to_string(),
        columns: vec!["index".to_string(), "name".to_string()],
    }];
    let key = generate_cursor_key();
    let q = parse_list_query("count=true&expand=index").unwrap();
    let plan = plan_list(&api, &key, &q, None, expanded).unwrap();
    let rows = run(&conn, &plan);
    let page = finish_list(&api, &key, &plan, &rows).unwrap();
    assert_eq!(page.total_count, Some(1));
    assert_eq!(page.records.len(), 1);
    let rec = &page.records[0];
    assert_eq!(rec.expanded.len(), 1);
    assert_eq!(rec.expanded[0].0, "index");
    assert!(matches!(&rec.expanded[0].1[1], (n, SqlValue::Text(t)) if n == "name" && t == "seven"));
}

fn admits(conn: &rusqlite::Connection, sql: &str, params: &[(String, SqlValue)]) -> bool {
    let mut stmt = conn.prepare(sql).unwrap();
    for (name, v) in params {
        if let Some(i) = stmt.parameter_index(name).unwrap() {
            stmt.raw_bind_parameter(i, to_value(v)).unwrap();
        }
    }
    let mut rows = stmt.raw_query();
    match rows.next().unwrap() {
        Some(row) => matches!(row.get_ref(0).unwrap(), ValueRef::Integer(1)),
        None => false,
    }
}

#[test]
fn changed_rows_are_rechecked_against_the_rule() {
    let (conn, api, user_x, user_y) = messages_setup();
    let names = vec!["mid".to_string(), "data".to_string(), "room".to_string(), "_owner".to_string()];
    let values = vec![
        SqlValue::Blob(mid(1)),
        SqlValue::Text("user_y to room1".to_string()),
        SqlValue::Blob(vec![1u8; 16]),
        SqlValue::Blob(user_y.uuid.clone()),
    ];
    let (sql, params) = api.record_access_query(&names, &values, Some(&user_x)).unwrap();
    assert!(!admits(&conn, &sql, &params));
    let (sql, params) = api.record_access_query(&names, &values, Some(&user_y)).unwrap();
    assert!(admits(&conn, &sql, &params));
    assert_eq!(params[0].0, ":__user_id");
    assert_eq!(params[1].0, ":__c0");
    assert!(sql.starts_with("SELECT (_ROW_._owner = _USER_.id"));
    assert!(sql.ends_with("(SELECT :__c0 AS \"mid\", :__c1 AS \"data\", :__c2 AS \"room\", :__c3 AS \"_owner\") AS _ROW_"));

    let mut open = api.clone();
    open.read_access_rule = None;
    assert!(open.record_access_query(&names, &values, None).is_none());
}


fn row_values(conn: &rusqlite::Connection, rowid: i64) -> Option<Vec<SqlValue>> {
    let mut stmt = conn.prepare("SELECT id, text FROM test WHERE _rowid_ = ?1").unwrap();
    stmt.raw_bind_parameter(1, Value::Integer(rowid)).unwrap();
    let mut rows = stmt.raw_query();
    let row = rows.next().unwrap()?;
    Some(vec![from_value(row.get_ref(0).unwrap()), from_value(row.get_ref(1).unwrap())])
}

#[test]
fn record_subscription_sees_update_then_delete() {
    let conn = rusqlite::Connection::open_in_memory().unwrap();
    conn.execute_batch("CREATE TABLE test (id INTEGER PRIMARY KEY, text TEXT) STRICT; INSERT INTO test (id, text) VALUES (0, 'foo'), (1, 'other');")
        .unwrap();
    let changes: Arc<Mutex<Vec<(i32, String, i64)>>> = Arc::new(Mutex::new(vec![]));
    let sink = changes.clone();
    conn.update_hook(Some(move |action: rusqlite::hooks::Action, _db: &str, table: &str, rowid: i64| {
        sink.lock().unwrap().push((action as i32, table.to_string(), rowid));
    }))
    .unwrap();

    let mut reg: SubscriptionRegistry<usize> = SubscriptionRegistry::new();
    let sub = Subscription { subscription_id: 1, record_api_name: "api_name".to_string(), user: None, channel: 0 };
    assert!(reg.add_record_subscription("test".to_string(), 0, sub));
    assert_eq!(reg.num_record_subscriptions(), 1);
    let names = vec!["id".to_string(), "text".to_string()];
    let mut delivered: Vec<DbEvent> = vec![];
    let mut last_values: Vec<SqlValue> = vec![];

    let mut process = |conn: &rusqlite::Connection, reg: &mut SubscriptionRegistry<usize>, delivered: &mut Vec<DbEvent>| {
        let pending: Vec<(i32, String, i64)> = changes.lock().unwrap().drain(..).collect();
        for (code, table, rowid) in pending {
            let action = action_from_code(code).unwrap();
            if !reg.wants_event(&table, rowid) {
                continue;
            }
            let values = match row_values(conn, rowid) {
                Some(v) => {
                    last_values = v.clone();
                    v
                }
                None => last_values.clone(),
            };
            let event = db_event(action, &names, &values);
            let targets = reg.targets(&table, Some(rowid));
            let mut outcomes = vec![];
            for i in targets {
                outcomes.push((reg.registration(i).sub.subscription_id, Delivery::Sent));
            }
            delivered.push(event);
            let dead = dead_subscriptions(&outcomes);
            reg.reap_record(&table, rowid, &dead, action);
        }
    };

    conn.execute("UPDATE test SET text = 'bar' WHERE id = 0", ()).unwrap();
    process(&conn, &mut reg, &mut delivered);
    match &delivered[0] {
        DbEvent::Update(Some(fields)) => {
            assert!(matches!(fields[0].1, SqlValue::Integer(0)));
            assert!(matches!(&fields[1].1, SqlValue::Text(t) if t == "bar"));
        }
        x => panic!("Expected update, got: {x:?}"),
    }

    conn.execute("DELETE FROM test WHERE id = 0", ()).unwrap();
    process(&conn, &mut reg, &mut delivered);
    assert!(matches!(&delivered[1], DbEvent::Delete(Some(_))));
    assert_eq!(reg.num_record_subscriptions(), 0);
    assert!(!reg.hook_installed());

    conn.execute("UPDATE test SET text = 'baz' WHERE id = 1", ()).unwrap();
    process(&conn, &mut reg, &mut delivered);
    assert_eq!(delivered.len(), 2);
}


fn run_query(conn: &rusqlite::Connection, sql: &str, params: &[(String, SqlValue)]) -> Rows {
    let mut stmt = conn.prepare(sql).unwrap();
    for (name, v) in params {
        if let Some(i) = stmt.parameter_index(name).unwrap() {
            stmt.raw_bind_parameter(i, to_value(v)).unwrap();
        }
    }
    let names: Vec<String> = stmt.column_names().into_iter().map(|s| s.to_string()).collect();
    let n = names.len();
    let mut rows = stmt.raw_query();
    let mut out = vec![];
    while let Some(row) = rows.next().unwrap() {
        out.push((0..n).map(|i| from_value(row.get_ref(i).unwrap())).collect());
    }
    Rows::from_values(names.into_iter().map(|n| Column::new(n, None)).collect(), out)
}

fn subscribe(conn: &rusqlite::Connection, apis: &Vec<RecordApiConfig>, record: &str, user: Option<&UserPrincipal>) -> Result<Option<i64>, RecordError> {
    match plan_subscription(apis, "messages_api", record, user)? {
        SubscribeStep::Table => Ok(None),
        SubscribeStep::Record { lookup_sql, lookup_params, access_sql, params, .. } => {
            let rows = run_query(conn, &lookup_sql, &lookup_params);
            let verdict = run_query(conn, &access_sql, &params);
            admit_record_subscription(&rows, access_granted(&verdict)).map(Some)
        }
    }
}

#[test]
fn record_subscriptions_check_the_row_rule() {
    let (conn, api, user_x, user_y) = messages_setup();
    let apis = vec![api];
    // m1 is in room1: Y may read it, X may not.
    let m1 = b64(&mid(1));
    assert_eq!(subscribe(&conn, &apis, &m1, Some(&user_y)).unwrap(), Some(1));
    assert!(matches!(subscribe(&conn, &apis, &m1, Some(&user_x)), Err(RecordError::Forbidden)));
    assert_eq!(subscribe(&conn, &apis, &b64(&mid(2)), Some(&user_x)).unwrap(), Some(2));
    assert!(matches!(subscribe(&conn, &apis, &b64(&mid(9)), Some(&user_y)), Err(RecordError::RecordNotFound)));
    assert!(matches!(subscribe(&conn, &apis, "*", None), Err(RecordError::Forbidden)));
    assert_eq!(subscribe(&conn, &apis, "*", Some(&user_x)).unwrap(), None);
    assert!(matches!(subscribe(&conn, &apis, "***", Some(&user_x)), Err(RecordError::BadRequest(_))));
    assert!(matches!(plan_subscription(&apis, "nope", "*", None), Err(RecordError::ApiNotFound)));
}
