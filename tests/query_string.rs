use trailbase::query::{parse_list_query, CompareOp, FilterClause, Order, QueryError};

#[test]
fn parses_paging_keys() {
    let q = parse_list_query("limit=10&offset=5&count=TRUE&cursor=abc_-").unwrap();
    assert_eq!(q.limit, Some(10));
    assert_eq!(q.offset, Some(5));
    assert_eq!(q.count, Some(true));
    assert_eq!(q.cursor.as_deref(), Some("abc_-"));
    let q = parse_list_query("count=1&limit=1").unwrap();
    assert_eq!(q.count, Some(true));
    assert_eq!(q.limit, Some(1));
    assert_eq!(parse_list_query("count=false").unwrap().count, Some(false));
}

#[test]
fn parses_order_and_expand() {
    let q = parse_list_query("order=%2Broom,-mid,data&expand=a,b").unwrap();
    let order = q.order.unwrap();
    assert_eq!(order.len(), 3);
    assert_eq!(order[0].0, "room");
    assert_eq!(order[0].1, Order::Ascending);
    assert_eq!(order[1].0, "mid");
    assert_eq!(order[1].1, Order::Descending);
    assert_eq!(order[2].0, "data");
    assert_eq!(order[2].1, Order::Ascending);
    assert_eq!(q.expand.unwrap(), vec!["a".to_string(), "b".to_string()]);
}

#[test]
fn parses_filters() {
    let q = parse_list_query("filter[mid]=x&filter[$or][0][mid]=a&filter[$or][1][mid][$eq]=b&filter[n][$gte]=3").unwrap();
    assert_eq!(q.filters.len(), 3);
    match &q.filters[0] {
        FilterClause::Single(f) => {
            assert_eq!(f.column, "mid");
            assert_eq!(f.op, CompareOp::Equal);
            assert_eq!(f.value, "x");
        },
        _ => panic!("expected a single filter"),
    }
    match &q.filters[1] {
        FilterClause::Single(f) => {
            assert_eq!(f.column, "n");
            assert_eq!(f.op, CompareOp::GreaterThanEqual);
            assert_eq!(f.value, "3");
        },
        _ => panic!("expected a single filter"),
    }
    match &q.filters[2] {
        FilterClause::AnyOf(fs) => {
            assert_eq!(fs.len(), 2);
            assert_eq!(fs[0].value, "a");
            assert_eq!(fs[1].value, "b");
        },
        _ => panic!("expected an $or group"),
    }
}

#[test]
fn percent_decoding_applies() {
    let q = parse_list_query("filter[data][$like]=%25hello%20world%25").unwrap();
    match &q.filters[0] {
        FilterClause::Single(f) => {
            assert_eq!(f.op, CompareOp::Like);
            assert_eq!(f.value, "%hello world%");
        },
        _ => panic!("expected a single filter"),
    }
}

#[test]
fn rejects_malformed_queries() {
    assert_eq!(parse_list_query("limit=-1").err(), Some(QueryError::Invalid));
    assert_eq!(parse_list_query("limit=x").err(), Some(QueryError::Invalid));
    assert_eq!(parse_list_query("count=maybe").err(), Some(QueryError::Invalid));
    assert_eq!(parse_list_query("order=-").err(), Some(QueryError::Invalid));
    assert_eq!(parse_list_query("filter[a][$nope]=1").err(), Some(QueryError::Invalid));
    assert_eq!(parse_list_query("filter[a").err(), Some(QueryError::Invalid));
    assert_eq!(parse_list_query("filter[$or][x][a]=1").err(), Some(QueryError::Invalid));
}

#[test]
fn unknown_keys_are_ignored() {
    let q = parse_list_query("table=0&limit=2&foo[bar]=1").unwrap();
    assert_eq!(q.limit, Some(2));
    assert!(q.filters.is_empty());
    let q = parse_list_query("table=0").unwrap();
    assert!(q.limit.is_none() && q.filters.is_empty());
}

#[test]
fn empty_query_is_default() {
    let q = parse_list_query("").unwrap();
    assert!(q.limit.is_none() && q.cursor.is_none() && q.order.is_none() && q.filters.is_empty());
}
