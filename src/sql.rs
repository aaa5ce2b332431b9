//! Rendering of the clauses of a list query: filters (values always bound as
//! parameters, unknown columns dropped), ordering and the cursor condition.

use crate::cursor::{base64url_decode, base64url_of};
use crate::query::{ColumnFilter, CompareOp, FilterClause, Order};
use crate::records::{ColumnDataType, ColumnMeta, ExpandedTable, SqlValue};
use crate::text::{i64_of_decimal, nat_decimal, parse_i64, push_nat_decimal};
use vstd::prelude::*;
use vstd::string::*;

verus! {

/// Abstract value of a [`SqlValue`].
pub enum SqlValueView {
    Null,
    Integer(i64),
    Real(u64),
    Text(Seq<char>),
    Blob(Seq<u8>),
}

impl View for SqlValue {
    type V = SqlValueView;

    open spec fn view(&self) -> SqlValueView {
        match self {
            SqlValue::Null => SqlValueView::Null,
            SqlValue::Integer(i) => SqlValueView::Integer(*i),
            SqlValue::Real(b) => SqlValueView::Real(*b),
            SqlValue::Text(s) => SqlValueView::Text(s@),
            SqlValue::Blob(b) => SqlValueView::Blob(b@),
        }
    }
}

/// Abstract list of bound parameters: names and values.
pub open spec fn params_view(ps: Seq<(String, SqlValue)>) -> Seq<(Seq<char>, SqlValueView)> {
    ps.map_values(|p: (String, SqlValue)| (p.0@, p.1@))
}

/// A double-quoted SQL identifier.
pub open spec fn quoted(name: Seq<char>) -> Seq<char> {
    "\""@ + name + "\""@
}

/// Index of the first column called `name` among the first `n` columns.
pub open spec fn find_column_in(cols: Seq<ColumnMeta>, name: Seq<char>, n: int) -> Option<int>
    decreases n,
{
    if n <= 0 {
        None
    } else {
        match find_column_in(cols, name, n - 1) {
            Some(i) => Some(i),
            None => if cols[n - 1].name@ == name {
                Some(n - 1)
            } else {
                None
            },
        }
    }
}

/// Index of the first column called `name`.
pub open spec fn find_column(cols: Seq<ColumnMeta>, name: Seq<char>) -> Option<int> {
    find_column_in(cols, name, cols.len() as int)
}

proof fn lemma_find_column_in_found(cols: Seq<ColumnMeta>, name: Seq<char>, i: int, n: int)
    requires
        0 <= i < n,
        find_column_in(cols, name, i + 1) == Some(i),
    ensures
        find_column_in(cols, name, n) == Some(i),
    decreases n,
{
    if n > i + 1 {
        lemma_find_column_in_found(cols, name, i, n - 1);
    }
}

proof fn lemma_find_column_in_bounds(cols: Seq<ColumnMeta>, name: Seq<char>, n: int)
    ensures
        find_column_in(cols, name, n) matches Some(i) ==> 0 <= i < n && cols[i].name@ == name,
    decreases n,
{
    if n > 0 {
        lemma_find_column_in_bounds(cols, name, n - 1);
    }
}

/// Position of the first column called `name`.
pub fn column_index(cols: &Vec<ColumnMeta>, name: &str) -> (r: Option<usize>)
    ensures
        r matches Some(i) ==> find_column(cols@, name@) == Some(i as int),
        r is None ==> find_column(cols@, name@) is None,
        r matches Some(i) ==> i < cols@.len() && cols@[i as int].name@ == name@,
{
    let mut i: usize = 0;
    while i < cols.len()
        invariant
            i <= cols@.len(),
            find_column_in(cols@, name@, i as int) is None,
        decreases cols@.len() - i,
    {
        if crate::text::str_eq(cols[i].name.as_str(), name) {
            proof {
                lemma_find_column_in_found(cols@, name@, i as int, cols@.len() as int);
            }
            return Some(i);
        }
        i = i + 1;
    }
    None
}

/// SQL operator of a comparison.
pub open spec fn op_sql(op: CompareOp) -> Seq<char> {
    match op {
        CompareOp::Equal => "="@,
        CompareOp::NotEqual => "<>"@,
        CompareOp::LessThan => "<"@,
        CompareOp::LessThanEqual => "<="@,
        CompareOp::GreaterThan => ">"@,
        CompareOp::GreaterThanEqual => ">="@,
        CompareOp::Like => "LIKE"@,
    }
}

fn op_text(op: CompareOp) -> (r: &'static str)
    ensures
        r@ == op_sql(op),
{
    match op {
        CompareOp::Equal => "=",
        CompareOp::NotEqual => "<>",
        CompareOp::LessThan => "<",
        CompareOp::LessThanEqual => "<=",
        CompareOp::GreaterThan => ">",
        CompareOp::GreaterThanEqual => ">=",
        CompareOp::Like => "LIKE",
    }
}

/// Name of the parameter bound by the `j`-th filter of the `i`-th clause.
pub open spec fn param_name(i: nat, j: nat) -> Seq<char> {
    ":__p"@ + nat_decimal(i) + "_"@ + nat_decimal(j)
}

/// The value a filter binds for a column of type `t`: integers are parsed,
/// blobs base64url-decoded, everything else bound as text.
pub open spec fn filter_value(t: ColumnDataType, v: Seq<char>) -> Option<SqlValueView> {
    match t {
        ColumnDataType::Integer => match i64_of_decimal(v) {
            Some(i) => Some(SqlValueView::Integer(i)),
            None => None,
        },
        ColumnDataType::Blob => if exists|b: Seq<u8>| base64url_of(b) == v {
            Some(SqlValueView::Blob(choose|b: Seq<u8>| base64url_of(b) == v))
        } else {
            None
        },
        _ => Some(SqlValueView::Text(v)),
    }
}

/// `_ROW_."column" <op> :__p<i>_<j>`.
pub open spec fn filter_sql(f: ColumnFilter, i: nat, j: nat) -> Seq<char> {
    "_ROW_."@ + quoted(f.column@) + " "@ + op_sql(f.op) + " "@ + param_name(i, j)
}

/// Rendered filters of the `ci`-th clause and their parameters; filters on
/// unknown columns are dropped, a value that does not convert fails.
pub open spec fn group_parts(cols: Seq<ColumnMeta>, fs: Seq<ColumnFilter>, ci: nat) -> Option<
    (Seq<Seq<char>>, Seq<(Seq<char>, SqlValueView)>),
>
    decreases fs.len(),
{
    if fs.len() == 0 {
        Some((seq![], seq![]))
    } else {
        match group_parts(cols, fs.drop_last(), ci) {
            None => None,
            Some((parts, ps)) => {
                let f = fs.last();
                match find_column(cols, f.column@) {
                    None => Some((parts, ps)),
                    Some(i) => match filter_value(cols[i].data_type, f.value@) {
                        None => None,
                        Some(v) => Some(
                            (
                                parts.push(filter_sql(f, ci, (fs.len() - 1) as nat)),
                                ps.push((param_name(ci, (fs.len() - 1) as nat), v)),
                            ),
                        ),
                    },
                }
            },
        }
    }
}

/// Parts joined by a separator.
pub open spec fn join(parts: Seq<Seq<char>>, sep: Seq<char>) -> Seq<char>
    decreases parts.len(),
{
    if parts.len() == 0 {
        seq![]
    } else if parts.len() == 1 {
        parts[0]
    } else {
        join(parts.drop_last(), sep) + sep + parts.last()
    }
}

/// The `ci`-th top-level clause rendered with its parameters; `None` inside
/// when all its filters were dropped.
pub open spec fn clause_sql(cols: Seq<ColumnMeta>, c: FilterClause, ci: nat) -> Option<
    (Option<Seq<char>>, Seq<(Seq<char>, SqlValueView)>),
> {
    let (fs, sep) = match c {
        FilterClause::Single(f) => (seq![f], " AND "@),
        FilterClause::AnyOf(v) => (v@, " OR "@),
        FilterClause::AllOf(v) => (v@, " AND "@),
    };
    match group_parts(cols, fs, ci) {
        None => None,
        Some((parts, ps)) => if parts.len() == 0 {
            Some((None, ps))
        } else if c is Single {
            Some((Some(parts[0]), ps))
        } else {
            Some((Some("("@ + join(parts, sep) + ")"@), ps))
        },
    }
}

/// All top-level clauses rendered, with their parameters.
pub open spec fn clauses_parts(cols: Seq<ColumnMeta>, cs: Seq<FilterClause>) -> Option<
    (Seq<Seq<char>>, Seq<(Seq<char>, SqlValueView)>),
>
    decreases cs.len(),
{
    if cs.len() == 0 {
        Some((seq![], seq![]))
    } else {
        match clauses_parts(cols, cs.drop_last()) {
            None => None,
            Some((parts, ps)) => match clause_sql(cols, cs.last(), (cs.len() - 1) as nat) {
                None => None,
                Some((None, more)) => Some((parts, ps + more)),
                Some((Some(text), more)) => Some((parts.push(text), ps + more)),
            },
        }
    }
}

/// The WHERE condition of the filters and its parameters: `TRUE` when no filter remains.
pub open spec fn where_clause(cols: Seq<ColumnMeta>, cs: Seq<FilterClause>) -> Option<
    (Seq<char>, Seq<(Seq<char>, SqlValueView)>),
> {
    match clauses_parts(cols, cs) {
        None => None,
        Some((parts, ps)) => if parts.len() == 0 {
            Some(("TRUE"@, ps))
        } else {
            Some((join(parts, " AND "@), ps))
        },
    }
}

fn param_name_text(i: usize, j: usize) -> (r: String)
    ensures
        r@ == param_name(i as nat, j as nat),
{
    let mut s = String::new();
    s.append(":__p");
    push_nat_decimal(&mut s, i as u64);
    s.append("_");
    push_nat_decimal(&mut s, j as u64);
    assert(s@ =~= param_name(i as nat, j as nat));
    s
}

/// Converts a filter value for a column of type `t`.
pub fn convert_filter_value(t: ColumnDataType, v: &str) -> (r: Option<SqlValue>)
    ensures
        r is None <==> filter_value(t, v@) is None,
        r matches Some(x) ==> filter_value(t, v@) == Some(x@),
{
    match t {
        ColumnDataType::Integer => match parse_i64(v) {
            Some(i) => Some(SqlValue::Integer(i)),
            None => None,
        },
        ColumnDataType::Blob => match base64url_decode(v) {
            Some(b) => {
                proof {
                    let c = choose|c: Seq<u8>| base64url_of(c) == v@;
                    assert(base64url_of(b@) == v@);
                }
                Some(SqlValue::Blob(b))
            },
            None => None,
        },
        _ => Some(SqlValue::Text(v.to_string())),
    }
}

fn filter_text(f: &ColumnFilter, i: usize, j: usize) -> (r: String)
    ensures
        r@ == filter_sql(*f, i as nat, j as nat),
{
    let mut s = String::new();
    s.append("_ROW_.");
    s.append("\"");
    s.append(f.column.as_str());
    s.append("\"");
    s.append(" ");
    s.append(op_text(f.op));
    s.append(" ");
    let p = param_name_text(i, j);
    s.append(p.as_str());
    assert(s@ =~= filter_sql(*f, i as nat, j as nat));
    s
}

pub(crate) fn join_texts(parts: &Vec<String>, sep: &str) -> (r: String)
    ensures
        r@ == join(parts@.map_values(|p: String| p@), sep@),
{
    let ghost views = parts@.map_values(|p: String| p@);
    let mut s = String::new();
    let mut i: usize = 0;
    while i < parts.len()
        invariant
            i <= parts@.len(),
            views == parts@.map_values(|p: String| p@),
            s@ == join(views.subrange(0, i as int), sep@),
        decreases parts@.len() - i,
    {
        if i > 0 {
            s.append(sep);
        }
        s.append(parts[i].as_str());
        proof {
            let pre = views.subrange(0, i as int + 1);
            assert(pre.drop_last() =~= views.subrange(0, i as int));
            if i == 0 {
                assert(join(views.subrange(0, 0), sep@) =~= Seq::<char>::empty());
            }
        }
        i = i + 1;
    }
    assert(views.subrange(0, parts@.len() as int) =~= views);
    s
}

/// Renders the filters of the `ci`-th clause.
fn group_text(cols: &Vec<ColumnMeta>, fs: &Vec<ColumnFilter>, ci: usize) -> (r: Option<(Vec<String>, Vec<(String, SqlValue)>)>)
    ensures
        r is None <==> group_parts(cols@, fs@, ci as nat) is None,
        r matches Some((parts, ps)) ==> group_parts(cols@, fs@, ci as nat) == Some(
            (parts@.map_values(|p: String| p@), params_view(ps@)),
        ),
{
    let mut parts: Vec<String> = Vec::new();
    let mut ps: Vec<(String, SqlValue)> = Vec::new();
    let mut i: usize = 0;
    while i < fs.len()
        invariant
            i <= fs@.len(),
            group_parts(cols@, fs@.subrange(0, i as int), ci as nat) == Some(
                (parts@.map_values(|p: String| p@), params_view(ps@)),
            ),
        decreases fs@.len() - i,
    {
        let f = &fs[i];
        let ghost pre = fs@.subrange(0, i as int + 1);
        assert(pre.drop_last() =~= fs@.subrange(0, i as int));
        assert(pre.last() == fs@[i as int]);
        assert(pre.len() == i + 1);
        assert((pre.len() - 1) as nat == i as nat);
        match column_index(cols, f.column.as_str()) {
            None => {},
            Some(col) => {
                match convert_filter_value(cols[col].data_type, f.value.as_str()) {
                    None => {
                        proof {
                            assert(group_parts(cols@, pre, ci as nat) is None);
                            lemma_group_parts_none_grows(cols@, fs@, ci as nat, i as int + 1);
                        }
                        return None;
                    },
                    Some(v) => {
                        let text = filter_text(f, ci, i);
                        let name = param_name_text(ci, i);
                        let ghost old_parts = parts@;
                        let ghost old_ps = ps@;
                        parts.push(text);
                        ps.push((name, v));
                        assert(parts@.map_values(|p: String| p@) =~= old_parts.map_values(|p: String| p@).push(
                            filter_sql(*f, ci as nat, i as nat)));
                        assert(params_view(ps@) =~= params_view(old_ps).push((param_name(ci as nat, i as nat), v@)));
                        assert(group_parts(cols@, pre, ci as nat) == Some(
                            (parts@.map_values(|p: String| p@), params_view(ps@))));
                    },
                }
            },
        }
        i = i + 1;
    }
    assert(fs@.subrange(0, fs@.len() as int) =~= fs@);
    Some((parts, ps))
}

proof fn lemma_group_parts_none_grows(cols: Seq<ColumnMeta>, fs: Seq<ColumnFilter>, ci: nat, n: int)
    requires
        0 <= n <= fs.len(),
        group_parts(cols, fs.subrange(0, n), ci) is None,
    ensures
        group_parts(cols, fs, ci) is None,
    decreases fs.len() - n,
{
    if n < fs.len() {
        let pre = fs.subrange(0, n + 1);
        assert(pre.drop_last() =~= fs.subrange(0, n));
        lemma_group_parts_none_grows(cols, fs, ci, n + 1);
    } else {
        assert(fs.subrange(0, n) =~= fs);
    }
}


pub open spec fn opt_view(t: Option<String>) -> Option<Seq<char>> {
    match t {
        Some(s) => Some(s@),
        None => None,
    }
}

/// Renders the `ci`-th top-level clause.
fn clause_text(cols: &Vec<ColumnMeta>, c: &FilterClause, ci: usize) -> (r: Option<(Option<String>, Vec<(String, SqlValue)>)>)
    ensures
        r is None <==> clause_sql(cols@, *c, ci as nat) is None,
        r matches Some((t, ps)) ==> clause_sql(cols@, *c, ci as nat) == Some((opt_view(t), params_view(ps@))),
{
    match c {
        FilterClause::Single(f) => {
            let ghost one = seq![*f];
            assert(one.drop_last() =~= Seq::<ColumnFilter>::empty());
            assert(one.last() == *f);
            assert(one.len() == 1);
            assert(group_parts(cols@, Seq::<ColumnFilter>::empty(), ci as nat) == Some(
                (Seq::<Seq<char>>::empty(), Seq::<(Seq<char>, SqlValueView)>::empty())));
            match column_index(cols, f.column.as_str()) {
                None => {
                    let ps: Vec<(String, SqlValue)> = Vec::new();
                    assert(params_view(ps@) =~= Seq::<(Seq<char>, SqlValueView)>::empty());
                    Some((None, ps))
                },
                Some(col) => match convert_filter_value(cols[col].data_type, f.value.as_str()) {
                    None => None,
                    Some(v) => {
                        let text = filter_text(f, ci, 0);
                        let name = param_name_text(ci, 0);
                        let ps = vec![(name, v)];
                        assert(params_view(ps@) =~= seq![(param_name(ci as nat, 0), v@)]);
                        assert(Seq::<Seq<char>>::empty().push(filter_sql(*f, ci as nat, 0)) =~= seq![filter_sql(*f, ci as nat, 0)]);
                        assert(Seq::<(Seq<char>, SqlValueView)>::empty().push((param_name(ci as nat, 0), v@)) =~= seq![(param_name(ci as nat, 0), v@)]);
                        assert(group_parts(cols@, one, ci as nat) == Some(
                            (seq![filter_sql(*f, ci as nat, 0)], params_view(ps@))));
                        Some((Some(text), ps))
                    },
                },
            }
        },
        FilterClause::AnyOf(fs) => group_clause_text(cols, fs, ci, " OR "),
        FilterClause::AllOf(fs) => group_clause_text(cols, fs, ci, " AND "),
    }
}

fn group_clause_text(cols: &Vec<ColumnMeta>, fs: &Vec<ColumnFilter>, ci: usize, sep: &str) -> (r: Option<(Option<String>, Vec<(String, SqlValue)>)>)
    ensures
        r is None <==> group_parts(cols@, fs@, ci as nat) is None,
        r matches Some((t, ps)) ==> group_parts(cols@, fs@, ci as nat) matches Some((parts, qs)) && qs
            == params_view(ps@) && (if parts.len() == 0 {
            t is None
        } else {
            opt_view(t) == Some("("@ + join(parts, sep@) + ")"@)
        }),
{
    match group_text(cols, fs, ci) {
        None => None,
        Some((parts, ps)) => {
            if parts.len() == 0 {
                Some((None, ps))
            } else {
                let mut s = String::new();
                s.append("(");
                let inner = join_texts(&parts, sep);
                s.append(inner.as_str());
                s.append(")");
                assert(s@ =~= "("@ + join(parts@.map_values(|p: String| p@), sep@) + ")"@);
                Some((Some(s), ps))
            }
        },
    }
}

/// Renders the filters of a list request into a WHERE condition and its
/// parameters; `None` when a filter value does not convert to its column's type.
pub fn where_text(cols: &Vec<ColumnMeta>, cs: &Vec<FilterClause>) -> (r: Option<(String, Vec<(String, SqlValue)>)>)
    ensures
        r is None <==> where_clause(cols@, cs@) is None,
        r matches Some((t, ps)) ==> where_clause(cols@, cs@) == Some((t@, params_view(ps@))),
{
    let mut parts: Vec<String> = Vec::new();
    let mut ps: Vec<(String, SqlValue)> = Vec::new();
    let mut i: usize = 0;
    assert(params_view(ps@) =~= Seq::<(Seq<char>, SqlValueView)>::empty());
    assert(parts@.map_values(|p: String| p@) =~= Seq::<Seq<char>>::empty());
    while i < cs.len()
        invariant
            i <= cs@.len(),
            clauses_parts(cols@, cs@.subrange(0, i as int)) == Some(
                (parts@.map_values(|p: String| p@), params_view(ps@)),
            ),
        decreases cs@.len() - i,
    {
        let ghost pre = cs@.subrange(0, i as int + 1);
        assert(pre.drop_last() =~= cs@.subrange(0, i as int));
        assert(pre.last() == cs@[i as int]);
        assert(pre.len() == i + 1);
        match clause_text(cols, &cs[i], i) {
            None => {
                proof {
                    assert(clauses_parts(cols@, pre) is None);
                    lemma_clauses_parts_none_grows(cols@, cs@, i as int + 1);
                }
                return None;
            },
            Some((t, more)) => {
                let ghost old_ps = ps@;
                let ghost old_parts = parts@;
                let ghost more_v = more@;
                let mut more = more;
                ps.append(&mut more);
                assert(params_view(ps@) =~= params_view(old_ps) + params_view(more_v));
                match t {
                    None => {},
                    Some(text) => {
                        parts.push(text);
                        assert(parts@.map_values(|p: String| p@) =~= old_parts.map_values(|p: String| p@).push(
                            parts@[parts@.len() - 1]@));
                    },
                }
                assert(clauses_parts(cols@, pre) == Some((parts@.map_values(|p: String| p@), params_view(ps@))));
            },
        }
        i = i + 1;
    }
    assert(cs@.subrange(0, cs@.len() as int) =~= cs@);
    if parts.len() == 0 {
        Some(("TRUE".to_string(), ps))
    } else {
        Some((join_texts(&parts, " AND "), ps))
    }
}

proof fn lemma_clauses_parts_none_grows(cols: Seq<ColumnMeta>, cs: Seq<FilterClause>, n: int)
    requires
        0 <= n <= cs.len(),
        clauses_parts(cols, cs.subrange(0, n)) is None,
    ensures
        clauses_parts(cols, cs) is None,
    decreases cs.len() - n,
{
    if n < cs.len() {
        let pre = cs.subrange(0, n + 1);
        assert(pre.drop_last() =~= cs.subrange(0, n));
        lemma_clauses_parts_none_grows(cols, cs, n + 1);
    } else {
        assert(cs.subrange(0, n) =~= cs);
    }
}


/// The requested ordering restricted to known columns.
pub open spec fn known_order(cols: Seq<ColumnMeta>, o: Seq<(String, Order)>) -> Seq<(Seq<char>, Order)>
    decreases o.len(),
{
    if o.len() == 0 {
        seq![]
    } else {
        let rest = known_order(cols, o.drop_last());
        if find_column(cols, o.last().0@) is Some {
            rest.push((o.last().0@, o.last().1))
        } else {
            rest
        }
    }
}

/// The ordering a list uses: the known requested columns, or the primary key
/// descending when none remains.
pub open spec fn effective_order(cols: Seq<ColumnMeta>, pk: Seq<char>, order: Option<Seq<(String, Order)>>) -> Seq<
    (Seq<char>, Order),
> {
    let k = match order {
        Some(o) => known_order(cols, o),
        None => seq![],
    };
    if k.len() == 0 {
        seq![(pk, Order::Descending)]
    } else {
        k
    }
}

pub open spec fn direction_sql(o: Order) -> Seq<char> {
    match o {
        Order::Ascending => "ASC"@,
        Order::Descending => "DESC"@,
    }
}

/// `_ROW_."column" ASC|DESC`.
pub open spec fn order_term(name: Seq<char>, o: Order) -> Seq<char> {
    "_ROW_."@ + quoted(name) + " "@ + direction_sql(o)
}

pub open spec fn order_sql(terms: Seq<(Seq<char>, Order)>) -> Seq<char> {
    join(terms.map_values(|t: (Seq<char>, Order)| order_term(t.0, t.1)), ","@)
}

/// Direction of the cursor condition: descending unless the primary ordering
/// column is ascending, which is allowed only on an INTEGER primary key.
pub open spec fn cursor_order(terms: Seq<(Seq<char>, Order)>, pk: ColumnMeta) -> Option<Order> {
    if terms[0].1 is Ascending {
        if pk.data_type is Integer && terms[0].0 == pk.name@ {
            Some(Order::Ascending)
        } else {
            None
        }
    } else {
        Some(Order::Descending)
    }
}

/// The condition that keeps the rows after the cursor in the given direction.
pub open spec fn cursor_condition(o: Order) -> Seq<char> {
    match o {
        Order::Ascending => "_ROW_._rowid_ > :cursor"@,
        Order::Descending => "_ROW_._rowid_ < :cursor"@,
    }
}

fn direction_text(o: Order) -> (r: &'static str)
    ensures
        r@ == direction_sql(o),
{
    match o {
        Order::Ascending => "ASC",
        Order::Descending => "DESC",
    }
}

/// The cursor condition for direction `o`.
pub fn cursor_condition_text(o: Order) -> (r: &'static str)
    ensures
        r@ == cursor_condition(o),
{
    match o {
        Order::Ascending => "_ROW_._rowid_ > :cursor",
        Order::Descending => "_ROW_._rowid_ < :cursor",
    }
}

fn order_term_text(name: &str, o: Order) -> (r: String)
    ensures
        r@ == order_term(name@, o),
{
    let mut s = String::new();
    s.append("_ROW_.");
    s.append("\"");
    s.append(name);
    s.append("\"");
    s.append(" ");
    s.append(direction_text(o));
    assert(s@ =~= order_term(name@, o));
    s
}

/// The ordering of a list: known requested columns, else the primary key descending.
pub fn effective_order_of(cols: &Vec<ColumnMeta>, pk: &str, order: &Option<Vec<(String, Order)>>) -> (r: Vec<(String, Order)>)
    ensures
        r@.map_values(|t: (String, Order)| (t.0@, t.1)) == effective_order(cols@, pk@, match order {
            Some(o) => Some(o@),
            None => None,
        }),
        r@.len() > 0,
{
    let mut k: Vec<(String, Order)> = Vec::new();
    match order {
        None => {},
        Some(o) => {
            let mut i: usize = 0;
            while i < o.len()
                invariant
                    i <= o@.len(),
                    k@.map_values(|t: (String, Order)| (t.0@, t.1)) == known_order(cols@, o@.subrange(0, i as int)),
                decreases o@.len() - i,
            {
                let ghost pre = o@.subrange(0, i as int + 1);
                assert(pre.drop_last() =~= o@.subrange(0, i as int));
                assert(pre.last() == o@[i as int]);
                let ghost before = k@;
                if column_index(cols, o[i].0.as_str()).is_some() {
                    let name = o[i].0.as_str().to_string();
                    k.push((name, o[i].1));
                    assert(k@.map_values(|t: (String, Order)| (t.0@, t.1)) =~= before.map_values(
                        |t: (String, Order)| (t.0@, t.1)).push((o@[i as int].0@, o@[i as int].1)));
                }
                i = i + 1;
            }
            assert(o@.subrange(0, o@.len() as int) =~= o@);
        },
    }
    if k.len() == 0 {
        let mut d: Vec<(String, Order)> = Vec::new();
        d.push((pk.to_string(), Order::Descending));
        assert(d@.map_values(|t: (String, Order)| (t.0@, t.1)) =~= seq![(pk@, Order::Descending)]);
        d
    } else {
        k
    }
}

/// `_ROW_."c1" ASC,_ROW_."c2" DESC`.
pub fn order_text(terms: &Vec<(String, Order)>) -> (r: String)
    ensures
        r@ == order_sql(terms@.map_values(|t: (String, Order)| (t.0@, t.1))),
{
    let mut parts: Vec<String> = Vec::new();
    let mut i: usize = 0;
    while i < terms.len()
        invariant
            i <= terms@.len(),
            parts@.len() == i,
            forall|j: int| 0 <= j < i ==> #[trigger] parts@[j]@ == order_term(terms@[j].0@, terms@[j].1),
        decreases terms@.len() - i,
    {
        let t = order_term_text(terms[i].0.as_str(), terms[i].1);
        parts.push(t);
        i = i + 1;
    }
    assert(parts@.map_values(|p: String| p@) =~= terms@.map_values(|t: (String, Order)| (t.0@, t.1)).map_values(
        |t: (Seq<char>, Order)| order_term(t.0, t.1)));
    join_texts(&parts, ",")
}

/// Alias of the `k`-th expanded table.
pub open spec fn expand_alias(k: nat) -> Seq<char> {
    "_EXPAND_"@ + nat_decimal(k)
}

fn expand_alias_text(k: usize) -> (r: String)
    ensures
        r@ == expand_alias(k as nat),
{
    let mut s = String::new();
    s.append("_EXPAND_");
    push_nat_decimal(&mut s, k as u64);
    assert(s@ =~= expand_alias(k as nat));
    s
}

/// `alias."column"`.
pub open spec fn item_sql(alias: Seq<char>, name: Seq<char>) -> Seq<char> {
    alias + "."@ + quoted(name)
}

fn item_text(alias: &str, name: &str) -> (r: String)
    ensures
        r@ == item_sql(alias@, name@),
{
    let mut s = String::new();
    s.append(alias);
    s.append(".");
    s.append("\"");
    s.append(name);
    s.append("\"");
    assert(s@ =~= item_sql(alias@, name@));
    s
}

/// Projected columns of the expanded tables, in order.
pub open spec fn expand_items(ex: Seq<ExpandedTable>) -> Seq<Seq<char>>
    decreases ex.len(),
{
    if ex.len() == 0 {
        seq![]
    } else {
        expand_items(ex.drop_last()) + ex.last().columns@.map_values(
            |c: String| item_sql(expand_alias((ex.len() - 1) as nat), c@),
        )
    }
}

/// The total-count column: the rows the access rule and the filters admit,
/// whatever the cursor, offset and limit.
pub open spec fn count_item(table: Seq<char>, rule: Seq<char>, filter: Seq<char>) -> Seq<char> {
    "(SELECT COUNT(*) FROM "@ + table + " AS _ROW_ WHERE ("@ + rule + ") AND ("@ + filter + ")) AS _total_count_"@
}

/// The projected columns: the API's columns in order, the expanded columns,
/// the total count when asked for, and the rowid last.
pub open spec fn select_items(cols: Seq<ColumnMeta>, ex: Seq<ExpandedTable>, count: Option<Seq<char>>) -> Seq<Seq<char>> {
    cols.map_values(|c: ColumnMeta| item_sql("_ROW_"@, c.name@)) + expand_items(ex) + (match count {
        Some(c) => seq![c],
        None => seq![],
    }) + seq!["_ROW_._rowid_ AS _rowid_"@]
}

/// ` LEFT JOIN "foreign" AS _EXPAND_k ON _ROW_."local" = _EXPAND_k."pk"`.
pub open spec fn join_sql(e: ExpandedTable, k: nat) -> Seq<char> {
    " LEFT JOIN "@ + quoted(e.foreign_table@) + " AS "@ + expand_alias(k) + " ON "@ + item_sql(
        "_ROW_"@,
        e.local_column@,
    ) + " = "@ + item_sql(expand_alias(k), e.foreign_pk@)
}

pub open spec fn joins_sql(ex: Seq<ExpandedTable>) -> Seq<char>
    decreases ex.len(),
{
    if ex.len() == 0 {
        seq![]
    } else {
        joins_sql(ex.drop_last()) + join_sql(ex.last(), (ex.len() - 1) as nat)
    }
}

/// The qualified, quoted table name.
pub open spec fn table_sql(schema: Option<Seq<char>>, name: Seq<char>) -> Seq<char> {
    match schema {
        Some(db) => quoted(db) + "."@ + quoted(name),
        None => quoted(name),
    }
}

/// The whole SELECT of a list request.
pub open spec fn list_sql(
    table: Seq<char>,
    items: Seq<Seq<char>>,
    joins: Seq<char>,
    rule: Seq<char>,
    filter: Seq<char>,
    cursor: Option<Seq<char>>,
    order: Seq<char>,
    offset: bool,
) -> Seq<char> {
    "SELECT "@ + join(items, ", "@) + " FROM (SELECT :__user_id AS id) AS _USER_, "@ + table + " AS _ROW_"@
        + joins + " WHERE ("@ + rule + ") AND ("@ + filter + ")"@ + (match cursor {
        Some(c) => " AND "@ + c,
        None => seq![],
    }) + " ORDER BY "@ + order + " LIMIT :__limit"@ + (if offset {
        " OFFSET :__offset"@
    } else {
        seq![]
    })
}

/// The total-count column.
pub fn count_item_text(table: &str, rule: &str, filter: &str) -> (r: String)
    ensures
        r@ == count_item(table@, rule@, filter@),
{
    let mut s = String::new();
    s.append("(SELECT COUNT(*) FROM ");
    s.append(table);
    s.append(" AS _ROW_ WHERE (");
    s.append(rule);
    s.append(") AND (");
    s.append(filter);
    s.append(")) AS _total_count_");
    assert(s@ =~= count_item(table@, rule@, filter@));
    s
}

/// The projected column list.
pub fn select_items_text(cols: &Vec<ColumnMeta>, ex: &Vec<ExpandedTable>, count: Option<String>) -> (r: Vec<String>)
    ensures
        r@.map_values(|p: String| p@) == select_items(cols@, ex@, match count {
            Some(c) => Some(c@),
            None => None,
        }),
{
    let mut items: Vec<String> = Vec::new();
    let mut i: usize = 0;
    while i < cols.len()
        invariant
            i <= cols@.len(),
            items@.map_values(|p: String| p@) == cols@.subrange(0, i as int).map_values(
                |c: ColumnMeta| item_sql("_ROW_"@, c.name@),
            ),
        decreases cols@.len() - i,
    {
        let ghost before = items@;
        let t = item_text("_ROW_", cols[i].name.as_str());
        items.push(t);
        assert(items@.map_values(|p: String| p@) =~= before.map_values(|p: String| p@).push(t@));
        assert(cols@.subrange(0, i as int + 1).map_values(|c: ColumnMeta| item_sql("_ROW_"@, c.name@))
            =~= cols@.subrange(0, i as int).map_values(|c: ColumnMeta| item_sql("_ROW_"@, c.name@)).push(
            item_sql("_ROW_"@, cols@[i as int].name@)));
        i = i + 1;
    }
    assert(cols@.subrange(0, cols@.len() as int) =~= cols@);
    let ghost base = items@.map_values(|p: String| p@);
    let mut k: usize = 0;
    while k < ex.len()
        invariant
            k <= ex@.len(),
            items@.map_values(|p: String| p@) == base + expand_items(ex@.subrange(0, k as int)),
        decreases ex@.len() - k,
    {
        let alias = expand_alias_text(k);
        let e = &ex[k];
        let ghost start = items@.map_values(|p: String| p@);
        let mut j: usize = 0;
        while j < e.columns.len()
            invariant
                j <= e.columns@.len(),
                alias@ == expand_alias(k as nat),
                items@.map_values(|p: String| p@) == start + e.columns@.subrange(0, j as int).map_values(
                    |c: String| item_sql(expand_alias(k as nat), c@),
                ),
            decreases e.columns@.len() - j,
        {
            let ghost before = items@;
            let t = item_text(alias.as_str(), e.columns[j].as_str());
            items.push(t);
            assert(items@.map_values(|p: String| p@) =~= before.map_values(|p: String| p@).push(t@));
            assert(e.columns@.subrange(0, j as int + 1).map_values(|c: String| item_sql(expand_alias(k as nat), c@))
                =~= e.columns@.subrange(0, j as int).map_values(|c: String| item_sql(expand_alias(k as nat), c@)).push(
                item_sql(expand_alias(k as nat), e.columns@[j as int]@)));
            j = j + 1;
        }
        proof {
            assert(e.columns@.subrange(0, e.columns@.len() as int) =~= e.columns@);
            let pre = ex@.subrange(0, k as int + 1);
            assert(pre.drop_last() =~= ex@.subrange(0, k as int));
            assert(pre.last() == ex@[k as int]);
            assert(items@.map_values(|p: String| p@) =~= base + expand_items(pre));
        }
        k = k + 1;
    }
    assert(ex@.subrange(0, ex@.len() as int) =~= ex@);
    let ghost before = items@;
    let ghost count_view = match count {
        Some(ref c) => Some(c@),
        None => None::<Seq<char>>,
    };
    match count {
        Some(c) => items.push(c),
        None => {},
    }
    items.push("_ROW_._rowid_ AS _rowid_".to_string());
    assert(items@.map_values(|p: String| p@) =~= select_items(cols@, ex@, count_view));
    items
}

fn join_text(e: &ExpandedTable, k: usize) -> (r: String)
    ensures
        r@ == join_sql(*e, k as nat),
{
    let alias = expand_alias_text(k);
    let mut s = String::new();
    s.append(" LEFT JOIN ");
    s.append("\"");
    s.append(e.foreign_table.as_str());
    s.append("\"");
    s.append(" AS ");
    s.append(alias.as_str());
    s.append(" ON ");
    let local = item_text("_ROW_", e.local_column.as_str());
    s.append(local.as_str());
    s.append(" = ");
    let fpk = item_text(alias.as_str(), e.foreign_pk.as_str());
    s.append(fpk.as_str());
    assert(s@ =~= join_sql(*e, k as nat));
    s
}

/// The LEFT JOINs of the expanded tables.
pub fn joins_text(ex: &Vec<ExpandedTable>) -> (r: String)
    ensures
        r@ == joins_sql(ex@),
{
    let mut s = String::new();
    let mut k: usize = 0;
    while k < ex.len()
        invariant
            k <= ex@.len(),
            s@ == joins_sql(ex@.subrange(0, k as int)),
        decreases ex@.len() - k,
    {
        let e = &ex[k];
        let ghost before = s@;
        let j = join_text(e, k);
        s.append(j.as_str());
        proof {
            assert(s@ =~= before + join_sql(*e, k as nat));
            let pre = ex@.subrange(0, k as int + 1);
            assert(pre.drop_last() =~= ex@.subrange(0, k as int));
            assert(pre.last() == ex@[k as int]);
        }
        k = k + 1;
    }
    assert(ex@.subrange(0, ex@.len() as int) =~= ex@);
    s
}

/// The qualified, quoted table name.
pub fn table_text(schema: &Option<String>, name: &str) -> (r: String)
    ensures
        r@ == table_sql(opt_view(*schema), name@),
{
    let mut s = String::new();
    match schema {
        Some(db) => {
            s.append("\"");
            s.append(db.as_str());
            s.append("\"");
            s.append(".");
        },
        None => {},
    }
    s.append("\"");
    s.append(name);
    s.append("\"");
    assert(s@ =~= table_sql(opt_view(*schema), name@));
    s
}

/// Assembles the SELECT of a list request from its rendered parts.
pub fn list_sql_text(
    table: &str,
    items: &Vec<String>,
    joins: &str,
    rule: &str,
    filter: &str,
    cursor: Option<&str>,
    order: &str,
    offset: bool,
) -> (r: String)
    ensures
        r@ == list_sql(
            table@,
            items@.map_values(|p: String| p@),
            joins@,
            rule@,
            filter@,
            match cursor {
                Some(c) => Some(c@),
                None => None,
            },
            order@,
            offset,
        ),
{
    let mut s = String::new();
    s.append("SELECT ");
    let cols = join_texts(items, ", ");
    s.append(cols.as_str());
    s.append(" FROM (SELECT :__user_id AS id) AS _USER_, ");
    s.append(table);
    s.append(" AS _ROW_");
    s.append(joins);
    s.append(" WHERE (");
    s.append(rule);
    s.append(") AND (");
    s.append(filter);
    s.append(")");
    let ghost mid = s@;
    match cursor {
        Some(c) => {
            s.append(" AND ");
            s.append(c);
        },
        None => {},
    }
    let ghost with_cursor = s@;
    s.append(" ORDER BY ");
    s.append(order);
    s.append(" LIMIT :__limit");
    let ghost tail = s@;
    if offset {
        s.append(" OFFSET :__offset");
    }
    assert(s@ =~= list_sql(
        table@,
        items@.map_values(|p: String| p@),
        joins@,
        rule@,
        filter@,
        match cursor {
            Some(c) => Some(c@),
            None => None,
        },
        order@,
        offset,
    ));
    s
}

} // verus!
